//! Validation of the user-facing video options before capture or encoder
//! resources are allocated.
use vstd::prelude::*;
use crate::encoder::{EncoderPreference, UnknownEncoder, preference_named, opt_view};
use crate::text::{parse_u32, parse_u32_str, contains_char, split_once_char, str_eq};

verus! {

/// Bounds shared by capture configuration and H.264 session creation.
pub const MAX_DIMENSION: u32 = 8192;

/// Largest supported pixel count (7680 × 4320).
pub const MAX_PIXELS: u64 = 33177600;

/// Why display dimensions were refused.
#[derive(Debug, Clone, Copy, PartialEq, Eq, Structural)]
pub enum DimensionError {
    /// "Display dimensions must be nonzero"
    Zero,
    /// "Display dimensions must not exceed 8192 pixels per side"
    TooLarge,
    /// "Display dimensions exceed the supported pixel count"
    TooManyPixels,
}

/// The first failing dimension check, if any.
pub open spec fn dimension_check(width: u32, height: u32) -> Result<(), DimensionError> {
    if !(width > 0 && height > 0) {
        Err(DimensionError::Zero)
    } else if !(width <= MAX_DIMENSION && height <= MAX_DIMENSION) {
        Err(DimensionError::TooLarge)
    } else if width * height > MAX_PIXELS {
        Err(DimensionError::TooManyPixels)
    } else {
        Ok(())
    }
}

/// Display dimensions must be nonzero, at most 8192 per side, and at most
/// 7680 × 4320 pixels in all.
pub fn validate_dimensions(width: u32, height: u32) -> (res: Result<(), DimensionError>)
    ensures
        res == dimension_check(width, height),
{
    if !(width > 0 && height > 0) {
        return Err(DimensionError::Zero);
    }
    if !(width <= MAX_DIMENSION && height <= MAX_DIMENSION) {
        return Err(DimensionError::TooLarge);
    }
    proof {
        crate::arith::lemma_mul_le(width as int, height as int, u32::MAX as int, u32::MAX as int);
    }
    if !((width as u64) * (height as u64) <= MAX_PIXELS) {
        return Err(DimensionError::TooManyPixels);
    }
    Ok(())
}

/// User-facing video options, validated before allocating capture or encoder resources.
pub struct VideoSettings<'a> {
    pub encoder: Option<&'a str>,
    pub chroma_mode: Option<&'a str>,
    pub quality: Option<&'a str>,
    pub width: u32,
    pub height: u32,
    pub frame_rate: u32,
    pub bitrate_mbps: Option<u32>,
    pub resolution: Option<&'a str>,
}

/// Why video options were refused.
#[derive(Debug)]
pub enum SettingsError {
    /// The encoder option names no encoder.
    Encoder(UnknownEncoder),
    /// "chroma_mode must be avc420 or avc444"
    ChromaMode,
    /// "quality must be low_latency, balanced or high_quality"
    Quality,
    /// "frame_rate must be between 1 and 120"
    FrameRate,
    /// "bitrate_mbps must be between 1 and 1000"
    Bitrate,
    /// Explicit or resolution dimensions are out of bounds.
    Dimensions(DimensionError),
    /// A `WIDTHxHEIGHT` resolution side is not a number.
    InvalidNumber(core::num::ParseIntError),
    /// "resolution must be auto, WIDTHxHEIGHT or a scale from 1 to 4"
    Resolution,
    /// "resolution scale must be between 1 and 4"
    ResolutionScale,
}

/// The kind of a settings error, without what it carries from the parser.
#[derive(Debug, Clone, Copy, PartialEq, Eq, Structural)]
pub enum SettingsErrorKind {
    Encoder,
    ChromaMode,
    Quality,
    FrameRate,
    Bitrate,
    Dimensions(DimensionError),
    InvalidNumber,
    Resolution,
    ResolutionScale,
}

impl SettingsError {
    /// The kind of this error.
    pub open spec fn kind(self) -> SettingsErrorKind {
        match self {
            SettingsError::Encoder(_) => SettingsErrorKind::Encoder,
            SettingsError::ChromaMode => SettingsErrorKind::ChromaMode,
            SettingsError::Quality => SettingsErrorKind::Quality,
            SettingsError::FrameRate => SettingsErrorKind::FrameRate,
            SettingsError::Bitrate => SettingsErrorKind::Bitrate,
            SettingsError::Dimensions(d) => SettingsErrorKind::Dimensions(d),
            SettingsError::InvalidNumber(_) => SettingsErrorKind::InvalidNumber,
            SettingsError::Resolution => SettingsErrorKind::Resolution,
            SettingsError::ResolutionScale => SettingsErrorKind::ResolutionScale,
        }
    }
}

impl DimensionError {
    /// The text of the message reported for this error.
    pub open spec fn message_text(self) -> Seq<char> {
        match self {
            DimensionError::Zero => "Display dimensions must be nonzero"@,
            DimensionError::TooLarge => "Display dimensions must not exceed 8192 pixels per side"@,
            DimensionError::TooManyPixels => "Display dimensions exceed the supported pixel count"@,
        }
    }

    /// The message reported for this error.
    pub fn message(&self) -> (s: &'static str)
        ensures
            s@ == self.message_text(),
    {
        match self {
            DimensionError::Zero => "Display dimensions must be nonzero",
            DimensionError::TooLarge => "Display dimensions must not exceed 8192 pixels per side",
            DimensionError::TooManyPixels => "Display dimensions exceed the supported pixel count",
        }
    }
}

impl SettingsError {
    /// Whether `text` is the message reported for this error: a fixed text
    /// per kind, and for a side that is not a number, the parser's own
    /// message (`ParseIntError`'s `Display`).
    pub open spec fn message_is(self, text: String) -> bool {
        match self {
            SettingsError::Encoder(u) => text@ == u.message_text(),
            SettingsError::ChromaMode => text@ == "chroma_mode must be avc420 or avc444"@,
            SettingsError::Quality => text@ == "quality must be low_latency, balanced or high_quality"@,
            SettingsError::FrameRate => text@ == "frame_rate must be between 1 and 120"@,
            SettingsError::Bitrate => text@ == "bitrate_mbps must be between 1 and 1000"@,
            SettingsError::Dimensions(d) => text@ == d.message_text(),
            SettingsError::InvalidNumber(p) => vstd::string::to_string_from_display_ensures::<core::num::ParseIntError>(&p, text),
            SettingsError::Resolution => text@ == "resolution must be auto, WIDTHxHEIGHT or a scale from 1 to 4"@,
            SettingsError::ResolutionScale => text@ == "resolution scale must be between 1 and 4"@,
        }
    }

    /// The message reported for this error.
    pub fn message(&self) -> (s: String)
        ensures
            self.message_is(s),
    {
        match self {
            SettingsError::Encoder(u) => String::from_str(u.message()),
            SettingsError::ChromaMode => String::from_str("chroma_mode must be avc420 or avc444"),
            SettingsError::Quality => String::from_str("quality must be low_latency, balanced or high_quality"),
            SettingsError::FrameRate => String::from_str("frame_rate must be between 1 and 120"),
            SettingsError::Bitrate => String::from_str("bitrate_mbps must be between 1 and 1000"),
            SettingsError::Dimensions(d) => String::from_str(d.message()),
            SettingsError::InvalidNumber(p) => p.to_string(),
            SettingsError::Resolution => String::from_str("resolution must be auto, WIDTHxHEIGHT or a scale from 1 to 4"),
            SettingsError::ResolutionScale => String::from_str("resolution scale must be between 1 and 4"),
        }
    }
}

/// The text before and after the first `c` in `s`, if `s` holds one.
pub open spec fn split_at_first(s: Seq<char>, c: char) -> Option<(Seq<char>, Seq<char>)> {
    if exists|i: int| 0 <= i < s.len() && s[i] == c {
        let i = choose|i: int| 0 <= i < s.len() && s[i] == c && forall|j: int| 0 <= j < i ==> s[j] != c;
        Some((s.subrange(0, i), s.subrange(i + 1, s.len() as int)))
    } else {
        None
    }
}

/// The outcome of checking a resolution option: `auto` (or none), `WxH`
/// (split at the first `x`, both sides numbers forming valid dimensions), or a
/// scale from 1 to 4.
pub open spec fn resolution_check(r: Option<Seq<char>>) -> Result<(), SettingsErrorKind> {
    match r {
        None => Ok(()),
        Some(v) => if v == "auto"@ {
            Ok(())
        } else {
            match split_at_first(v, 'x') {
                Some((w, h)) => match (parse_u32(w), parse_u32(h)) {
                    (Some(wv), Some(hv)) => match dimension_check(wv, hv) {
                        Ok(()) => Ok(()),
                        Err(d) => Err(SettingsErrorKind::Dimensions(d)),
                    },
                    _ => Err(SettingsErrorKind::InvalidNumber),
                },
                None => match parse_u32(v) {
                    None => Err(SettingsErrorKind::Resolution),
                    Some(scale) => if 1 <= scale <= 4 {
                        Ok(())
                    } else {
                        Err(SettingsErrorKind::ResolutionScale)
                    },
                },
            }
        },
    }
}

/// The first failing check of a set of video options, in the order the
/// options are checked.
pub open spec fn settings_check(
    encoder: Option<Seq<char>>,
    chroma_mode: Option<Seq<char>>,
    quality: Option<Seq<char>>,
    width: u32,
    height: u32,
    frame_rate: u32,
    bitrate_mbps: Option<u32>,
    resolution: Option<Seq<char>>,
) -> Result<(), SettingsErrorKind> {
    if preference_named(encoder) is None {
        Err(SettingsErrorKind::Encoder)
    } else if !(chroma_mode is None || chroma_mode == Some("avc420"@) || chroma_mode == Some(
        "avc444"@,
    )) {
        Err(SettingsErrorKind::ChromaMode)
    } else if !(quality is None || quality == Some("low_latency"@) || quality == Some("balanced"@)
        || quality == Some("high_quality"@)) {
        Err(SettingsErrorKind::Quality)
    } else if !(1 <= frame_rate <= 120) {
        Err(SettingsErrorKind::FrameRate)
    } else if bitrate_mbps matches Some(b) && !(1 <= b <= 1000) {
        Err(SettingsErrorKind::Bitrate)
    } else if (width != 0 || height != 0) && dimension_check(width, height) is Err {
        Err(SettingsErrorKind::Dimensions(dimension_check(width, height)->Err_0))
    } else {
        resolution_check(resolution)
    }
}

/// Every documented quality preset is accepted: with no quality or any of
/// `low_latency`, `balanced` and `high_quality`, the quality check never
/// refuses the settings, and which preset is chosen does not change the
/// outcome; any other quality refuses them.
pub proof fn law_quality_presets_accepted(
    encoder: Option<Seq<char>>,
    chroma_mode: Option<Seq<char>>,
    quality: Option<Seq<char>>,
    width: u32,
    height: u32,
    frame_rate: u32,
    bitrate_mbps: Option<u32>,
    resolution: Option<Seq<char>>,
)
    ensures
        (quality is None || quality == Some("low_latency"@) || quality == Some("balanced"@) || quality
            == Some("high_quality"@)) ==> {
            &&& settings_check(encoder, chroma_mode, quality, width, height, frame_rate, bitrate_mbps,
                resolution) != Err::<(), SettingsErrorKind>(SettingsErrorKind::Quality)
            &&& settings_check(encoder, chroma_mode, quality, width, height, frame_rate, bitrate_mbps,
                resolution) == settings_check(encoder, chroma_mode, None, width, height, frame_rate,
                bitrate_mbps, resolution)
        },
        !(quality is None || quality == Some("low_latency"@) || quality == Some("balanced"@) || quality
            == Some("high_quality"@)) ==> settings_check(encoder, chroma_mode, quality, width, height,
            frame_rate, bitrate_mbps, resolution) is Err,
{
}

/// Whether an optional text is absent or equal to one of two texts.
fn is_none_or_either(value: Option<&str>, a: &str, b: &str) -> (r: bool)
    ensures
        r == (value is None || opt_view(value) == Some(a@) || opt_view(value) == Some(b@)),
{
    match value {
        None => true,
        Some(v) => str_eq(v, a) || str_eq(v, b),
    }
}

impl<'a> VideoSettings<'a> {
    /// The outcome of checking these options.
    pub open spec fn check(&self) -> Result<(), SettingsErrorKind> {
        settings_check(
            opt_view(self.encoder),
            opt_view(self.chroma_mode),
            opt_view(self.quality),
            self.width,
            self.height,
            self.frame_rate,
            self.bitrate_mbps,
            opt_view(self.resolution),
        )
    }

    /// Reject unknown encoders, chroma modes and quality presets, frame rates
    /// outside 1..=120, bitrates outside 1..=1000 Mbps, out-of-bounds explicit
    /// dimensions and malformed or out-of-bounds resolutions.
    pub fn validate(&self) -> (res: Result<(), SettingsError>)
        ensures
            match self.check() {
                Ok(()) => res is Ok,
                Err(kind) => res matches Err(e) && e.kind() == kind,
            },
    {
        match EncoderPreference::try_from_str_opt(self.encoder) {
            Ok(_) => {},
            Err(e) => return Err(SettingsError::Encoder(e)),
        }
        if !is_none_or_either(self.chroma_mode, "avc420", "avc444") {
            return Err(SettingsError::ChromaMode);
        }
        let quality_ok = match self.quality {
            None => true,
            Some(q) => str_eq(q, "low_latency") || str_eq(q, "balanced") || str_eq(q, "high_quality"),
        };
        if !quality_ok {
            return Err(SettingsError::Quality);
        }
        if !(1 <= self.frame_rate && self.frame_rate <= 120) {
            return Err(SettingsError::FrameRate);
        }
        if let Some(bitrate) = self.bitrate_mbps {
            if !(1 <= bitrate && bitrate <= 1000) {
                return Err(SettingsError::Bitrate);
            }
        }
        if self.width != 0 || self.height != 0 {
            match validate_dimensions(self.width, self.height) {
                Ok(()) => {},
                Err(d) => return Err(SettingsError::Dimensions(d)),
            }
        }
        validate_resolution(self.resolution)
    }
}

/// Check a resolution option: `auto`, `WIDTHxHEIGHT` or a scale from 1 to 4.
pub fn validate_resolution(resolution: Option<&str>) -> (res: Result<(), SettingsError>)
    ensures
        match resolution_check(opt_view(resolution)) {
            Ok(()) => res is Ok,
            Err(kind) => res matches Err(e) && e.kind() == kind,
        },
{
    match resolution {
        None => Ok(()),
        Some(value) => {
            if str_eq(value, "auto") {
                return Ok(());
            }
            if contains_char(value, 'x') {
                match split_once_char(value, 'x') {
                    Some((width, height)) => {
                        proof {
                            lemma_first_split(value@, 'x', width@.len() as int);
                        }
                        let w = match parse_u32_str(width) {
                            Ok(w) => w,
                            Err(e) => return Err(SettingsError::InvalidNumber(e)),
                        };
                        let h = match parse_u32_str(height) {
                            Ok(h) => h,
                            Err(e) => return Err(SettingsError::InvalidNumber(e)),
                        };
                        match validate_dimensions(w, h) {
                            Ok(()) => Ok(()),
                            Err(d) => Err(SettingsError::Dimensions(d)),
                        }
                    },
                    None => {
                        // The separator was found above.
                        Err(SettingsError::Resolution)
                    },
                }
            } else {
                match parse_u32_str(value) {
                    Err(_) => Err(SettingsError::Resolution),
                    Ok(scale) => {
                        if 1 <= scale && scale <= 4 {
                            Ok(())
                        } else {
                            Err(SettingsError::ResolutionScale)
                        }
                    },
                }
            }
        },
    }
}

/// The first occurrence of `c` is the one `split_at_first` picks.
proof fn lemma_first_split(s: Seq<char>, c: char, i: int)
    requires
        0 <= i < s.len(),
        s[i] == c,
        forall|j: int| 0 <= j < i ==> s[j] != c,
    ensures
        split_at_first(s, c) == Some((s.subrange(0, i), s.subrange(i + 1, s.len() as int))),
{
    let k = choose|k: int| 0 <= k < s.len() && s[k] == c && forall|j: int| 0 <= j < k ==> s[j] != c;
    assert(0 <= k < s.len() && s[k] == c && forall|j: int| 0 <= j < k ==> s[j] != c);
    if k < i {
        assert(s[k] != c);
    }
    if i < k {
        assert(s[i] != c);
    }
}

} // verus!
