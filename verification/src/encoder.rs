//! Encoder selection: the user's encoder preference, macroblock alignment,
//! the capture pixel format the selected encoder needs, the fallback from
//! hardware to software encoding, and the order in which hardware session
//! configurations are tried.
use vstd::prelude::*;
use crate::text::{trim, to_ascii_lowercase, trimmed, ascii_lower, ascii_upper, str_eq, lemma_trimmed_unpadded, lemma_ascii_lower_unchanged, lemma_trimmed_upper, lemma_lower_of_upper};

verus! {

/// Quality preset
#[derive(Debug, Clone, Copy, PartialEq, Eq, Structural)]
pub enum Quality {
    LowLatency,
    Balanced,
    HighQuality,
}

/// An encoded H.264 access unit.
#[derive(Debug)]
pub struct EncodedFrame {
    /// H.264 NAL units (Annex B format)
    pub data: Vec<u8>,
    /// Whether this is a key frame (IDR)
    pub is_keyframe: bool,
    pub width: u32,
    pub height: u32,
}

/// AVC444 dual-stream encoded result
#[derive(Debug)]
pub struct Avc444EncodedFrame {
    /// Stream1: Main YUV420 H.264 (luma + downsampled chroma)
    pub main_view: EncodedFrame,
    /// Stream2: Auxiliary YUV420 H.264 (chroma compensation)
    pub aux_view: EncodedFrame,
}

/// Encoder preference
#[derive(Debug, Clone, Copy, PartialEq, Eq, Structural)]
pub enum EncoderPreference {
    /// OpenH264 CPU encoding with accelerated color conversion where available.
    Software,
    /// VideoToolbox media hardware, with software fallback if initialization fails.
    Hardware,
    /// Prefer available hardware and fall back to OpenH264.
    Auto,
}

/// An encoder option that names no supported encoder.
#[derive(Debug, Clone, Copy, PartialEq, Eq, Structural)]
pub struct UnknownEncoder;

impl UnknownEncoder {
    /// The text of the message reported for an unknown encoder option.
    pub open spec fn message_text(self) -> Seq<char> {
        "encoder must be auto, hardware or software; HEVC and AV1 are not RDP output modes"@
    }

    /// The message reported for an unknown encoder option.
    pub fn message(&self) -> (s: &'static str)
        ensures
            s@ == self.message_text(),
    {
        "encoder must be auto, hardware or software; HEVC and AV1 are not RDP output modes"
    }
}

/// The preference an encoder option names: after trimming whitespace and
/// folding ASCII case, `hardware`, `gpu`, `videotoolbox` and `vt` name hardware,
/// `software`, `cpu`, `openh264` and `oh264` name software, and `auto` (or no
/// option at all) names auto. Anything else names none.
pub open spec fn preference_named(s: Option<Seq<char>>) -> Option<EncoderPreference> {
    match s {
        None => Some(EncoderPreference::Auto),
        Some(text) => {
            let l = ascii_lower(trimmed(text));
            if l == "hardware"@ || l == "gpu"@ || l == "videotoolbox"@ || l == "vt"@ {
                Some(EncoderPreference::Hardware)
            } else if l == "software"@ || l == "cpu"@ || l == "openh264"@ || l == "oh264"@ {
                Some(EncoderPreference::Software)
            } else if l == "auto"@ {
                Some(EncoderPreference::Auto)
            } else {
                None
            }
        },
    }
}

/// The characters of an optional text.
pub open spec fn opt_view(s: Option<&str>) -> Option<Seq<char>> {
    match s {
        None => None,
        Some(t) => Some(t@),
    }
}

/// The canonical name of a preference.
pub open spec fn canonical_name(p: EncoderPreference) -> Seq<char> {
    match p {
        EncoderPreference::Auto => "auto"@,
        EncoderPreference::Hardware => "hardware"@,
        EncoderPreference::Software => "software"@,
    }
}

/// The canonical name of every preference names that preference again, so a
/// preference written out with `as_str` reads back unchanged.
pub proof fn law_preference_name_round_trip(p: EncoderPreference)
    ensures
        preference_named(Some(canonical_name(p))) == Some(p),
{
    reveal_strlit("auto");
    reveal_strlit("hardware");
    reveal_strlit("software");
    reveal_strlit("gpu");
    reveal_strlit("videotoolbox");
    reveal_strlit("vt");
    reveal_strlit("cpu");
    reveal_strlit("openh264");
    reveal_strlit("oh264");
    let name = canonical_name(p);
    lemma_trimmed_unpadded(name);
    lemma_ascii_lower_unchanged(name);
}

/// Encoder options ignore ASCII case: an option written in upper case names
/// what it names in any other case.
pub proof fn law_preference_names_ignore_case(s: Seq<char>)
    ensures
        preference_named(Some(ascii_upper(s))) == preference_named(Some(s)),
{
    lemma_trimmed_upper(s);
    lemma_lower_of_upper(trimmed(s));
}

/// A preference's canonical name in upper case names that preference too.
pub proof fn law_upper_case_name_round_trip(p: EncoderPreference)
    ensures
        preference_named(Some(ascii_upper(canonical_name(p)))) == Some(p),
{
    law_preference_names_ignore_case(canonical_name(p));
    law_preference_name_round_trip(p);
}

impl EncoderPreference {
    /// The preference an option names, `Auto` when it names none.
    pub fn from_str_opt(s: Option<&str>) -> (p: Self)
        ensures
            p == match preference_named(opt_view(s)) {
                Some(named) => named,
                None => EncoderPreference::Auto,
            },
    {
        match Self::try_from_str_opt(s) {
            Ok(p) => p,
            Err(_) => Self::Auto,
        }
    }

    /// The preference an option names, or an error when it names none.
    pub fn try_from_str_opt(s: Option<&str>) -> (res: Result<Self, UnknownEncoder>)
        ensures
            match preference_named(opt_view(s)) {
                Some(named) => res == Ok::<EncoderPreference, UnknownEncoder>(named),
                None => res == Err::<EncoderPreference, UnknownEncoder>(UnknownEncoder),
            },
    {
        match s {
            None => Ok(Self::Auto),
            Some(s) => {
                let lowered = to_ascii_lowercase(trim(s));
                let l = lowered.as_str();
                if str_eq(l, "hardware") || str_eq(l, "gpu") || str_eq(l, "videotoolbox") || str_eq(
                    l,
                    "vt",
                ) {
                    Ok(Self::Hardware)
                } else if str_eq(l, "software") || str_eq(l, "cpu") || str_eq(l, "openh264")
                    || str_eq(l, "oh264") {
                    Ok(Self::Software)
                } else if str_eq(l, "auto") {
                    Ok(Self::Auto)
                } else {
                    Err(UnknownEncoder)
                }
            },
        }
    }

    /// The canonical option name of this preference.
    pub fn as_str(self) -> (s: &'static str)
        ensures
            s@ == canonical_name(self),
    {
        match self {
            Self::Auto => "auto",
            Self::Hardware => "hardware",
            Self::Software => "software",
        }
    }
}

/// Align a dimension up to the nearest multiple of 16 (H.264 macroblock size)
pub fn align16(v: u32) -> (r: u32)
    requires
        v <= u32::MAX - 15,
    ensures
        r == ((v + 15) / 16) * 16,
        r % 16 == 0,
        v <= r < v + 16,
{
    let t: u32 = v + 15;
    let r = t & !15u32;
    assert(t & !15u32 == (t / 16) * 16) by (bit_vector);
    r
}

/// Select capture input from the initialized encoder, including software fallback:
/// NV12 pixel buffers only when not in AVC444 mode (its chroma split needs BGRA)
/// and an encoder that accepts pixel buffers was initialized.
/// `encoder_supports_pixel_buffer` is `None` when no encoder was initialized
/// (bitmap fallback, which also needs BGRA).
pub fn capture_uses_nv12(encoder_supports_pixel_buffer: Option<bool>, mode_444: bool) -> (r: bool)
    ensures
        r == (!mode_444 && encoder_supports_pixel_buffer == Some(true)),
{
    !mode_444 && match encoder_supports_pixel_buffer {
        Some(supports) => supports,
        None => false,
    }
}

/// Create an encoder according to the preference: hardware first unless
/// software is preferred, and software when hardware creation fails.
pub fn create_with_fallback<T, E>(
    preference: EncoderPreference,
    hardware: impl FnOnce() -> Result<T, E>,
    software: impl FnOnce() -> Result<T, E>,
) -> (res: Result<T, E>)
    requires
        preference != EncoderPreference::Software ==> call_requires(hardware, ()),
        call_requires(software, ()),
    ensures
        preference == EncoderPreference::Software ==> call_ensures(software, (), res),
        preference != EncoderPreference::Software ==> (res is Ok && call_ensures(hardware, (), res))
            || (exists|failed: Result<T, E>|
            failed is Err && #[trigger] call_ensures(hardware, (), failed)) && call_ensures(
            software,
            (),
            res,
        ),
{
    if preference != EncoderPreference::Software {
        let attempt = hardware();
        match attempt {
            Ok(encoder) => return Ok(encoder),
            Err(_) => {},
        }
    }
    software()
}

/// Both hardware session modes failed.
#[derive(Debug, Clone, PartialEq, Eq)]
pub struct NoHardwareSession<E> {
    /// Why the low-latency mode failed.
    pub low_latency: E,
    /// Why the ordinary mode failed.
    pub ordinary: E,
}

/// Try the low-latency hardware mode, then the ordinary one.
pub fn try_hardware_modes<T, E>(create: impl Fn(bool) -> Result<T, E>) -> (res: Result<
    T,
    NoHardwareSession<E>,
>)
    requires
        call_requires(create, (true,)),
        call_requires(create, (false,)),
    ensures
        match res {
            Ok(session) => call_ensures(create, (true,), Ok::<T, E>(session)) || (exists|e: E|
                #[trigger] call_ensures(create, (true,), Err::<T, E>(e))) && call_ensures(
                create,
                (false,),
                Ok::<T, E>(session),
            ),
            Err(errors) => call_ensures(create, (true,), Err::<T, E>(errors.low_latency))
                && call_ensures(create, (false,), Err::<T, E>(errors.ordinary)),
        },
{
    match create(true) {
        Ok(session) => Ok(session),
        Err(low_latency_error) => {
            match create(false) {
                Ok(session) => Ok(session),
                Err(error) => Err(NoHardwareSession { low_latency: low_latency_error, ordinary: error }),
            }
        },
    }
}

/// The H.264 profiles tried for a hardware session, in order.
pub open spec fn profile_candidates() -> Seq<&'static str> {
    seq![
        "H264_ConstrainedBaseline_AutoLevel",
        "H264_Baseline_AutoLevel",
        "H264_Main_AutoLevel",
        "H264_High_AutoLevel",
    ]
}

/// Configuring the `k`-th candidate profile can fail.
pub open spec fn profile_failed<T, E, F: Fn(&'static str) -> Result<T, E>>(create: F, k: int) -> bool {
    exists|e: E| #[trigger] call_ensures(create, (profile_candidates()[k],), Err::<T, E>(e))
}

/// Try each H.264 profile in order; the first that can be configured wins:
/// every profile before it failed. When none can, every profile's failure is
/// reported, in order.
pub fn try_profiles<T, E>(create: impl Fn(&'static str) -> Result<T, E>) -> (res: Result<
    T,
    Vec<(&'static str, E)>,
>)
    requires
        forall|i: int| 0 <= i < 4 ==> call_requires(create, (#[trigger] profile_candidates()[i],)),
    ensures
        match res {
            Ok(session) => exists|i: int|
                0 <= i < 4 && call_ensures(create, (#[trigger] profile_candidates()[i],), Ok::<T, E>(session))
                && forall|k: int| 0 <= k < i ==> #[trigger] profile_failed(create, k),
            Err(failures) => failures@.len() == 4 && forall|i: int|
                0 <= i < 4 ==> (#[trigger] failures@[i]).0 == profile_candidates()[i] && call_ensures(
                    create,
                    (profile_candidates()[i],),
                    Err::<T, E>(failures@[i].1),
                ),
        },
{
    let profiles: [&'static str; 4] = [
        "H264_ConstrainedBaseline_AutoLevel",
        "H264_Baseline_AutoLevel",
        "H264_Main_AutoLevel",
        "H264_High_AutoLevel",
    ];
    assert(profiles@ =~= profile_candidates());
    let mut failures: Vec<(&'static str, E)> = Vec::new();
    let mut i: usize = 0;
    while i < 4
        invariant
            profiles@ == profile_candidates(),
            i <= 4,
            failures@.len() == i,
            forall|k: int| 0 <= k < 4 ==> call_requires(create, (#[trigger] profile_candidates()[k],)),
            forall|k: int|
                0 <= k < i ==> (#[trigger] failures@[k]).0 == profile_candidates()[k] && call_ensures(
                    create,
                    (profile_candidates()[k],),
                    Err::<T, E>(failures@[k].1),
                ),
        decreases 4 - i,
    {
        let profile = profiles[i];
        match create(profile) {
            Ok(session) => {
                proof {
                    assert forall|k: int| 0 <= k < i implies #[trigger] profile_failed(create, k) by {
                        assert(call_ensures(create, (profile_candidates()[k],), Err::<T, E>(failures@[k].1)));
                    }
                }
                return Ok(session);
            },
            Err(error) => failures.push((profile, error)),
        }
        i = i + 1;
    }
    Err(failures)
}

/// A rational media timestamp (value / timescale seconds).
#[derive(Debug, Clone, Copy, PartialEq, Eq, Structural)]
pub struct CMTime {
    pub value: i64,
    pub timescale: i32,
    pub flags: u32,
    pub epoch: i64,
}

impl CMTime {
    /// A valid timestamp (flags = 1) in epoch 0.
    pub fn make(value: i64, timescale: i32) -> (t: Self)
        ensures
            t == (CMTime { value, timescale, flags: 1, epoch: 0 }),
    {
        Self { value, timescale, flags: 1, epoch: 0 }  // flags=1 = valid

    }

    /// The invalid timestamp: every field zero.
    pub fn invalid() -> (t: Self)
        ensures
            t == (CMTime { value: 0, timescale: 0, flags: 0, epoch: 0 }),
    {
        Self { value: 0, timescale: 0, flags: 0, epoch: 0 }
    }
}

} // verus!
