//! Management-UI configuration: its defaults, single-field updates with
//! validation, and conversion into server settings.
use vstd::prelude::*;
use crate::config::{ServerConfig, AudioConfig, ClipboardConfig, ConfigError, ConfigErrorKind, config_check, opt_string_view};
use crate::encoder::{EncoderPreference, UnknownEncoder, preference_named, canonical_name, law_preference_name_round_trip};
use crate::text::str_eq;

verus! {

/// UI-specific configuration. All fields have sensible defaults so
/// `UiConfig::default()` is always usable.
pub struct UiConfig {
    // ── Server ──────────────────────────────────────────────
    pub port: u16,
    pub frame_rate: u32,
    pub bitrate_mbps: u32,
    pub encoder: String,
    pub chroma_mode: String,
    pub bind_address: String,
    pub max_connections: u32,
    pub idle_timeout_secs: u64,
    // ── Auth ────────────────────────────────────────────────
    pub username: String,
    pub password: String,
    // ── Display ─────────────────────────────────────────────
    pub resolution: String,
    pub show_cursor: bool,
    // ── Application ─────────────────────────────────────────
    pub log_level: String,
    pub theme: String,
    pub autostart: bool,
}

/// The parts of a field value that field updates read: a boolean, a number
/// that is a non-negative integer within `u64`, a string, or anything else
/// (null, other numbers, arrays, objects).
pub enum FieldValue {
    Bool(bool),
    Unsigned(u64),
    Str(String),
    Other,
}

/// Why a field update was refused.
#[derive(Debug)]
pub enum FieldError {
    /// "{key} must be a number"
    NotNumber(&'static str),
    /// "{key} is out of range"
    OutOfRange(&'static str),
    /// "{key} must be a string"
    NotString(&'static str),
    /// "{key} must be a boolean"
    NotBoolean(&'static str),
    /// The encoder names no supported encoder.
    Encoder(UnknownEncoder),
    /// "unknown config key: {key}"
    UnknownKey(String),
    /// The updated configuration fails server validation.
    Invalid(ConfigError),
}

/// The kind of a field-update error.
#[derive(Debug, Clone, Copy, PartialEq, Eq, Structural)]
pub enum FieldErrorKind {
    NotNumber,
    OutOfRange,
    NotString,
    NotBoolean,
    Encoder,
    UnknownKey,
    Invalid(ConfigErrorKind),
}

impl FieldError {
    /// The key the error names, if it names one: the field's name for a
    /// value of the wrong type or range, the key itself for an unknown key.
    pub open spec fn key_text(self) -> Option<Seq<char>> {
        match self {
            FieldError::NotNumber(k) => Some(k@),
            FieldError::OutOfRange(k) => Some(k@),
            FieldError::NotString(k) => Some(k@),
            FieldError::NotBoolean(k) => Some(k@),
            FieldError::UnknownKey(k) => Some(k@),
            _ => None,
        }
    }

    /// Whether `text` is the message reported for this error.
    pub open spec fn message_is(self, text: String) -> bool {
        match self {
            FieldError::NotNumber(k) => text@ == k@ + " must be a number"@,
            FieldError::OutOfRange(k) => text@ == k@ + " is out of range"@,
            FieldError::NotString(k) => text@ == k@ + " must be a string"@,
            FieldError::NotBoolean(k) => text@ == k@ + " must be a boolean"@,
            FieldError::Encoder(u) => text@ == u.message_text(),
            FieldError::UnknownKey(k) => text@ == "unknown config key: "@ + k@,
            FieldError::Invalid(c) => c.message_is(text),
        }
    }

    /// The message reported for this error.
    pub fn message(&self) -> (s: String)
        ensures
            self.message_is(s),
    {
        match self {
            FieldError::NotNumber(k) => {
                let mut t = String::from_str(k);
                t.append(" must be a number");
                t
            },
            FieldError::OutOfRange(k) => {
                let mut t = String::from_str(k);
                t.append(" is out of range");
                t
            },
            FieldError::NotString(k) => {
                let mut t = String::from_str(k);
                t.append(" must be a string");
                t
            },
            FieldError::NotBoolean(k) => {
                let mut t = String::from_str(k);
                t.append(" must be a boolean");
                t
            },
            FieldError::Encoder(u) => String::from_str(u.message()),
            FieldError::UnknownKey(k) => {
                let mut t = String::from_str("unknown config key: ");
                t.append(k.as_str());
                t
            },
            FieldError::Invalid(c) => c.message(),
        }
    }

    /// The kind of this error.
    pub open spec fn kind(self) -> FieldErrorKind {
        match self {
            FieldError::NotNumber(_) => FieldErrorKind::NotNumber,
            FieldError::OutOfRange(_) => FieldErrorKind::OutOfRange,
            FieldError::NotString(_) => FieldErrorKind::NotString,
            FieldError::NotBoolean(_) => FieldErrorKind::NotBoolean,
            FieldError::Encoder(_) => FieldErrorKind::Encoder,
            FieldError::UnknownKey(_) => FieldErrorKind::UnknownKey,
            FieldError::Invalid(e) => FieldErrorKind::Invalid(e.kind()),
        }
    }
}

/// Decimal digits of a number, most significant first (`0` for zero).
pub open spec fn decimal(n: nat) -> Seq<char>
    decreases n,
{
    if n < 10 {
        seq![((n + 48) as u32) as char]
    } else {
        decimal(n / 10).push((((n % 10) + 48) as u32) as char)
    }
}

/// `u64::to_string`: the decimal representation.
#[verifier::external_body]
fn u64_to_string(n: u64) -> (s: String)
    ensures
        s@ == decimal(n as nat),
{
    n.to_string()
}

/// The default UI configuration.
pub open spec fn default_ui_config_matches(c: UiConfig) -> bool {
    &&& c.port == 3389
    &&& c.frame_rate == 60
    &&& c.bitrate_mbps == 50
    &&& c.encoder@ == "auto"@
    &&& c.chroma_mode@ == "avc420"@
    &&& c.bind_address@ == "0.0.0.0"@
    &&& c.max_connections == 3
    &&& c.idle_timeout_secs == 1800
    &&& c.username@ == "macrdp"@
    &&& c.password@ == Seq::<char>::empty()
    &&& c.resolution@ == "auto"@
    &&& !c.show_cursor
    &&& c.log_level@ == "warn"@
    &&& c.theme@ == "system"@
    &&& !c.autostart
}

impl Default for UiConfig {
    fn default() -> (c: Self)
        ensures
            default_ui_config_matches(c),
    {
        Self {
            port: 3389,
            frame_rate: 60,
            bitrate_mbps: 50,
            encoder: String::from_str("auto"),
            chroma_mode: String::from_str("avc420"),
            bind_address: String::from_str("0.0.0.0"),
            max_connections: 3,
            idle_timeout_secs: 1800,
            username: String::from_str("macrdp"),
            password: String::new(),
            resolution: String::from_str("auto"),
            show_cursor: false,
            log_level: String::from_str("warn"),
            theme: String::from_str("system"),
            autostart: false,
        }
    }
}

/// The fields a field update can set, by key name.
#[derive(Debug, Clone, Copy, PartialEq, Eq, Structural)]
pub enum FieldKey {
    Port,
    FrameRate,
    BitrateMbps,
    Encoder,
    ChromaMode,
    BindAddress,
    MaxConnections,
    IdleTimeoutSecs,
    Username,
    Password,
    /// `resolution`, or its older name `hidpi_scale`.
    Resolution,
    ShowCursor,
    LogLevel,
    Theme,
    Autostart,
}

/// The field a key names, if any.
pub open spec fn key_of(key: Seq<char>) -> Option<FieldKey> {
    if key == "port"@ {
        Some(FieldKey::Port)
    } else if key == "frame_rate"@ {
        Some(FieldKey::FrameRate)
    } else if key == "bitrate_mbps"@ {
        Some(FieldKey::BitrateMbps)
    } else if key == "encoder"@ {
        Some(FieldKey::Encoder)
    } else if key == "chroma_mode"@ {
        Some(FieldKey::ChromaMode)
    } else if key == "bind_address"@ {
        Some(FieldKey::BindAddress)
    } else if key == "max_connections"@ {
        Some(FieldKey::MaxConnections)
    } else if key == "idle_timeout_secs"@ {
        Some(FieldKey::IdleTimeoutSecs)
    } else if key == "username"@ {
        Some(FieldKey::Username)
    } else if key == "password"@ {
        Some(FieldKey::Password)
    } else if key == "resolution"@ || key == "hidpi_scale"@ {
        Some(FieldKey::Resolution)
    } else if key == "show_cursor"@ {
        Some(FieldKey::ShowCursor)
    } else if key == "log_level"@ {
        Some(FieldKey::LogLevel)
    } else if key == "theme"@ {
        Some(FieldKey::Theme)
    } else if key == "autostart"@ {
        Some(FieldKey::Autostart)
    } else {
        None
    }
}

/// The name a field is reported under.
pub open spec fn field_name(f: FieldKey) -> Seq<char> {
    match f {
        FieldKey::Port => "port"@,
        FieldKey::FrameRate => "frame_rate"@,
        FieldKey::BitrateMbps => "bitrate_mbps"@,
        FieldKey::Encoder => "encoder"@,
        FieldKey::ChromaMode => "chroma_mode"@,
        FieldKey::BindAddress => "bind_address"@,
        FieldKey::MaxConnections => "max_connections"@,
        FieldKey::IdleTimeoutSecs => "idle_timeout_secs"@,
        FieldKey::Username => "username"@,
        FieldKey::Password => "password"@,
        FieldKey::Resolution => "resolution"@,
        FieldKey::ShowCursor => "show_cursor"@,
        FieldKey::LogLevel => "log_level"@,
        FieldKey::Theme => "theme"@,
        FieldKey::Autostart => "autostart"@,
    }
}

/// The key an update error of `kind` for `key` names: the key itself when
/// it is unknown, the field's name for a value of the wrong type or range,
/// none for an unknown encoder.
pub open spec fn error_key_text(key: Seq<char>, kind: FieldErrorKind) -> Option<Seq<char>> {
    match kind {
        FieldErrorKind::UnknownKey => Some(key),
        FieldErrorKind::Encoder | FieldErrorKind::Invalid(_) => None,
        _ => Some(field_name(key_of(key)->Some_0)),
    }
}

/// Fields whose change requires a service restart: capture, encoder and
/// logging options take effect together in a new session.
pub open spec fn restart_field(f: FieldKey) -> bool {
    f == FieldKey::FrameRate || f == FieldKey::Encoder || f == FieldKey::ChromaMode || f
        == FieldKey::Resolution || f == FieldKey::ShowCursor || f == FieldKey::LogLevel
}

/// The field a key names.
pub fn field_key(key: &str) -> (f: Option<FieldKey>)
    ensures
        f == key_of(key@),
{
    if str_eq(key, "port") {
        Some(FieldKey::Port)
    } else if str_eq(key, "frame_rate") {
        Some(FieldKey::FrameRate)
    } else if str_eq(key, "bitrate_mbps") {
        Some(FieldKey::BitrateMbps)
    } else if str_eq(key, "encoder") {
        Some(FieldKey::Encoder)
    } else if str_eq(key, "chroma_mode") {
        Some(FieldKey::ChromaMode)
    } else if str_eq(key, "bind_address") {
        Some(FieldKey::BindAddress)
    } else if str_eq(key, "max_connections") {
        Some(FieldKey::MaxConnections)
    } else if str_eq(key, "idle_timeout_secs") {
        Some(FieldKey::IdleTimeoutSecs)
    } else if str_eq(key, "username") {
        Some(FieldKey::Username)
    } else if str_eq(key, "password") {
        Some(FieldKey::Password)
    } else if str_eq(key, "resolution") || str_eq(key, "hidpi_scale") {
        Some(FieldKey::Resolution)
    } else if str_eq(key, "show_cursor") {
        Some(FieldKey::ShowCursor)
    } else if str_eq(key, "log_level") {
        Some(FieldKey::LogLevel)
    } else if str_eq(key, "theme") {
        Some(FieldKey::Theme)
    } else if str_eq(key, "autostart") {
        Some(FieldKey::Autostart)
    } else {
        None
    }
}

/// A number field's value: a `u64` within `max`.
pub open spec fn number_within(v: FieldValue, max: int) -> Result<u64, FieldErrorKind> {
    match v {
        FieldValue::Unsigned(n) => if n <= max {
            Ok(n)
        } else {
            Err(FieldErrorKind::OutOfRange)
        },
        _ => Err(FieldErrorKind::NotNumber),
    }
}

/// A string field's value.
pub open spec fn string_of(v: FieldValue) -> Result<String, FieldErrorKind> {
    match v {
        FieldValue::Str(s) => Ok(s),
        _ => Err(FieldErrorKind::NotString),
    }
}

/// A boolean field's value.
pub open spec fn bool_of(v: FieldValue) -> Result<bool, FieldErrorKind> {
    match v {
        FieldValue::Bool(b) => Ok(b),
        _ => Err(FieldErrorKind::NotBoolean),
    }
}

/// Whether a text field update of `key` leaves field text `after` from value `v`.
/// The resolution accepts a string, or a number stored as its decimal digits.
pub open spec fn resolution_text(v: FieldValue) -> Result<Seq<char>, FieldErrorKind> {
    match v {
        FieldValue::Str(s) => Ok(s@),
        FieldValue::Unsigned(n) => Ok(decimal(n as nat)),
        _ => Err(FieldErrorKind::NotString),
    }
}

/// Field `f` of `n` holds what updating it to `v` gives, checking only the
/// field's own type and range, and every other field of `n` equals that of `c`
/// (text fields by their characters).
pub open spec fn field_update_ok(c: UiConfig, f: FieldKey, v: FieldValue, n: UiConfig) -> bool {
    &&& (f == FieldKey::Port ==> number_within(v, u16::MAX as int) == Ok::<u64, FieldErrorKind>(n.port as u64))
    &&& (f != FieldKey::Port ==> n.port == c.port)
    &&& (f == FieldKey::FrameRate ==> number_within(v, u32::MAX as int) == Ok::<u64, FieldErrorKind>(n.frame_rate as u64))
    &&& (f != FieldKey::FrameRate ==> n.frame_rate == c.frame_rate)
    &&& (f == FieldKey::BitrateMbps ==> number_within(v, u32::MAX as int) == Ok::<u64, FieldErrorKind>(n.bitrate_mbps as u64))
    &&& (f != FieldKey::BitrateMbps ==> n.bitrate_mbps == c.bitrate_mbps)
    &&& (f == FieldKey::Encoder ==> (string_of(v) matches Ok(s) && preference_named(Some(s@)) matches Some(p)
        && n.encoder@ == canonical_name(p)))
    &&& (f != FieldKey::Encoder ==> n.encoder@ == c.encoder@)
    &&& (f == FieldKey::ChromaMode ==> (string_of(v) matches Ok(s) && n.chroma_mode@ == s@))
    &&& (f != FieldKey::ChromaMode ==> n.chroma_mode@ == c.chroma_mode@)
    &&& (f == FieldKey::BindAddress ==> (string_of(v) matches Ok(s) && n.bind_address@ == s@))
    &&& (f != FieldKey::BindAddress ==> n.bind_address@ == c.bind_address@)
    &&& (f == FieldKey::MaxConnections ==> number_within(v, u32::MAX as int) == Ok::<u64, FieldErrorKind>(n.max_connections as u64))
    &&& (f != FieldKey::MaxConnections ==> n.max_connections == c.max_connections)
    &&& (f == FieldKey::IdleTimeoutSecs ==> number_within(v, u64::MAX as int) == Ok::<u64, FieldErrorKind>(n.idle_timeout_secs))
    &&& (f != FieldKey::IdleTimeoutSecs ==> n.idle_timeout_secs == c.idle_timeout_secs)
    &&& (f == FieldKey::Username ==> (string_of(v) matches Ok(s) && n.username@ == s@))
    &&& (f != FieldKey::Username ==> n.username@ == c.username@)
    &&& (f == FieldKey::Password ==> (string_of(v) matches Ok(s) && n.password@ == s@))
    &&& (f != FieldKey::Password ==> n.password@ == c.password@)
    &&& (f == FieldKey::Resolution ==> (resolution_text(v) matches Ok(t) && n.resolution@ == t))
    &&& (f != FieldKey::Resolution ==> n.resolution@ == c.resolution@)
    &&& (f == FieldKey::ShowCursor ==> bool_of(v) == Ok::<bool, FieldErrorKind>(n.show_cursor))
    &&& (f != FieldKey::ShowCursor ==> n.show_cursor == c.show_cursor)
    &&& (f == FieldKey::LogLevel ==> (string_of(v) matches Ok(s) && n.log_level@ == s@))
    &&& (f != FieldKey::LogLevel ==> n.log_level@ == c.log_level@)
    &&& (f == FieldKey::Theme ==> (string_of(v) matches Ok(s) && n.theme@ == s@))
    &&& (f != FieldKey::Theme ==> n.theme@ == c.theme@)
    &&& (f == FieldKey::Autostart ==> bool_of(v) == Ok::<bool, FieldErrorKind>(n.autostart))
    &&& (f != FieldKey::Autostart ==> n.autostart == c.autostart)
}

/// The error, if any, that updating field `f` to `v` meets on the field's own
/// type and range.
pub open spec fn field_error(f: FieldKey, v: FieldValue) -> Option<FieldErrorKind> {
    match f {
        FieldKey::Port => number_within(v, u16::MAX as int).err(),
        FieldKey::FrameRate | FieldKey::BitrateMbps | FieldKey::MaxConnections => number_within(
            v,
            u32::MAX as int,
        ).err(),
        FieldKey::IdleTimeoutSecs => number_within(v, u64::MAX as int).err(),
        FieldKey::Encoder => match string_of(v) {
            Err(k) => Some(k),
            Ok(s) => if preference_named(Some(s@)) is None {
                Some(FieldErrorKind::Encoder)
            } else {
                None
            },
        },
        FieldKey::Resolution => resolution_text(v).err(),
        FieldKey::ShowCursor | FieldKey::Autostart => bool_of(v).err(),
        _ => string_of(v).err(),
    }
}

/// The error, if any, that updating field `key` to `v` meets on the field's
/// own terms: an unknown key, or the named field's error.
pub open spec fn update_error(key: Seq<char>, v: FieldValue) -> Option<FieldErrorKind> {
    match key_of(key) {
        None => Some(FieldErrorKind::UnknownKey),
        Some(f) => field_error(f, v),
    }
}

/// The server settings a UI configuration starts the server with.
pub open spec fn server_config_of(c: UiConfig) -> ServerConfig {
    ServerConfig {
        port: c.port,
        frame_rate: c.frame_rate,
        width: 0,
        height: 0,
        username: Some(c.username),
        password: if c.password@.len() == 0 {
            None
        } else {
            Some(c.password)
        },
        cert_path: None,
        key_path: None,
        idle_timeout_secs: c.idle_timeout_secs,
        log_level: Some(c.log_level),
        quality: None,
        encoder: Some(c.encoder),
        chroma_mode: Some(c.chroma_mode),
        resolution: Some(c.resolution),
        show_cursor: Some(c.show_cursor),
        bitrate_mbps: Some(c.bitrate_mbps),
        skip_unchanged: None,
        idle_keyframe_sec: None,
        audio: AudioConfig { enabled: true, sample_rate: 48000, channels: 2 },
        clipboard: ClipboardConfig { enabled: true, file_transfer: true, max_file_size_mb: 100 },
    }
}

impl UiConfig {
    /// A field-by-field copy.
    pub fn duplicate(&self) -> (c: Self)
        ensures
            c == *self,
    {
        UiConfig {
            port: self.port,
            frame_rate: self.frame_rate,
            bitrate_mbps: self.bitrate_mbps,
            encoder: self.encoder.clone(),
            chroma_mode: self.chroma_mode.clone(),
            bind_address: self.bind_address.clone(),
            max_connections: self.max_connections,
            idle_timeout_secs: self.idle_timeout_secs,
            username: self.username.clone(),
            password: self.password.clone(),
            resolution: self.resolution.clone(),
            show_cursor: self.show_cursor,
            log_level: self.log_level.clone(),
            theme: self.theme.clone(),
            autostart: self.autostart,
        }
    }

    /// Update a single field by key name from a value.
    /// Returns whether capture, encoder or logging changes require a service restart.
    /// Invalid updates leave the current configuration unchanged.
    /// An empty resolution is stored and then refused by validation.
    pub fn set_field(&mut self, key: &str, value: &FieldValue) -> (res: Result<bool, FieldError>)
        ensures
            match update_error(key@, *value) {
                Some(kind) => res matches Err(e) && e.kind() == kind && e.key_text() == error_key_text(key@, kind)
                    && *final(self) == *old(self),
                None => match res {
                    Ok(restart) => restart == restart_field(key_of(key@)->Some_0) && field_update_ok(
                        *old(self),
                        key_of(key@)->Some_0,
                        *value,
                        *final(self),
                    ) && config_check(server_config_of(*final(self))) is Ok,
                    Err(e) => *final(self) == *old(self) && exists|n: UiConfig|
                        field_update_ok(*old(self), key_of(key@)->Some_0, *value, n) && config_check(
                            #[trigger] server_config_of(n),
                        ) is Err && e.kind() == FieldErrorKind::Invalid(
                            config_check(server_config_of(n))->Err_0,
                        ),
                },
            },
    {
        let mut candidate = self.duplicate();
        let restart_required = match candidate.apply_field(key, value) {
            Ok(r) => r,
            Err(e) => return Err(e),
        };
        match candidate.to_server_config().validate() {
            Ok(()) => {},
            Err(err) => return Err(FieldError::Invalid(err)),
        }
        *self = candidate;
        Ok(restart_required)
    }

    /// Update field `key` from `value`, checking only the field's own type and
    /// range. On error the configuration is unchanged.
    fn apply_field(&mut self, key: &str, value: &FieldValue) -> (res: Result<bool, FieldError>)
        ensures
            match update_error(key@, *value) {
                Some(kind) => res matches Err(e) && e.kind() == kind && e.key_text() == error_key_text(key@, kind)
                    && *final(self) == *old(self),
                None => res == Ok::<bool, FieldError>(restart_field(key_of(key@)->Some_0))
                    && field_update_ok(*old(self), key_of(key@)->Some_0, *value, *final(self)),
            },
    {
        let field = match field_key(key) {
            Some(f) => f,
            None => return Err(FieldError::UnknownKey(key.to_owned())),
        };
        match field {
            FieldKey::Port => {
                let n = match value {
                    FieldValue::Unsigned(n) => *n,
                    _ => return Err(FieldError::NotNumber("port")),
                };
                if n > u16::MAX as u64 {
                    return Err(FieldError::OutOfRange("port"));
                }
                self.port = n as u16;
            },
            FieldKey::FrameRate => {
                self.frame_rate = match number_u32(value, "frame_rate") {
                    Ok(n) => n,
                    Err(e) => return Err(e),
                };
            },
            FieldKey::BitrateMbps => {
                self.bitrate_mbps = match number_u32(value, "bitrate_mbps") {
                    Ok(n) => n,
                    Err(e) => return Err(e),
                };
            },
            FieldKey::Encoder => {
                let s = match value {
                    FieldValue::Str(s) => s,
                    _ => return Err(FieldError::NotString("encoder")),
                };
                let p = match EncoderPreference::try_from_str_opt(Some(s.as_str())) {
                    Ok(p) => p,
                    Err(e) => return Err(FieldError::Encoder(e)),
                };
                self.encoder = String::from_str(p.as_str());
            },
            FieldKey::ChromaMode => {
                self.chroma_mode = match text_value(value, "chroma_mode") {
                    Ok(t) => t,
                    Err(e) => return Err(e),
                };
            },
            FieldKey::BindAddress => {
                self.bind_address = match text_value(value, "bind_address") {
                    Ok(t) => t,
                    Err(e) => return Err(e),
                };
            },
            FieldKey::MaxConnections => {
                self.max_connections = match number_u32(value, "max_connections") {
                    Ok(n) => n,
                    Err(e) => return Err(e),
                };
            },
            FieldKey::IdleTimeoutSecs => {
                self.idle_timeout_secs = match value {
                    FieldValue::Unsigned(n) => *n,
                    _ => return Err(FieldError::NotNumber("idle_timeout_secs")),
                };
            },
            FieldKey::Username => {
                self.username = match text_value(value, "username") {
                    Ok(t) => t,
                    Err(e) => return Err(e),
                };
            },
            FieldKey::Password => {
                self.password = match text_value(value, "password") {
                    Ok(t) => t,
                    Err(e) => return Err(e),
                };
            },
            FieldKey::Resolution => {
                // A number is stored as its decimal text.
                self.resolution = match value {
                    FieldValue::Str(s) => s.clone(),
                    FieldValue::Unsigned(n) => u64_to_string(*n),
                    _ => return Err(FieldError::NotString("resolution")),
                };
            },
            FieldKey::ShowCursor => {
                self.show_cursor = match value {
                    FieldValue::Bool(b) => *b,
                    _ => return Err(FieldError::NotBoolean("show_cursor")),
                };
            },
            FieldKey::LogLevel => {
                self.log_level = match text_value(value, "log_level") {
                    Ok(t) => t,
                    Err(e) => return Err(e),
                };
            },
            FieldKey::Theme => {
                self.theme = match text_value(value, "theme") {
                    Ok(t) => t,
                    Err(e) => return Err(e),
                };
            },
            FieldKey::Autostart => {
                self.autostart = match value {
                    FieldValue::Bool(b) => *b,
                    _ => return Err(FieldError::NotBoolean("autostart")),
                };
            },
        }
        // Capture and encoder changes must take effect together in a new session.
        let restart_required = match field {
            FieldKey::FrameRate | FieldKey::Encoder | FieldKey::ChromaMode | FieldKey::Resolution
            | FieldKey::ShowCursor | FieldKey::LogLevel => true,
            _ => false,
        };
        Ok(restart_required)
    }

    /// Convert to the server settings used to start the server.
    pub fn to_server_config(&self) -> (c: ServerConfig)
        ensures
            c == server_config_of(*self),
    {
        ServerConfig {
            port: self.port,
            frame_rate: self.frame_rate,
            width: 0,  // auto-detect
            height: 0,  // auto-detect
            username: Some(self.username.clone()),
            password: if self.password.as_str().unicode_len() == 0 {
                None
            } else {
                Some(self.password.clone())
            },
            cert_path: None,
            key_path: None,
            idle_timeout_secs: self.idle_timeout_secs,
            log_level: Some(self.log_level.clone()),
            quality: None,
            encoder: Some(self.encoder.clone()),
            chroma_mode: Some(self.chroma_mode.clone()),
            resolution: Some(self.resolution.clone()),
            show_cursor: Some(self.show_cursor),
            bitrate_mbps: Some(self.bitrate_mbps),
            skip_unchanged: None,
            idle_keyframe_sec: None,
            audio: AudioConfig::default(),
            clipboard: ClipboardConfig::default(),
        }
    }
}

/// A number field's value as a `u32`.
fn number_u32(value: &FieldValue, key: &'static str) -> (res: Result<u32, FieldError>)
    ensures
        match number_within(*value, u32::MAX as int) {
            Ok(n) => res == Ok::<u32, FieldError>(n as u32),
            Err(k) => res matches Err(e) && e.kind() == k && e.key_text() == Some(key@),
        },
{
    match value {
        FieldValue::Unsigned(n) => {
            if *n > u32::MAX as u64 {
                Err(FieldError::OutOfRange(key))
            } else {
                Ok(*n as u32)
            }
        },
        _ => Err(FieldError::NotNumber(key)),
    }
}

/// A string field's value, copied.
fn text_value(value: &FieldValue, key: &'static str) -> (res: Result<String, FieldError>)
    ensures
        match string_of(*value) {
            Ok(s) => res matches Ok(t) && t@ == s@,
            Err(k) => res matches Err(e) && e.kind() == k && e.key_text() == Some(key@),
        },
{
    match value {
        FieldValue::Str(s) => Ok(s.clone()),
        _ => Err(FieldError::NotString(key)),
    }
}


/// The capture, encoder and logging settings of a server configuration:
/// frame rate, encoder, chroma mode, resolution, cursor and log level, which
/// only take effect in a new session.
pub open spec fn session_settings(s: ServerConfig) -> (u32, Option<Seq<char>>, Option<Seq<char>>, Option<
    Seq<char>,
>, Option<bool>, Option<Seq<char>>) {
    (s.frame_rate, opt_string_view(s.encoder), opt_string_view(s.chroma_mode), opt_string_view(
        s.resolution,
    ), s.show_cursor, opt_string_view(s.log_level))
}

/// An update that reports no restart leaves the session settings handed to
/// the server as they were: every field whose change needs a new session
/// reports a restart.
pub proof fn law_no_restart_keeps_session(c: UiConfig, f: FieldKey, v: FieldValue, n: UiConfig)
    requires
        field_update_ok(c, f, v, n),
        !restart_field(f),
    ensures
        session_settings(server_config_of(n)) == session_settings(server_config_of(c)),
{
}

/// `c` with field `f` taken from `x`.
pub open spec fn with_field(c: UiConfig, f: FieldKey, x: UiConfig) -> UiConfig {
    match f {
        FieldKey::Port => UiConfig { port: x.port, ..c },
        FieldKey::FrameRate => UiConfig { frame_rate: x.frame_rate, ..c },
        FieldKey::BitrateMbps => UiConfig { bitrate_mbps: x.bitrate_mbps, ..c },
        FieldKey::Encoder => UiConfig { encoder: x.encoder, ..c },
        FieldKey::ChromaMode => UiConfig { chroma_mode: x.chroma_mode, ..c },
        FieldKey::BindAddress => UiConfig { bind_address: x.bind_address, ..c },
        FieldKey::MaxConnections => UiConfig { max_connections: x.max_connections, ..c },
        FieldKey::IdleTimeoutSecs => UiConfig { idle_timeout_secs: x.idle_timeout_secs, ..c },
        FieldKey::Username => UiConfig { username: x.username, ..c },
        FieldKey::Password => UiConfig { password: x.password, ..c },
        FieldKey::Resolution => UiConfig { resolution: x.resolution, ..c },
        FieldKey::ShowCursor => UiConfig { show_cursor: x.show_cursor, ..c },
        FieldKey::LogLevel => UiConfig { log_level: x.log_level, ..c },
        FieldKey::Theme => UiConfig { theme: x.theme, ..c },
        FieldKey::Autostart => UiConfig { autostart: x.autostart, ..c },
    }
}

/// Field `f` holds different values in `c` and `x` (text by its characters).
pub open spec fn field_differs(c: UiConfig, f: FieldKey, x: UiConfig) -> bool {
    match f {
        FieldKey::Port => c.port != x.port,
        FieldKey::FrameRate => c.frame_rate != x.frame_rate,
        FieldKey::BitrateMbps => c.bitrate_mbps != x.bitrate_mbps,
        FieldKey::Encoder => c.encoder@ != x.encoder@,
        FieldKey::ChromaMode => c.chroma_mode@ != x.chroma_mode@,
        FieldKey::BindAddress => c.bind_address@ != x.bind_address@,
        FieldKey::MaxConnections => c.max_connections != x.max_connections,
        FieldKey::IdleTimeoutSecs => c.idle_timeout_secs != x.idle_timeout_secs,
        FieldKey::Username => c.username@ != x.username@,
        FieldKey::Password => c.password@ != x.password@,
        FieldKey::Resolution => c.resolution@ != x.resolution@,
        FieldKey::ShowCursor => c.show_cursor != x.show_cursor,
        FieldKey::LogLevel => c.log_level@ != x.log_level@,
        FieldKey::Theme => c.theme@ != x.theme@,
        FieldKey::Autostart => c.autostart != x.autostart,
    }
}

/// Only fields that feed the session report a restart: changing a field
/// that reports one always changes the session settings handed to the server.
pub proof fn law_restart_fields_change_session(c: UiConfig, f: FieldKey, x: UiConfig)
    requires
        restart_field(f),
        field_differs(c, f, x),
    ensures
        session_settings(server_config_of(with_field(c, f, x))) != session_settings(server_config_of(c)),
{
    let a = session_settings(server_config_of(with_field(c, f, x)));
    let b = session_settings(server_config_of(c));
    match f {
        FieldKey::Encoder => assert(a.1 != b.1),
        FieldKey::ChromaMode => assert(a.2 != b.2),
        FieldKey::Resolution => assert(a.3 != b.3),
        FieldKey::LogLevel => assert(a.5 != b.5),
        _ => {},
    }
}

/// The default management settings, handed to the server, pass its validation.
pub proof fn law_default_ui_config_is_valid(c: UiConfig)
    requires
        default_ui_config_matches(c),
    ensures
        config_check(server_config_of(c)) == Ok::<(), ConfigErrorKind>(()),
{
    law_preference_name_round_trip(EncoderPreference::Auto);
    reveal_strlit("auto");
    reveal_strlit("avc420");
}

} // verus!
