//! Server configuration: command-line options, the configuration file's
//! settings with their defaults, validation before the service starts, and
//! the choice of configuration directory.
use vstd::prelude::*;
use crate::encoder::opt_view;
use crate::settings::{VideoSettings, SettingsError, SettingsErrorKind, settings_check};

verus! {

/// Command-line options.
pub struct Cli {
    /// TCP port to listen on (default 3389)
    pub port: u16,
    /// Path to config file
    pub config: Option<String>,
    /// Target frame rate (1-120)
    pub frame_rate: Option<u32>,
    /// Log level: trace, debug, info, warn, error
    pub log_level: Option<String>,
    /// Enable performance statistics collection and print summary on exit
    pub perf: bool,
}

/// Audio forwarding configuration
pub struct AudioConfig {
    pub enabled: bool,
    pub sample_rate: u32,
    pub channels: u16,
}

impl Default for AudioConfig {
    fn default() -> (r: Self)
        ensures
            r == (AudioConfig { enabled: true, sample_rate: 48000, channels: 2 }),
    {
        Self { enabled: true, sample_rate: 48000, channels: 2 }
    }
}

/// Clipboard synchronization configuration
pub struct ClipboardConfig {
    pub enabled: bool,
    pub file_transfer: bool,
    pub max_file_size_mb: u32,
}

impl Default for ClipboardConfig {
    fn default() -> (r: Self)
        ensures
            r == (ClipboardConfig { enabled: true, file_transfer: true, max_file_size_mb: 100 }),
    {
        Self { enabled: true, file_transfer: true, max_file_size_mb: 100 }
    }
}

/// Server settings, as read from the configuration file.
pub struct ServerConfig {
    pub port: u16,
    pub frame_rate: u32,
    /// Resolution width (0 = auto-detect from display)
    pub width: u32,
    /// Resolution height (0 = auto-detect from display)
    pub height: u32,
    pub username: Option<String>,
    pub password: Option<String>,
    pub cert_path: Option<String>,
    pub key_path: Option<String>,
    pub idle_timeout_secs: u64,
    /// Log level: trace, debug, info, warn, error
    pub log_level: Option<String>,
    /// Video quality: low_latency, balanced, high_quality
    pub quality: Option<String>,
    /// H.264 encoder: software, hardware, auto (default: auto)
    pub encoder: Option<String>,
    /// Chroma subsampling mode: "avc420" or "avc444" (default: "avc420")
    pub chroma_mode: Option<String>,
    /// Resolution: "auto", "WxH" like "3840x2160", or a scale from 1 to 4
    pub resolution: Option<String>,
    /// Show cursor in capture (default: true)
    pub show_cursor: Option<bool>,
    /// Target bitrate in Mbps (default: auto-calculated from resolution/fps/quality)
    pub bitrate_mbps: Option<u32>,
    /// Skip encoding when screen content is unchanged (default: true)
    pub skip_unchanged: Option<bool>,
    /// Seconds between keepalive IDR frames during screen idle (default: 2)
    pub idle_keyframe_sec: Option<u32>,
    /// Audio forwarding configuration
    pub audio: AudioConfig,
    /// Clipboard synchronization configuration
    pub clipboard: ClipboardConfig,
}

/// The default server settings.
pub open spec fn default_server_config() -> ServerConfig {
    ServerConfig {
        port: 3389,
        frame_rate: 60,
        width: 0,
        height: 0,
        username: None,
        password: None,
        cert_path: None,
        key_path: None,
        idle_timeout_secs: 1800,
        log_level: None,
        quality: None,
        encoder: None,
        chroma_mode: None,
        resolution: None,
        show_cursor: None,
        bitrate_mbps: None,
        skip_unchanged: None,
        idle_keyframe_sec: None,
        audio: AudioConfig { enabled: true, sample_rate: 48000, channels: 2 },
        clipboard: ClipboardConfig { enabled: true, file_transfer: true, max_file_size_mb: 100 },
    }
}

impl Default for ServerConfig {
    fn default() -> (r: Self)
        ensures
            r == default_server_config(),
    {
        Self {
            port: 3389,
            frame_rate: 60,
            width: 0,
            height: 0,
            username: None,
            password: None,
            cert_path: None,
            key_path: None,
            idle_timeout_secs: 1800,
            log_level: None,
            quality: None,
            encoder: None,
            chroma_mode: None,
            resolution: None,
            show_cursor: None,
            bitrate_mbps: None,
            skip_unchanged: None,
            idle_keyframe_sec: None,
            audio: AudioConfig::default(),
            clipboard: ClipboardConfig::default(),
        }
    }
}

/// Why server settings were refused.
#[derive(Debug)]
pub enum ConfigError {
    /// "port must be between 1 and 65535"
    Port,
    /// A video option was refused.
    Settings(SettingsError),
}

/// The kind of a configuration error.
#[derive(Debug, Clone, Copy, PartialEq, Eq, Structural)]
pub enum ConfigErrorKind {
    Port,
    Settings(SettingsErrorKind),
}

impl ConfigError {
    /// Whether `text` is the message reported for this error.
    pub open spec fn message_is(self, text: String) -> bool {
        match self {
            ConfigError::Port => text@ == "port must be between 1 and 65535"@,
            ConfigError::Settings(e) => e.message_is(text),
        }
    }

    /// The message reported for this error.
    pub fn message(&self) -> (s: String)
        ensures
            self.message_is(s),
    {
        match self {
            ConfigError::Port => String::from_str("port must be between 1 and 65535"),
            ConfigError::Settings(e) => e.message(),
        }
    }

    /// The kind of this error.
    pub open spec fn kind(self) -> ConfigErrorKind {
        match self {
            ConfigError::Port => ConfigErrorKind::Port,
            ConfigError::Settings(e) => ConfigErrorKind::Settings(e.kind()),
        }
    }
}

/// The characters of an optional owned text.
pub open spec fn opt_string_view(s: Option<String>) -> Option<Seq<char>> {
    match s {
        None => None,
        Some(t) => Some(t@),
    }
}

/// Borrow an optional owned text.
pub fn opt_as_str(s: &Option<String>) -> (r: Option<&str>)
    ensures
        opt_view(r) == opt_string_view(*s),
{
    match s {
        Some(t) => Some(t.as_str()),
        None => None,
    }
}

/// The outcome of checking server settings: the port, then the video options.
pub open spec fn config_check(c: ServerConfig) -> Result<(), ConfigErrorKind> {
    if c.port == 0 {
        Err(ConfigErrorKind::Port)
    } else {
        match settings_check(
            opt_string_view(c.encoder),
            opt_string_view(c.chroma_mode),
            opt_string_view(c.quality),
            c.width,
            c.height,
            c.frame_rate,
            c.bitrate_mbps,
            opt_string_view(c.resolution),
        ) {
            Ok(()) => Ok(()),
            Err(k) => Err(ConfigErrorKind::Settings(k)),
        }
    }
}

/// The settings after applying command-line overrides: a port other than
/// the default 3389, a frame rate and a log level, each when given.
pub open spec fn with_overrides(c: ServerConfig, cli: Cli) -> ServerConfig {
    ServerConfig {
        port: if cli.port != 3389 {
            cli.port
        } else {
            c.port
        },
        frame_rate: match cli.frame_rate {
            Some(fps) => fps,
            None => c.frame_rate,
        },
        log_level: match cli.log_level {
            Some(level) => Some(level),
            None => c.log_level,
        },
        ..c
    }
}

/// Command-line options win over the configuration file: a port other than
/// the default 3389 always replaces the configured one, a given frame rate
/// and log level replace theirs, and nothing else changes.
pub proof fn law_cli_overrides_win(c: ServerConfig, cli: Cli)
    ensures
        cli.port != 3389 ==> with_overrides(c, cli).port == cli.port,
        cli.port == 3389 ==> with_overrides(c, cli).port == c.port,
        cli.frame_rate matches Some(f) ==> with_overrides(c, cli).frame_rate == f,
        cli.frame_rate is None ==> with_overrides(c, cli).frame_rate == c.frame_rate,
        cli.log_level matches Some(l) ==> with_overrides(c, cli).log_level == Some(l),
        cli.log_level is None ==> with_overrides(c, cli).log_level == c.log_level,
        with_overrides(c, cli).width == c.width,
        with_overrides(c, cli).height == c.height,
        with_overrides(c, cli).encoder == c.encoder,
        with_overrides(c, cli).chroma_mode == c.chroma_mode,
        with_overrides(c, cli).resolution == c.resolution,
        with_overrides(c, cli).bitrate_mbps == c.bitrate_mbps,
        with_overrides(c, cli).username == c.username,
        with_overrides(c, cli).password == c.password,
{
}

impl ServerConfig {
    /// Reject incompatible or unsafe video options before starting the service.
    pub fn validate(&self) -> (res: Result<(), ConfigError>)
        ensures
            match config_check(*self) {
                Ok(()) => res is Ok,
                Err(kind) => res matches Err(e) && e.kind() == kind,
            },
    {
        if !(self.port != 0) {
            return Err(ConfigError::Port);
        }
        let settings = VideoSettings {
            encoder: opt_as_str(&self.encoder),
            chroma_mode: opt_as_str(&self.chroma_mode),
            quality: opt_as_str(&self.quality),
            width: self.width,
            height: self.height,
            frame_rate: self.frame_rate,
            bitrate_mbps: self.bitrate_mbps,
            resolution: opt_as_str(&self.resolution),
        };
        match settings.validate() {
            Ok(()) => Ok(()),
            Err(e) => Err(ConfigError::Settings(e)),
        }
    }

    /// Finish loading: apply the command-line overrides to the settings read
    /// from the configuration file (or the defaults), then validate them.
    pub fn apply_cli(self, cli: &Cli) -> (res: Result<Self, ConfigError>)
        ensures
            match config_check(with_overrides(self, *cli)) {
                Ok(()) => res matches Ok(c) && c == with_overrides(self, *cli),
                Err(kind) => res matches Err(e) && e.kind() == kind,
            },
    {
        let mut config = self;
        // CLI overrides
        if cli.port != 3389 {
            config.port = cli.port;
        }
        if let Some(fps) = cli.frame_rate {
            config.frame_rate = fps;
        }
        if let Some(level) = &cli.log_level {
            config.log_level = Some(level.clone());
        }
        match config.validate() {
            Ok(()) => Ok(config),
            Err(e) => Err(e),
        }
    }
}

/// The index of the first set flag, if any.
pub open spec fn first_set(flags: Seq<bool>) -> Option<int> {
    if exists|i: int| 0 <= i < flags.len() && flags[i] {
        Some(choose|i: int| 0 <= i < flags.len() && flags[i] && forall|j: int| 0 <= j < i ==> !flags[j])
    } else {
        None
    }
}

/// The index of the first set flag, if any.
fn first_index(flags: &Vec<bool>) -> (r: Option<usize>)
    ensures
        match r {
            Some(k) => k < flags@.len() && first_set(flags@) == Some(k as int),
            None => first_set(flags@) is None,
        },
{
    let mut i: usize = 0;
    while i < flags.len()
        invariant
            i <= flags@.len(),
            forall|j: int| 0 <= j < i ==> !flags@[j],
        decreases flags@.len() - i,
    {
        if flags[i] {
            proof {
                let k = choose|k: int| 0 <= k < flags@.len() && flags@[k] && forall|j: int| 0 <= j < k ==> !flags@[j];
                assert(0 <= k < flags@.len() && flags@[k] && forall|j: int| 0 <= j < k ==> !flags@[j]);
                if (k as int) < (i as int) {
                    assert(!flags@[k]);
                }
                if (i as int) < k {
                    assert(!flags@[i as int]);
                }
            }
            return Some(i);
        }
        i = i + 1;
    }
    None
}

/// Returns the configuration directory: the first candidate (in priority
/// order) that holds a `config.toml`; when none does, the first writable
/// candidate, for writes such as TLS certificate generation; when none is
/// writable either, the first candidate, or `.` when there are no
/// candidates. `has_config[i]` tells whether `candidates[i]` holds a
/// `config.toml`, `writable[i]` whether it can be written to.
pub fn config_dir(candidates: &Vec<String>, has_config: &Vec<bool>, writable: &Vec<bool>) -> (dir: String)
    requires
        candidates@.len() == has_config@.len(),
        candidates@.len() == writable@.len(),
    ensures
        dir@ == match first_set(has_config@) {
            Some(i) => candidates@[i]@,
            None => match first_set(writable@) {
                Some(i) => candidates@[i]@,
                None => if candidates@.len() > 0 {
                    candidates@[0]@
                } else {
                    "."@
                },
            },
        },
{
    if let Some(i) = first_index(has_config) {
        return candidates[i].clone();
    }
    if let Some(i) = first_index(writable) {
        return candidates[i].clone();
    }
    if candidates.len() > 0 {
        candidates[0].clone()
    } else {
        String::from_str(".")
    }
}


/// The default server settings pass validation.
pub proof fn law_default_config_is_valid()
    ensures
        config_check(default_server_config()) == Ok::<(), ConfigErrorKind>(()),
{
}

} // verus!
