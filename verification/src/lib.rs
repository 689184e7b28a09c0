//! Verified core of a macOS RDP server: frame layout and color conversion,
//! AVC444 plane splitting, H.264 access-unit rewriting, capability negotiation
//! and configuration validation.
pub mod arith;
pub mod planes;
pub mod yuv444_split;
pub mod convert;
pub mod h264;
pub mod text;
pub mod encoder;
pub mod settings;
pub mod capture;
pub mod config;
pub mod ui_config;
pub mod gfx_caps;
pub mod avc444;
pub mod openh264_enc;
pub mod vt_state;
pub mod network;
pub mod audio;
pub mod tls;
pub mod bgra;
pub mod bitmap_encoder;
