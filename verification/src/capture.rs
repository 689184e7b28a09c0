//! Capture-side checks: frame dimensions, capture cadence and the minimum
//! macOS release that screen capture needs.
use vstd::prelude::*;
use crate::text::{is_digit, parse_u32, parse_u32_str, split_once_char};

verus! {

/// Why capture dimensions were refused.
#[derive(Debug, Clone, Copy, PartialEq, Eq, Structural)]
pub enum CaptureDimensionError {
    /// "Capture dimensions must be between 1 and 8192 pixels per side"
    OutOfRange,
    /// "Capture dimensions exceed the maximum pixel count"
    TooManyPixels,
}

/// The first failing capture dimension check, if any.
pub open spec fn capture_dimension_check(width: u32, height: u32) -> Result<(), CaptureDimensionError> {
    if !(1 <= width <= 8192 && 1 <= height <= 8192) {
        Err(CaptureDimensionError::OutOfRange)
    } else if width * height > 7680 * 4320 {
        Err(CaptureDimensionError::TooManyPixels)
    } else {
        Ok(())
    }
}

/// Capture dimensions must be 1 to 8192 per side and at most 7680 × 4320 pixels.
pub fn validate_dimensions(width: u32, height: u32) -> (res: Result<(), CaptureDimensionError>)
    ensures
        res == capture_dimension_check(width, height),
{
    if !((1 <= width && width <= 8192) && (1 <= height && height <= 8192)) {
        return Err(CaptureDimensionError::OutOfRange);
    }
    proof {
        crate::arith::lemma_mul_le(width as int, height as int, 8192, 8192);
    }
    if !((width as u64) * (height as u64) <= 7680 * 4320) {
        return Err(CaptureDimensionError::TooManyPixels);
    }
    Ok(())
}

/// A capture frame rate outside 1..=120.
#[derive(Debug, Clone, Copy, PartialEq, Eq, Structural)]
pub struct FrameRateOutOfRange;

/// "Capture frame rate must be between 1 and 120"
pub fn validate_frame_rate(fps: u32) -> (res: Result<(), FrameRateOutOfRange>)
    ensures
        res is Ok <==> 1 <= fps <= 120,
{
    if !(1 <= fps && fps <= 120) {
        return Err(FrameRateOutOfRange);
    }
    Ok(())
}

/// Why a macOS product version could not be read.
#[derive(Debug)]
pub enum VersionError {
    /// "Invalid macOS major version": the major component is empty or not all digits.
    InvalidMajor,
    /// The major component is too large to parse.
    Parse(core::num::ParseIntError),
}

/// The major component of a version text: the text before the first `.`,
/// or all of it when it holds none.
pub open spec fn major_component(version: Seq<char>) -> Seq<char> {
    if exists|i: int| 0 <= i < version.len() && version[i] == '.' {
        let i = choose|i: int|
            0 <= i < version.len() && version[i] == '.' && forall|j: int| 0 <= j < i ==> version[j] != '.';
        version.subrange(0, i)
    } else {
        version
    }
}

/// The major version of a product version text such as `14.4.1`: `Ok` when
/// the major component is one or more decimal digits that fit in a `u32`.
pub fn parse_major_version(version: &str) -> (res: Result<u32, VersionError>)
    ensures
        ({
            let major = major_component(version@);
            let well_formed = major.len() > 0 && forall|i: int| 0 <= i < major.len() ==> is_digit(major[i]);
            match res {
                Ok(v) => well_formed && parse_u32(major) == Some(v),
                Err(VersionError::InvalidMajor) => !well_formed,
                Err(VersionError::Parse(_)) => well_formed && parse_u32(major) is None,
            }
        }),
{
    let major = match split_once_char(version, '.') {
        Some((before, _)) => {
            proof {
                let i = before@.len() as int;
                let k = choose|k: int|
                    0 <= k < version@.len() && version@[k] == '.' && forall|j: int| 0 <= j < k ==> version@[j] != '.';
                assert(0 <= k < version@.len() && version@[k] == '.' && forall|j: int| 0 <= j < k ==> version@[j] != '.');
                if k < i {
                    assert(version@[k] != '.');
                }
                if i < k {
                    assert(version@[i] != '.');
                }
            }
            before
        },
        None => version,
    };
    let n = major.unicode_len();
    let mut all_digits = n > 0;
    let mut i: usize = 0;
    while i < n
        invariant
            n == major@.len(),
            i <= n,
            all_digits == (n > 0 && forall|j: int| 0 <= j < i ==> is_digit(major@[j])),
        decreases n - i,
    {
        let c = major.get_char(i);
        if !('0' <= c && c <= '9') {
            all_digits = false;
        }
        i = i + 1;
    }
    if !all_digits {
        return Err(VersionError::InvalidMajor);
    }
    match parse_u32_str(major) {
        Ok(v) => Ok(v),
        Err(e) => Err(VersionError::Parse(e)),
    }
}

/// A macOS release older than 13.
#[derive(Debug, Clone, Copy, PartialEq, Eq, Structural)]
pub struct UnsupportedMacos;

/// "Screen capture requires macOS 13 or later": accept a major version of 13
/// or later and hand it back.
pub fn require_supported_macos(major: u32) -> (res: Result<u32, UnsupportedMacos>)
    ensures
        major >= 13 ==> res == Ok::<u32, UnsupportedMacos>(major),
        major < 13 ==> res == Err::<u32, UnsupportedMacos>(UnsupportedMacos),
{
    if !(major >= 13) {
        return Err(UnsupportedMacos);
    }
    Ok(major)
}

} // verus!
