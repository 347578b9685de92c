//! Fixed-point numbers as font files store them, held as their raw bits.

use vstd::prelude::*;

verus! {

/// A signed 16.16 fixed-point number: the value is `raw / 65536`.
#[derive(Debug, Clone, Copy, PartialEq, Eq, Structural)]
pub struct Fixed {
    pub raw: i32,
}

impl Fixed {
    /// The raw bits of the number one.
    pub const ONE_RAW: i32 = 0x1_0000;

    pub fn from_raw(raw: i32) -> (f: Fixed)
        ensures
            f.raw == raw,
    {
        Fixed { raw }
    }

    /// The fixed-point number equal to the integer `whole`.
    pub fn from_int(whole: i16) -> (f: Fixed)
        ensures
            f.raw == whole * 0x1_0000,
    {
        Fixed { raw: whole as i32 * 0x1_0000 }
    }

    /// `whole + hundredths / 100`, rounded down to the nearest representable value.
    pub fn from_hundredths(whole: u16, hundredths: u16) -> (f: Fixed)
        ensures
            f.raw == Self::hundredths_raw(whole as int, hundredths as int),
    {
        let total: i64 = whole as i64 * 0x1_0000 + (hundredths as i64 * 0x1_0000) / 100;
        if total > 0x7fff_ffff {
            Fixed { raw: 0x7fff_ffff }
        } else {
            Fixed { raw: total as i32 }
        }
    }

    /// The raw bits of `whole + hundredths / 100`, saturated at the largest positive value.
    pub open spec fn hundredths_raw(whole: int, hundredths: int) -> int {
        let total = whole * 0x1_0000 + (hundredths * 0x1_0000) / 100;
        if total > 0x7fff_ffff {
            0x7fff_ffff
        } else {
            total
        }
    }

    /// The largest integer not above the value.
    pub fn floor(&self) -> (whole: i32)
        ensures
            whole * 0x1_0000 <= self.raw < (whole + 1) * 0x1_0000,
    {
        if self.raw >= 0 {
            self.raw / 0x1_0000
        } else {
            -((-(self.raw as i64) + 0xffff) / 0x1_0000) as i32
        }
    }
}

/// A signed 2.14 fixed-point number: the value is `raw / 16384`.
#[derive(Debug, Clone, Copy, PartialEq, Eq, Structural)]
pub struct F2Dot14 {
    pub raw: i16,
}

impl F2Dot14 {
    /// The raw bits of the number one.
    pub const ONE_RAW: i16 = 0x4000;

    pub fn from_raw(raw: i16) -> (f: F2Dot14)
        ensures
            f.raw == raw,
    {
        F2Dot14 { raw }
    }
}

} // verus!
