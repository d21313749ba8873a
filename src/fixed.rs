//! Fixed-point numbers: a value is an `i64` count of `1 / SCALE` units.
use vstd::prelude::*;

verus! {

/// Units per whole number. It is divisible by 2^16 and by 1000, so that
/// halves, sixty-fourths and thousandths are held exactly.
pub const SCALE: i64 = 65_536_000;

/// A fixed-point number whose value is `raw / SCALE`.
#[derive(Clone, Copy, Debug, PartialEq, Eq, Structural)]
pub struct Fixed {
    pub raw: i64,
}

/// Why a range could not be mapped.
#[derive(Clone, Copy, Debug, PartialEq, Eq, Structural)]
pub enum RangeError {
    /// The source range has equal ends, so no line passes through it.
    DegenerateRange,
    /// The mapped value does not fit a `Fixed`.
    Overflow,
}

/// Quotient of `n / d` rounded toward zero (`d != 0`).
pub open spec fn div_toward_zero(n: int, d: int) -> int {
    let q = abs(n) / abs(d);
    if (n < 0) == (d < 0) { q } else { -q }
}

pub open spec fn abs(n: int) -> int {
    if n < 0 { -n } else { n }
}

/// The exact raw result of mapping `v` linearly from `[f0, f1]` onto `[t0, t1]`,
/// rounded toward zero to a whole number of units.
pub open spec fn map_range_raw(f0: int, f1: int, t0: int, t1: int, v: int) -> int {
    t0 + div_toward_zero((v - f0) * (t1 - t0), f1 - f0)
}

pub open spec fn fits_i64(n: int) -> bool {
    i64::MIN <= n <= i64::MAX
}

/// What `value as u8` gives for the number `raw / SCALE`: truncation toward
/// zero, saturating at both ends of `u8`.
pub open spec fn to_u8_spec(raw: int) -> u8 {
    if raw <= 0 {
        0
    } else if raw / (SCALE as int) >= 255 {
        255
    } else {
        (raw / (SCALE as int)) as u8
    }
}

impl Fixed {
    /// The whole number `n`.
    pub fn from_int(n: i32) -> (r: Fixed)
        ensures
            r.raw == n * SCALE,
    {
        proof {
            assert(-0x8000_0000 * SCALE <= n * SCALE <= 0x7fff_ffff * SCALE) by (nonlinear_arith)
                requires -0x8000_0000 <= n <= 0x7fff_ffff;
        }
        Fixed { raw: (n as i64) * SCALE }
    }

    /// The number whose raw count of units is `raw`.
    pub fn from_raw(raw: i64) -> (r: Fixed)
        ensures
            r.raw == raw,
    {
        Fixed { raw }
    }

    /// The value truncated toward zero and saturated to `u8`, as a float's
    /// `as u8` cast does.
    pub fn to_u8(self) -> (r: u8)
        ensures
            r == to_u8_spec(self.raw as int),
    {
        if self.raw <= 0 {
            0
        } else {
            let whole = self.raw / SCALE;
            if whole >= 255 {
                255
            } else {
                whole as u8
            }
        }
    }
}

/// `|n|` of an `i128` that is not `i128::MIN`.
pub(crate) fn magnitude(n: i128) -> (r: u128)
    requires
        n > i128::MIN,
    ensures
        r as int == abs(n as int),
{
    if n < 0 {
        (-n) as u128
    } else {
        n as u128
    }
}

} // verus!
