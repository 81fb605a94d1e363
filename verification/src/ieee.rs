//! Comparisons of IEEE 754 doubles given as their bit patterns.
//!
//! Aspect limits and report values arrive from the configuration and outside sources as
//! doubles; the library keeps their 64-bit patterns and compares them exactly as the
//! hardware compares the doubles they encode.
use vstd::prelude::*;

verus! {

pub open spec fn sign_bit() -> nat {
    0x8000_0000_0000_0000
}

pub open spec fn infinity_magnitude() -> nat {
    0x7ff0_0000_0000_0000
}

/// The bits of a double without its sign.
pub open spec fn magnitude(bits: u64) -> nat {
    if bits >= sign_bit() { (bits - sign_bit()) as nat } else { bits as nat }
}

pub open spec fn negative_sign(bits: u64) -> bool {
    bits >= sign_bit()
}

pub open spec fn is_nan(bits: u64) -> bool {
    magnitude(bits) > infinity_magnitude()
}

pub open spec fn is_finite(bits: u64) -> bool {
    magnitude(bits) < infinity_magnitude()
}

/// A key whose integer order is the order of the non-NaN doubles; both zeros get key 0.
pub open spec fn order_key(bits: u64) -> int {
    if negative_sign(bits) { -(magnitude(bits) as int) } else { magnitude(bits) as int }
}

/// `a <= b` on the doubles with these bits.
pub open spec fn double_le(a: u64, b: u64) -> bool {
    !is_nan(a) && !is_nan(b) && order_key(a) <= order_key(b)
}

/// `a < b` on the doubles with these bits.
pub open spec fn double_lt(a: u64, b: u64) -> bool {
    !is_nan(a) && !is_nan(b) && order_key(a) < order_key(b)
}

/// The bits of `0.0`.
pub open spec fn zero() -> u64 {
    0
}

/// The bits of `90.0`.
pub const NINETY: u64 = 0x4056_8000_0000_0000;

/// The bits of `180.0`.
pub const ONE_EIGHTY: u64 = 0x4066_8000_0000_0000;

fn magnitude_of(bits: u64) -> (m: u64)
    ensures
        m == magnitude(bits),
{
    if bits >= 0x8000_0000_0000_0000 { bits - 0x8000_0000_0000_0000 } else { bits }
}

pub fn nan(bits: u64) -> (r: bool)
    ensures
        r == is_nan(bits),
{
    magnitude_of(bits) > 0x7ff0_0000_0000_0000
}

pub fn finite(bits: u64) -> (r: bool)
    ensures
        r == is_finite(bits),
{
    magnitude_of(bits) < 0x7ff0_0000_0000_0000
}

/// `a <= b` for the doubles with bits `a` and `b`.
pub fn le(a: u64, b: u64) -> (r: bool)
    ensures
        r == double_le(a, b),
{
    if nan(a) || nan(b) {
        return false;
    }
    let ma = magnitude_of(a);
    let mb = magnitude_of(b);
    let na = a >= 0x8000_0000_0000_0000;
    let nb = b >= 0x8000_0000_0000_0000;
    if na && nb {
        mb <= ma
    } else if na {
        true
    } else if nb {
        ma == 0 && mb == 0
    } else {
        ma <= mb
    }
}

/// `a < b` for the doubles with bits `a` and `b`.
pub fn lt(a: u64, b: u64) -> (r: bool)
    ensures
        r == double_lt(a, b),
{
    !nan(a) && !nan(b) && !le(b, a)
}

} // verus!
