//! Positions along a ray as ordered integers.
//!
//! The geometry outside this crate measures positions in IEEE 754 binary32.
//! Such a number arrives here as its 32 bits: a sign bit on top of a 31-bit
//! magnitude. Two numbers that are not NaN compare as their signed
//! magnitudes do, with both zeros equal. A [`key`] is the signed magnitude
//! moved up by `2^31`, so that it fits an unsigned integer and keeps that
//! order. A NaN compares with nothing and has no key.

use vstd::prelude::*;

verus! {

/// The sign bit of a bit pattern, and the key of zero.
pub const SIGN: u32 = 0x8000_0000;

/// The magnitude of infinity: the greatest magnitude that is not a NaN.
pub const INFINITY: u32 = 0x7f80_0000;

/// The low 31 bits of a pattern.
pub open spec fn magnitude(bits: u32) -> int {
    if bits >= SIGN {
        bits - SIGN
    } else {
        bits as int
    }
}

/// The pattern stands for a number, not for a NaN.
pub open spec fn is_number(bits: u32) -> bool {
    magnitude(bits) <= INFINITY
}

/// The integer that orders the pattern among the numbers: the magnitude,
/// negated where the sign bit is set.
pub open spec fn signed_magnitude(bits: u32) -> int {
    if bits >= SIGN {
        -magnitude(bits)
    } else {
        magnitude(bits)
    }
}

/// The key of a pattern that stands for a number.
pub open spec fn key_of(bits: u32) -> int {
    SIGN + signed_magnitude(bits)
}

/// The key of a bit pattern, or `None` for a NaN.
pub fn key(bits: u32) -> (k: Option<u32>)
    ensures
        is_number(bits) ==> k == Some(key_of(bits) as u32) && k.unwrap() == key_of(bits),
        !is_number(bits) ==> k is None,
{
    if bits >= SIGN {
        let magnitude: u32 = bits - SIGN;
        if magnitude <= INFINITY {
            Some(SIGN - magnitude)
        } else {
            None
        }
    } else if bits <= INFINITY {
        Some(SIGN + bits)
    } else {
        None
    }
}

/// Keys order as signed magnitudes do, and the two zeros share a key.
pub proof fn lemma_keys_keep_order(a: u32, b: u32)
    ensures
        key_of(a) < key_of(b) <==> signed_magnitude(a) < signed_magnitude(b),
        key_of(a) == key_of(b) <==> signed_magnitude(a) == signed_magnitude(b),
        key_of(0) == key_of(SIGN) == SIGN,
        is_number(a) ==> 0 < key_of(a) <= u32::MAX,
{
}

} // verus!
