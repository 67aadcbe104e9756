//! Wraparound 8-bit arithmetic with explicit carry and borrow flags.
//!
//! These two helpers underlie the ALU opcodes: addition and subtraction are
//! always taken modulo 256 and report the carry (respectively borrow) as a
//! separate 0/1 byte; they never trap.

use vstd::prelude::*;

verus! {

/// The sum of two bytes modulo 256, paired with the carry flag:
/// 1 exactly when `a + b` reaches 256.
pub open spec fn spec_add_carry(a: u8, b: u8) -> (u8, u8) {
    (((a + b) % 256) as u8, if a + b >= 256 { 1u8 } else { 0u8 })
}

/// The difference of two bytes modulo 256, paired with the borrow flag:
/// 1 exactly when `a < b`.
pub open spec fn spec_sub_borrow(a: u8, b: u8) -> (u8, u8) {
    (((a - b) % 256) as u8, if a < b { 1u8 } else { 0u8 })
}

/// Unsigned 8-bit add-with-carry: returns `(a + b) mod 256` and a 0/1 carry
/// flag that is 1 exactly when `a + b >= 256`.
pub fn add_get_carry(a: u8, b: u8) -> (r: (u8, u8))
    ensures
        r == spec_add_carry(a, b),
        r.0 == (a + b) % 256,
        r.1 == if a + b >= 256 { 1u8 } else { 0u8 },
{
    let s: u16 = a as u16 + b as u16;
    if s >= 256 {
        proof {
            vstd::arithmetic::div_mod::lemma_mod_sub_multiples_vanish(a + b, 256);
            vstd::arithmetic::div_mod::lemma_small_mod((a + b - 256) as nat, 256);
        }
        ((s - 256) as u8, 1u8)
    } else {
        proof {
            vstd::arithmetic::div_mod::lemma_small_mod((a + b) as nat, 256);
        }
        (s as u8, 0u8)
    }
}

/// Unsigned 8-bit subtract-with-borrow: returns `(a - b) mod 256` and a 0/1
/// borrow flag that is 1 exactly when `a < b`.
pub fn sub_get_borrow(a: u8, b: u8) -> (r: (u8, u8))
    ensures
        r == spec_sub_borrow(a, b),
        r.0 == (a - b) % 256,
        r.1 == if a < b { 1u8 } else { 0u8 },
{
    if a >= b {
        proof {
            vstd::arithmetic::div_mod::lemma_small_mod((a - b) as nat, 256);
        }
        (a - b, 0u8)
    } else {
        proof {
            vstd::arithmetic::div_mod::lemma_mod_add_multiples_vanish(a - b, 256);
            vstd::arithmetic::div_mod::lemma_small_mod((a - b + 256) as nat, 256);
        }
        ((a as u16 + 256 - b as u16) as u8, 1u8)
    }
}

/// An explicit, safe conversion of a boolean to the byte 0 or 1.
pub(crate) fn bool_to_u8(b: bool) -> (r: u8)
    ensures
        r == if b { 1u8 } else { 0u8 },
{
    if b {
        1
    } else {
        0
    }
}

} // verus!
