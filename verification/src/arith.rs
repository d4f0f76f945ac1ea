//! Carry and borrow arithmetic for the arithmetic opcodes: sums and
//! differences are computed on a widened accumulator, and the flag is read
//! off before the result is truncated to 8 bits.
use vstd::prelude::*;

verus! {

/// The low byte of a sum of two bytes.
pub open spec fn sum_lo(a: int, b: int) -> int {
    (a + b) % 256
}

/// The carry flag of a sum of two bytes: 1 exactly when the untruncated sum
/// exceeds 255.
pub open spec fn sum_carry(a: int, b: int) -> int {
    if a + b > 255 {
        1
    } else {
        0
    }
}

/// The low byte of a difference of two bytes, modulo 256.
pub open spec fn diff_lo(a: int, b: int) -> int {
    (a + 256 - b) % 256
}

/// The flag the subtract opcodes put in register 0xF: 1 exactly when the
/// minuend is strictly greater than the subtrahend.
pub open spec fn diff_no_borrow(a: int, b: int) -> int {
    if a > b {
        1
    } else {
        0
    }
}

/// Adds two register values on a widened accumulator.  Returns the sum
/// truncated to 8 bits and the carry flag.
pub fn add_with_carry(a: u16, b: u16) -> (r: (u8, u8))
    requires
        a < 256,
        b < 256,
    ensures
        r.0 == sum_lo(a as int, b as int),
        r.1 == sum_carry(a as int, b as int),
{
    let res = a + b;
    if res > 255 {
        ((res % 256) as u8, 1)
    } else {
        (res as u8, 0)
    }
}

/// Subtracts `b` from `a` modulo 256 on a widened accumulator.  Returns the
/// difference and the no-borrow flag.
pub fn sub_with_borrow(a: u16, b: u16) -> (r: (u8, u8))
    requires
        a < 256,
        b < 256,
    ensures
        r.0 == diff_lo(a as int, b as int),
        r.1 == diff_no_borrow(a as int, b as int),
{
    if a > b {
        ((a - b) as u8, 1)
    } else {
        ((((a + 256) - b) % 256) as u8, 0)
    }
}

/// For all byte pairs, the add helper returns `(a + b) mod 256` with a carry
/// flag of 1 exactly when `a + b > 255`, and the subtract helper returns
/// `(a - b) mod 256`.  For distinct operands its flag is 1 exactly when
/// `a >= b` (no borrow); when `a == b` the engine clears the flag.
pub proof fn lemma_arithmetic_flags(a: u8, b: u8)
    ensures
        sum_lo(a as int, b as int) == (a + b) % 256,
        sum_carry(a as int, b as int) == 1 <==> a + b > 255,
        diff_lo(a as int, b as int) == (a - b) % 256,
        a != b ==> (diff_no_borrow(a as int, b as int) == 1 <==> a >= b),
{
    assert(diff_lo(a as int, b as int) == (a - b) % 256) by {
        if a >= b {
            assert((a + 256 - b) % 256 == (a - b) % 256) by (nonlinear_arith)
                requires 0 <= a - b < 256;
        } else {
            assert((a + 256 - b) % 256 == (a - b) % 256) by (nonlinear_arith)
                requires -256 <= a - b < 0;
        }
    }
}

} // verus!
