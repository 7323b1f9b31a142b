//! The computations of the board's demonstration tasks: the accumulated
//! sum shown digit by digit, and the byte operations selected by the
//! switches.  The buttons, switches and displays around them are driven
//! by the embedding program.

use vstd::prelude::*;

verus! {

/// The sum of the numbers one to `v`.
pub open spec fn spec_triangle(v: int) -> int
    decreases v,
{
    if v <= 0 {
        0
    } else {
        spec_triangle(v - 1) + v
    }
}

/// Accumulate the numbers one to `v`, the way the demonstration task
/// sums them step by step.
pub fn accumulate(v: u8) -> (r: u8)
    requires
        spec_triangle(v as int) <= u8::MAX,
    ensures
        r == spec_triangle(v as int),
    decreases v,
{
    match v {
        0 => 0,
        _ => accumulate(v - 1) + v,
    }
}

/// The result of the switch-selected byte operation: a power-of-two
/// test, parity, the bitwise operations, and the two comparisons.  The
/// last selector passes the second operand through, after the first
/// was shown.
pub fn task_operation(selector: u8, v1: u8, v2: u8) -> (r: u8)
    requires
        selector < 8,
    ensures
        selector == 0 ==> r == (if (v1 as i32) & ((v1 as i32) - 1) as i32 == 0 {
            1u8
        } else {
            0u8
        }),
        selector == 1 ==> r == v1 % 2,
        selector == 2 ==> r == v1 | v2,
        selector == 3 ==> r == !(v1 | v2),
        selector == 4 ==> r == v1 ^ v2,
        selector == 5 ==> r == (if (v1 as i8) < (v2 as i8) {
            1u8
        } else {
            0u8
        }),
        selector == 6 ==> r == (if v1 < v2 {
            1u8
        } else {
            0u8
        }),
        selector == 7 ==> r == v2,
    {
    match selector {
        0 => {
            let a = v1 as i32;
            if a & (a - 1) == 0 {
                1
            } else {
                0
            }
        },
        1 => v1 % 2,
        2 => v1 | v2,
        3 => !(v1 | v2),
        4 => v1 ^ v2,
        5 => if (v1 as i8) < (v2 as i8) {
            1
        } else {
            0
        },
        6 => if v1 < v2 {
            1
        } else {
            0
        },
        _ => v2,
    }
}

} // verus!
