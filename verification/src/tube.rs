//! Pure descriptions of the seven-segment display: its number base and
//! the digit-enable mask an optional value switches on.  Writing the
//! registers themselves is left to the embedding program.

use vstd::prelude::*;

verus! {

/// The number base the display shows values in.
#[derive(Debug, Clone, Copy, PartialEq, Eq, Structural)]
pub enum TubeMode {
    /// Show values in decimal.
    Dec,
    /// Show values in hexadecimal.
    Hex,
}

impl TubeMode {
    /// The value the mode register takes for this mode.
    pub fn code(self) -> (r: u8)
        ensures
            self is Dec ==> r == 0,
            self is Hex ==> r == 1,
    {
        match self {
            TubeMode::Dec => 0,
            TubeMode::Hex => 1,
        }
    }
}

/// The digit-enable mask showing an optional value turns on: all eight
/// digits for a value, none for its absence.
pub fn tube_enable_mask(v: &Option<u32>) -> (r: u8)
    ensures
        v is Some ==> r == 0xFF,
        v is None ==> r == 0,
{
    if v.is_some() {
        0xFF
    } else {
        0
    }
}

/// The value digit `k` of the display plan contributes: its nibble, or
/// zero where the digit is switched off.
pub open spec fn spec_digit(d: Option<u8>) -> int {
    match d {
        Some(v) => v as int,
        None => 0,
    }
}

/// The value register contents after folding in the top `k` digits of
/// the plan, highest digit first.
pub open spec fn spec_tube_value(d: [Option<u8>; 8], k: int) -> int
    decreases k,
{
    if k <= 0 {
        0
    } else {
        spec_tube_value(d, k - 1) * 16 + spec_digit(d[8 - k])
    }
}

/// The enable mask after folding in the top `k` digits of the plan,
/// highest digit first: one bit per digit that is switched on.
pub open spec fn spec_tube_mask(d: [Option<u8>; 8], k: int) -> int
    decreases k,
{
    if k <= 0 {
        0
    } else {
        spec_tube_mask(d, k - 1) * 2 + (if d[8 - k] is Some {
            1int
        } else {
            0int
        })
    }
}

/// The value register contents showing a plan of eight optional digits:
/// digit `i` of the plan lands in nibble `i`, absent digits show zero.
pub fn tube_digits_value(d: &[Option<u8>; 8]) -> (r: u32)
    requires
        forall|i: int| 0 <= i < 8 ==> spec_digit(#[trigger] d[i]) < 16,
    ensures
        r == spec_tube_value(*d, 8),
{
    let mut v: u32 = 0;
    let mut k: usize = 0;
    while k < 8
        invariant
            k <= 8,
            forall|i: int| 0 <= i < 8 ==> spec_digit(#[trigger] d[i]) < 16,
            v == spec_tube_value(*d, k as int),
        decreases 8 - k,
    {
        proof {
            lemma_tube_value_bound(*d, k as int);
            lemma_tube_value_bound(*d, k as int + 1);
        }
        let digit = match d[7 - k] {
            Some(digit) => digit,
            None => 0,
        };
        v = v * 16 + digit as u32;
        k = k + 1;
    }
    v
}

/// The enable mask showing a plan of eight optional digits: bit `i` is
/// set exactly when digit `i` of the plan is present.
pub fn tube_digits_mask(d: &[Option<u8>; 8]) -> (r: u8)
    ensures
        r == spec_tube_mask(*d, 8),
{
    let mut m: u8 = 0;
    let mut k: usize = 0;
    while k < 8
        invariant
            k <= 8,
            m == spec_tube_mask(*d, k as int),
        decreases 8 - k,
    {
        proof {
            lemma_tube_mask_bound(*d, k as int);
            lemma_tube_mask_bound(*d, k as int + 1);
        }
        let on: u8 = if d[7 - k].is_some() {
            1
        } else {
            0
        };
        m = m * 2 + on;
        k = k + 1;
    }
    m
}

/// Folding `k` digits of at most a nibble each fills at most `k`
/// nibbles.
proof fn lemma_tube_value_bound(d: [Option<u8>; 8], k: int)
    requires
        0 <= k <= 8,
        forall|i: int| 0 <= i < 8 ==> spec_digit(#[trigger] d[i]) < 16,
    ensures
        spec_tube_value(d, k) <= (if k <= 0 {
            0
        } else if k == 1 {
            0xF
        } else if k == 2 {
            0xFF
        } else if k == 3 {
            0xFFF
        } else if k == 4 {
            0xFFFF
        } else if k == 5 {
            0xF_FFFF
        } else if k == 6 {
            0xFF_FFFF
        } else if k == 7 {
            0xFFF_FFFF
        } else {
            0xFFFF_FFFFint
        }),
    decreases k,
{
    if k > 0 {
        lemma_tube_value_bound(d, k - 1);
    }
}

/// Folding `k` presence bits fills at most `k` bits.
proof fn lemma_tube_mask_bound(d: [Option<u8>; 8], k: int)
    requires
        0 <= k <= 8,
    ensures
        spec_tube_mask(d, k) <= (if k <= 0 {
            0
        } else if k == 1 {
            1
        } else if k == 2 {
            3
        } else if k == 3 {
            7
        } else if k == 4 {
            0xF
        } else if k == 5 {
            0x1F
        } else if k == 6 {
            0x3F
        } else if k == 7 {
            0x7F
        } else {
            0xFFint
        }),
    decreases k,
{
    if k > 0 {
        lemma_tube_mask_bound(d, k - 1);
    }
}

} // verus!
