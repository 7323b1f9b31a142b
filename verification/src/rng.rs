//! The board's hardware random source and the pure mixing steps applied
//! to its raw draws.  Reading the entropy register itself is left to the
//! embedding program; the functions here say exactly how raw words are
//! combined into wider values and into bytes.

use vstd::prelude::*;

verus! {

/// The board's hardware random source.  Each draw reads the entropy
/// register; the embedding program performs the reads and feeds them
/// through the mixing functions below.
pub struct FpgaRng;

/// A handle on the board's hardware random source.
pub fn rng() -> FpgaRng {
    FpgaRng
}

/// Combine three raw draws into one 64-bit value: the first draw forms
/// the high word, the other two are folded into the low word.
pub fn mix_u64(v1: u32, v2: u32, v3: u32) -> (r: u64)
    ensures
        r == (v1 as u64) << 32 | ((v2 ^ v3) as u64),
{
    (v1 as u64) << 32 | ((v2 ^ v3) as u64)
}

/// Fold one raw draw into a byte, taking two low-entropy bits from each
/// of its four bytes.
pub fn fold_entropy_byte(v: u32) -> (r: u8)
    ensures
        r == (((v >> 24) & 0x3) << 6 | ((v >> 16) & 0x3) << 4 | ((v >> 8) & 0x3) << 2 | (v
            & 0x3)) as u8,
{
    let p1 = (v >> 24) & 0x3;
    let p2 = (v >> 16) & 0x3;
    let p3 = (v >> 8) & 0x3;
    let p4 = v & 0x3;
    (p1 << 6 | p2 << 4 | p3 << 2 | p4) as u8
}

} // verus!
