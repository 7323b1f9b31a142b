//! The packed block header: one machine word describing the allocation
//! state and the payload size of a single heap block.
//!
//! The encoding is a stability contract of the allocator: bit 0 is the
//! state flag (0 = free, 1 = used) and bits 1..31 hold the payload size in
//! bytes, so a header is `size * 2 + flag`.

use vstd::prelude::*;

verus! {

/// Largest payload size that fits in the 31 size bits of a header.
pub const MAX_BLOCK_SIZE: usize = 0x7FFF_FFFF;

/// Allocation state of a block, decoded from bit 0 of its header.
#[derive(Debug, Clone, Copy, Eq, PartialEq, Structural)]
pub enum State {
    /// The payload after the header is available for new allocations.
    Free,
    /// The payload after the header holds live data.
    Used,
}

/// An (un)allocated block header: a compact `u32` holding the state flag
/// in bit 0 and the payload size in the remaining bits.  Headers are
/// written verbatim into the heap buffer, so this exact layout matters.
#[derive(Debug, Clone, Copy, PartialEq, Eq, Structural)]
pub struct Entry(pub u32);

impl Entry {
    /// Payload size in bytes, decoded from bits 1..31.
    pub open spec fn spec_size(self) -> int {
        self.0 as int / 2
    }

    /// True when bit 0 is clear, marking the block free.
    pub open spec fn spec_is_free(self) -> bool {
        self.0 as int % 2 == 0
    }

    /// State decoded from bit 0.
    pub open spec fn spec_state(self) -> State {
        if self.spec_is_free() {
            State::Free
        } else {
            State::Used
        }
    }

    /// Create a free header with the given payload size.
    pub fn free(size: usize) -> (r: Self)
        requires
            size <= MAX_BLOCK_SIZE,
        ensures
            r.spec_is_free(),
            r.spec_size() == size,
            r.0 == size * 2,
    {
        Entry((size as u32) * 2)
    }

    /// Create a used header with the given payload size.
    pub fn used(size: usize) -> (r: Self)
        requires
            size <= MAX_BLOCK_SIZE,
        ensures
            !r.spec_is_free(),
            r.spec_size() == size,
            r.0 == size * 2 + 1,
    {
        Entry((size as u32) * 2 + 1)
    }

    /// Query the allocation state of this block.
    pub fn state(self) -> (r: State)
        ensures
            r == self.spec_state(),
    {
        if self.0 % 2 == 0 {
            State::Free
        } else {
            State::Used
        }
    }

    /// Query the payload size of this block, excluding the header itself.
    pub fn size(self) -> (r: usize)
        ensures
            r == self.spec_size(),
    {
        (self.0 / 2) as usize
    }

    /// The four bytes of this header in little-endian order.
    pub fn as_raw(self) -> (r: [u8; 4])
        ensures
            r[0] == self.0 as int % 256,
            r[1] == self.0 as int / 256 % 256,
            r[2] == self.0 as int / 65536 % 256,
            r[3] == self.0 as int / 16777216 % 256,
    {
        [
            (self.0 % 256) as u8,
            (self.0 / 256 % 256) as u8,
            (self.0 / 65536 % 256) as u8,
            (self.0 / 16777216 % 256) as u8,
        ]
    }

    /// Render this header the way a derived debug format would show its
    /// decoded fields, for diagnostics.
    pub fn describe(self) -> String {
        let tag = if self.0 % 2 == 0 {
            "Free"
        } else {
            "Used"
        };
        describe_entry(tag, self.size())
    }
}

/// Relies on the `format!` macro of std to join the decoded state tag and
/// the decimal payload size into one line.
#[verifier::external_body]
fn describe_entry(tag: &str, size: usize) -> String {
    format!("Entry {{ state: {}, size: {} }}", tag, size)
}

/// The two constructors and the two accessors are exact inverses: for any
/// payload size that fits the 31 size bits, a free header reads back as
/// free with that size, and a used header as used with that size.
pub proof fn lemma_header_encoding(size: int)
    requires
        0 <= size <= MAX_BLOCK_SIZE,
    ensures
        Entry((size * 2) as u32).spec_size() == size,
        Entry((size * 2) as u32).spec_state() == State::Free,
        Entry((size * 2 + 1) as u32).spec_size() == size,
        Entry((size * 2 + 1) as u32).spec_state() == State::Used,
{
}

} // verus!
