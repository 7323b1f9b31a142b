//! The public allocator: the conventional allocate/deallocate surface
//! over one [`RawAllocator`], adapting requested alignments.
//!
//! The raw allocator already guarantees 4-byte alignment for every
//! payload, so small alignments pass through unchanged; larger ones are
//! satisfied by conservatively over-allocating `align` extra bytes and
//! handing out the first aligned address inside the block.  Allocation
//! failure is a normal outcome reported as nothing, and deallocation
//! never fails visibly: anomalies the raw layer detects are swallowed
//! here, as a deallocation interface must not fail.
//!
//! The allocator is purely synchronous; an embedding that shares one
//! instance between contexts wraps it in its own mutual-exclusion
//! primitive and holds the lock for the full duration of each call.

use vstd::prelude::*;

use crate::buffer::{chain_contains_ptr, ptr_block_index, BlockView, HEADER_SIZE};
use crate::raw_allocator::{
    best_fit_index, has_candidate, is_best_fit, lemma_raw_tiling, spec_alloc_chain,
    spec_free_chain, spec_round_up, RawAllocator,
};

verus! {

/// True when `n` is a power of two.
pub open spec fn is_power_of_two(n: int) -> bool
    decreases n,
{
    if n <= 0 {
        false
    } else if n == 1 {
        true
    } else {
        n % 2 == 0 && is_power_of_two(n / 2)
    }
}

/// The first multiple of `align` at or after `addr`.
pub open spec fn spec_align_up(addr: int, align: int) -> int {
    addr + (align - addr % align) % align
}

/// The memory allocator for freestanding systems: a raw allocator plus
/// alignment adaptation, with a heap capacity fixed at construction.
pub struct Allocator {
    /// The internal raw allocator.
    raw: RawAllocator,
}

impl View for Allocator {
    type V = Seq<BlockView>;

    closed spec fn view(&self) -> Seq<BlockView> {
        self.raw@
    }
}

impl Allocator {
    /// The allocator invariant, inherited from the raw layer.
    pub closed spec fn wf(&self) -> bool {
        self.raw.wf()
    }

    /// Heap capacity in bytes.
    pub closed spec fn spec_capacity(&self) -> int {
        self.raw.spec_capacity()
    }

    /// Create a new allocator with exactly `capacity` bytes of heap.
    /// The usable size is smaller, as each allocation spends one header
    /// of bookkeeping inside that area.
    pub fn new(capacity: usize) -> (r: Self)
        requires
            capacity >= 8,
            capacity % 4 == 0,
            capacity <= 0x8000_0000,
        ensures
            r.wf(),
            r.spec_capacity() == capacity,
            r@ =~= seq![BlockView { offset: 0, free: true, size: capacity - HEADER_SIZE }],
    {
        let raw = RawAllocator::new(capacity);
        Allocator { raw }
    }

    /// Round an address up to the given alignment.
    pub fn align_to(addr: usize, align: usize) -> (r: usize)
        requires
            align >= 1,
            addr + align <= usize::MAX,
        ensures
            r == spec_align_up(addr as int, align as int),
            r % align == 0,
            addr <= r < addr + align,
            addr % align == 0 ==> r == addr,
    {
        let mismatch = addr % align;
        let offset = if mismatch == 0 {
            0
        } else {
            align - mismatch
        };
        proof {
            let a = addr as int;
            let al = align as int;
            let m = a % al;
            assert(0 <= m < al);
            if m != 0 {
                assert((a + (al - m)) % al == 0) by (nonlinear_arith)
                    requires
                        al >= 1,
                        m == a % al,
                ;
                assert((al - m) % al == al - m) by (nonlinear_arith)
                    requires
                        0 < al - m < al,
                ;
            } else {
                assert(al % al == 0) by (nonlinear_arith)
                    requires
                        al >= 1,
                ;
            }
        }
        addr + offset
    }

    /// Allocate `size` bytes aligned to `align`, a power of two.  For
    /// alignments up to one word the raw allocator's own alignment
    /// suffices and the request passes through unchanged; for larger
    /// ones, `align` extra bytes are over-allocated so that an aligned
    /// address certainly exists inside the block, and that address is
    /// returned.  The result is the address and the requested length,
    /// or nothing exactly when no free block can serve the (adjusted)
    /// request.
    #[verifier::rlimit(80)]
    pub fn allocate(&mut self, size: usize, align: usize) -> (r: Option<(usize, usize)>)
        requires
            old(self).wf(),
            is_power_of_two(align as int),
            size + align <= usize::MAX - 3,
        ensures
            final(self).wf(),
            final(self).spec_capacity() == old(self).spec_capacity(),
            ({
                let c = old(self)@;
                let eff = if align > 4 {
                    size + align
                } else {
                    size as int
                };
                let rd = spec_round_up(eff);
                if has_candidate(c, rd) {
                    let i = best_fit_index(c, rd);
                    &&& is_best_fit(c, rd, i)
                    &&& r matches Some(m) && m.1 == size && m.0 % align == 0
                        && c[i].offset + HEADER_SIZE <= m.0
                        && m.0 + size <= c[i].offset + HEADER_SIZE + rd
                    &&& final(self)@ == spec_alloc_chain(c, rd, i)
                } else {
                    r is None && final(self)@ == c
                }
            }),
    {
        let effective = if align > 4 {
            size + align
        } else {
            size
        };
        let ghost c = self@;
        let ghost rd = spec_round_up(if align > 4 {
            size + align
        } else {
            size as int
        });
        proof {
            lemma_raw_tiling(&self.raw);
        }
        match self.raw.allocate(effective) {
            None => None,
            Some(m) => {
                let ghost i = best_fit_index(c, rd);
                proof {
                    assert(c[i].offset % 4 == 0);
                    assert((m.0 as int) % 4 == 0);
                }
                if align > 4 {
                    proof {
                        assert(align <= rd) by {
                            assert(rd >= size + align);
                        }
                        assert(m.0 + align <= c[i].end() + HEADER_SIZE
                            <= self.spec_capacity() + HEADER_SIZE);
                    }
                    let aligned = Self::align_to(m.0, align);
                    proof {
                        assert(aligned + size <= m.0 + rd) by {
                            assert(aligned < m.0 + align);
                            assert(rd >= size + align);
                        }
                    }
                    Some((aligned, size))
                } else {
                    proof {
                        let p = m.0 as int;
                        if align == 3 {
                            assert(!is_power_of_two(3));
                        }
                        if align == 2 {
                            assert(p % 2 == 0) by (nonlinear_arith)
                                requires
                                    p % 4 == 0,
                            ;
                        }
                        assert(rd >= size) by {
                            assert(spec_round_up(size as int) >= size);
                        }
                    }
                    Some((m.0, size))
                }
            },
        }
    }

    /// Hand a previously allocated address back.  The address is the
    /// one `allocate` returned, which may lie inside the block rather
    /// than at its start; the raw layer's interior-pointer support is
    /// exactly what makes the alignment adjustment reversible.  Any
    /// anomaly the raw layer reports — an unknown address, a double
    /// free — is swallowed: the heap is then simply left unchanged.
    pub fn deallocate(&mut self, ptr: usize)
        requires
            old(self).wf(),
        ensures
            final(self).wf(),
            final(self).spec_capacity() == old(self).spec_capacity(),
            ({
                let c = old(self)@;
                if chain_contains_ptr(c, ptr as int) && !c[ptr_block_index(c, ptr as int)].free {
                    final(self)@ == spec_free_chain(c, ptr_block_index(c, ptr as int))
                } else {
                    final(self)@ == c
                }
            }),
    {
        let _ = self.raw.free(ptr);
    }
}

/// The tiling of the allocator's block chain: whatever sequence of
/// allocations and deallocations produced the state, the blocks found
/// by traversal are consecutive from offset 0, all within the capacity,
/// and the walk stops exactly at the capacity — no gap, no overlap, no
/// unreachable region.
pub proof fn lemma_allocator_tiling(a: &Allocator)
    requires
        a.wf(),
    ensures
        a@.len() > 0,
        a@[0].offset == 0,
        crate::buffer::chain_end(a@, 0) == a.spec_capacity(),
        forall|i: int| 0 < i < a@.len() ==> #[trigger] a@[i].offset == a@[i - 1].end(),
        forall|i: int| 0 <= i < a@.len() ==> {
            let blk = #[trigger] a@[i];
            &&& 0 <= blk.offset
            &&& blk.offset % 4 == 0
            &&& blk.size % 4 == 0
            &&& 0 <= blk.size
            &&& blk.end() <= a.spec_capacity()
        },
        8 <= a.spec_capacity() <= 0x8000_0000,
{
    lemma_raw_tiling(&a.raw);
}

} // verus!
