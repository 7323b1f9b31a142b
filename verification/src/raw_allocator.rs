//! The raw allocator: best-fit search, allocation and free/coalesce over
//! one [`Buffer`], oblivious to alignment.  Every payload it hands out is
//! 4-byte aligned simply because headers are one word and the buffer is
//! word-aligned.

use vstd::prelude::*;

use crate::buffer::{
    block_index, chain_contains_ptr, chain_end, has_block_at, is_cursor, iter_index,
    lemma_buffer_block_index, lemma_chain_tiling, ptr_block_index, BlockView, Buffer,
    ValidatedOffset, HEADER_SIZE,
};
use crate::entry::{Entry, State};

verus! {

/// An error reported by [`RawAllocator::free`].
#[derive(Debug, Clone, Copy, PartialEq, Eq, Structural)]
pub enum FreeError {
    /// An already freed-up block was freed again.
    DoubleFreeDetected,
    /// The pointer being freed lies in no block's payload: it is outside
    /// the heap, points at a header, or is stale.
    AllocationNotFound,
}

/// Requested sizes are rounded up to the next multiple of the header
/// size, which keeps the splitting arithmetic exact and every payload
/// 4-byte aligned.
pub open spec fn spec_round_up(n: int) -> int {
    (n + 3) / 4 * 4
}

/// Block `i` can serve a rounded request of `r` bytes: it is free and
/// large enough.
pub open spec fn is_candidate(c: Seq<BlockView>, r: int, i: int) -> bool {
    0 <= i < c.len() && c[i].free && c[i].size >= r
}

/// Some block of `c` can serve a rounded request of `r` bytes.
pub open spec fn has_candidate(c: Seq<BlockView>, r: int) -> bool {
    exists|i: int| is_candidate(c, r, i)
}

/// Block `i` is the block the search picks for a rounded request of `r`
/// bytes: a candidate of smallest size, and the earliest in the scan
/// among candidates of that size.
pub open spec fn is_best_fit(c: Seq<BlockView>, r: int, i: int) -> bool {
    &&& is_candidate(c, r, i)
    &&& forall|j: int| is_candidate(c, r, j) ==> c[i].size <= #[trigger] c[j].size
    &&& forall|j: int| 0 <= j < i && is_candidate(c, r, j) ==> #[trigger] c[j].size > c[i].size
}

/// The block the search picks for a rounded request of `r` bytes.
pub open spec fn best_fit_index(c: Seq<BlockView>, r: int) -> int {
    choose|i: int| is_best_fit(c, r, i)
}

/// At most one block is the best fit.
pub proof fn lemma_best_fit_unique(c: Seq<BlockView>, r: int, i: int, j: int)
    requires
        is_best_fit(c, r, i),
        is_best_fit(c, r, j),
    ensures
        i == j,
{
    if i < j {
        assert(c[i].size > c[j].size);
        assert(c[j].size <= c[i].size);
    } else if j < i {
        assert(c[j].size > c[i].size);
        assert(c[i].size <= c[j].size);
    }
}

/// Whenever any block can serve a request, some block is the best fit
/// for it.
pub proof fn lemma_best_fit_exists(c: Seq<BlockView>, r: int)
    requires
        0 <= r,
        has_candidate(c, r),
    ensures
        is_best_fit(c, r, best_fit_index(c, r)),
{
    let k = choose|k: int| is_candidate(c, r, k);
    lemma_best_fit_exists_from(c, r, k);
    let i = choose|i: int| is_best_fit(c, r, i);
    assert(is_best_fit(c, r, best_fit_index(c, r)));
}

/// Starting from any candidate, a best fit can be found: as long as the
/// candidate at hand is not it, there is a smaller or earlier equal one
/// to move to.
proof fn lemma_best_fit_exists_from(c: Seq<BlockView>, r: int, k: int)
    requires
        0 <= r,
        is_candidate(c, r, k),
    ensures
        exists|i: int| is_best_fit(c, r, i),
    decreases c[k].size * (c.len() + 1) + k,
{
    if !is_best_fit(c, r, k) {
        if exists|j: int| is_candidate(c, r, j) && c[j].size < c[k].size {
            let j = choose|j: int| is_candidate(c, r, j) && c[j].size < c[k].size;
            assert(0 <= c[j].size * (c.len() + 1) + j < c[k].size * (c.len() + 1) + k)
                by (nonlinear_arith)
                requires
                    0 <= c[j].size < c[k].size,
                    0 <= j < c.len(),
                    0 <= k,
            ;
            lemma_best_fit_exists_from(c, r, j);
        } else {
            assert(forall|j: int|
                is_candidate(c, r, j) ==> c[k].size <= #[trigger] c[j].size);
            let j = choose|j: int|
                0 <= j < k && is_candidate(c, r, j) && !(c[j].size > c[k].size);
            assert(c[j].size == c[k].size);
            lemma_best_fit_exists_from(c, r, j);
        }
    }
}

/// An allocation that asks for exactly the size of some free block
/// succeeds, and the block the search picks is used whole: the chain
/// keeps its length, with no trailing free block split off.
pub proof fn lemma_exact_fit(c: Seq<BlockView>, n: int, k: int)
    requires
        0 <= n,
        0 <= k < c.len(),
        c[k].free,
        c[k].size == spec_round_up(n),
    ensures
        has_candidate(c, spec_round_up(n)),
        ({
            let rd = spec_round_up(n);
            let i = best_fit_index(c, rd);
            &&& is_best_fit(c, rd, i)
            &&& c[i].size == rd
            &&& spec_alloc_chain(c, rd, i) == c.update(
                i,
                BlockView { offset: c[i].offset, free: false, size: rd },
            )
            &&& spec_alloc_chain(c, rd, i).len() == c.len()
        }),
{
    let rd = spec_round_up(n);
    assert(rd >= 0);
    assert(is_candidate(c, rd, k));
    lemma_best_fit_exists(c, rd);
    let i = best_fit_index(c, rd);
    assert(c[i].size <= c[k].size);
}

/// A request larger than every free block fails: in particular, asking
/// for one byte more than the largest free block can never be served.
pub proof fn lemma_oversized_request_fails(c: Seq<BlockView>, n: int)
    requires
        forall|i: int| 0 <= i < c.len() && #[trigger] c[i].free ==> c[i].size < n,
    ensures
        !has_candidate(c, spec_round_up(n)),
{
    assert(spec_round_up(n) >= n);
}

/// The chain after a successful allocation from block `i`: the block is
/// marked used with the rounded size, and the leftover becomes a fresh
/// free block right after it — possibly one with an empty payload, when
/// the fit left exactly one header of room.  No leftover smaller than
/// one header can arise, as all sizes are multiples of the header size.
pub open spec fn spec_alloc_chain(c: Seq<BlockView>, r: int, i: int) -> Seq<BlockView> {
    let b = c[i];
    let used = BlockView { offset: b.offset, free: false, size: r };
    let o2 = b.offset + HEADER_SIZE + r;
    if b.size == r {
        c.update(i, used)
    } else {
        c.take(i) + seq![used, BlockView { offset: o2, free: true, size: b.size - r - HEADER_SIZE }]
            + c.skip(i + 1)
    }
}

/// The chain after freeing the used block `i`: it becomes free again,
/// absorbing its right neighbour if that neighbour is free — and only
/// then; a free left neighbour is deliberately not merged, as finding it
/// would take a second scan from offset 0.
pub open spec fn spec_free_chain(c: Seq<BlockView>, i: int) -> Seq<BlockView> {
    let b = c[i];
    if i + 1 < c.len() && c[i + 1].free {
        c.take(i) + seq![
            BlockView { offset: b.offset, free: true, size: b.size + HEADER_SIZE + c[i + 1].size },
        ] + c.skip(i + 2)
    } else {
        c.update(i, BlockView { offset: b.offset, free: true, size: b.size })
    }
}

/// The tiling of the raw allocator's chain, inherited from its buffer:
/// consecutive blocks from offset 0, all in bounds, the walk ending
/// exactly at the capacity.
pub proof fn lemma_raw_tiling(a: &RawAllocator)
    requires
        a.wf(),
    ensures
        a@.len() > 0,
        a@[0].offset == 0,
        chain_end(a@, 0) == a.spec_capacity(),
        forall|i: int| 0 < i < a@.len() ==> #[trigger] a@[i].offset == a@[i - 1].end(),
        forall|i: int| 0 <= i < a@.len() ==> {
            let blk = #[trigger] a@[i];
            &&& 0 <= blk.offset
            &&& blk.offset % 4 == 0
            &&& blk.size % 4 == 0
            &&& 0 <= blk.size
            &&& blk.end() <= a.spec_capacity()
        },
        8 <= a.spec_capacity() <= 0x8000_0000,
{
    lemma_chain_tiling(&a.buffer);
}

/// In a well-formed buffer, payload ranges of distinct blocks are
/// disjoint: at most one block's payload contains any given address.
pub proof fn lemma_ptr_block_unique(b: &Buffer, p: int)
    requires
        b.wf(),
        chain_contains_ptr(b@, p),
    ensures
        0 <= ptr_block_index(b@, p) < b@.len(),
        b@[ptr_block_index(b@, p)].payload_contains(p),
        forall|j: int|
            0 <= j < b@.len() && j != ptr_block_index(b@, p) ==> !b@[j].payload_contains(p),
{
    lemma_chain_tiling(b);
    let c = b@;
    let i = ptr_block_index(c, p);
    assert(0 <= i < c.len() && c[i].payload_contains(p));
    assert forall|j: int| 0 <= j < c.len() && j != i implies !c[j].payload_contains(p) by {
        if j < i {
            lemma_ends_before(b, j, i);
        } else {
            lemma_ends_before(b, i, j);
        }
    }
}

/// In a well-formed buffer an earlier block ends no later than a later
/// block starts.
pub proof fn lemma_ends_before(b: &Buffer, i: int, j: int)
    requires
        b.wf(),
        0 <= i < j < b@.len(),
    ensures
        b@[i].end() <= b@[j].offset,
    decreases j - i,
{
    lemma_chain_tiling(b);
    if j > i + 1 {
        lemma_ends_before(b, i, j - 1);
    }
}

/// The chain a split or in-place rewrite produces for block `i` is
/// exactly the allocation result chain, and the block at index `i` is
/// now used with the rounded size.
proof fn lemma_mark_matches_alloc_chain(c: Seq<BlockView>, c2: Seq<BlockView>, rd: int, i: int)
    requires
        0 <= i < c.len(),
        0 <= rd <= c[i].size,
        ({
            let b = c[i];
            let used = BlockView { offset: b.offset, free: false, size: rd };
            let leftover = b.size - rd;
            let o2 = b.offset + HEADER_SIZE + rd;
            if leftover == 0 {
                c2 == c.update(i, used)
            } else {
                c2 == c.take(i) + seq![
                    used,
                    BlockView { offset: o2, free: true, size: leftover - HEADER_SIZE },
                ] + c.skip(i + 1)
            }
        }),
    ensures
        c2 == spec_alloc_chain(c, rd, i),
        i < c2.len(),
        c2[i] == (BlockView { offset: c[i].offset, free: false, size: rd }),
{
    let b = c[i];
    let used = BlockView { offset: b.offset, free: false, size: rd };
    let o2 = b.offset + HEADER_SIZE + rd;
    if b.size != rd {
        let mid = seq![
            used,
            BlockView { offset: o2, free: true, size: b.size - rd - HEADER_SIZE },
        ];
        assert((c.take(i) + mid + c.skip(i + 1))[i] == used);
    }
}

/// A raw memory allocator for contiguous byte ranges without any
/// alignment handling, over exactly one buffer that it owns.
pub struct RawAllocator {
    /// The internal buffer abstracting over the raw bytes of the heap.
    buffer: Buffer,
}

impl View for RawAllocator {
    type V = Seq<BlockView>;

    closed spec fn view(&self) -> Seq<BlockView> {
        self.buffer@
    }
}

impl RawAllocator {
    /// The allocator invariant: its buffer is well formed and large
    /// enough for at least one minimal allocation.
    pub closed spec fn wf(&self) -> bool {
        self.buffer.wf() && self.buffer.spec_capacity() >= 8
    }

    /// Heap capacity in bytes.
    pub closed spec fn spec_capacity(&self) -> int {
        self.buffer.spec_capacity()
    }

    /// Create a new raw allocator with a heap of `capacity` bytes,
    /// holding one free block that spans everything after the initial
    /// header.
    pub fn new(capacity: usize) -> (r: Self)
        requires
            capacity >= 8,
            capacity % 4 == 0,
            capacity <= 0x8000_0000,
        ensures
            r.wf(),
            r.spec_capacity() == capacity,
            r@ =~= seq![BlockView { offset: 0, free: true, size: capacity - HEADER_SIZE }],
    {
        let buffer = Buffer::new(capacity);
        RawAllocator { buffer }
    }

    /// Read-only access to the underlying buffer, for walking the chain.
    pub fn buffer(&self) -> (r: &Buffer)
        ensures
            r@ == self@,
            self.wf() ==> r.wf(),
    {
        &self.buffer
    }

    /// Find the best-fit free block for a rounded request of `r` bytes:
    /// the smallest sufficiently large free block, ties broken by lowest
    /// offset.
    fn find_best(&self, r: usize) -> (found: Option<ValidatedOffset>)
        requires
            self.wf(),
        ensures
            ({
                let c = self@;
                if has_candidate(c, r as int) {
                    found matches Some(vo) && has_block_at(c, vo@) && is_best_fit(
                        c,
                        r as int,
                        block_index(c, vo@),
                    )
                } else {
                    found is None
                }
            }),
    {
        let ghost c = self@;
        proof {
            lemma_chain_tiling(&self.buffer);
            if c.len() > 0 {
                assert(has_block_at(c, 0)) by {
                    assert(c[0].offset == 0);
                }
                lemma_buffer_block_index(&self.buffer, 0);
            }
        }
        let mut it = self.buffer.entries();
        let mut best: Option<ValidatedOffset> = None;
        let mut best_size: usize = 0;
        let ghost mut best_i: int = 0;
        let ghost mut k: int = 0;
        loop
            invariant
                self.wf(),
                c == self@,
                is_cursor(c, 0, it@),
                iter_index(c, it@) == k,
                0 <= k <= c.len(),
                best is None ==> forall|j: int| 0 <= j < k ==> !is_candidate(c, r as int, j),
                best matches Some(vo) ==> {
                    &&& 0 <= best_i < k
                    &&& is_candidate(c, r as int, best_i)
                    &&& vo@ == c[best_i].offset
                    &&& has_block_at(c, vo@)
                    &&& best_size == c[best_i].size
                    &&& forall|j: int|
                        0 <= j < k && is_candidate(c, r as int, j)
                            ==> #[trigger] c[j].size >= best_size
                    &&& forall|j: int|
                        0 <= j < best_i && is_candidate(c, r as int, j)
                            ==> #[trigger] c[j].size > best_size
                },
            ensures
                k == c.len(),
                best is None ==> !has_candidate(c, r as int),
                best matches Some(vo) ==> is_best_fit(c, r as int, best_i) && vo@ == c[
                    best_i
                ].offset && has_block_at(c, vo@),
            decreases c.len() - k,
        {
            match it.next(&self.buffer) {
                None => {
                    break;
                },
                Some(vo) => {
                    let e = self.buffer.entry_at(vo);
                    proof {
                        lemma_buffer_block_index(&self.buffer, vo@);
                        assert(block_index(c, vo@) == k);
                    }
                    if e.state() == State::Free && e.size() >= r {
                        let better = match best {
                            None => true,
                            Some(_) => e.size() < best_size,
                        };
                        if better {
                            best = Some(vo);
                            best_size = e.size();
                            proof {
                                best_i = k;
                            }
                        }
                    }
                    proof {
                        k = k + 1;
                    }
                },
            }
        }
        proof {
            match best {
                Some(vo) => {
                    assert(is_best_fit(c, r as int, best_i));
                    lemma_buffer_block_index(&self.buffer, vo@);
                    assert(block_index(c, vo@) == best_i);
                },
                None => {},
            }
        }
        best
    }

    /// Allocate a contiguous block of `n` bytes, rounded up to the next
    /// multiple of the header size.  The smallest sufficiently large
    /// free block is chosen, ties broken by lowest offset; it is marked
    /// used and its payload range (start offset and length) is returned.
    /// When no free block is large enough, no space is left: a normal
    /// outcome, reported as nothing, with the heap unchanged.
    #[verifier::rlimit(80)]
    pub fn allocate(&mut self, n: usize) -> (r: Option<(usize, usize)>)
        requires
            old(self).wf(),
            n + 3 <= usize::MAX,
        ensures
            final(self).wf(),
            final(self).spec_capacity() == old(self).spec_capacity(),
            ({
                let c = old(self)@;
                let rd = spec_round_up(n as int);
                if has_candidate(c, rd) {
                    let i = best_fit_index(c, rd);
                    &&& is_best_fit(c, rd, i)
                    &&& r matches Some(m) && m.0 == c[i].offset + HEADER_SIZE && m.1 == rd
                    &&& final(self)@ == spec_alloc_chain(c, rd, i)
                } else {
                    r is None && final(self)@ == c
                }
            }),
    {
        let rounded = (n + (HEADER_SIZE - 1)) / HEADER_SIZE * HEADER_SIZE;
        let ghost c = self@;
        let ghost rd = spec_round_up(n as int);
        assert(rounded == rd);
        match self.find_best(rounded) {
            None => None,
            Some(vo) => {
                let ghost i = block_index(c, vo@);
                proof {
                    lemma_best_fit_unique(c, rd, i, best_fit_index(c, rd));
                    assert(rounded % 4 == 0);
                    lemma_chain_tiling(&self.buffer);
                }
                self.buffer.mark_as_used(vo, rounded);
                proof {
                    let c2 = self@;
                    lemma_mark_matches_alloc_chain(c, c2, rd, i);
                    assert(has_block_at(c2, vo@)) by {
                        assert(c2[i].offset == vo@);
                    }
                    lemma_buffer_block_index(&self.buffer, vo@);
                    assert(block_index(c2, vo@) == i) by {
                        if block_index(c2, vo@) != i {
                            assert(c2[i].offset != vo@);
                        }
                    }
                }
                Some(self.buffer.memory_of(vo))
            },
        }
    }

    /// Find the block whose payload range contains the byte address
    /// `ptr`, scanning the chain from offset 0.
    fn find_containing(&self, ptr: usize) -> (found: Option<ValidatedOffset>)
        requires
            self.wf(),
        ensures
            ({
                let c = self@;
                if chain_contains_ptr(c, ptr as int) {
                    found matches Some(vo) && has_block_at(c, vo@) && block_index(c, vo@)
                        == ptr_block_index(c, ptr as int)
                } else {
                    found is None
                }
            }),
    {
        let ghost c = self@;
        proof {
            lemma_chain_tiling(&self.buffer);
            if c.len() > 0 {
                assert(has_block_at(c, 0)) by {
                    assert(c[0].offset == 0);
                }
                lemma_buffer_block_index(&self.buffer, 0);
            }
        }
        let mut it = self.buffer.entries();
        let ghost mut k: int = 0;
        loop
            invariant
                self.wf(),
                c == self@,
                is_cursor(c, 0, it@),
                iter_index(c, it@) == k,
                0 <= k <= c.len(),
                forall|j: int| 0 <= j < k ==> !#[trigger] c[j].payload_contains(ptr as int),
            ensures
                forall|j: int| 0 <= j < c.len() ==> !#[trigger] c[j].payload_contains(ptr as int),
            decreases c.len() - k,
        {
            match it.next(&self.buffer) {
                None => {
                    break;
                },
                Some(vo) => {
                    proof {
                        lemma_buffer_block_index(&self.buffer, vo@);
                        assert(block_index(c, vo@) == k);
                        assert(c[k].end() <= self.spec_capacity()
                            && self.spec_capacity() <= 0x8000_0000) by {
                            lemma_chain_tiling(&self.buffer);
                        }
                    }
                    let m = self.buffer.memory_of(vo);
                    proof {
                        assert(m.0 + m.1 == c[k].end());
                    }
                    if m.0 <= ptr && ptr < m.0 + m.1 {
                        proof {
                            assert(c[k].payload_contains(ptr as int));
                            lemma_ptr_block_unique(&self.buffer, ptr as int);
                            assert(ptr_block_index(c, ptr as int) == k) by {
                                if ptr_block_index(c, ptr as int) != k {
                                    assert(!c[k].payload_contains(ptr as int));
                                }
                            }
                        }
                        return Some(vo);
                    }
                    proof {
                        k = k + 1;
                    }
                },
            }
        }
        proof {
            assert(!chain_contains_ptr(c, ptr as int));
        }
        None
    }

    /// Free a pointer inside a used block's payload.  The chain is
    /// scanned for the one block whose payload range contains `ptr` —
    /// interior pointers included, as the alignment-adapting wrapper
    /// hands out pointers offset from a payload's start.  A pointer in
    /// no payload is reported as not found; a block already free is
    /// reported as a double free and left untouched.  Otherwise the
    /// block becomes free, absorbing its right neighbour if that one is
    /// free; a free left neighbour is deliberately not merged, as
    /// finding it would take a second scan from offset 0.
    #[verifier::rlimit(80)]
    pub fn free(&mut self, ptr: usize) -> (r: Result<(), FreeError>)
        requires
            old(self).wf(),
        ensures
            final(self).wf(),
            final(self).spec_capacity() == old(self).spec_capacity(),
            ({
                let c = old(self)@;
                if !chain_contains_ptr(c, ptr as int) {
                    r == Err::<(), FreeError>(FreeError::AllocationNotFound) && final(self)@ == c
                } else {
                    let i = ptr_block_index(c, ptr as int);
                    &&& c[i].payload_contains(ptr as int)
                    &&& if c[i].free {
                        r == Err::<(), FreeError>(FreeError::DoubleFreeDetected)
                            && final(self)@ == c
                    } else {
                        r == Ok::<(), FreeError>(()) && final(self)@ == spec_free_chain(c, i)
                    }
                }
            }),
    {
        let ghost c = self@;
        match self.find_containing(ptr) {
            None => Err(FreeError::AllocationNotFound),
            Some(vo) => {
                let ghost fi = ptr_block_index(c, ptr as int);
                proof {
                    lemma_ptr_block_unique(&self.buffer, ptr as int);
                }
                let e = self.buffer.entry_at(vo);
                if e.state() == State::Free {
                    return Err(FreeError::DoubleFreeDetected);
                }
                proof {
                    lemma_chain_tiling(&self.buffer);
                    if fi + 1 < c.len() {
                        lemma_ends_before(&self.buffer, fi, fi + 1);
                        assert(c[fi].size + HEADER_SIZE + c[fi + 1].size
                            <= old(self).spec_capacity());
                    }
                }
                let additional = match self.buffer.following_free_entry(vo) {
                    Some(e2) => e2.size() + HEADER_SIZE,
                    None => 0,
                };
                self.buffer.set_entry_at(vo, Entry::free(e.size() + additional));
                Ok(())
            },
        }
    }
}

} // verus!
