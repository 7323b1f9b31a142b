//! The heap arena: a fixed-capacity, 4-byte-aligned byte region holding a
//! gap-free sequence of blocks, each a packed [`Entry`] header followed by
//! its payload bytes.
//!
//! The arena is stored as whole words, matching the 4-byte header size and
//! the 4-byte alignment guarantee of the allocator; byte offsets into the
//! region are the addresses the allocator hands out.  Block boundaries are
//! discovered only by walking the chain from offset 0, and every offset so
//! discovered is wrapped in a [`ValidatedOffset`] token.

use vstd::prelude::*;

use crate::entry::{Entry, State};

verus! {

/// The size in bytes of a single block header.
pub const HEADER_SIZE: usize = 4;

/// Mathematical description of one block of the chain: where it starts,
/// whether it is free, and how many payload bytes follow its header.
pub struct BlockView {
    /// Byte offset of the block's header inside the arena.
    pub offset: int,
    /// True when the block is free.
    pub free: bool,
    /// Payload size in bytes.
    pub size: int,
}

impl BlockView {
    /// Byte offset one past the payload: where the next block starts.
    pub open spec fn end(self) -> int {
        self.offset + HEADER_SIZE + self.size
    }

    /// True when the byte address `p` lies inside this block's payload.
    pub open spec fn payload_contains(self, p: int) -> bool {
        self.offset + HEADER_SIZE <= p < self.end()
    }
}

/// The block whose header is the word at byte offset `o`.
pub open spec fn block_at(words: Seq<u32>, o: int) -> BlockView {
    BlockView {
        offset: o,
        free: words[o / 4] as int % 2 == 0,
        size: words[o / 4] as int / 2,
    }
}

/// The chain of blocks discovered by walking the headers from byte offset
/// `o`: each step advances by the header size plus the payload size, and
/// the walk stops once fewer bytes than one header remain.  A header on
/// the last word is still discovered: it carries an empty payload.
pub open spec fn chain_from(words: Seq<u32>, o: int) -> Seq<BlockView>
    decreases 4 * words.len() - o,
{
    let n = 4 * words.len() as int;
    if 0 <= o && o % 4 == 0 && o + HEADER_SIZE <= n {
        let b = block_at(words, o);
        if b.end() <= n {
            seq![b] + chain_from(words, b.end())
        } else {
            seq![b]
        }
    } else {
        Seq::empty()
    }
}

/// Well-formedness of the arena from byte offset `o` on: every header
/// reached by the walk carries a size that is a multiple of the header
/// size and stays in bounds, and the walk ends exactly at the capacity,
/// so that the chain tiles the whole arena with no unreachable region.
pub open spec fn wf_from(words: Seq<u32>, o: int) -> bool
    decreases 4 * words.len() - o,
{
    let n = 4 * words.len() as int;
    &&& 0 <= o
    &&& o % 4 == 0
    &&& if o + HEADER_SIZE <= n {
        let b = block_at(words, o);
        &&& b.size % 4 == 0
        &&& b.end() <= n
        &&& wf_from(words, b.end())
    } else {
        o == n
    }
}

/// The chain of the whole arena, walked from offset 0.
pub open spec fn chain_of(words: Seq<u32>) -> Seq<BlockView> {
    chain_from(words, 0)
}

/// Well-formedness of the whole arena.
pub open spec fn wf_words(words: Seq<u32>) -> bool {
    wf_from(words, 0)
}

/// True when some block of `chain` has its header at byte offset `o`.
pub open spec fn has_block_at(chain: Seq<BlockView>, o: int) -> bool {
    exists|i: int| 0 <= i < chain.len() && chain[i].offset == o
}

/// Index of the block of `chain` whose header is at byte offset `o`.
pub open spec fn block_index(chain: Seq<BlockView>, o: int) -> int {
    choose|i: int| 0 <= i < chain.len() && chain[i].offset == o
}

/// Where the walk that produced `chain` stopped, when it started at
/// `start`: the end of the last block, or `start` itself for an empty
/// chain.
pub open spec fn chain_end(chain: Seq<BlockView>, start: int) -> int {
    if chain.len() == 0 {
        start
    } else {
        chain.last().end()
    }
}

/// True when some block of `chain` contains the byte address `p` in its
/// payload.
pub open spec fn chain_contains_ptr(chain: Seq<BlockView>, p: int) -> bool {
    exists|i: int| 0 <= i < chain.len() && chain[i].payload_contains(p)
}

/// Index of the block of `chain` whose payload contains the byte address
/// `p`.
pub open spec fn ptr_block_index(chain: Seq<BlockView>, p: int) -> int {
    choose|i: int| 0 <= i < chain.len() && chain[i].payload_contains(p)
}

/// Every block of the walk from `o` copies its header from the arena,
/// starts at or after `o` on a word boundary, stays in bounds, and the
/// blocks are consecutive: each one starts where its predecessor ended.
pub proof fn lemma_chain_structure(words: Seq<u32>, o: int)
    ensures
        forall|i: int| 0 <= i < chain_from(words, o).len() ==> {
            let b = #[trigger] chain_from(words, o)[i];
            &&& b == block_at(words, b.offset)
            &&& o <= b.offset
            &&& b.offset % 4 == 0
            &&& b.offset + HEADER_SIZE <= 4 * words.len()
            &&& 0 <= b.size
            &&& if i == 0 {
                b.offset == o
            } else {
                b.offset == chain_from(words, o)[i - 1].end()
            }
        },
    decreases 4 * words.len() - o,
{
    let n = 4 * words.len() as int;
    let c = chain_from(words, o);
    if 0 <= o && o % 4 == 0 && o + HEADER_SIZE <= n {
        let b = block_at(words, o);
        if b.end() <= n {
            lemma_chain_structure(words, b.end());
            let tail = chain_from(words, b.end());
            assert forall|i: int| 0 <= i < c.len() implies {
                let bi = #[trigger] c[i];
                &&& bi == block_at(words, bi.offset)
                &&& o <= bi.offset
                &&& bi.offset % 4 == 0
                &&& bi.offset + HEADER_SIZE <= n
                &&& 0 <= bi.size
                &&& if i == 0 {
                    bi.offset == o
                } else {
                    bi.offset == c[i - 1].end()
                }
            } by {
                if i > 0 {
                    assert(c[i] == tail[i - 1]);
                    if i > 1 {
                        assert(c[i - 1] == tail[i - 2]);
                    }
                }
            }
        }
    }
}

/// Block offsets strictly increase along a chain.
pub proof fn lemma_chain_offsets_increasing(words: Seq<u32>, o: int, i: int, j: int)
    requires
        0 <= i < j < chain_from(words, o).len(),
    ensures
        chain_from(words, o)[i].offset < chain_from(words, o)[j].offset,
        chain_from(words, o)[i].end() <= chain_from(words, o)[j].offset,
    decreases j - i,
{
    lemma_chain_structure(words, o);
    let c = chain_from(words, o);
    if j == i + 1 {
        assert(c[j].offset == c[i].end());
    } else {
        lemma_chain_offsets_increasing(words, o, i, j - 1);
        assert(c[j].offset == c[j - 1].end());
    }
}

/// The block index found for a present offset is the one block with that
/// offset.
pub proof fn lemma_block_index(chain: Seq<BlockView>, words: Seq<u32>, start: int, o: int)
    requires
        chain == chain_from(words, start),
        has_block_at(chain, o),
    ensures
        0 <= block_index(chain, o) < chain.len(),
        chain[block_index(chain, o)].offset == o,
        forall|j: int|
            0 <= j < chain.len() && j != block_index(chain, o) ==> chain[j].offset != o,
{
    let i = block_index(chain, o);
    assert(0 <= i < chain.len() && chain[i].offset == o);
    assert forall|j: int| 0 <= j < chain.len() && j != i implies chain[j].offset != o by {
        if j < i {
            lemma_chain_offsets_increasing(words, start, j, i);
        } else {
            lemma_chain_offsets_increasing(words, start, i, j);
        }
    }
}

/// The walk from `o` reads only words at index `o / 4` and beyond, so two
/// arenas that agree there have the same chain and the same
/// well-formedness from `o`.
pub proof fn lemma_chain_agree(w1: Seq<u32>, w2: Seq<u32>, o: int)
    requires
        w1.len() == w2.len(),
        forall|k: int| 0 <= o / 4 <= k < w1.len() ==> w1[k] == w2[k],
    ensures
        chain_from(w1, o) == chain_from(w2, o),
        wf_from(w1, o) == wf_from(w2, o),
    decreases 4 * w1.len() - o,
{
    let n = 4 * w1.len() as int;
    if 0 <= o && o % 4 == 0 && o + HEADER_SIZE <= n {
        assert(w1[o / 4] == w2[o / 4]);
        let b = block_at(w1, o);
        assert(block_at(w2, o) == b);
        if b.end() <= n {
            lemma_chain_agree(w1, w2, b.end());
        }
    }
}

/// Decomposition under local change.  Take a well-formed arena, a block
/// of its chain at offset `o` and index `i`, and a second arena of the
/// same length that agrees with the first on every word before index
/// `o / 4` and is itself well-formed from `o`.  Then the chain of the
/// second arena is the unchanged prefix of `i` blocks followed by
/// whatever its own walk from `o` yields, and it is well-formed.
///
/// Instantiated with the arena itself this splits a chain at any of its
/// blocks; instantiated with an updated arena it frames every header
/// write of the buffer operations.
pub proof fn lemma_chain_splice(w1: Seq<u32>, w2: Seq<u32>, s: int, o: int, i: int)
    requires
        wf_from(w1, s),
        s <= o,
        0 <= i < chain_from(w1, s).len(),
        chain_from(w1, s)[i].offset == o,
        w2.len() == w1.len(),
        forall|k: int| 0 <= s / 4 <= k < o / 4 ==> w1[k] == w2[k],
        wf_from(w2, o),
    ensures
        chain_from(w2, s) == chain_from(w1, s).take(i) + chain_from(w2, o),
        wf_from(w2, s),
    decreases i,
{
    let n = 4 * w1.len() as int;
    let c1 = chain_from(w1, s);
    lemma_chain_structure(w1, s);
    if i == 0 {
        assert(o == s);
        assert(chain_from(w2, s) =~= c1.take(0) + chain_from(w2, o));
    } else {
        let b = block_at(w1, s);
        let s2 = b.end();
        assert(c1[0].offset == s);
        assert(chain_from(w1, s2) == c1.skip(1)) by {
            assert(c1 == seq![b] + chain_from(w1, s2));
            assert(c1.skip(1) =~= chain_from(w1, s2));
        }
        assert(chain_from(w1, s2)[i - 1].offset == o);
        assert(s2 <= o) by {
            lemma_chain_offsets_increasing(w1, s, 0, i);
        }
        lemma_chain_splice(w1, w2, s2, o, i - 1);
        assert(w1[s / 4] == w2[s / 4]) by {
            assert(s / 4 < s2 / 4 <= o / 4);
        }
        assert(block_at(w2, s) == b);
        assert(chain_from(w2, s) == seq![b] + chain_from(w2, s2));
        assert(chain_from(w2, s) =~= c1.take(i) + chain_from(w2, o)) by {
            assert(chain_from(w2, s2) == chain_from(w1, s2).take(i - 1) + chain_from(w2, o));
            assert(c1.take(i) =~= seq![b] + chain_from(w1, s2).take(i - 1));
        }
    }
}

/// In a well-formed arena the walk stops exactly at the capacity: the
/// chain tiles everything from its start to the arena's end.
pub proof fn lemma_chain_end(words: Seq<u32>, o: int)
    requires
        wf_from(words, o),
    ensures
        chain_end(chain_from(words, o), o) == 4 * words.len(),
        chain_end(chain_from(words, o), o) % 4 == 0,
        o <= chain_end(chain_from(words, o), o),
    decreases 4 * words.len() - o,
{
    let n = 4 * words.len() as int;
    let c = chain_from(words, o);
    if o + HEADER_SIZE <= n {
        let b = block_at(words, o);
        lemma_chain_end(words, b.end());
        let tail = chain_from(words, b.end());
        assert(c == seq![b] + tail);
        if tail.len() == 0 {
            assert(c.last() == b);
        } else {
            assert(c.last() == tail.last());
        }
    }
}

/// True when `off` is a place the chain walk can stand: the start of one
/// of the blocks, or the spot where the walk stopped.
pub open spec fn is_cursor(chain: Seq<BlockView>, start: int, off: int) -> bool {
    has_block_at(chain, off) || off == chain_end(chain, start)
}

/// How many blocks a walk standing at `off` has already passed.
pub open spec fn iter_index(chain: Seq<BlockView>, off: int) -> int {
    if has_block_at(chain, off) {
        block_index(chain, off)
    } else {
        chain.len() as int
    }
}

/// In a well-formed arena every block of the chain ends in bounds.
pub proof fn lemma_wf_blocks(words: Seq<u32>, o: int)
    requires
        wf_from(words, o),
    ensures
        forall|i: int| 0 <= i < chain_from(words, o).len() ==> {
            let b = #[trigger] chain_from(words, o)[i];
            b.end() <= 4 * words.len() && b.size % 4 == 0
        },
    decreases 4 * words.len() - o,
{
    let n = 4 * words.len() as int;
    let c = chain_from(words, o);
    if o + HEADER_SIZE <= n {
        let b = block_at(words, o);
        lemma_wf_blocks(words, b.end());
        let tail = chain_from(words, b.end());
        assert(c == seq![b] + tail);
        assert forall|i: int| 0 < i < c.len() implies {
            let bi = #[trigger] c[i];
            bi.end() <= n && bi.size % 4 == 0
        } by {
            assert(c[i] == tail[i - 1]);
        }
    }
}

/// Dropping `i` blocks from a well-formed chain lands on a well-formed
/// suffix: the walk restarted at the `i`-th block's offset (or at the
/// walk's end) yields exactly the remaining blocks.
pub proof fn lemma_wf_skip(words: Seq<u32>, s: int, i: int)
    requires
        wf_from(words, s),
        0 <= i <= chain_from(words, s).len(),
    ensures
        ({
            let c = chain_from(words, s);
            let o = if i < c.len() {
                c[i].offset
            } else {
                chain_end(c, s)
            };
            wf_from(words, o) && chain_from(words, o) == c.skip(i)
        }),
    decreases i,
{
    let n = 4 * words.len() as int;
    let c = chain_from(words, s);
    if i == 0 {
        assert(c.skip(0) =~= c);
        if c.len() == 0 {
            assert(chain_end(c, s) == s);
        } else {
            assert(c[0].offset == s) by {
                lemma_chain_structure(words, s);
            }
        }
    } else {
        let b = block_at(words, s);
        let s2 = b.end();
        let tail = chain_from(words, s2);
        assert(c == seq![b] + tail);
        assert(tail =~= c.skip(1));
        lemma_wf_skip(words, s2, i - 1);
        let o = if i < c.len() {
            c[i].offset
        } else {
            chain_end(c, s)
        };
        let o2 = if i - 1 < tail.len() {
            tail[i - 1].offset
        } else {
            chain_end(tail, s2)
        };
        assert(o == o2) by {
            if i < c.len() {
                assert(c[i] == tail[i - 1]);
            } else {
                if tail.len() == 0 {
                    assert(chain_end(c, s) == b.end());
                } else {
                    assert(c.last() == tail.last());
                }
            }
        }
        assert(chain_from(words, o) == tail.skip(i - 1));
        assert(tail.skip(i - 1) =~= c.skip(i));
    }
}

/// Rewriting the header of the `i`-th block either in place (same size)
/// or to absorb exactly its right neighbour keeps the arena well formed,
/// and rewrites the chain accordingly.
pub proof fn lemma_header_rewrite(w1: Seq<u32>, o: int, i: int, v: u32)
    requires
        wf_words(w1),
        0 <= i < chain_of(w1).len(),
        chain_of(w1)[i].offset == o,
        ({
            let c = chain_of(w1);
            ||| v as int / 2 == c[i].size
            ||| (i + 1 < c.len()
                && v as int / 2 == c[i].size + HEADER_SIZE + c[i + 1].size)
        }),
    ensures
        ({
            let c = chain_of(w1);
            let w2 = w1.update(o / 4, v);
            let nb = BlockView { offset: o, free: v as int % 2 == 0, size: v as int / 2 };
            &&& wf_words(w2)
            &&& if v as int / 2 == c[i].size {
                chain_of(w2) == c.update(i, nb)
            } else {
                chain_of(w2) == c.take(i) + seq![nb] + c.skip(i + 2)
            }
        }),
{
    let c = chain_of(w1);
    let b = c[i];
    let w2 = w1.update(o / 4, v);
    let nb = BlockView { offset: o, free: v as int % 2 == 0, size: v as int / 2 };
    let n = 4 * w1.len() as int;
    lemma_chain_structure(w1, 0);
    lemma_wf_blocks(w1, 0);
    lemma_wf_skip(w1, 0, i);
    assert(wf_from(w1, o));
    assert(chain_from(w1, o) == c.skip(i));
    assert(chain_from(w1, o)[0] == b);
    assert(block_at(w2, o) == nb);
    if v as int / 2 == b.size {
        // State flip: the walk after this block is untouched.
        assert(nb.end() == b.end());
        lemma_chain_agree(w1, w2, b.end());
        assert(wf_from(w2, o));
        assert(chain_from(w2, o) == seq![nb] + chain_from(w1, b.end()));
        assert(chain_from(w1, b.end()) == chain_from(w1, o).skip(1)) by {
            assert(chain_from(w1, o) == seq![b] + chain_from(w1, b.end()));
            assert((seq![b] + chain_from(w1, b.end())).skip(1) =~= chain_from(w1, b.end()));
        }
        lemma_chain_splice(w1, w2, 0, o, i);
        assert(chain_of(w2) =~= c.update(i, nb));
    } else {
        // Absorb the right neighbour: the merged block ends where the
        // neighbour ended, and the walk resumes there.
        let b2 = c[i + 1];
        assert(b2.offset == b.end());
        assert(chain_from(w1, o).skip(1) == c.skip(i + 1)) by {
            assert(chain_from(w1, o).skip(1) =~= c.skip(i + 1));
        }
        lemma_wf_skip(w1, o, 1);
        assert(wf_from(w1, b2.offset));
        assert(nb.end() == b2.end());
        lemma_chain_agree(w1, w2, b2.end());
        assert(wf_from(w2, o)) by {
            assert(wf_from(w1, b2.end()));
        }
        assert(chain_from(w2, o) == seq![nb] + chain_from(w1, b2.end()));
        assert(chain_from(w1, b2.end()) == c.skip(i + 2)) by {
            lemma_wf_skip(w1, b2.offset, 1);
            assert(chain_from(w1, b2.offset) == c.skip(i + 1));
            assert(chain_from(w1, b2.offset).skip(1) =~= c.skip(i + 2));
            if 1 < c.skip(i + 1).len() {
                assert(c.skip(i + 1)[1] == c[i + 2]);
                assert(c[i + 2].offset == b2.end());
            } else {
                assert(chain_end(c.skip(i + 1), b2.offset) == b2.end());
            }
        }
        lemma_chain_splice(w1, w2, 0, o, i);
        assert(chain_of(w2) =~= c.take(i) + seq![nb] + c.skip(i + 2));
    }
}

/// Local effect of a split: marking the block at `o` as used with a
/// smaller size and writing the leftover as a fresh free header right
/// after it rewrites the walk from `o` into the used block, the leftover
/// block, and the untouched rest.  A leftover of exactly one header
/// still yields a block: one with an empty payload on the last word.
pub proof fn lemma_mark_split_local(w1: Seq<u32>, o: int, size: int)
    requires
        wf_from(w1, o),
        o + HEADER_SIZE <= 4 * w1.len(),
        size % 4 == 0,
        0 <= size,
        size + HEADER_SIZE <= block_at(w1, o).size,
    ensures
        ({
            let b = block_at(w1, o);
            let o2 = o + HEADER_SIZE + size;
            let leftover = b.size - size - HEADER_SIZE;
            let w2 = w1.update(o / 4, (size * 2 + 1) as u32).update(
                o2 / 4,
                (leftover * 2) as u32,
            );
            let used = BlockView { offset: o, free: false, size: size };
            let fb = BlockView { offset: o2, free: true, size: leftover };
            &&& wf_from(w2, o)
            &&& chain_from(w2, o) == seq![used, fb] + chain_from(w1, b.end())
        }),
{
    let n = 4 * w1.len() as int;
    let b = block_at(w1, o);
    let o2 = o + HEADER_SIZE + size;
    let leftover = b.size - size - HEADER_SIZE;
    let w2 = w1.update(o / 4, (size * 2 + 1) as u32).update(o2 / 4, (leftover * 2) as u32);
    let used = BlockView { offset: o, free: false, size: size };
    let fb = BlockView { offset: o2, free: true, size: leftover };
    assert(b.size <= 0x7FFF_FFFF);
    assert(wf_from(w1, b.end()));
    assert(b.end() <= n);
    assert(o2 % 4 == 0);
    assert(o / 4 < o2 / 4);
    assert(o2 / 4 < b.end() / 4);
    assert(block_at(w2, o) == used);
    assert(block_at(w2, o2) == fb);
    assert(fb.end() == b.end());
    lemma_chain_agree(w1, w2, b.end());
    assert(o2 + HEADER_SIZE <= n);
    assert(chain_from(w2, o2) == seq![fb] + chain_from(w1, b.end()));
    assert(wf_from(w2, o2));
    assert(wf_from(w2, o));
    assert(chain_from(w2, o) == seq![used] + chain_from(w2, o2));
    assert(seq![used] + (seq![fb] + chain_from(w1, b.end())) =~= seq![used, fb]
        + chain_from(w1, b.end()));
}

/// The same split seen from the whole chain: the used block and the
/// leftover free block replace the block at index `i`.
pub proof fn lemma_mark_split(w1: Seq<u32>, o: int, i: int, size: int)
    requires
        wf_words(w1),
        0 <= i < chain_of(w1).len(),
        chain_of(w1)[i].offset == o,
        size % 4 == 0,
        0 <= size,
        size + HEADER_SIZE <= chain_of(w1)[i].size,
    ensures
        ({
            let c = chain_of(w1);
            let b = c[i];
            let o2 = o + HEADER_SIZE + size;
            let leftover = b.size - size - HEADER_SIZE;
            let w2 = w1.update(o / 4, (size * 2 + 1) as u32).update(
                o2 / 4,
                (leftover * 2) as u32,
            );
            let used = BlockView { offset: o, free: false, size: size };
            let fb = BlockView { offset: o2, free: true, size: leftover };
            &&& wf_words(w2)
            &&& chain_of(w2) == c.take(i) + seq![used, fb] + c.skip(i + 1)
        }),
{
    let n = 4 * w1.len() as int;
    let c = chain_of(w1);
    let b = c[i];
    let o2 = o + HEADER_SIZE + size;
    let leftover = b.size - size - HEADER_SIZE;
    let w2 = w1.update(o / 4, (size * 2 + 1) as u32).update(o2 / 4, (leftover * 2) as u32);
    let used = BlockView { offset: o, free: false, size: size };
    let fb = BlockView { offset: o2, free: true, size: leftover };
    lemma_wf_skip(w1, 0, i);
    assert(wf_from(w1, o));
    assert(chain_from(w1, o) == c.skip(i));
    assert(chain_from(w1, o)[0] == b);
    assert(b == block_at(w1, o));
    assert(o + HEADER_SIZE <= n);
    lemma_mark_split_local(w1, o, size);
    assert(chain_from(w1, b.end()) == c.skip(i + 1)) by {
        assert(chain_from(w1, o) == seq![b] + chain_from(w1, b.end()));
        assert((seq![b] + chain_from(w1, b.end())).skip(1) =~= chain_from(w1, b.end()));
        assert(chain_from(w1, o).skip(1) =~= c.skip(i + 1));
    }
    lemma_chain_splice(w1, w2, 0, o, i);
    assert(chain_of(w2) =~= c.take(i) + seq![used, fb] + c.skip(i + 1));
}

/// An offset into the [`Buffer`] that is known to address a real block
/// header, because it was produced by walking the chain from offset 0.
/// Nothing else may fabricate one: every buffer operation that takes a
/// `ValidatedOffset` demands that a block of the current chain starts
/// there.
#[derive(Debug, Clone, Copy, PartialEq, Eq, Structural)]
pub struct ValidatedOffset(usize);

impl View for ValidatedOffset {
    type V = int;

    closed spec fn view(&self) -> int {
        self.0 as int
    }
}

impl ValidatedOffset {
    /// The byte offset this token stands for.
    pub fn offset(self) -> (r: usize)
        ensures
            r == self@,
    {
        self.0
    }
}

/// The buffer memory backing the heap: a fixed-capacity arena of whole
/// words, starting with a valid block header at offset 0 and tiled by the
/// block chain for its whole lifetime.
pub struct Buffer {
    words: Vec<u32>,
}

impl View for Buffer {
    type V = Seq<BlockView>;

    closed spec fn view(&self) -> Seq<BlockView> {
        chain_of(self.words@)
    }
}

impl Buffer {
    /// Capacity of the arena in bytes.
    pub closed spec fn spec_capacity(&self) -> int {
        4 * self.words@.len() as int
    }

    /// The arena invariant: the header chain is well formed and the
    /// capacity is at least one header and at most what the header size
    /// field can describe.
    pub closed spec fn wf(&self) -> bool {
        &&& wf_words(self.words@)
        &&& 4 <= self.spec_capacity() <= 0x8000_0000
    }

    /// Capacity of the arena in bytes.
    pub fn capacity(&self) -> (r: usize)
        requires
            self.wf(),
        ensures
            r == self.spec_capacity(),
    {
        self.words.len() * 4
    }

    /// Create a new buffer of `capacity` bytes, holding a single free
    /// block that spans everything after the initial header.
    pub fn new(capacity: usize) -> (r: Self)
        requires
            capacity >= HEADER_SIZE,
            capacity % 4 == 0,
            capacity <= 0x8000_0000,
        ensures
            r.wf(),
            r.spec_capacity() == capacity,
            r@ =~= seq![BlockView { offset: 0, free: true, size: capacity - HEADER_SIZE }],
    {
        let n_words = capacity / 4;
        let mut words: Vec<u32> = Vec::new();
        let mut k: usize = 0;
        while k < n_words
            invariant
                k <= n_words,
                words@.len() == k,
            decreases n_words - k,
        {
            words.push(0);
            k = k + 1;
        }
        let initial = Entry::free(capacity - HEADER_SIZE);
        words.set(0, initial.0);
        let r = Buffer { words };
        proof {
            let w = r.words@;
            assert(block_at(w, 0).size == capacity - 4);
            assert(block_at(w, 0).free);
            assert(block_at(w, 0).end() == capacity);
            assert(chain_from(w, capacity as int) =~= Seq::<BlockView>::empty());
            assert(wf_from(w, capacity as int));
            assert(r@ =~= seq![block_at(w, 0)]);
        }
        r
    }

    /// Read the header of the block at a validated offset.
    pub fn entry_at(&self, offset: ValidatedOffset) -> (r: Entry)
        requires
            self.wf(),
            has_block_at(self@, offset@),
        ensures
            ({
                let b = self@[block_index(self@, offset@)];
                r.spec_is_free() == b.free && r.spec_size() == b.size
            }),
    {
        proof {
            lemma_block_index(self@, self.words@, 0, offset@);
            lemma_chain_structure(self.words@, 0);
        }
        Entry(self.words[offset.0 / 4])
    }

    /// Iterate over all blocks of the chain, yielding their validated
    /// offsets, starting at offset 0.
    pub fn entries(&self) -> (r: EntryIter)
        ensures
            r@ == 0,
    {
        EntryIter::new()
    }

    /// The payload byte range of the block at a validated offset: its
    /// start offset and its length.
    pub fn memory_of(&self, offset: ValidatedOffset) -> (r: (usize, usize))
        requires
            self.wf(),
            has_block_at(self@, offset@),
        ensures
            ({
                let b = self@[block_index(self@, offset@)];
                r.0 == b.offset + HEADER_SIZE && r.1 == b.size
            }),
    {
        proof {
            lemma_block_index(self@, self.words@, 0, offset@);
            lemma_chain_structure(self.words@, 0);
            lemma_wf_blocks(self.words@, 0);
        }
        let size = Entry(self.words[offset.0 / 4]).size();
        (offset.0 + HEADER_SIZE, size)
    }

    /// The payload byte range of the block at a validated offset, for a
    /// caller about to write into it.
    pub fn memory_of_mut(&mut self, offset: ValidatedOffset) -> (r: (usize, usize))
        requires
            old(self).wf(),
            has_block_at(old(self)@, offset@),
        ensures
            *final(self) == *old(self),
            ({
                let b = old(self)@[block_index(old(self)@, offset@)];
                r.0 == b.offset + HEADER_SIZE && r.1 == b.size
            }),
    {
        self.memory_of(offset)
    }

    /// The header right after the block at a validated offset, if there
    /// is a block after it and that block is free.
    pub fn following_free_entry(&self, offset: ValidatedOffset) -> (r: Option<Entry>)
        requires
            self.wf(),
            has_block_at(self@, offset@),
        ensures
            ({
                let i = block_index(self@, offset@);
                if i + 1 < self@.len() && self@[i + 1].free {
                    r matches Some(e) && e.spec_is_free() && e.spec_size() == self@[i + 1].size
                } else {
                    r is None
                }
            }),
    {
        proof {
            lemma_block_index(self@, self.words@, 0, offset@);
            lemma_chain_structure(self.words@, 0);
            lemma_wf_blocks(self.words@, 0);
            lemma_chain_end(self.words@, 0);
        }
        let ghost i = block_index(self@, offset@);
        let size = Entry(self.words[offset.0 / 4]).size();
        let next = offset.0 + HEADER_SIZE + size;
        let n = self.capacity();
        if next + HEADER_SIZE <= n {
            proof {
                if i + 1 >= self@.len() {
                    assert(chain_end(self@, 0) == self@[i].end());
                }
                assert(i + 1 < self@.len());
                assert(self@[i + 1].offset == next);
                assert(self@[i + 1] == block_at(self.words@, next as int));
            }
            let e = Entry(self.words[next / 4]);
            if e.state() == State::Free {
                Some(e)
            } else {
                None
            }
        } else {
            proof {
                if i + 1 < self@.len() {
                    assert(self@[i + 1].offset == next);
                    assert(self@[i + 1].offset + HEADER_SIZE <= 4 * self.words@.len());
                }
            }
            None
        }
    }

    /// Rewrite the header of the block at a validated offset.  The new
    /// header must either keep the block's size (changing only its
    /// state), or enlarge the block to absorb exactly its right
    /// neighbour, neighbour header included — the two writes that keep
    /// the chain tiling the buffer.
    pub fn set_entry_at(&mut self, offset: ValidatedOffset, e: Entry)
        requires
            old(self).wf(),
            has_block_at(old(self)@, offset@),
            ({
                let c = old(self)@;
                let i = block_index(c, offset@);
                ||| e.spec_size() == c[i].size
                ||| (i + 1 < c.len()
                    && e.spec_size() == c[i].size + HEADER_SIZE + c[i + 1].size)
            }),
        ensures
            final(self).wf(),
            final(self).spec_capacity() == old(self).spec_capacity(),
            ({
                let c = old(self)@;
                let i = block_index(c, offset@);
                let b = BlockView {
                    offset: c[i].offset,
                    free: e.spec_is_free(),
                    size: e.spec_size(),
                };
                if e.spec_size() == c[i].size {
                    final(self)@ == c.update(i, b)
                } else {
                    final(self)@ == c.take(i) + seq![b] + c.skip(i + 2)
                }
            }),
    {
        proof {
            lemma_block_index(old(self)@, self.words@, 0, offset@);
            lemma_chain_structure(self.words@, 0);
            lemma_header_rewrite(
                self.words@, offset@, block_index(old(self)@, offset@), e.0);
        }
        self.words.set(offset.0 / 4, e.0);
    }

    /// Mark the block at a validated offset as used with exactly `size`
    /// payload bytes, splitting off the leftover as a new free block when
    /// at least one header of leftover remains — possibly one with an
    /// empty payload on the buffer's last word.  A leftover smaller than
    /// one header cannot arise, as all sizes are multiples of the header
    /// size.
    #[verifier::rlimit(80)]
    pub fn mark_as_used(&mut self, offset: ValidatedOffset, size: usize)
        requires
            old(self).wf(),
            has_block_at(old(self)@, offset@),
            ({
                let c = old(self)@;
                let i = block_index(c, offset@);
                c[i].free && size % 4 == 0 && size <= c[i].size
            }),
        ensures
            final(self).wf(),
            final(self).spec_capacity() == old(self).spec_capacity(),
            ({
                let c = old(self)@;
                let i = block_index(c, offset@);
                let b = c[i];
                let used = BlockView { offset: b.offset, free: false, size: size as int };
                let leftover = b.size - size;
                let o2 = b.offset + HEADER_SIZE + size;
                if leftover == 0 {
                    final(self)@ == c.update(i, used)
                } else {
                    final(self)@ == c.take(i)
                        + seq![
                            used,
                            BlockView { offset: o2, free: true, size: leftover - HEADER_SIZE },
                        ] + c.skip(i + 1)
                }
            }),
    {
        let ghost c = old(self)@;
        let ghost i = block_index(c, offset@);
        proof {
            lemma_block_index(c, self.words@, 0, offset@);
            lemma_chain_structure(self.words@, 0);
            lemma_wf_blocks(self.words@, 0);
        }
        let old_size = Entry(self.words[offset.0 / 4]).size();
        if old_size - size >= HEADER_SIZE {
            proof {
                lemma_mark_split(self.words@, offset@, i, size as int);
                assert(c[i].end() <= 4 * self.words@.len());
            }
            let o2 = offset.0 + HEADER_SIZE + size;
            let leftover_payload = old_size - size - HEADER_SIZE;
            self.words.set(offset.0 / 4, Entry::used(size).0);
            self.words.set(o2 / 4, Entry::free(leftover_payload).0);
            proof {
                assert(self.words@ =~= old(self).words@
                    .update(offset@ / 4, (size as int * 2 + 1) as u32)
                    .update((offset@ + HEADER_SIZE + size) / 4,
                        ((c[i].size - size - HEADER_SIZE) * 2) as u32));
            }
        } else {
            proof {
                assert(c[i].size == size);
                lemma_header_rewrite(
                    self.words@, offset@, i, (size as int * 2 + 1) as u32);
            }
            self.words.set(offset.0 / 4, Entry::used(size).0);
        }
    }
}

/// The chain of a well-formed buffer exactly tiles it: the first block
/// starts at offset 0, every later block starts precisely where its
/// predecessor ends, every block lies within the capacity on a word
/// boundary, and the walk stops exactly at the capacity — no gap, no
/// overlap, no unreachable region.  Block offsets are therefore unique
/// and payload ranges disjoint, whatever sequence of operations
/// produced the state.
pub proof fn lemma_chain_tiling(b: &Buffer)
    requires
        b.wf(),
    ensures
        b@.len() > 0 ==> b@[0].offset == 0,
        forall|i: int| 0 < i < b@.len() ==> #[trigger] b@[i].offset == b@[i - 1].end(),
        forall|i: int| 0 <= i < b@.len() ==> {
            let blk = #[trigger] b@[i];
            &&& 0 <= blk.offset
            &&& blk.offset % 4 == 0
            &&& blk.size % 4 == 0
            &&& 0 <= blk.size
            &&& blk.end() <= b.spec_capacity()
        },
        chain_end(b@, 0) == b.spec_capacity(),
        b@.len() > 0,
        4 <= b.spec_capacity() <= 0x8000_0000,
{
    lemma_chain_structure(b.words@, 0);
    lemma_wf_blocks(b.words@, 0);
    lemma_chain_end(b.words@, 0);
}

/// Offsets pin blocks down: the block index found for an offset present
/// in the chain is the one block with that offset.
pub proof fn lemma_buffer_block_index(b: &Buffer, o: int)
    requires
        has_block_at(b@, o),
    ensures
        0 <= block_index(b@, o) < b@.len(),
        b@[block_index(b@, o)].offset == o,
        forall|j: int| 0 <= j < b@.len() && j != block_index(b@, o) ==> b@[j].offset != o,
{
    lemma_block_index(b@, b.words@, 0, o);
}


/// An iterator over the block chain of a [`Buffer`].  It yields
/// [`ValidatedOffset`]s rather than headers, so that the caller can both
/// read and rewrite the blocks it discovers.  The cursor is the byte
/// offset the walk has reached; the buffer is passed to each step.
pub struct EntryIter {
    offset: usize,
}

impl View for EntryIter {
    type V = int;

    closed spec fn view(&self) -> int {
        self.offset as int
    }
}

impl EntryIter {
    /// Create an entry iterator standing at the start of the chain.
    pub fn new() -> (r: Self)
        ensures
            r@ == 0,
    {
        EntryIter { offset: 0 }
    }

    /// Yield the validated offset of the block the cursor stands on and
    /// advance past it, or yield nothing once the walk is over.
    pub fn next(&mut self, buffer: &Buffer) -> (r: Option<ValidatedOffset>)
        requires
            buffer.wf(),
            is_cursor(buffer@, 0, old(self)@),
        ensures
            is_cursor(buffer@, 0, final(self)@),
            ({
                let k = iter_index(buffer@, old(self)@);
                if has_block_at(buffer@, old(self)@) {
                    &&& r matches Some(vo) && vo@ == old(self)@
                    &&& 0 <= k < buffer@.len() && buffer@[k].offset == old(self)@
                    &&& final(self)@ == buffer@[k].end()
                    &&& iter_index(buffer@, final(self)@) == k + 1
                } else {
                    &&& r is None
                    &&& final(self)@ == old(self)@
                    &&& k == buffer@.len()
                }
            }),
    {
        proof {
            lemma_chain_structure(buffer.words@, 0);
            lemma_wf_blocks(buffer.words@, 0);
            lemma_chain_end(buffer.words@, 0);
            if has_block_at(buffer@, old(self)@) {
                lemma_block_index(buffer@, buffer.words@, 0, old(self)@);
            }
        }
        let n = buffer.capacity();
        if self.offset + HEADER_SIZE <= n {
            proof {
                if !has_block_at(buffer@, old(self)@) {
                    assert(old(self)@ == chain_end(buffer@, 0));
                    assert(false);
                }
            }
            let ghost k = block_index(buffer@, old(self)@);
            let offset = self.offset;
            let entry = buffer.words[offset / 4];
            self.offset = offset + HEADER_SIZE + Entry(entry).size();
            proof {
                let c = buffer@;
                if k + 1 < c.len() {
                    assert(c[k + 1].offset == c[k].end());
                    lemma_block_index(c, buffer.words@, 0, final(self)@);
                    assert(block_index(c, final(self)@) == k + 1);
                } else {
                    assert(chain_end(c, 0) == c[k].end());
                    assert(!has_block_at(c, final(self)@)) by {
                        if has_block_at(c, final(self)@) {
                            let j = block_index(c, final(self)@);
                            assert(0 <= j < c.len() && c[j].offset == final(self)@);
                            if j < k {
                                lemma_chain_offsets_increasing(
                                    buffer.words@, 0, j, k);
                            } else if j > k {
                                lemma_chain_offsets_increasing(
                                    buffer.words@, 0, k, j);
                            }
                            assert(false);
                        }
                    }
                }
            }
            Some(ValidatedOffset(offset))
        } else {
            proof {
                if has_block_at(buffer@, old(self)@) {
                    let k = block_index(buffer@, old(self)@);
                    assert(buffer@[k].offset + HEADER_SIZE <= 4 * buffer.words@.len());
                }
            }
            None
        }
    }
}

} // verus!
