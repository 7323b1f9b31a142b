use cpu_lib::buffer::{Buffer, ValidatedOffset, HEADER_SIZE};
use cpu_lib::entry::{Entry, State};

/// Walk the whole chain, returning the validated offsets.
fn offsets(buffer: &Buffer) -> Vec<ValidatedOffset> {
    let mut it = buffer.entries();
    let mut v = Vec::new();
    while let Some(vo) = it.next(buffer) {
        v.push(vo);
    }
    v
}

/// Walk the whole chain, returning the headers.
fn headers(buffer: &Buffer) -> Vec<Entry> {
    offsets(buffer).iter().map(|vo| buffer.entry_at(*vo)).collect()
}

#[test]
fn validated_offset_debug() {
    // the only way to a `ValidatedOffset` is traversal, so lay the
    // buffer out such that a block starts at offset 12
    let mut buffer = Buffer::new(20);
    let first = offsets(&buffer)[0];
    buffer.mark_as_used(first, 8);

    let at_12 = offsets(&buffer)[1];
    assert_eq!(format!("{:?}", at_12), "ValidatedOffset(12)");
}

#[test]
fn validated_offset_equality() {
    // lay the buffer out such that blocks start at offsets 0, 12 and 24
    let mut buffer = Buffer::new(32);
    let first = offsets(&buffer)[0];
    buffer.mark_as_used(first, 8);
    let second = offsets(&buffer)[1];
    buffer.mark_as_used(second, 8);

    let walk_one = offsets(&buffer);
    let walk_two = offsets(&buffer);
    assert_eq!(walk_one[1], walk_two[1]);
    assert_ne!(walk_one[1], walk_two[2]);
    // the type is `Copy`, so it has to be `Clone` as well
    assert_eq!(walk_one[1].clone(), walk_two[1]);
    assert_ne!(walk_one[1].clone(), walk_two[2]);
}

#[test]
fn empty_allocator() {
    let buffer = Buffer::new(32);
    let expected = Entry::free(32 - 4);
    let actual = headers(&buffer)[0];
    assert_eq!(expected, actual);
}

#[test]
fn header_size() {
    // the codebase assumes, that the header size is `4`, so make sure that
    // assumption holds.
    assert_eq!(HEADER_SIZE, 4);
}

#[test]
fn entry_iter() {
    let buffer = Buffer::new(32);
    let mut iter = buffer.entries();
    assert_eq!(iter.next(&buffer).unwrap().offset(), 0);
    assert!(iter.next(&buffer).is_none());

    // lay out three blocks at offsets 0, 8 and 16, the first one free
    let mut buffer = Buffer::new(32);
    let vo = offsets(&buffer)[0];
    buffer.mark_as_used(vo, 4);
    let vo = offsets(&buffer)[1];
    buffer.mark_as_used(vo, 4);
    let vo = offsets(&buffer)[0];
    buffer.set_entry_at(vo, Entry::free(4));

    assert_eq!(headers(&buffer), vec![Entry::free(4), Entry::used(4), Entry::free(12)]);
    let mut iter = buffer.entries();
    assert_eq!(iter.next(&buffer).unwrap().offset(), 0);
    assert_eq!(iter.next(&buffer).unwrap().offset(), 8);
    assert_eq!(iter.next(&buffer).unwrap().offset(), 16);
    assert!(iter.next(&buffer).is_none());
}

#[test]
fn following_free_entry() {
    // lay out used(4) at 0, used(4) at 8, free(4) at 16
    let mut buffer = Buffer::new(24);
    let vo = offsets(&buffer)[0];
    buffer.mark_as_used(vo, 4);
    let vo = offsets(&buffer)[1];
    buffer.mark_as_used(vo, 4);
    assert_eq!(headers(&buffer), vec![Entry::used(4), Entry::used(4), Entry::free(4)]);

    let walk = offsets(&buffer);
    // if the entry is followed by a free block, return that block
    assert_eq!(buffer.following_free_entry(walk[1]), Some(Entry::free(4)));
    // if the entry is followed by a used block, return None
    assert_eq!(buffer.following_free_entry(walk[0]), None);
    // if the entry is not followed by any block, return None
    assert_eq!(buffer.following_free_entry(walk[2]), None);
}

#[test]
fn memory_of() {
    let mut buffer = Buffer::new(20);
    let vo = offsets(&buffer)[0];
    buffer.mark_as_used(vo, 4);

    // the payload of the block at offset 0 is the byte range right
    // after its header
    let (start, len) = buffer.memory_of(offsets(&buffer)[0]);
    assert_eq!(start, 4);
    assert_eq!(len, 4);
}

#[test]
fn mark_used_without_split() {
    // lay out used(4) at 0, free(4) at 8, used(4) at 16
    let mut buffer = Buffer::new(24);
    let vo = offsets(&buffer)[0];
    buffer.mark_as_used(vo, 4);
    let vo = offsets(&buffer)[1];
    buffer.mark_as_used(vo, 4);
    let walk = offsets(&buffer);
    buffer.set_entry_at(walk[1], Entry::free(4));
    buffer.set_entry_at(walk[2], Entry::used(4));
    assert_eq!(headers(&buffer), vec![Entry::used(4), Entry::free(4), Entry::used(4)]);

    // the entry to be marked as used has exactly the requested size. There-
    // fore no splitting might happen
    buffer.mark_as_used(offsets(&buffer)[1], 4);
    let walk = headers(&buffer);
    assert_eq!(walk[0], Entry::used(4));
    assert_eq!(walk[1], Entry::used(4)); // <--
    assert_eq!(walk[2], Entry::used(4));
}

#[test]
fn mark_used_with_split() {
    // lay out used(4) at 0 and free(20) at 8
    let mut buffer = Buffer::new(32);
    let vo = offsets(&buffer)[0];
    buffer.mark_as_used(vo, 4);
    assert_eq!(headers(&buffer), vec![Entry::used(4), Entry::free(20)]);

    // the entry to be marked as used is large enough to be splitted. There-
    // fore there must be a used and a free block after the call.
    buffer.mark_as_used(offsets(&buffer)[1], 4);
    let walk = headers(&buffer);
    assert_eq!(walk[0], Entry::used(4));
    assert_eq!(walk[1], Entry::used(4)); // <--
    assert_eq!(walk[2], Entry::free(12)); // <--
}

#[test]
fn exact_fit_split_leaves_empty_tail_block() {
    // a split whose leftover is exactly one header writes that header on
    // the buffer's last word; the walk still discovers it, as an empty
    // free block, so the chain keeps tiling the whole buffer
    let mut buffer = Buffer::new(16);
    let vo = offsets(&buffer)[0];
    assert_eq!(buffer.entry_at(vo), Entry::free(12));
    buffer.mark_as_used(vo, 8);
    assert_eq!(headers(&buffer), vec![Entry::used(8), Entry::free(0)]);
    assert_eq!(offsets(&buffer)[1].offset(), 12);
}

#[test]
fn minimal_buffer_holds_one_empty_block() {
    // four bytes are exactly one header: a free block with no payload
    let buffer = Buffer::new(4);
    assert_eq!(headers(&buffer), vec![Entry::free(0)]);
    assert_eq!(offsets(&buffer)[0].offset(), 0);
    assert_eq!(buffer.capacity(), 4);
}

#[test]
fn state_flip_keeps_layout() {
    let mut buffer = Buffer::new(16);
    let vo = offsets(&buffer)[0];
    buffer.mark_as_used(vo, 12);
    assert_eq!(headers(&buffer), vec![Entry::used(12)]);

    let vo = offsets(&buffer)[0];
    buffer.set_entry_at(vo, Entry::free(12));
    assert_eq!(headers(&buffer), vec![Entry::free(12)]);
    assert_eq!(buffer.entry_at(offsets(&buffer)[0]).state(), State::Free);
}
