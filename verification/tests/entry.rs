use cpu_lib::entry::{Entry, State};

#[test]
fn equality() {
    assert_eq!(Entry::used(4), Entry::used(4));
    assert_ne!(Entry::used(4), Entry::used(5));

    assert_eq!(Entry::free(4), Entry::free(4));
    assert_ne!(Entry::free(4), Entry::free(5));

    assert_ne!(Entry::used(4), Entry::free(4));
    assert_ne!(Entry::used(4), Entry::free(5));

    // now same with cloning
    assert_eq!(Entry::used(4).clone(), Entry::used(4));
    assert_ne!(Entry::used(4).clone(), Entry::used(5));

    assert_eq!(Entry::free(4).clone(), Entry::free(4));
    assert_ne!(Entry::free(4).clone(), Entry::free(5));

    assert_ne!(Entry::used(4).clone(), Entry::free(4));
    assert_ne!(Entry::used(4).clone(), Entry::free(5));
}

#[test]
fn entry_bitpacking_state() {
    assert_eq!(Entry::free(5).state(), State::Free);
    assert_eq!(Entry::used(5).state(), State::Used);

    assert_eq!(Entry(0b00_0).state(), State::Free);
    assert_eq!(Entry(0b00_1).state(), State::Used);

    assert_eq!(Entry(0b10_0).state(), State::Free);
    assert_eq!(Entry(0b10_1).state(), State::Used);
    assert_eq!(Entry(0b11_1).state(), State::Used);
    assert_eq!(Entry(0b11_0).state(), State::Free);

    // now the same with cloning
    assert_eq!(Entry::free(5).state().clone(), State::Free);
    assert_eq!(Entry::used(5).state().clone(), State::Used);

    assert_eq!(Entry(0b00_0).state().clone(), State::Free);
    assert_eq!(Entry(0b00_1).state().clone(), State::Used);

    assert_eq!(Entry(0b10_0).state().clone(), State::Free);
    assert_eq!(Entry(0b10_1).state().clone(), State::Used);
    assert_eq!(Entry(0b11_1).state().clone(), State::Used);
    assert_eq!(Entry(0b11_0).state().clone(), State::Free);
}

#[test]
fn entry_bitpacking_size() {
    assert_eq!(Entry(0b1_1).size(), 1);
    assert_eq!(Entry(0b1_0).size(), 1);
    assert_eq!(Entry(123 << 1).size(), 123);
    assert_eq!(Entry(123 << 1 | 1).size(), 123);
}

#[test]
fn alignment() {
    // other parts of this crate might assume, that this type has the same
    // alignment as a `u32`, i.e. `4`
    assert_eq!(core::mem::align_of::<Entry>(), core::mem::align_of::<u32>());
}

#[test]
fn large_entries() {
    Entry::free((1 << 31) - 4);
    Entry::used((1 << 31) - 4);
}

#[test]
fn debug_representation() {
    assert_eq!(
        Entry::used(123).describe(),
        "Entry { state: Used, size: 123 }"
    );
    assert_eq!(
        Entry::free(456).describe(),
        "Entry { state: Free, size: 456 }"
    );
}

#[test]
fn raw_bytes_little_endian() {
    assert_eq!(Entry::used(1).as_raw(), [3, 0, 0, 0]);
    assert_eq!(Entry::free(0x100).as_raw(), [0, 2, 0, 0]);
    assert_eq!(Entry(0x0403_0201).as_raw(), [1, 2, 3, 4]);
}
