use stable_alloc_shim::layout::{Layout, LayoutError};
use stable_alloc_shim::{
    invalid_mut, layout_dangling, nonnull_as_mut_ptr, nonnull_len, nonnull_slice_from_raw_parts,
    unreachable_unless,
};

#[test]
fn layout_round_trips_size_and_align() {
    for (size, align) in [(64usize, 16usize), (0, 1), (1, 1 << 20), (4096, 4096), (7, 8)] {
        let layout = Layout::from_size_align(size, align).unwrap();
        assert_eq!(layout.size(), size);
        assert_eq!(layout.align(), align);
    }
}

#[test]
fn layout_accepts_sizes_up_to_the_ceiling() {
    let ceiling = isize::MAX as usize;
    assert!(Layout::from_size_align(ceiling, 1).is_ok());
    assert!(Layout::from_size_align(ceiling - 7, 8).is_ok());
    assert_eq!(Layout::from_size_align(ceiling - 6, 8), Err(LayoutError));
    assert_eq!(Layout::from_size_align(ceiling + 1, 1), Err(LayoutError));
}

#[test]
fn layout_rejects_an_alignment_that_is_no_power_of_two() {
    for align in [0usize, 3, 6, 12, 100, usize::MAX] {
        assert_eq!(Layout::from_size_align(8, align), Err(LayoutError));
    }
}

#[test]
fn layout_rejects_a_size_that_overflows_when_rounded() {
    assert_eq!(Layout::from_size_align(usize::MAX, 1), Err(LayoutError));
    assert_eq!(Layout::from_size_align(usize::MAX - 1, 2), Err(LayoutError));
}

#[test]
fn layout_takes_the_largest_alignment_only_for_no_bytes() {
    let top = 1usize << (usize::BITS - 1);
    let layout = Layout::from_size_align(0, top).unwrap();
    assert_eq!(layout.align(), top);
    assert_eq!(Layout::from_size_align(1, top), Err(LayoutError));
}

#[test]
fn dangling_is_the_alignment() {
    for align in [1usize, 2, 8, 64, 4096] {
        let layout = Layout::from_size_align(0, align).unwrap();
        let address = layout.dangling();
        assert_eq!(address, align);
        assert_ne!(address, 0);
        assert_eq!(address % layout.align(), 0);
        assert_eq!(layout_dangling(&layout), address);
    }
}

#[test]
fn layouts_compare_by_size_and_align() {
    let a = Layout::from_size_align(8, 4).unwrap();
    let b = Layout::from_size_align(8, 4).unwrap();
    let c = Layout::from_size_align(8, 8).unwrap();
    let d = Layout::from_size_align(12, 4).unwrap();
    assert_eq!(a, b);
    assert_ne!(a, c);
    assert_ne!(a, d);
}

#[test]
fn a_block_is_its_address_and_its_length() {
    let block = nonnull_slice_from_raw_parts(4096, 24);
    assert_eq!(block.addr, 4096);
    assert_eq!(block.len, 24);
    assert_eq!(nonnull_as_mut_ptr(block), 4096);
    assert_eq!(nonnull_len(block), 24);
}

#[test]
fn an_invalid_pointer_keeps_its_address() {
    assert_eq!(invalid_mut(8), 8);
    assert_eq!(invalid_mut(usize::MAX), usize::MAX);
}

#[test]
fn a_hint_that_holds_does_nothing() {
    unreachable_unless(1 + 1 == 2);
}
