use stable_alloc_shim::allocator::{AllocError, Allocator, Block};
use stable_alloc_shim::collections::TryReserveErrorKind;
use stable_alloc_shim::global::{zero_filled, Global};
use stable_alloc_shim::layout::Layout;

fn layout(size: usize, align: usize) -> Layout {
    Layout::from_size_align(size, align).unwrap()
}

fn fill(g: &mut Global, block: Block, count: usize) {
    for i in 0..count {
        g.write(block.addr, i, (i as u8).wrapping_mul(37).wrapping_add(11));
    }
}

fn expected(i: usize) -> u8 {
    (i as u8).wrapping_mul(37).wrapping_add(11)
}

#[test]
fn zero_size_allocation_gives_the_dangling_block() {
    let mut g = Global::new();
    let block = g.allocate(layout(0, 8)).unwrap();
    assert_eq!(block, Block { addr: 8, len: 0 });
    assert_eq!(g.calls(), 0);
    assert!(!g.contains(8));
}

#[test]
fn zero_size_requests_never_reach_the_backend() {
    let mut g = Global::new();
    let empty = layout(0, 16);
    let dangling = Block { addr: 16, len: 0 };
    assert_eq!(g.allocate(empty), Ok(dangling));
    assert_eq!(g.allocate_zeroed(empty), Ok(dangling));
    assert_eq!(g.grow(16, empty, empty), Ok(dangling));
    assert_eq!(g.grow_zeroed(16, empty, empty), Ok(dangling));
    assert_eq!(g.shrink(16, empty, empty), Ok(dangling));
    g.deallocate(16, empty);
    assert_eq!(g.calls(), 0);
}

#[test]
fn a_request_with_bytes_reaches_the_backend() {
    let mut g = Global::new();
    let shape = layout(24, 8);
    let block = g.allocate(shape).unwrap();
    assert_eq!(g.calls(), 1);
    g.deallocate(block.addr, shape);
    assert_eq!(g.calls(), 2);
}

#[test]
fn allocation_gives_an_aligned_block_with_room() {
    let mut g = Global::new();
    for (size, align) in [(1usize, 1usize), (3, 2), (24, 8), (100, 64), (5, 4096)] {
        let block = g.allocate(layout(size, align)).unwrap();
        assert_ne!(block.addr, 0);
        assert_eq!(block.addr % align, 0);
        assert!(block.len >= size);
        assert!(g.contains(block.addr));
    }
}

#[test]
fn live_blocks_have_different_addresses() {
    let mut g = Global::new();
    let shape = layout(16, 16);
    let a = g.allocate(shape).unwrap();
    let b = g.allocate(shape).unwrap();
    assert_ne!(a.addr, b.addr);
    g.write(a.addr, 0, 1);
    g.write(b.addr, 0, 2);
    assert_eq!(g.read(a.addr, 0), 1);
    assert_eq!(g.read(b.addr, 0), 2);
}

#[test]
fn zeroed_allocation_is_all_zero() {
    let mut g = Global::new();
    let block = g.allocate_zeroed(layout(48, 8)).unwrap();
    for i in 0..block.len {
        assert_eq!(g.read(block.addr, i), 0);
    }
}

#[test]
fn deallocation_releases_the_block() {
    let mut g = Global::new();
    let shape = layout(32, 8);
    let kept = g.allocate(shape).unwrap();
    let gone = g.allocate(shape).unwrap();
    g.write(kept.addr, 5, 99);
    g.deallocate(gone.addr, shape);
    assert!(!g.contains(gone.addr));
    assert!(g.contains(kept.addr));
    assert_eq!(g.read(kept.addr, 5), 99);
}

#[test]
fn grow_keeps_the_old_bytes() {
    let mut g = Global::new();
    let old = layout(16, 8);
    let new = layout(64, 8);
    let block = g.allocate(old).unwrap();
    fill(&mut g, block, 16);
    let grown = g.grow(block.addr, old, new).unwrap();
    assert!(grown.len >= 64);
    assert_eq!(grown.addr % 8, 0);
    for i in 0..16 {
        assert_eq!(g.read(grown.addr, i), expected(i));
    }
    assert!(grown.addr == block.addr || !g.contains(block.addr));
}

#[test]
fn shrink_keeps_the_prefix() {
    let mut g = Global::new();
    let old = layout(64, 4);
    let new = layout(10, 4);
    let block = g.allocate(old).unwrap();
    fill(&mut g, block, 64);
    let shrunk = g.shrink(block.addr, old, new).unwrap();
    assert!(shrunk.len >= 10);
    for i in 0..10 {
        assert_eq!(g.read(shrunk.addr, i), expected(i));
    }
    assert!(shrunk.addr == block.addr || !g.contains(block.addr));
}

#[test]
fn grow_zeroed_zeroes_the_new_bytes() {
    let mut g = Global::new();
    let old = layout(8, 8);
    let new = layout(40, 8);
    let block = g.allocate(old).unwrap();
    for i in 0..8 {
        g.write(block.addr, i, 0xff);
    }
    let grown = g.grow_zeroed(block.addr, old, new).unwrap();
    for i in 0..8 {
        assert_eq!(g.read(grown.addr, i), 0xff);
    }
    for i in 8..40 {
        assert_eq!(g.read(grown.addr, i), 0);
    }
}

#[test]
fn grow_from_no_bytes_allocates() {
    let mut g = Global::new();
    let empty = layout(0, 8);
    let new = layout(24, 8);
    let start = g.allocate(empty).unwrap();
    let grown = g.grow(start.addr, empty, new).unwrap();
    assert!(grown.len >= 24);
    assert!(g.contains(grown.addr));
    assert_eq!(g.calls(), 1);
}

#[test]
fn shrink_to_no_bytes_releases_and_gives_the_dangling_block() {
    let mut g = Global::new();
    let old = layout(24, 8);
    let empty = layout(0, 8);
    let block = g.allocate(old).unwrap();
    let shrunk = g.shrink(block.addr, old, empty).unwrap();
    assert_eq!(shrunk, Block { addr: 8, len: 0 });
    assert!(!g.contains(block.addr));
}

#[test]
fn a_request_that_cannot_be_served_fails_and_changes_nothing() {
    let mut g = Global::new();
    let small = layout(8, 8);
    let block = g.allocate(small).unwrap();
    g.write(block.addr, 0, 7);
    let huge = layout(isize::MAX as usize - 7, 8);
    assert_eq!(g.allocate(huge), Err(AllocError));
    assert_eq!(g.grow(block.addr, small, huge), Err(AllocError));
    assert!(g.contains(block.addr));
    assert_eq!(g.read(block.addr, 0), 7);
}

#[test]
fn end_to_end_scenario() {
    let mut g = Global::new();
    let empty = Layout::from_size_align(0, 8);
    assert!(empty.is_ok());
    let block = g.allocate(empty.unwrap()).unwrap();
    assert_eq!(block.addr, 8);
    assert_eq!(block.addr % 8, 0);
    assert_eq!(block.len, 0);
    assert_eq!(g.calls(), 0);
    let refused = Layout::from_size_align(usize::MAX, 1);
    assert!(refused.is_err());
    assert_eq!(
        TryReserveErrorKind::from(refused.unwrap_err()),
        TryReserveErrorKind::CapacityOverflow
    );
}

#[test]
fn blocks_start_at_the_frontier_rounded_up() {
    let mut g = Global::new();
    assert_eq!(g.allocate(layout(24, 8)), Ok(Block { addr: 8, len: 24 }));
    assert_eq!(g.allocate(layout(3, 2)), Ok(Block { addr: 32, len: 3 }));
    assert_eq!(g.allocate(layout(1, 16)), Ok(Block { addr: 48, len: 1 }));
    assert_eq!(g.allocate(layout(5, 4096)), Ok(Block { addr: 4096, len: 5 }));
    assert_eq!(g.allocate(layout(1, 1)), Ok(Block { addr: 4101, len: 1 }));
}

#[test]
fn a_fresh_block_is_all_zero() {
    let mut g = Global::new();
    let block = g.allocate(layout(33, 1)).unwrap();
    assert_eq!(block.len, 33);
    for i in 0..33 {
        assert_eq!(g.read(block.addr, i), 0);
    }
}

#[test]
fn install_places_the_buffer_that_came_back() {
    let mut g = Global::new();
    let block = g.install(layout(4, 8), Some(vec![9, 8, 7, 6])).unwrap();
    assert_eq!(block, Block { addr: 8, len: 4 });
    assert_eq!(g.read(8, 0), 9);
    assert_eq!(g.read(8, 3), 6);
    let next = g.install(layout(2, 2), Some(vec![1, 2])).unwrap();
    assert_eq!(next, Block { addr: 12, len: 2 });
    assert_eq!(g.calls(), 0);
}

#[test]
fn install_fails_where_no_buffer_came_back() {
    let mut g = Global::new();
    assert_eq!(g.install(layout(4, 8), None), Err(AllocError));
    assert!(!g.contains(8));
    assert_eq!(g.install(layout(4, 8), Some(vec![0; 4])), Ok(Block { addr: 8, len: 4 }));
}

#[test]
fn the_count_of_requests_goes_up_by_one() {
    let mut g = Global::new();
    let shape = layout(8, 8);
    let a = g.allocate(shape).unwrap();
    let b = g.allocate_zeroed(shape).unwrap();
    assert_eq!(g.calls(), 2);
    let huge = layout(isize::MAX as usize, 1);
    assert_eq!(g.allocate(huge), Err(AllocError));
    assert_eq!(g.calls(), 3);
    g.deallocate(a.addr, shape);
    g.deallocate(b.addr, shape);
    assert_eq!(g.calls(), 5);
}

#[test]
fn a_granted_reservation_comes_back_filled_with_zeros() {
    assert_eq!(zero_filled(Vec::new(), true, 5), Some(vec![0, 0, 0, 0, 0]));
    assert_eq!(zero_filled(vec![7, 9], true, 3), Some(vec![7, 9, 0, 0, 0]));
    assert_eq!(zero_filled(Vec::new(), true, 0), Some(Vec::new()));
}

#[test]
fn a_declined_reservation_gives_nothing() {
    assert_eq!(zero_filled(Vec::new(), false, 5), None);
    assert_eq!(zero_filled(vec![1], false, 0), None);
}
