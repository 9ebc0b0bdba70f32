//! Fallible memory allocation for growable collections: validated block
//! layouts, an allocator capability with a verified contract, and the error
//! values that report a failed reservation.

use vstd::prelude::*;

pub mod allocator;
pub mod collections;
pub mod global;
pub mod layout;

use crate::allocator::Block;
use crate::layout::Layout;

verus! {

/// The address of the first byte of a block.
pub fn nonnull_as_mut_ptr(ptr: Block) -> (r: usize)
    ensures
        r == ptr.addr,
{
    ptr.addr
}

/// The usable length of a block, in bytes.
pub fn nonnull_len(ptr: Block) -> (r: usize)
    ensures
        r == ptr.len,
{
    ptr.len
}

/// The block of `len` bytes that starts at `data`.
pub fn nonnull_slice_from_raw_parts(data: usize, len: usize) -> (r: Block)
    ensures
        r == (Block { addr: data, len }),
{
    Block { addr: data, len }
}

/// The pointer that has the address `addr` and points to no storage.
pub fn invalid_mut(addr: usize) -> (r: usize)
    ensures
        r == addr,
{
    addr
}

/// The dangling address of a layout: its alignment, taken as an address. It
/// is aligned for the layout and not null.
pub fn layout_dangling(slf: &Layout) -> (r: usize)
    ensures
        r == slf.spec_dangling(),
        r != 0,
        r as int % slf.spec_align() as int == 0,
        slf.valid(),
{
    let align: usize = slf.align();
    proof {
        slf.lemma_valid();
    }
    invalid_mut(align)
}

/// Tells the reader, and the verifier, that `b` holds here. A call at which
/// it may not hold does not verify.
pub fn unreachable_unless(b: bool)
    requires
        b,
{
}

} // verus!
