//! The default allocator. It takes every block from the allocator of the
//! process.

use std::collections::HashMap;
use vstd::prelude::*;
use vstd::std_specs::hash::*;
use vstd::arithmetic::div_mod::{
    lemma_fundamental_div_mod, lemma_fundamental_div_mod_converse, lemma_mod_multiples_basic,
};
use crate::allocator::{allocated, zeroed, AllocError, Allocator, Block, Calls, Heap};
use crate::layout::{round_up, Layout};
use crate::{layout_dangling, nonnull_slice_from_raw_parts};

verus! {

broadcast use vstd::std_specs::hash::group_hash_axioms;

/// The default allocator.
///
/// Each block is a buffer that the allocator of the process hands out, and
/// is zero when it is new. A block is named by an address of the allocator's
/// own numbering, which is never used twice.
pub struct Global {
    blocks: HashMap<usize, Vec<u8>>,
    next: usize,
    calls: u64,
}

/// How a count of requests goes on after one more: by one, up to the
/// largest `u64`, where it stays.
pub open spec fn counted(calls: Calls) -> Calls {
    if calls < u64::MAX {
        calls + 1
    } else {
        calls
    }
}

/// The lowest multiple of `align` that is not below `from`, where a `usize`
/// can hold it.
fn align_up(from: usize, align: usize) -> (r: Option<usize>)
    requires
        align > 0,
    ensures
        r matches Some(a) ==> a == round_up(from as int, align as int) && from <= a && a as int
            % align as int == 0,
        r is None ==> round_up(from as int, align as int) > usize::MAX,
{
    let rem: usize = from % align;
    let ghost q: int = from as int / align as int;
    proof {
        lemma_fundamental_div_mod(from as int, align as int);
        assert(align * q == q * align) by (nonlinear_arith);
        assert((q + 1) * align == q * align + align) by (nonlinear_arith);
    }
    if rem == 0 {
        proof {
            lemma_fundamental_div_mod_converse(from + align - 1, align as int, q, align - 1);
        }
        return Some(from);
    }
    let pad: usize = align - rem;
    proof {
        lemma_fundamental_div_mod_converse(from + align - 1, align as int, q + 1, rem - 1);
        lemma_mod_multiples_basic(q + 1, align as int);
    }
    if from > usize::MAX - pad {
        return None;
    }
    Some(from + pad)
}

/// Asks the allocator of the process for a buffer of `size` bytes and fills
/// it with zeros. Gives nothing where the allocator declines.
fn reserve_zeroed(size: usize) -> (r: Option<Vec<u8>>)
    ensures
        r matches Some(bytes) ==> bytes@.len() == size && zeroed(bytes@, 0, size as int),
{
    let mut bytes: Vec<u8> = Vec::new();
    let granted: bool = bytes.try_reserve(size).is_ok();
    zero_filled(bytes, granted, size)
}

/// `count` bytes that are all zero.
pub open spec fn zeros(count: nat) -> Seq<u8> {
    Seq::new(count, |i: int| 0u8)
}

/// Ends a reservation of `size` bytes for the buffer `bytes`. Where the
/// allocator of the process granted the room, the buffer comes back with
/// `size` zeros behind what it held; where it declined, nothing comes back.
pub fn zero_filled(bytes: Vec<u8>, granted: bool, size: usize) -> (r: Option<Vec<u8>>)
    ensures
        r is Some <==> granted,
        r matches Some(filled) ==> filled@ == bytes@ + zeros(size as nat),
{
    if !granted {
        return None;
    }
    let mut filled: Vec<u8> = bytes;
    let mut i: usize = 0;
    while i < size
        invariant
            i <= size,
            filled@ == bytes@ + zeros(i as nat),
        decreases size - i,
    {
        filled.push(0);
        i += 1;
        proof {
            assert(filled@ =~= bytes@ + zeros(i as nat));
        }
    }
    Some(filled)
}

impl Global {
    /// The lowest address that no block has had yet.
    pub closed spec fn frontier(&self) -> usize {
        self.next
    }

    /// The address at which the next block of the shape `layout` starts: the
    /// frontier, rounded up to the alignment.
    pub open spec fn place(&self, layout: Layout) -> int {
        round_up(self.frontier() as int, layout.spec_align() as int)
    }

    /// Whether the addresses that are left hold a block of the shape
    /// `layout`.
    pub open spec fn has_room(&self, layout: Layout) -> bool {
        self.place(layout) + layout.spec_size() <= usize::MAX
    }

    /// An allocator that holds no block yet.
    pub fn new() -> (g: Global)
        ensures
            g.inv(),
            g.heap() == Heap::empty(),
            g.backend_calls() == 0,
            g.frontier() == 1,
    {
        let g = Global { blocks: HashMap::new(), next: 1, calls: 0 };
        assert(g.heap() =~= Heap::empty());
        g
    }

    /// How many requests have reached the allocator of the process. The
    /// count stops at the largest `u64`.
    pub fn calls(&self) -> (r: u64)
        ensures
            r == self.backend_calls(),
    {
        self.calls
    }

    /// Whether a live block starts at `ptr`.
    pub fn contains(&self, ptr: usize) -> (r: bool)
        requires
            self.inv(),
        ensures
            r == self.heap().contains_key(ptr),
    {
        self.blocks.contains_key(&ptr)
    }

    /// Counts one request to the allocator of the process.
    fn count_call(&mut self)
        ensures
            final(self).blocks == old(self).blocks,
            final(self).next == old(self).next,
            final(self).backend_calls() == counted(old(self).backend_calls()),
    {
        if self.calls < u64::MAX {
            self.calls = self.calls + 1;
        }
    }

    /// Takes in what the allocator of the process answered to a request for
    /// a block of the shape `layout`, which has bytes. The block is placed
    /// exactly when a buffer came back and the addresses that are left hold
    /// it; it then starts at the frontier, rounded up, holds the bytes of the
    /// buffer, and the frontier moves to its end. Otherwise the request fails
    /// and nothing changes.
    pub fn install(&mut self, layout: Layout, buffer: Option<Vec<u8>>) -> (r: Result<
        Block,
        AllocError,
    >)
        requires
            old(self).inv(),
            layout.spec_size() > 0,
            buffer matches Some(bytes) ==> bytes@.len() == layout.spec_size(),
        ensures
            final(self).inv(),
            final(self).backend_calls() == old(self).backend_calls(),
            r is Ok <==> buffer is Some && old(self).has_room(layout),
            r matches Ok(b) ==> {
                &&& b.addr == old(self).place(layout)
                &&& b.len == layout.spec_size()
                &&& final(self).heap() == old(self).heap().insert(b.addr, buffer->Some_0@)
                &&& final(self).frontier() == b.addr + b.len
            },
            r is Err ==> final(self).heap() == old(self).heap() && final(self).frontier() == old(
                self,
            ).frontier(),
            allocated(old(self).heap(), final(self).heap(), layout, r),
    {
        let size: usize = layout.size();
        let align: usize = layout.align();
        proof {
            layout.lemma_valid();
        }
        let start: usize = match align_up(self.next, align) {
            Some(a) => a,
            None => {
                return Err(AllocError);
            },
        };
        if size > usize::MAX - start {
            return Err(AllocError);
        }
        match buffer {
            Some(bytes) => {
                let ghost pre = self.heap();
                self.blocks.insert(start, bytes);
                self.next = start + size;
                proof {
                    assert(self.heap() =~= pre.insert(start, bytes@));
                }
                Ok(nonnull_slice_from_raw_parts(start, size))
            },
            None => Err(AllocError),
        }
    }

    /// Serves an allocation. A layout of size zero gets the dangling block
    /// and no request is made; any other is handed to the allocator of the
    /// process, and the block, where there is one, is all zero.
    fn alloc_impl(&mut self, layout: Layout) -> (r: Result<Block, AllocError>)
        requires
            old(self).inv(),
        ensures
            final(self).inv(),
            allocated(old(self).heap(), final(self).heap(), layout, r),
            r matches Ok(b) ==> layout.spec_size() > 0 ==> {
                &&& b.addr == old(self).place(layout)
                &&& b.len == layout.spec_size()
                &&& zeroed(final(self).heap()[b.addr], 0, b.len as int)
            },
            r is Err ==> final(self).frontier() == old(self).frontier(),
            layout.spec_size() == 0 ==> final(self).backend_calls() == old(self).backend_calls()
                && final(self).frontier() == old(self).frontier(),
            layout.spec_size() > 0 ==> final(self).backend_calls() == counted(
                old(self).backend_calls(),
            ),
    {
        let size: usize = layout.size();
        if size == 0 {
            return Ok(nonnull_slice_from_raw_parts(layout_dangling(&layout), 0));
        }
        self.count_call();
        let buffer = reserve_zeroed(size);
        self.install(layout, buffer)
    }
}

impl Allocator for Global {
    closed spec fn heap(&self) -> Heap {
        Map::new(|a: usize| self.blocks@.contains_key(a), |a: usize| self.blocks@[a]@)
    }

    closed spec fn inv(&self) -> bool {
        &&& self.next >= 1
        &&& forall|a: usize| self.blocks@.contains_key(a) ==> 0 < a < self.next
    }

    closed spec fn backend_calls(&self) -> Calls {
        self.calls as nat
    }

    /// The block is all zero, as that of `allocate_zeroed` is.
    fn allocate(&mut self, layout: Layout) -> (r: Result<Block, AllocError>)
        ensures
            r matches Ok(b) ==> layout.spec_size() > 0 ==> {
                &&& b.addr == old(self).place(layout)
                &&& b.len == layout.spec_size()
                &&& zeroed(final(self).heap()[b.addr], 0, b.len as int)
            },
            layout.spec_size() > 0 ==> final(self).backend_calls() == counted(
                old(self).backend_calls(),
            ),
    {
        self.alloc_impl(layout)
    }

    fn allocate_zeroed(&mut self, layout: Layout) -> (r: Result<Block, AllocError>)
        ensures
            r matches Ok(b) ==> layout.spec_size() > 0 ==> b.addr == old(self).place(layout)
                && b.len == layout.spec_size(),
            layout.spec_size() > 0 ==> final(self).backend_calls() == counted(
                old(self).backend_calls(),
            ),
    {
        self.alloc_impl(layout)
    }

    fn deallocate(&mut self, ptr: usize, layout: Layout)
        ensures
            layout.spec_size() > 0 ==> final(self).backend_calls() == counted(
                old(self).backend_calls(),
            ),
            final(self).frontier() == old(self).frontier(),
    {
        if layout.size() != 0 {
            let ghost pre = self.heap();
            self.count_call();
            self.blocks.remove(&ptr);
            proof {
                assert(self.heap() =~= pre.remove(ptr));
            }
        }
    }

    fn read(&self, ptr: usize, offset: usize) -> (r: u8) {
        let bytes = self.blocks.get(&ptr).unwrap();
        bytes[offset]
    }

    fn write(&mut self, ptr: usize, offset: usize, value: u8) {
        let ghost pre = self.heap();
        let mut bytes: Vec<u8> = self.blocks.remove(&ptr).unwrap();
        bytes.set(offset, value);
        self.blocks.insert(ptr, bytes);
        proof {
            assert(self.heap() =~= pre.insert(ptr, pre[ptr].update(offset as int, value)));
        }
    }
}

} // verus!
