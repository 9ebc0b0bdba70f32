//! The allocator capability: how a collection asks for, resizes and releases
//! blocks of memory, whatever backend serves them.
//!
//! A block is named by its address and read and written through the allocator
//! that owns it. What an allocator holds is modelled as a map from the address
//! of each live block to the bytes of that block.

use vstd::prelude::*;
use crate::layout::Layout;

verus! {

/// The signal that an allocator could not serve a request. It carries no
/// detail: the caller knows the layout that it asked for.
#[derive(Clone, Copy, PartialEq, Eq, Structural, Debug)]
pub struct AllocError;

/// A block of memory: the address of its first byte and its usable length,
/// which is at least the size that was asked for.
#[derive(Clone, Copy, PartialEq, Eq, Structural, Debug)]
pub struct Block {
    pub addr: usize,
    pub len: usize,
}

/// The live blocks of an allocator, each address with the bytes behind it.
pub type Heap = Map<usize, Seq<u8>>;

/// A count of requests.
pub type Calls = nat;

/// The block that stands for a layout of size zero: no bytes, at the
/// dangling address of the layout.
pub open spec fn dangling_block(layout: Layout) -> Block {
    Block { addr: layout.spec_dangling(), len: 0 }
}

/// Whether `ptr` and `layout` describe a block that `heap` holds. A layout of
/// size zero describes the dangling block, which no heap holds.
pub open spec fn owns(heap: Heap, ptr: usize, layout: Layout) -> bool {
    layout.spec_size() > 0 ==> heap.contains_key(ptr) && heap[ptr].len() >= layout.spec_size()
}

/// The heap once the block at `ptr` is released. Releasing the dangling block
/// changes nothing.
pub open spec fn released(heap: Heap, ptr: usize, layout: Layout) -> Heap {
    if layout.spec_size() == 0 {
        heap
    } else {
        heap.remove(ptr)
    }
}

/// Whether the first `count` bytes of `a` are those of `b`.
pub open spec fn same_prefix(a: Seq<u8>, b: Seq<u8>, count: int) -> bool {
    forall|i: int| 0 <= i < count ==> a[i] == b[i]
}

/// Whether `a` holds, from `from` to the end of `b`, the bytes of `b`.
pub open spec fn same_from(a: Seq<u8>, b: Seq<u8>, from: int) -> bool {
    forall|i: int| from <= i < b.len() ==> a[i] == b[i]
}

/// Whether the bytes of `s` from `from` up to `to` are all zero.
pub open spec fn zeroed(s: Seq<u8>, from: int, to: int) -> bool {
    forall|i: int| from <= i < to ==> s[i] == 0u8
}

/// Whether `post` is `rest` with the block `b` added: at an address that is
/// not null, is aligned for `layout` and was free in `rest`, with room for
/// the size of `layout`.
pub open spec fn placed(rest: Heap, post: Heap, layout: Layout, b: Block) -> bool {
    &&& b.addr != 0
    &&& b.addr as int % layout.spec_align() as int == 0
    &&& b.len >= layout.spec_size()
    &&& !rest.contains_key(b.addr)
    &&& post.contains_key(b.addr)
    &&& post[b.addr].len() == b.len
    &&& post == rest.insert(b.addr, post[b.addr])
}

/// What an allocation does. A layout of size zero always succeeds, with the
/// dangling block, and leaves the heap as it was. Any other layout either
/// places a fresh block or fails and leaves the heap as it was.
pub open spec fn allocated(
    pre: Heap,
    post: Heap,
    layout: Layout,
    r: Result<Block, AllocError>,
) -> bool {
    match r {
        Ok(b) => if layout.spec_size() == 0 {
            b == dangling_block(layout) && post == pre
        } else {
            placed(pre, post, layout, b)
        },
        Err(_) => layout.spec_size() > 0 && post == pre,
    }
}

/// What resizing the block at `ptr` from `old_layout` to `new_layout` does.
/// On success the old block is gone and the new one holds the first
/// `min(old size, new size)` bytes of the old one; a new size of zero gives
/// the dangling block. On failure the heap is as it was.
pub open spec fn resized(
    pre: Heap,
    post: Heap,
    ptr: usize,
    old_layout: Layout,
    new_layout: Layout,
    r: Result<Block, AllocError>,
) -> bool {
    let rest = released(pre, ptr, old_layout);
    let count: int = if old_layout.spec_size() <= new_layout.spec_size() {
        old_layout.spec_size() as int
    } else {
        new_layout.spec_size() as int
    };
    match r {
        Ok(b) => if new_layout.spec_size() == 0 {
            b == dangling_block(new_layout) && post == rest
        } else {
            placed(rest, post, new_layout, b) && same_prefix(post[b.addr], pre[ptr], count)
        },
        Err(_) => new_layout.spec_size() > 0 && post == pre,
    }
}

/// A source of memory blocks.
///
/// `allocate`, `deallocate`, `read` and `write` are what a backend provides.
/// The other operations are built from them, and a backend may replace them
/// by anything that keeps their contracts.
pub trait Allocator: Sized {
    /// The live blocks.
    spec fn heap(&self) -> Heap;

    /// What the allocator keeps true of itself between calls.
    spec fn inv(&self) -> bool;

    /// How many requests have reached the backend so far.
    spec fn backend_calls(&self) -> Calls;

    /// Asks for a block of the shape `layout`. Its bytes may hold anything.
    fn allocate(&mut self, layout: Layout) -> (r: Result<Block, AllocError>)
        requires
            old(self).inv(),
        ensures
            final(self).inv(),
            allocated(old(self).heap(), final(self).heap(), layout, r),
            layout.spec_size() == 0 ==> final(self).backend_calls() == old(self).backend_calls(),
    ;

    /// Releases the block at `ptr`, which `layout` describes.
    fn deallocate(&mut self, ptr: usize, layout: Layout)
        requires
            old(self).inv(),
            owns(old(self).heap(), ptr, layout),
        ensures
            final(self).inv(),
            final(self).heap() == released(old(self).heap(), ptr, layout),
            layout.spec_size() == 0 ==> final(self).backend_calls() == old(self).backend_calls(),
    ;

    /// The byte at `offset` in the block at `ptr`.
    fn read(&self, ptr: usize, offset: usize) -> (r: u8)
        requires
            self.inv(),
            self.heap().contains_key(ptr),
            offset < self.heap()[ptr].len(),
        ensures
            r == self.heap()[ptr][offset as int],
    ;

    /// Sets the byte at `offset` in the block at `ptr`.
    fn write(&mut self, ptr: usize, offset: usize, value: u8)
        requires
            old(self).inv(),
            old(self).heap().contains_key(ptr),
            offset < old(self).heap()[ptr].len(),
        ensures
            final(self).inv(),
            final(self).heap() == old(self).heap().insert(
                ptr,
                old(self).heap()[ptr].update(offset as int, value),
            ),
            final(self).backend_calls() == old(self).backend_calls(),
    ;

    /// Asks for a block of the shape `layout` whose bytes are all zero.
    fn allocate_zeroed(&mut self, layout: Layout) -> (r: Result<Block, AllocError>)
        requires
            old(self).inv(),
        ensures
            final(self).inv(),
            allocated(old(self).heap(), final(self).heap(), layout, r),
            r matches Ok(b) ==> layout.spec_size() > 0 ==> zeroed(
                final(self).heap()[b.addr],
                0,
                b.len as int,
            ),
            layout.spec_size() == 0 ==> final(self).backend_calls() == old(self).backend_calls(),
    {
        let ghost pre = self.heap();
        let r = self.allocate(layout);
        match r {
            Ok(b) => {
                if b.len > 0 {
                    self.fill_zero(b.addr, 0, b.len);
                }
                proof {
                    if layout.spec_size() > 0 {
                        assert(self.heap() =~= pre.insert(b.addr, self.heap()[b.addr]));
                    }
                }
                Ok(b)
            },
            Err(e) => Err(e),
        }
    }

    /// Makes the block at `ptr` larger. The new block starts with the bytes
    /// of the old one, which is released.
    fn grow(&mut self, ptr: usize, old_layout: Layout, new_layout: Layout) -> (r: Result<
        Block,
        AllocError,
    >)
        requires
            old(self).inv(),
            owns(old(self).heap(), ptr, old_layout),
            new_layout.spec_size() >= old_layout.spec_size(),
            new_layout.spec_align() == old_layout.spec_align(),
        ensures
            final(self).inv(),
            resized(old(self).heap(), final(self).heap(), ptr, old_layout, new_layout, r),
            old_layout.spec_size() == 0 && new_layout.spec_size() == 0
                ==> final(self).backend_calls() == old(self).backend_calls(),
    {
        let ghost pre = self.heap();
        let r = self.allocate(new_layout);
        match r {
            Ok(b) => {
                let count: usize = old_layout.size();
                self.move_block(ptr, old_layout, b.addr, count);
                proof {
                    if count > 0 {
                        let moved = self.heap()[b.addr];
                        assert(self.heap() =~= pre.remove(ptr).insert(b.addr, moved));
                    }
                }
                Ok(b)
            },
            Err(e) => Err(e),
        }
    }

    /// As `grow`, and the bytes that the new block has beyond the old size,
    /// up to the new size, are zero.
    fn grow_zeroed(&mut self, ptr: usize, old_layout: Layout, new_layout: Layout) -> (r: Result<
        Block,
        AllocError,
    >)
        requires
            old(self).inv(),
            owns(old(self).heap(), ptr, old_layout),
            new_layout.spec_size() >= old_layout.spec_size(),
            new_layout.spec_align() == old_layout.spec_align(),
        ensures
            final(self).inv(),
            resized(old(self).heap(), final(self).heap(), ptr, old_layout, new_layout, r),
            r matches Ok(b) ==> new_layout.spec_size() > 0 ==> zeroed(
                final(self).heap()[b.addr],
                old_layout.spec_size() as int,
                new_layout.spec_size() as int,
            ),
            old_layout.spec_size() == 0 && new_layout.spec_size() == 0
                ==> final(self).backend_calls() == old(self).backend_calls(),
    {
        let ghost pre = self.heap();
        let r = self.allocate_zeroed(new_layout);
        match r {
            Ok(b) => {
                let count: usize = old_layout.size();
                self.move_block(ptr, old_layout, b.addr, count);
                proof {
                    if count > 0 {
                        let moved = self.heap()[b.addr];
                        assert(self.heap() =~= pre.remove(ptr).insert(b.addr, moved));
                    }
                }
                Ok(b)
            },
            Err(e) => Err(e),
        }
    }

    /// Makes the block at `ptr` smaller. The new block holds the bytes that
    /// the old one, which is released, had up to the new size.
    fn shrink(&mut self, ptr: usize, old_layout: Layout, new_layout: Layout) -> (r: Result<
        Block,
        AllocError,
    >)
        requires
            old(self).inv(),
            owns(old(self).heap(), ptr, old_layout),
            new_layout.spec_size() <= old_layout.spec_size(),
            new_layout.spec_align() == old_layout.spec_align(),
        ensures
            final(self).inv(),
            resized(old(self).heap(), final(self).heap(), ptr, old_layout, new_layout, r),
            old_layout.spec_size() == 0 && new_layout.spec_size() == 0
                ==> final(self).backend_calls() == old(self).backend_calls(),
    {
        let ghost pre = self.heap();
        let r = self.allocate(new_layout);
        match r {
            Ok(b) => {
                let count: usize = new_layout.size();
                self.move_block(ptr, old_layout, b.addr, count);
                proof {
                    if count > 0 {
                        let moved = self.heap()[b.addr];
                        assert(self.heap() =~= pre.remove(ptr).insert(b.addr, moved));
                    }
                }
                Ok(b)
            },
            Err(e) => Err(e),
        }
    }

    /// Sets the bytes from `from` up to `to` of the block at `ptr` to zero.
    fn fill_zero(&mut self, ptr: usize, from: usize, to: usize)
        requires
            old(self).inv(),
            old(self).heap().contains_key(ptr),
            from <= to <= old(self).heap()[ptr].len(),
        ensures
            final(self).inv(),
            final(self).backend_calls() == old(self).backend_calls(),
            final(self).heap().contains_key(ptr),
            final(self).heap() == old(self).heap().insert(ptr, final(self).heap()[ptr]),
            final(self).heap()[ptr].len() == old(self).heap()[ptr].len(),
            zeroed(final(self).heap()[ptr], from as int, to as int),
            same_prefix(final(self).heap()[ptr], old(self).heap()[ptr], from as int),
            same_from(final(self).heap()[ptr], old(self).heap()[ptr], to as int),
    {
        let ghost pre = self.heap();
        let ghost calls = self.backend_calls();
        let mut i: usize = from;
        while i < to
            invariant
                pre.contains_key(ptr),
                from <= i <= to <= pre[ptr].len(),
                self.inv(),
                self.backend_calls() == calls,
                self.heap().contains_key(ptr),
                self.heap() =~= pre.insert(ptr, self.heap()[ptr]),
                self.heap()[ptr].len() == pre[ptr].len(),
                zeroed(self.heap()[ptr], from as int, i as int),
                same_prefix(self.heap()[ptr], pre[ptr], from as int),
                same_from(self.heap()[ptr], pre[ptr], i as int),
            decreases to - i,
        {
            self.write(ptr, i, 0);
            i += 1;
        }
    }

    /// Copies the first `count` bytes of the block at `src` to the block at
    /// `dst`.
    fn copy_bytes(&mut self, src: usize, dst: usize, count: usize)
        requires
            old(self).inv(),
            src != dst,
            old(self).heap().contains_key(src),
            old(self).heap().contains_key(dst),
            count <= old(self).heap()[src].len(),
            count <= old(self).heap()[dst].len(),
        ensures
            final(self).inv(),
            final(self).backend_calls() == old(self).backend_calls(),
            final(self).heap().contains_key(dst),
            final(self).heap() == old(self).heap().insert(dst, final(self).heap()[dst]),
            final(self).heap()[dst].len() == old(self).heap()[dst].len(),
            same_prefix(final(self).heap()[dst], old(self).heap()[src], count as int),
            same_from(final(self).heap()[dst], old(self).heap()[dst], count as int),
    {
        let ghost pre = self.heap();
        let ghost calls = self.backend_calls();
        let mut i: usize = 0;
        while i < count
            invariant
                i <= count,
                src != dst,
                pre.contains_key(src),
                pre.contains_key(dst),
                count <= pre[src].len(),
                count <= pre[dst].len(),
                self.inv(),
                self.backend_calls() == calls,
                self.heap().contains_key(src),
                self.heap().contains_key(dst),
                self.heap()[src] == pre[src],
                self.heap() =~= pre.insert(dst, self.heap()[dst]),
                self.heap()[dst].len() == pre[dst].len(),
                same_prefix(self.heap()[dst], pre[src], i as int),
                same_from(self.heap()[dst], pre[dst], i as int),
            decreases count - i,
        {
            let value = self.read(src, i);
            self.write(dst, i, value);
            i += 1;
        }
    }

    /// Ends a move to a new block: copies the first `count` bytes of the
    /// block at `ptr` to the block at `dst`, then releases the block at `ptr`.
    fn move_block(&mut self, ptr: usize, old_layout: Layout, dst: usize, count: usize)
        requires
            old(self).inv(),
            owns(old(self).heap(), ptr, old_layout),
            count <= old_layout.spec_size(),
            count > 0 ==> {
                &&& dst != ptr
                &&& old(self).heap().contains_key(dst)
                &&& count <= old(self).heap()[dst].len()
            },
        ensures
            final(self).inv(),
            old_layout.spec_size() == 0 ==> final(self).backend_calls() == old(self).backend_calls(),
            count == 0 ==> final(self).heap() == released(old(self).heap(), ptr, old_layout),
            count > 0 ==> {
                &&& final(self).heap().contains_key(dst)
                &&& final(self).heap() == old(self).heap().remove(ptr).insert(
                    dst,
                    final(self).heap()[dst],
                )
                &&& final(self).heap()[dst].len() == old(self).heap()[dst].len()
                &&& same_prefix(final(self).heap()[dst], old(self).heap()[ptr], count as int)
                &&& same_from(final(self).heap()[dst], old(self).heap()[dst], count as int)
            },
    {
        let ghost pre = self.heap();
        if count > 0 {
            self.copy_bytes(ptr, dst, count);
        }
        self.deallocate(ptr, old_layout);
        proof {
            if count > 0 {
                assert(self.heap() =~= pre.remove(ptr).insert(dst, self.heap()[dst]));
            }
        }
    }
}

/// A layout of size zero is always served: with the dangling block, whose
/// address is the alignment of the layout, and with the heap left as it was.
pub proof fn lemma_zero_size_allocation(
    pre: Heap,
    post: Heap,
    layout: Layout,
    r: Result<Block, AllocError>,
)
    requires
        allocated(pre, post, layout, r),
        layout.spec_size() == 0,
    ensures
        r == Ok::<Block, AllocError>(dangling_block(layout)),
        dangling_block(layout).addr == layout.spec_align(),
        dangling_block(layout).len == 0,
        post == pre,
{
}

/// Resizing to a layout of size zero always succeeds: with the dangling block
/// of the new layout, and with nothing changed but the release of the old
/// block.
pub proof fn lemma_zero_size_resize(
    pre: Heap,
    post: Heap,
    ptr: usize,
    old_layout: Layout,
    new_layout: Layout,
    r: Result<Block, AllocError>,
)
    requires
        resized(pre, post, ptr, old_layout, new_layout, r),
        new_layout.spec_size() == 0,
    ensures
        r == Ok::<Block, AllocError>(dangling_block(new_layout)),
        dangling_block(new_layout).addr == new_layout.spec_align(),
        dangling_block(new_layout).len == 0,
        post == released(pre, ptr, old_layout),
{
}

/// After a block has grown, its first bytes, as many as the old size, are
/// those that the old block held.
pub proof fn lemma_grow_keeps_bytes(
    pre: Heap,
    post: Heap,
    ptr: usize,
    old_layout: Layout,
    new_layout: Layout,
    b: Block,
)
    requires
        resized(pre, post, ptr, old_layout, new_layout, Ok(b)),
        old_layout.spec_size() <= new_layout.spec_size(),
    ensures
        forall|i: int| 0 <= i < old_layout.spec_size() ==> post[b.addr][i] == pre[ptr][i],
{
}

/// After a block has shrunk, its first bytes, as many as the new size, are
/// those that the old block held in the same places.
pub proof fn lemma_shrink_keeps_bytes(
    pre: Heap,
    post: Heap,
    ptr: usize,
    old_layout: Layout,
    new_layout: Layout,
    b: Block,
)
    requires
        resized(pre, post, ptr, old_layout, new_layout, Ok(b)),
        new_layout.spec_size() <= old_layout.spec_size(),
    ensures
        forall|i: int| 0 <= i < new_layout.spec_size() ==> post[b.addr][i] == pre[ptr][i],
{
}

/// A failed request changes nothing: every block is still there, with its
/// bytes.
pub proof fn lemma_failure_keeps_heap(
    pre: Heap,
    post: Heap,
    ptr: usize,
    old_layout: Layout,
    new_layout: Layout,
    e: AllocError,
)
    requires
        resized(pre, post, ptr, old_layout, new_layout, Err(e)),
    ensures
        post == pre,
        new_layout.spec_size() > 0,
{
}

} // verus!
