//! The shape of a memory block: a size in bytes and a power-of-two alignment.

use vstd::prelude::*;
use vstd::arithmetic::power2::{
    is_pow2, is_pow2_equiv, lemma_pow2, lemma_pow2_adds, lemma_pow2_pos,
    lemma_pow2_strictly_increases, lemma_pow2_unfold, pow2,
};
use vstd::arithmetic::power::pow;
use vstd::layout::{signed_int_min_max_values, unsigned_int_max_values};

verus! {

/// `size` rounded up to the nearest multiple of `align`.
pub open spec fn round_up(size: int, align: int) -> int
    recommends
        align > 0,
{
    ((size + align - 1) / align) * align
}

/// The largest size, in bytes, that a block may have: the greatest signed
/// offset of the platform.
pub open spec fn ceiling() -> int {
    isize::MAX as int
}

/// Whether `(size, align)` describes a block: `align` is a power of two and
/// `size`, rounded up to a multiple of `align`, stays within the ceiling.
pub open spec fn valid_shape(size: int, align: int) -> bool {
    &&& is_pow2(align)
    &&& round_up(size, align) <= ceiling()
}

/// The signal that a requested shape is not valid. It carries no detail.
#[derive(Clone, Copy, PartialEq, Eq, Structural, Debug)]
pub struct LayoutError;

/// A validated size and alignment.
#[derive(Clone, Copy, PartialEq, Eq, Structural, Debug, Hash)]
pub struct Layout {
    size: usize,
    align: usize,
}

/// Every power of two that fits in a `usize` divides the ceiling plus one.
proof fn lemma_align_divides_ceiling(align: int)
    requires
        is_pow2(align),
        align <= usize::MAX,
    ensures
        0 < align <= ceiling() + 1,
        (ceiling() + 1) % align == 0,
{
    is_pow2_equiv(align);
    let k: nat = choose|k: nat| pow(2, k) == align;
    let top: nat = (isize::BITS - 1) as nat;
    signed_int_min_max_values();
    lemma_pow2(k);
    lemma_pow2_pos(k);
    assert(pow2(k) == align);
    assert(ceiling() + 1 == pow2(top));
    assert(usize::MAX as int == 2 * pow2(top) - 1) by {
        unsigned_int_max_values();
        lemma_pow2_unfold(usize::BITS as nat);
    }
    if k > top {
        if k > top + 1 {
            lemma_pow2_strictly_increases(top + 1, k);
        }
        lemma_pow2_unfold(top + 1);
        assert(false);
    }
    let rest: nat = (top - k) as nat;
    lemma_pow2_adds(k, rest);
    lemma_pow2_pos(rest);
    let q: int = pow2(rest) as int;
    assert(ceiling() + 1 == align * q);
    assert(q >= 1);
    assert(align <= align * q) by (nonlinear_arith)
        requires
            q >= 1,
            align > 0,
    ;
    assert((align * q) % align == 0) by (nonlinear_arith)
        requires
            align > 0,
    ;
}

/// Rounding up stays within the ceiling exactly when the size leaves room
/// for the padding that the alignment may ask for.
pub proof fn lemma_valid_shape(size: int, align: int)
    requires
        0 <= size,
        is_pow2(align),
        align <= usize::MAX,
    ensures
        0 < align <= ceiling() + 1,
        valid_shape(size, align) <==> size <= ceiling() - (align - 1),
        size <= round_up(size, align) < size + align,
        round_up(size, align) % align == 0,
{
    lemma_align_divides_ceiling(align);
    let m: int = ceiling() + 1;
    let t: int = (size + align - 1) / align;
    let q: int = m / align;
    assert(m == q * align && t * align <= size + align - 1 < (t + 1) * align && (t * align)
        % align == 0) by (nonlinear_arith)
        requires
            align > 0,
            m % align == 0,
            q == m / align,
            t == (size + align - 1) / align,
    ;
    assert((t + 1) * align == t * align + align) by (nonlinear_arith);
    assert((t * align <= m - 1) <==> (size <= m - align)) by (nonlinear_arith)
        requires
            align > 0,
            m == q * align,
            t * align <= size + align - 1 < (t + 1) * align,
    ;
}

/// Whether `n` is a power of two.
fn is_power_of_two(n: usize) -> (r: bool)
    ensures
        r == is_pow2(n as int),
{
    if n == 0 {
        proof {
            reveal(is_pow2);
        }
        return false;
    }
    let mut m: usize = n;
    while m % 2 == 0
        invariant
            m > 0,
            is_pow2(m as int) == is_pow2(n as int),
        decreases m,
    {
        proof {
            reveal(is_pow2);
        }
        m = m / 2;
    }
    proof {
        reveal(is_pow2);
    }
    m == 1
}

impl Layout {
    #[verifier::type_invariant]
    closed spec fn well_formed(self) -> bool {
        valid_shape(self.size as int, self.align as int)
    }

    /// The size of the block, in bytes.
    pub closed spec fn spec_size(self) -> usize {
        self.size
    }

    /// The alignment of the block, in bytes.
    pub closed spec fn spec_align(self) -> usize {
        self.align
    }

    /// The address that stands for a block of no bytes: the alignment itself.
    pub open spec fn spec_dangling(self) -> usize {
        self.spec_align()
    }

    /// Whether the layout has a valid shape. Every layout that executable
    /// code holds does.
    pub open spec fn valid(self) -> bool {
        valid_shape(self.spec_size() as int, self.spec_align() as int)
    }

    /// A valid layout has a positive alignment, and its size leaves room for
    /// the padding that the alignment may ask for.
    pub proof fn lemma_valid(self)
        requires
            self.valid(),
        ensures
            self.spec_align() > 0,
            self.spec_align() as int % self.spec_align() as int == 0,
            self.spec_size() <= ceiling() - (self.spec_align() - 1),
    {
        lemma_valid_shape(self.size as int, self.align as int);
    }

    /// Validates a size and an alignment. Succeeds exactly on a valid shape,
    /// and the layout then holds both as given.
    pub fn from_size_align(size: usize, align: usize) -> (r: Result<Layout, LayoutError>)
        ensures
            valid_shape(size as int, align as int) <==> r is Ok,
            r matches Ok(layout) ==> layout.spec_size() == size && layout.spec_align() == align
                && layout.valid(),
    {
        if !is_power_of_two(align) {
            return Err(LayoutError);
        }
        proof {
            lemma_valid_shape(size as int, align as int);
        }
        if size > (isize::MAX as usize) - (align - 1) {
            return Err(LayoutError);
        }
        Ok(Layout { size, align })
    }

    /// The size of the block, in bytes.
    pub fn size(&self) -> (r: usize)
        ensures
            r == self.spec_size(),
            self.valid(),
    {
        proof {
            use_type_invariant(self);
        }
        self.size
    }

    /// The alignment of the block, in bytes: a power of two.
    pub fn align(&self) -> (r: usize)
        ensures
            r == self.spec_align(),
            self.valid(),
    {
        proof {
            use_type_invariant(self);
        }
        self.align
    }

    /// An address that is aligned for this layout, is not null and points to
    /// no storage. It stands for the block of a layout of size zero.
    pub fn dangling(&self) -> (r: usize)
        ensures
            r == self.spec_dangling(),
            r != 0,
            r as int % self.spec_align() as int == 0,
            self.valid(),
    {
        crate::layout_dangling(self)
    }
}

} // verus!
