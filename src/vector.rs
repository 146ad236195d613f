//! The vector: a one-pointer handle to a block that holds the header and the
//! elements.

use crate::allocator::{AllocError, Allocator, Global, Request};
use crate::growth::{next_cap, push_step};
use crate::layout::{block_layout_of, layout_fits, BlockLayout, LayoutOverflow};
use vstd::arithmetic::power2::is_pow2;
use vstd::prelude::*;

verus! {

/// Why a vector could not be made or could not take one more element.
#[derive(Clone, Copy, Debug, PartialEq, Eq, Structural)]
pub enum SmolVecError {
    /// The block for the capacity needed has no representable size.
    LayoutOverflow,
    /// The allocator refused the block.
    AllocationFailure,
}

/// `next_cap(cap)`, or `None` when it does not fit in a `usize`.
fn next_capacity(cap: usize) -> (r: Option<usize>)
    ensures
        r == (if next_cap(cap as nat) <= usize::MAX {
            Some(next_cap(cap as nat) as usize)
        } else {
            None::<usize>
        }),
{
    if cap == 0 {
        Some(1)
    } else {
        cap.checked_mul(2)
    }
}

/// The block: the two header words, then the element slots.
struct Block<T> {
    len: usize,
    cap: usize,
    slots: Vec<T>,
}

/// A growable vector whose handle is one pointer wide: its length and
/// capacity are kept in the block with its elements.
///
/// Dropping a vector destroys its elements in index order and frees its
/// storage, but makes no request of the allocator. `release` destroys the
/// elements the same way and then sends the allocator its `deallocate`
/// request.
pub struct SmolVec<T, A: Allocator = Global> {
    block: Box<Block<T>>,
    alloc: A,
}

impl<T, A: Allocator> View for SmolVec<T, A> {
    type V = Seq<T>;

    closed spec fn view(&self) -> Seq<T> {
        self.block.slots@
    }
}

impl<T, A: Allocator> SmolVec<T, A> {
    /// The block is sound: the header's length counts the elements, the
    /// capacity is zero or a power of two, at least the length, and describes
    /// a block that fits.
    pub closed spec fn well_formed(&self) -> bool {
        &&& self.block.len == self.block.slots@.len()
        &&& self.block.len <= self.block.cap
        &&& (self.block.cap == 0 || is_pow2(self.block.cap as int))
        &&& Self::capacity_fits(self.block.cap as nat)
    }

    /// The length word of the header.
    pub closed spec fn spec_len(&self) -> nat {
        self.block.len as nat
    }

    /// The capacity word of the header.
    pub closed spec fn spec_cap(&self) -> nat {
        self.block.cap as nat
    }

    /// The allocator the block comes from.
    pub closed spec fn allocator(&self) -> A {
        self.alloc
    }

    /// Elements and capacity together.
    pub open spec fn model(&self) -> (Seq<T>, nat) {
        (self@, self.spec_cap())
    }

    /// Whether a block of `n` slots of `T` can be described.
    pub open spec fn capacity_fits(n: nat) -> bool {
        n <= usize::MAX && layout_fits(
            vstd::layout::size_of::<T>() as int,
            vstd::layout::align_of::<T>() as int,
            n as int,
        )
    }

    /// The block with `n` slots of `T`.
    pub open spec fn block_layout(n: nat) -> BlockLayout {
        block_layout_of(
            vstd::layout::size_of::<T>() as int,
            vstd::layout::align_of::<T>() as int,
            n as int,
        )
    }

    /// What holds of every vector between operations: the length does not
    /// pass the capacity, the capacity is zero or a power of two, and the
    /// elements are exactly `len` many.
    pub open spec fn consistent(&self) -> bool {
        &&& self.spec_len() <= self.spec_cap()
        &&& (self.spec_cap() == 0 ==> self.spec_len() == 0)
        &&& (self.spec_cap() == 0 || is_pow2(self.spec_cap() as int))
        &&& self@.len() == self.spec_len()
        &&& Self::capacity_fits(self.spec_cap())
    }

    /// Every well-formed vector is consistent.
    pub proof fn lemma_consistent(&self)
        requires
            self.well_formed(),
        ensures
            self.consistent(),
    {
    }

    /// The layout of the block with `cap` slots of `T`.
    fn layout(cap: usize) -> (r: Result<BlockLayout, LayoutOverflow>)
        ensures
            match r {
                Ok(l) => Self::capacity_fits(cap as nat) && l == Self::block_layout(cap as nat),
                Err(_) => !Self::capacity_fits(cap as nat),
            },
    {
        vstd::layout::layout_for_type_is_valid::<T>();
        BlockLayout::for_elements(core::mem::size_of::<T>(), core::mem::align_of::<T>(), cap)
    }

    /// The handle for a freshly allocated block: both header words zero.
    fn with_empty_block(alloc: A) -> (r: Self)
        ensures
            r.model() == (Seq::<T>::empty(), 0nat),
            r.spec_len() == 0,
            r.alloc == alloc,
    {
        SmolVec { block: Box::new(Block { len: 0, cap: 0, slots: Vec::new() }), alloc }
    }

    /// A new, empty vector whose block comes from `alloc`.
    pub fn new_in(alloc: A) -> (r: Result<Self, SmolVecError>)
        ensures
            match r {
                Ok(v) => v.model() == (Seq::<T>::empty(), 0nat) && v.spec_len() == 0 && v.well_formed()
                    && v.consistent(),
                Err(e) => e == SmolVecError::LayoutOverflow <==> !Self::capacity_fits(0),
            },
            !Self::capacity_fits(0) ==> r is Err,
            alloc.grants_all() && Self::capacity_fits(0) ==> r is Ok,
            r matches Ok(v) ==> v.allocator().grants_all() == alloc.grants_all()
                && v.allocator().requests() == alloc.requests().push(
                Request::AllocateZeroed(Self::block_layout(0)),
            ),
    {
        let mut alloc = alloc;
        let layout = match Self::layout(0) {
            Ok(l) => l,
            Err(_) => return Err(SmolVecError::LayoutOverflow),
        };
        match alloc.allocate_zeroed(layout) {
            Ok(()) => {},
            Err(_) => return Err(SmolVecError::AllocationFailure),
        }
        let v = Self::with_empty_block(alloc);
        proof {
            v.lemma_consistent();
        }
        Ok(v)
    }

    /// Number of elements.
    pub fn len(&self) -> (r: usize)
        requires
            self.well_formed(),
        ensures
            r == self.spec_len(),
            self.consistent(),
    {
        proof {
            self.lemma_consistent();
        }
        self.block.len
    }

    /// Number of slots in the block.
    pub fn cap(&self) -> (r: usize)
        requires
            self.well_formed(),
        ensures
            r == self.spec_cap(),
            self.consistent(),
    {
        proof {
            self.lemma_consistent();
        }
        self.block.cap
    }

    /// Whether the vector holds no element.
    pub fn is_empty(&self) -> (r: bool)
        requires
            self.well_formed(),
        ensures
            r == (self.spec_len() == 0),
    {
        self.len() == 0
    }

    /// Byte offset of the length word from the start of the block.
    pub fn len_ptr_mut(&self) -> (r: usize)
        ensures
            r == 0,
    {
        0
    }

    /// Byte offset of the capacity word from the start of the block.
    pub fn cap_ptr_mut(&self) -> (r: usize)
        ensures
            r == vstd::layout::size_of::<usize>(),
    {
        core::mem::size_of::<usize>()
    }

    /// The elements, in order.
    pub fn as_slice(&self) -> (r: &[T])
        requires
            self.well_formed(),
        ensures
            r@ == self@,
            r@.len() == self.spec_len(),
    {
        self.block.slots.as_slice()
    }

    /// The elements, in order, open to change in place.
    pub fn as_slice_mut(&mut self) -> (r: &mut [T])
        requires
            old(self).well_formed(),
        ensures
            r@ == old(self)@,
            final(self)@ == final(r)@,
            final(self).spec_len() == old(self).spec_len(),
            final(self).spec_cap() == old(self).spec_cap(),
            final(self).allocator() == old(self).allocator(),
            final(r)@.len() == old(self)@.len() ==> final(self).well_formed(),
    {
        self.block.slots.as_mut_slice()
    }

    /// Destroy the elements in index order, then hand the block back to the
    /// allocator with the layout of its current capacity, and return the
    /// allocator.
    pub fn release(self) -> (r: A)
        requires
            self.well_formed(),
        ensures
            r.requests() == self.allocator().requests().push(
                Request::Deallocate(Self::block_layout(self.spec_cap())),
            ),
            r.grants_all() == self.allocator().grants_all(),
    {
        let layout = Self::layout(self.block.cap).unwrap();
        let SmolVec { block, alloc } = self;
        let mut block = block;
        let mut alloc = alloc;
        block.slots.clear();
        alloc.deallocate(layout);
        alloc
    }

    /// What growing a full block asks of the allocator: the layout of the
    /// block now, the layout after growing, and the capacity it grows to.
    fn grow_request(&self) -> (r: Result<(BlockLayout, BlockLayout, usize), SmolVecError>)
        requires
            self.well_formed(),
        ensures
            match r {
                Ok((old_layout, new_layout, new_cap)) => {
                    &&& new_cap == next_cap(self.spec_cap())
                    &&& Self::capacity_fits(new_cap as nat)
                    &&& old_layout == Self::block_layout(self.spec_cap())
                    &&& new_layout == Self::block_layout(new_cap as nat)
                },
                Err(e) => e == SmolVecError::LayoutOverflow && !Self::capacity_fits(
                    next_cap(self.spec_cap()),
                ),
            },
    {
        let cap = self.block.cap;
        let new_cap = match next_capacity(cap) {
            Some(c) => c,
            None => return Err(SmolVecError::LayoutOverflow),
        };
        let new_layout = match Self::layout(new_cap) {
            Ok(l) => l,
            Err(_) => return Err(SmolVecError::LayoutOverflow),
        };
        let old_layout = Self::layout(cap).unwrap();
        Ok((old_layout, new_layout, new_cap))
    }

    /// Take the allocator's answer to a request to grow a full block to
    /// `new_cap` slots: on success the header records the new capacity; on
    /// refusal nothing changes.
    fn finish_grow(&mut self, granted: Result<(), AllocError>, new_cap: usize) -> (r: Result<
        (),
        SmolVecError,
    >)
        requires
            old(self).well_formed(),
            old(self).spec_len() == old(self).spec_cap(),
            new_cap == next_cap(old(self).spec_cap()),
            Self::capacity_fits(new_cap as nat),
        ensures
            final(self).well_formed(),
            final(self).allocator() == old(self).allocator(),
            final(self)@ == old(self)@,
            final(self).spec_len() == old(self).spec_len(),
            match granted {
                Ok(()) => r is Ok && final(self).spec_cap() == new_cap,
                Err(_) => r == Err::<(), SmolVecError>(SmolVecError::AllocationFailure)
                    && final(self).spec_cap() == old(self).spec_cap(),
            },
    {
        if granted.is_err() {
            return Err(SmolVecError::AllocationFailure);
        }
        let cap = self.block.cap;
        proof {
            if cap != 0 {
                reveal(is_pow2);
                assert((2 * cap) as int / 2 == cap as int);
            }
        }
        self.block.cap = new_cap;
        self.block.slots.reserve(new_cap - cap);
        Ok(())
    }

    /// Enlarge a full block to the next capacity.
    fn grow(&mut self) -> (r: Result<(), SmolVecError>)
        requires
            old(self).well_formed(),
            old(self).spec_len() == old(self).spec_cap(),
        ensures
            final(self).well_formed(),
            final(self)@ == old(self)@,
            final(self).spec_len() == old(self).spec_len(),
            match r {
                Ok(()) => final(self).spec_cap() == next_cap(old(self).spec_cap()),
                Err(e) => final(self).spec_cap() == old(self).spec_cap() && (e
                    == SmolVecError::LayoutOverflow <==> !Self::capacity_fits(
                    next_cap(old(self).spec_cap()),
                )),
            },
            old(self).allocator().grants_all() && Self::capacity_fits(
                next_cap(old(self).spec_cap()),
            ) ==> r is Ok,
            final(self).allocator().grants_all() == old(self).allocator().grants_all(),
            final(self).allocator().requests() == (if Self::capacity_fits(
                next_cap(old(self).spec_cap()),
            ) {
                old(self).allocator().requests().push(
                    Request::Grow(
                        Self::block_layout(old(self).spec_cap()),
                        Self::block_layout(next_cap(old(self).spec_cap())),
                    ),
                )
            } else {
                old(self).allocator().requests()
            }),
    {
        let (old_layout, new_layout, new_cap) = match self.grow_request() {
            Ok(req) => req,
            Err(e) => return Err(e),
        };
        let granted = self.alloc.grow(old_layout, new_layout);
        self.finish_grow(granted, new_cap)
    }

    /// Append `value` at the end, growing the block first when it is full.
    pub fn push(&mut self, value: T) -> (r: Result<(), SmolVecError>)
        requires
            old(self).well_formed(),
        ensures
            final(self).well_formed(),
            final(self).consistent(),
            match r {
                Ok(()) => final(self).model() == push_step(old(self).model(), value)
                    && final(self).spec_len() == old(self).spec_len() + 1,
                Err(_) => final(self).model() == old(self).model() && final(self).spec_len()
                    == old(self).spec_len(),
            },
            old(self).spec_len() < old(self).spec_cap() ==> r is Ok,
            (r == Err::<(), SmolVecError>(SmolVecError::LayoutOverflow)) <==> (old(self).spec_len()
                == old(self).spec_cap() && !Self::capacity_fits(next_cap(old(self).spec_cap()))),
            old(self).allocator().grants_all() ==> (r is Ok <==> r != Err::<(), SmolVecError>(
                SmolVecError::LayoutOverflow,
            )),
            final(self).allocator().grants_all() == old(self).allocator().grants_all(),
            final(self).allocator().requests() == (if old(self).spec_len() == old(self).spec_cap()
                && Self::capacity_fits(next_cap(old(self).spec_cap())) {
                old(self).allocator().requests().push(
                    Request::Grow(
                        Self::block_layout(old(self).spec_cap()),
                        Self::block_layout(next_cap(old(self).spec_cap())),
                    ),
                )
            } else {
                old(self).allocator().requests()
            }),
    {
        if self.block.len == self.block.cap {
            if let Err(e) = self.grow() {
                return Err(e);
            }
        }
        self.block.slots.push(value);
        self.block.len = self.block.len + 1;
        proof {
            self.lemma_consistent();
        }
        Ok(())
    }
}

impl<T> SmolVec<T, Global> {
    /// A new, empty vector on the global heap.
    pub fn new() -> (r: Result<Self, SmolVecError>)
        ensures
            match r {
                Ok(v) => v.model() == (Seq::<T>::empty(), 0nat) && v.spec_len() == 0 && v.well_formed()
                    && v.consistent(),
                Err(e) => e == SmolVecError::LayoutOverflow,
            },
            r is Ok <==> Self::capacity_fits(0),
            r matches Ok(v) ==> v.allocator().requests() == seq![
                Request::AllocateZeroed(Self::block_layout(0)),
            ],
    {
        let mut alloc = Global::new();
        let layout = match Self::layout(0) {
            Ok(l) => l,
            Err(_) => return Err(SmolVecError::LayoutOverflow),
        };
        let allocated = alloc.allocate_zeroed(layout);
        assert(allocated is Ok);
        let v = Self::with_empty_block(alloc);
        proof {
            v.lemma_consistent();
        }
        Ok(v)
    }
}

impl<T, A: Allocator> core::ops::Deref for SmolVec<T, A> {
    type Target = [T];

    fn deref(&self) -> (r: &[T])
        ensures
            r@ == self@,
    {
        self.block.slots.as_slice()
    }
}

impl<T, A: Allocator> core::ops::DerefMut for SmolVec<T, A> {
    fn deref_mut(&mut self) -> (r: &mut [T])
        ensures
            r@ == old(self)@,
            final(self)@ == final(r)@,
            final(self).spec_len() == old(self).spec_len(),
            final(self).spec_cap() == old(self).spec_cap(),
            final(self).allocator() == old(self).allocator(),
            old(self).well_formed() && final(r)@.len() == old(self)@.len()
                ==> final(self).well_formed(),
    {
        self.block.slots.as_mut_slice()
    }
}

} // verus!
