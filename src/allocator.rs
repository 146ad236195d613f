//! The allocator a vector asks for its block.

use crate::layout::BlockLayout;
use vstd::prelude::*;

verus! {

/// The allocator refused a request.
#[derive(Clone, Copy, Debug, PartialEq, Eq, Structural)]
pub struct AllocError;

/// One request a vector makes of its allocator.
#[derive(Clone, Copy, Debug, PartialEq, Eq, Structural)]
pub enum Request {
    /// A zero-filled block of this layout, made when the vector is made.
    AllocateZeroed(BlockLayout),
    /// Growing the block from the first layout to the second, keeping its prefix.
    Grow(BlockLayout, BlockLayout),
    /// The block of this layout is given back.
    Deallocate(BlockLayout),
}

/// The allocator a vector asks for each block. It may refuse a request; the
/// memory itself comes from the global heap. A vector makes one
/// `allocate_zeroed` request when it is made, one `grow` request each time it
/// runs out of slots, and one `deallocate` request when it is released, each
/// with the layout of the block concerned. Each request is recorded, in
/// order, in `requests`.
pub trait Allocator {
    /// The requests received so far, oldest first.
    open spec fn requests(&self) -> Seq<Request> {
        Seq::empty()
    }

    /// Whether this allocator grants every request it is given. Unless an
    /// allocator says so, a vector expects that any request may be refused.
    open spec fn grants_all(&self) -> bool {
        false
    }

    /// Asked for a zero-filled block of the given layout.
    fn allocate_zeroed(&mut self, layout: BlockLayout) -> (r: Result<(), AllocError>)
        ensures
            final(self).requests() == old(self).requests().push(Request::AllocateZeroed(layout)),
            old(self).grants_all() ==> r is Ok,
            final(self).grants_all() == old(self).grants_all(),
    ;

    /// Asked to enlarge the block of layout `from` to layout `to`, keeping
    /// its prefix.
    fn grow(&mut self, from: BlockLayout, to: BlockLayout) -> (r: Result<(), AllocError>)
        ensures
            final(self).requests() == old(self).requests().push(Request::Grow(from, to)),
            old(self).grants_all() ==> r is Ok,
            final(self).grants_all() == old(self).grants_all(),
    ;

    /// Told that the block of the given layout is given back.
    fn deallocate(&mut self, layout: BlockLayout)
        ensures
            final(self).requests() == old(self).requests().push(Request::Deallocate(layout)),
            final(self).grants_all() == old(self).grants_all(),
    ;
}

/// The process-wide heap. It never refuses a request: the standard heap
/// aborts the process rather than return an error. The record of requests is
/// ghost state and takes no space.
pub struct Global {
    record: Ghost<Seq<Request>>,
}

impl Global {
    /// The global heap, with no request recorded yet.
    pub fn new() -> (r: Global)
        ensures
            r.requests() == Seq::<Request>::empty(),
    {
        Global { record: Ghost(Seq::empty()) }
    }
}

impl Allocator for Global {
    closed spec fn requests(&self) -> Seq<Request> {
        self.record@
    }

    open spec fn grants_all(&self) -> bool {
        true
    }

    fn allocate_zeroed(&mut self, layout: BlockLayout) -> (r: Result<(), AllocError>) {
        self.record = Ghost(self.record@.push(Request::AllocateZeroed(layout)));
        Ok(())
    }

    fn grow(&mut self, from: BlockLayout, to: BlockLayout) -> (r: Result<(), AllocError>) {
        self.record = Ghost(self.record@.push(Request::Grow(from, to)));
        Ok(())
    }

    fn deallocate(&mut self, layout: BlockLayout) {
        self.record = Ghost(self.record@.push(Request::Deallocate(layout)));
    }
}

} // verus!
