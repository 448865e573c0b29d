use vstd::prelude::*;
use crate::sys::OVERLAPPED;

verus! {

/// The completion header of an event that is posted by hand.
#[derive(Copy, Clone, Debug)]
pub struct EventContext {
    overlapped: OVERLAPPED,
}

impl EventContext {
    /// The header that the context holds.
    pub closed spec fn spec_overlapped(&self) -> OVERLAPPED {
        self.overlapped
    }

    /// A context whose header is zero.
    pub fn new() -> (r: EventContext)
        ensures
            r.spec_overlapped().is_zero(),
    {
        EventContext { overlapped: OVERLAPPED::new() }
    }

    /// The header, to be changed in place.
    pub fn overlapped(&mut self) -> (r: &mut OVERLAPPED)
        ensures
            *r == old(self).spec_overlapped(),
            final(self).spec_overlapped() == *final(r),
    {
        &mut self.overlapped
    }
}

} // verus!
