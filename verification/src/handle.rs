use vstd::prelude::*;

verus! {

/// A handle of the operating system, kept as its number. Two handles are
/// equal, and ordered, as their numbers are.
#[derive(Copy, Clone, Debug, PartialEq, Eq, PartialOrd, Ord, Hash, Structural)]
pub struct Handle {
    raw: usize,
}

impl View for Handle {
    type V = usize;

    closed spec fn view(&self) -> usize {
        self.raw
    }
}

impl Handle {
    /// The handle with the given number.
    pub closed spec fn spec_from_raw(raw: usize) -> Handle {
        Handle { raw }
    }

    /// The handle made of a number has that number.
    pub proof fn lemma_from_raw(raw: usize)
        ensures
            Self::spec_from_raw(raw)@ == raw,
    {
    }

    pub fn from_raw(raw: usize) -> (r: Handle)
        ensures
            r@ == raw,
            r == Self::spec_from_raw(raw),
    {
        Handle { raw }
    }

    pub fn to_raw(&self) -> (r: usize)
        ensures
            r == self@,
    {
        self.raw
    }

    pub fn to_usize(&self) -> (r: usize)
        ensures
            r == self@,
    {
        self.raw
    }

    /// Whether this handle's number comes before the other's.
    pub fn precedes(&self, other: &Handle) -> (r: bool)
        ensures
            r == (self@ < other@),
    {
        self.raw < other.raw
    }

    /// Whether the two handles have the same number.
    pub fn same(&self, other: &Handle) -> (r: bool)
        ensures
            r == (self@ == other@),
            r == (*self == *other),
    {
        self.raw == other.raw
    }
}

/// Handles with the same number are the same handle.
pub proof fn lemma_handle_by_number(a: Handle, b: Handle)
    ensures
        (a@ == b@) == (a == b),
{
}

} // verus!
