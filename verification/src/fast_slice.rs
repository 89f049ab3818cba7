use vstd::prelude::*;

verus! {

/// A thin handle on a borrowed slice, recording the extent a consumer
/// walks.
///
/// The handle only holds the slice it stands over. Its one operation,
/// [`FastSlice::next`], takes the handle by shared reference, returns unit
/// and observably changes nothing.
pub struct FastSlice<'a, T> {
    pub data: &'a [T],
}

impl<'a, T> FastSlice<'a, T> {
    /// The elements the handle stands over.
    pub open spec fn spec_elements(&self) -> Seq<T> {
        self.data@
    }

    /// Builds a handle over an empty slice.
    pub fn new() -> (r: Self)
        ensures
            r.spec_elements() == Seq::<T>::empty(),
    {
        let data: &'a [T] = &[];
        FastSlice { data }
    }

    /// Returns unit and changes nothing: the handle is taken by shared
    /// reference, so the slice and everything observable stay as they are.
    pub fn next(&self) {
    }
}

impl<'a, T> From<&'a [T]> for FastSlice<'a, T> {
    /// Builds a handle over the whole of the given slice.
    fn from(value: &'a [T]) -> (r: Self) {
        FastSlice { data: value }
    }
}

impl<'a, T> vstd::std_specs::convert::FromSpecImpl<&'a [T]> for FastSlice<'a, T> {
    open spec fn obeys_from_spec() -> bool {
        true
    }

    open spec fn from_spec(value: &'a [T]) -> Self {
        FastSlice { data: value }
    }
}

} // verus!
