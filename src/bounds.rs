use vstd::prelude::*;
use vstd::std_specs::cmp::{PartialOrdIs, PartialOrdSpec};

verus! {

/// A rectangle given by its four bounds; as a viewport on the complex plane,
/// `left` and `right` are real parts and `bottom` and `top` imaginary parts.
#[derive(Debug, Clone)]
pub struct Rect<T> {
    pub top: T,
    pub left: T,
    pub bottom: T,
    pub right: T,
}

impl<T: PartialOrd> Rect<T> {
    /// Neither degenerate nor inverted: `left` lies below `right` and
    /// `bottom` below `top`.
    pub open spec fn proper(&self) -> bool {
        &&& self.left.is_lt(&self.right)
        &&& self.bottom.is_lt(&self.top)
    }

    /// Tests that the rectangle is neither degenerate nor inverted, which a
    /// viewport must be before it is rendered or transformed again.
    pub fn is_valid(&self) -> (r: bool)
        ensures
            T::obeys_partial_cmp_spec() ==> (r == self.proper()),
    {
        self.left < self.right && self.bottom < self.top
    }
}

} // verus!
