use vstd::prelude::*;
use vstd::std_specs::cmp::{PartialOrdIs, PartialOrdSpec};

verus! {

/// The value that `clamp` returns for `num` between `min` and `max`, in the
/// order of `T`: `min` when `num` is below it, else `max` when `num` is above
/// it, else `num` itself.
pub open spec fn clamped<T: PartialOrd>(num: T, min: T, max: T) -> T {
    if num.is_lt(&min) {
        min
    } else if num.is_gt(&max) {
        max
    } else {
        num
    }
}

/// Limits `num` to the range from `min` to `max`.
///
/// `min` is tested first, so where `min` lies above `max` a value below `min`
/// comes back as `min`. Values that compare neither below `min` nor above
/// `max` (such as a NaN) pass through unchanged.
pub fn clamp<T: PartialOrd>(num: T, min: T, max: T) -> (r: T)
    ensures
        T::obeys_partial_cmp_spec() ==> r == clamped(num, min, max),
{
    if num < min {
        return min;
    }
    if num > max {
        return max;
    }
    num
}

} // verus!
