use vstd::prelude::*;

use core::cmp::Ordering;
use vstd::std_specs::cmp::PartialOrdSpec;

verus! {

/// `a < b` under the type's own ordering.
pub open spec fn spec_lt<T: PartialOrd>(a: T, b: T) -> bool {
    a.partial_cmp_spec(&b) == Some(Ordering::Less)
}

/// `a <= b` under the type's own ordering.
pub open spec fn spec_le<T: PartialOrd>(a: T, b: T) -> bool {
    a.partial_cmp_spec(&b) matches Some(Ordering::Less | Ordering::Equal)
}

/// `a > b` under the type's own ordering.
pub open spec fn spec_gt<T: PartialOrd>(a: T, b: T) -> bool {
    a.partial_cmp_spec(&b) == Some(Ordering::Greater)
}

/// `value` limited to the interval `[min, max]`.
pub fn clamp<T: PartialOrd>(value: T, min: T, max: T) -> (r: T)
    requires
        T::obeys_partial_cmp_spec(),
        spec_le(min, max),
    ensures
        r == if spec_lt(value, min) {
            min
        } else if spec_gt(value, max) {
            max
        } else {
            value
        },
{
    let mut x = value;
    if x < min {
        x = min;
    }
    if x > max {
        x = max;
    }
    x
}

} // verus!
