//! Sequences of values, and of what they stand for.

use vstd::prelude::*;

verus! {

/// What the elements of a sequence stand for.
pub open spec fn views<T: View>(items: Seq<T>) -> Seq<T::V> {
    items.map_values(|t: T| t@)
}

/// Each element stands at the place of what it stands for.
pub proof fn views_stand_in_place<T: View>(items: Seq<T>, i: int)
    requires
        0 <= i < items.len(),
    ensures
        views(items).len() == items.len(),
        views(items)[i] == items[i]@,
{
}

} // verus!
