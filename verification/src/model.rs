use vstd::prelude::*;

verus! {

/// The views of a run of values, one by one.
pub open spec fn views<T: View>(values: Seq<T>) -> Seq<T::V> {
    Seq::new(values.len(), |i: int| values[i]@)
}

} // verus!
