//! Results, taken by what they hold.

use vstd::prelude::*;

verus! {

/// A result with its value or its error taken by what it is.
pub open spec fn seen<T: DeepView, E: DeepView>(r: Result<T, E>) -> Result<T::V, E::V> {
    match r {
        Ok(v) => Ok(v.deep_view()),
        Err(e) => Err(e.deep_view()),
    }
}

} // verus!
