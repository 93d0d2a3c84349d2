use vstd::prelude::*;

verus! {

/// Error returned by the safe starting-index constructor when the slice
/// handed to the bisector is empty: an empty slice has no last index, so
/// no full-range window exists for it.
#[derive(Debug, Eq, PartialEq)]
pub struct EmptySliceError;

} // verus!
