//! Helper shapes shared by the manifest schemas.

use vstd::prelude::*;

verus! {

/// A field that may be written as one value or as a list of values.
#[derive(Debug, Clone, PartialEq, Eq)]
pub enum SingleOrVec<T> {
    Single(T),
    Many(Vec<T>),
}

} // verus!
