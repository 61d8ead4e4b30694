//! Copies of the value types.
use vstd::prelude::*;

verus! {

/// A value that hands out an equal copy of itself.
pub trait Copyable: Sized {
    fn copy(&self) -> (r: Self)
        ensures
            r == *self,
    ;
}

} // verus!
