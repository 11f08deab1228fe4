//! Values conveyed by types.

use vstd::prelude::*;

verus! {

/// A way to convey a value of type `T` through a type: each implementor stands for one
/// fixed value.
pub trait Get<T> {
    /// The value that the implementor stands for.
    spec fn value() -> T;

    /// Returns the value that the implementor stands for.
    fn get() -> (value: T)
        ensures
            value == Self::value(),
    ;
}

} // verus!
