use vstd::prelude::*;

verus! {

/// Similar to the `From` trait, except the input is treated as the
/// complement of a set: every value *not* in `value` is a member of the
/// constructed set.
pub trait FromComplement<T>: Sized {
    /// Converts to this type from the input type, which is treated as the
    /// complement of a set.
    fn from_complement(value: T) -> Self;
}

} // verus!
