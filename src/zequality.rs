//! Approximate equality: computed geometric values are compared within a
//! tolerance, never exactly.

use vstd::prelude::*;

verus! {

/// Equality within a tolerance chosen by the implementing type.
pub trait ZEq<T> {
    /// Whether `self` and `other` are equal within the tolerance.
    spec fn zeq_spec(&self, other: T) -> bool;

    fn zeq(&self, other: T) -> (r: bool)
        ensures
            r == self.zeq_spec(other),
    ;

    /// The negation of `zeq`.
    fn zneg(&self, other: T) -> (r: bool)
        ensures
            r == !self.zeq_spec(other),
    {
        !self.zeq(other)
    }
}

/// Two options are approximately equal when both are empty, or both hold
/// values that are approximately equal.
impl<T: Clone + ZEq<T>> ZEq<Option<T>> for Option<T> {
    open spec fn zeq_spec(&self, other: Option<T>) -> bool {
        match (self, other) {
            (Some(a), Some(b)) => a.zeq_spec(b),
            (None, None) => true,
            _ => false,
        }
    }

    fn zeq(&self, other: Option<T>) -> (r: bool) {
        match (self, other) {
            (Some(option), Some(other)) => option.zeq(other),
            (None, None) => true,
            _ => false,
        }
    }
}

} // verus!
