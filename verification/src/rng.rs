//! Access to the thread-safe random source used for fresh identifiers.

use vstd::prelude::*;

verus! {

/// Relies on rand::random for a uniformly distributed random value.
/// Nothing can be promised of a random result, so no clause is stated;
/// callers treat every outcome alike.
pub assume_specification<T>[ rand::random::<T> ]() -> (r: T)
    where
        rand::distr::StandardUniform: rand::distr::Distribution<T>,
;

} // verus!
