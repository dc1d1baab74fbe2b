//! The process's random source.

use vstd::prelude::*;

verus! {

/// `rand::random` draws one value of type `T` from the generator that rand
/// keeps for each thread, which the operating system seeds. Nothing is
/// claimed of the value drawn: two calls may return anything the type holds.
/// The library draws `usize` and `u32` with it; for these the call panics
/// only if the operating system's entropy source fails, when the generator
/// is first seeded or is seeded anew.
pub assume_specification<T>[ rand::random::<T> ]() -> (value: T)
    where rand::distributions::Standard: rand::distributions::Distribution<T>,
;

} // verus!
