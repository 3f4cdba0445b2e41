//! Providers of per-beat values whose logic needs no arithmetic on beats.

use vstd::prelude::*;

verus! {

/// A provider that gives the same value at every beat.
#[derive(Clone)]
pub struct Constant<T: Clone>(pub T);

impl<T: Clone> Constant<T> {
    /// The provided value, whatever the beat: a clone of the held value.
    pub fn get(&self) -> (value: T)
        ensures
            vstd::pervasive::cloned(self.0, value),
    {
        self.0.clone()
    }
}

} // verus!
