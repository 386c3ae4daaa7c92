//! The typed form wrapper handed to request handlers once a request body has
//! been read and its session ID checked.

use vstd::prelude::*;

verus! {

/// A validated form value of type `T`.
#[derive(Debug, Clone, Copy)]
#[must_use]
pub struct Form<T>(pub T);

impl<T> Form<T> {
    /// Unwraps the form.
    pub fn into_inner(self) -> (r: T)
        ensures
            r == self.0,
    {
        self.0
    }
}

} // verus!
