//! Middleware made of a single callback.
use vstd::prelude::*;

verus! {

/// A middleware that acts only before a call.
pub struct BeforeAdapter<F> {
    pub name: String,
    pub callback: F,
}

impl<F> BeforeAdapter<F> {
    /// An adapter with a name and a callback.
    pub fn new(name: &str, callback: F) -> (r: Self)
        ensures
            r.name@ == name@,
            r.callback == callback,
    {
        BeforeAdapter { name: name.to_owned(), callback }
    }
}

/// A middleware that acts only after a call.
pub struct AfterAdapter<F> {
    pub name: String,
    pub callback: F,
}

impl<F> AfterAdapter<F> {
    /// An adapter with a name and a callback.
    pub fn new(name: &str, callback: F) -> (r: Self)
        ensures
            r.name@ == name@,
            r.callback == callback,
    {
        AfterAdapter { name: name.to_owned(), callback }
    }
}

} // verus!
