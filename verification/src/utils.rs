//! A deferred action: a closure carried to where it should run, with an
//! explicit way to run it or to call it off.

use vstd::prelude::*;

verus! {

/// A deferred closure: run it with `run`, or discard it with `abort`.
pub struct Defered<F: FnOnce() -> ()> {
    pub f: Option<F>,
}

impl<F: FnOnce() -> ()> Defered<F> {
    /// Whether the action is still to be run.
    pub open spec fn armed(&self) -> bool {
        self.f is Some
    }

    /// Calls the action off without running it.
    pub fn abort(self)
    {
    }

    /// Runs the deferred action now.
    pub fn run(self)
        requires
            self.armed(),
            self.f matches Some(f) ==> call_requires(f, ()),
        ensures
            self.f matches Some(f) ==> call_ensures(f, (), ()),
    {
        match self.f {
            Some(f) => f(),
            None => (),
        }
    }
}

/// Defers `f`: the returned handle runs it on `run`, or never, on `abort`.
pub fn defer<F: FnOnce() -> ()>(f: F) -> (r: Defered<F>)
    ensures
        r.armed(),
        r.f == Some(f),
{
    Defered { f: Some(f) }
}

} // verus!
