use vstd::prelude::*;

verus! {

/// The admission side of an executor that runs submitted functions on one
/// worker thread and hands back their results. The view is `true` once the
/// executor has been shut down.
pub struct Executor {
    closed: bool,
}

impl View for Executor {
    type V = bool;

    closed spec fn view(&self) -> bool {
        self.closed
    }
}

impl Executor {
    pub fn new() -> (r: Self)
        ensures
            r@ == false,
    {
        Executor { closed: false }
    }

    /// Whether a submitted function is taken: `Some(())` while the executor is
    /// open (the function then goes to the worker and its result comes back),
    /// `None` once it is shut down.
    pub fn submit(&self) -> (r: Option<()>)
        ensures
            r is Some <==> !self@,
    {
        if !self.closed {
            Some(())
        } else {
            None
        }
    }

    /// Shuts the executor down: `Some(())` for the call that does it, `None`
    /// when it already was.
    pub fn shutdown(&mut self) -> (r: Option<()>)
        ensures
            final(self)@ == true,
            r is Some <==> !old(self)@,
    {
        if !self.closed {
            self.closed = true;
            Some(())
        } else {
            None
        }
    }
}

} // verus!
