use vstd::prelude::*;
use crate::poll::Poll;

verus! {

/// Admits at most `threshold` threads at a time into a critical operation.
/// The view is the number of free places.
pub struct Limiter {
    available: usize,
}

impl View for Limiter {
    type V = nat;

    closed spec fn view(&self) -> nat {
        self.available as nat
    }
}

impl Limiter {
    /// The number of free places.
    pub fn available(&self) -> (n: usize)
        ensures
            n == self@,
    {
        self.available
    }

    pub fn new(threshold: usize) -> (r: Self)
        ensures
            r@ == threshold,
    {
        Limiter { available: threshold }
    }

    /// Enters the critical operation; pending while every place is taken.
    pub fn acquire(&mut self) -> (r: Poll<()>)
        ensures
            old(self)@ > 0 ==> r is Ready && final(self)@ == old(self)@ - 1,
            old(self)@ == 0 ==> r is Pending && final(self)@ == 0,
    {
        if self.available == 0 {
            Poll::Pending
        } else {
            self.available = self.available - 1;
            Poll::Ready(())
        }
    }

    /// Leaves the critical operation.
    pub fn release(&mut self)
        requires
            old(self)@ < usize::MAX,
        ensures
            final(self)@ == old(self)@ + 1,
    {
        self.available = self.available + 1;
    }
}

/// Admits at most `threshold` threads at a time into a critical operation,
/// waking waiters with tokens on a channel. A token is sent only to a
/// registered waiter, and hands a freed place over to it, so that no token is
/// ever left over for a later waiter. The view is the number of free places and
/// the number of blocked waiters.
pub struct LimiterChannel {
    available: usize,
    waiting: usize,
}

impl View for LimiterChannel {
    type V = (nat, nat);

    closed spec fn view(&self) -> (nat, nat) {
        (self.available as nat, self.waiting as nat)
    }
}

impl LimiterChannel {
    /// Waiters are blocked only while nothing is free.
    pub closed spec fn wf(&self) -> bool {
        self.waiting > 0 ==> self.available == 0
    }

    /// The number of free places.
    pub fn available(&self) -> (n: usize)
        ensures
            n == self@.0,
    {
        self.available
    }

    /// The number of waiters blocked on the channel.
    pub fn waiting(&self) -> (n: usize)
        ensures
            n == self@.1,
    {
        self.waiting
    }

    pub fn new(threshold: usize) -> (r: Self)
        ensures
            r.wf(),
            r@ == (threshold as nat, 0nat),
    {
        LimiterChannel { available: threshold, waiting: 0 }
    }

    /// Enters the critical operation if a place is free. Pending otherwise: the
    /// caller is then registered as a waiter and blocks until a token hands it a place.
    pub fn acquire(&mut self) -> (r: Poll<()>)
        requires
            old(self).wf(),
            old(self)@.1 < usize::MAX,
        ensures
            final(self).wf(),
            old(self)@.0 > 0 ==> r is Ready && final(self)@ == ((old(self)@.0 - 1) as nat, old(self)@.1),
            old(self)@.0 == 0 ==> r is Pending && final(self)@ == (0nat, old(self)@.1 + 1),
    {
        if self.available == 0 {
            self.waiting = self.waiting + 1;
            Poll::Pending
        } else {
            self.available = self.available - 1;
            Poll::Ready(())
        }
    }

    /// Leaves the critical operation. Returns `true` when a waiter is blocked: the
    /// caller then sends it one token and the place passes to it directly;
    /// otherwise the place becomes free and no token is sent.
    pub fn release(&mut self) -> (send_token: bool)
        requires
            old(self).wf(),
            old(self)@.1 == 0 ==> old(self)@.0 < usize::MAX,
        ensures
            final(self).wf(),
            send_token <==> old(self)@.1 > 0,
            old(self)@.1 > 0 ==> final(self)@ == (old(self)@.0, (old(self)@.1 - 1) as nat),
            old(self)@.1 == 0 ==> final(self)@ == (old(self)@.0 + 1, 0nat),
    {
        if self.waiting > 0 {
            self.waiting = self.waiting - 1;
            true
        } else {
            self.available = self.available + 1;
            false
        }
    }
}

} // verus!
