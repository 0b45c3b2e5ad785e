use vstd::prelude::*;
use crate::poll::Poll;

verus! {

/// One event at an execution limiter with `free` free places and `running`
/// functions running: `true` is a caller's attempt to start a function (it
/// takes a place if one is free, otherwise it keeps waiting), `false` is a
/// running function returning and giving its place back.
pub open spec fn limiter_step(free: nat, running: nat, start: bool) -> (nat, nat) {
    if start {
        if free > 0 { ((free - 1) as nat, running + 1) } else { (free, running) }
    } else {
        if running > 0 { (free + 1, (running - 1) as nat) } else { (free, running) }
    }
}

/// The free places and running functions after the events `events`.
pub open spec fn limiter_run(free: nat, running: nat, events: Seq<bool>) -> (nat, nat)
    decreases events.len(),
{
    if events.len() == 0 {
        (free, running)
    } else {
        let before = limiter_run(free, running, events.drop_last());
        limiter_step(before.0, before.1, events.last())
    }
}

/// Whatever the calls and in whatever order they start and return, a limiter
/// created with `total` places never has more than `total` functions running:
/// free places and running functions always add up to `total`, so once every
/// function has returned all `total` places are free again.
pub proof fn lemma_at_most_total(total: nat, events: Seq<bool>)
    ensures
        limiter_run(total, 0, events).0 + limiter_run(total, 0, events).1 == total,
        limiter_run(total, 0, events).1 <= total,
        limiter_run(total, 0, events).1 == 0 ==> limiter_run(total, 0, events).0 == total,
    decreases events.len(),
{
    if events.len() > 0 {
        lemma_at_most_total(total, events.drop_last());
    }
}

/// Runs functions with at most `total_resources` of them at a time. The view is
/// the number of free places.
pub struct ExecutionLimiter {
    available: usize,
}

impl View for ExecutionLimiter {
    type V = nat;

    closed spec fn view(&self) -> nat {
        self.available as nat
    }
}

impl ExecutionLimiter {
    /// The number of free places.
    pub fn available(&self) -> (n: usize)
        ensures
            n == self@,
    {
        self.available
    }

    pub fn new(total_resources: usize) -> (r: Self)
        ensures
            r@ == total_resources,
    {
        ExecutionLimiter { available: total_resources }
    }

    /// Takes a place before running a function; pending while none is free.
    pub fn acquire(&mut self) -> (r: Poll<()>)
        ensures
            old(self)@ > 0 ==> r is Ready && final(self)@ == old(self)@ - 1,
            old(self)@ == 0 ==> r is Pending && final(self)@ == 0,
            final(self)@ == limiter_step(old(self)@, 1, true).0,
    {
        if self.available == 0 {
            Poll::Pending
        } else {
            self.available = self.available - 1;
            Poll::Ready(())
        }
    }

    /// Gives the place back once the function has returned.
    pub fn release(&mut self)
        requires
            old(self)@ < usize::MAX,
        ensures
            final(self)@ == old(self)@ + 1,
            final(self)@ == limiter_step(old(self)@, 1, false).0,
    {
        self.available = self.available + 1;
    }

    /// What `execute` answers for the outcome of the function: its value, or
    /// `None` when it failed.
    pub fn outcome<R>(result: Result<R, ()>) -> (r: Option<R>)
        ensures
            result matches Ok(v) ==> r == Some(v),
            result is Err ==> r is None,
    {
        match result {
            Ok(v) => Some(v),
            Err(_) => None,
        }
    }
}

/// A long computation whose additions and subtractions cancel out: the result
/// is always `Ok(0)`.
pub fn heavy_computation() -> (r: Result<u64, ()>)
    ensures
        r == Ok::<u64, ()>(0),
{
    let mut result: u64 = 0;
    let mut round: usize = 0;
    while round < 200
        invariant
            round <= 200,
            result == 0,
        decreases 200 - round,
    {
        let mut i: u64 = 0;
        while i < 1_000_000
            invariant
                i <= 1_000_000,
                2 * result == i * (i - 1),
            decreases 1_000_000 - i,
        {
            proof {
                assert(2 * (result + i) == (i + 1) * i) by (nonlinear_arith)
                    requires 2 * result == i * (i - 1);
                assert(i * (i - 1) <= 1_000_000 * 1_000_000) by (nonlinear_arith)
                    requires i <= 1_000_000;
            }
            result = result + i;
            i = i + 1;
        }
        let mut j: u64 = 0;
        while j < 1_000_000
            invariant
                j <= 1_000_000,
                2 * result + j * (j - 1) == 1_000_000 * 999_999,
            decreases 1_000_000 - j,
        {
            proof {
                assert((j + 1) * j == j * (j - 1) + 2 * j) by (nonlinear_arith);
                assert(j * (j + 1) <= 999_999 * 1_000_000) by (nonlinear_arith)
                    requires j < 1_000_000;
            }
            result = result - j;
            j = j + 1;
        }
        round = round + 1;
    }
    Ok(result)
}

} // verus!
