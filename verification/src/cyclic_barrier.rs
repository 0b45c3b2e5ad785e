use vstd::prelude::*;
use crate::poll::Poll;

verus! {

/// What a thread arriving at a barrier has to do.
pub enum Arrival {
    /// It was the last of its round: the round is over, everyone can go on.
    Last,
    /// Others are still missing: wait until the round numbered here is over.
    Wait(usize),
}

/// Abstract state of a generation-counting barrier.
pub struct BarrierView {
    pub parties: nat,
    pub arrived: nat,
    pub generation: nat,
}

impl BarrierView {
    pub open spec fn wf(self) -> bool {
        self.arrived < self.parties || self.arrived == 0
    }

    /// One more thread arrives: either the round fills up and a new one starts,
    /// or the thread is counted in the current round.
    pub open spec fn after_arrival(self) -> BarrierView {
        if self.arrived + 1 < self.parties {
            BarrierView { arrived: self.arrived + 1, ..self }
        } else {
            BarrierView { arrived: 0, generation: self.generation + 1, ..self }
        }
    }

    /// The state after `k` more arrivals.
    pub open spec fn after_arrivals(self, k: nat) -> BarrierView
        decreases k,
    {
        if k == 0 {
            self
        } else {
            self.after_arrivals((k - 1) as nat).after_arrival()
        }
    }
}

/// Cyclic barrier for `n_threads` threads: each round lets the threads go once
/// all of them have arrived, and then starts over.
pub struct CyclicBarrierMC {
    n_threads: usize,
    arrived: usize,
    generation: usize,
}

impl View for CyclicBarrierMC {
    type V = BarrierView;

    closed spec fn view(&self) -> BarrierView {
        BarrierView { parties: self.n_threads as nat, arrived: self.arrived as nat, generation: self.generation as nat }
    }
}

impl CyclicBarrierMC {
    /// The number of the current round.
    pub fn generation(&self) -> (g: usize)
        ensures
            g == self@.generation,
    {
        self.generation
    }

    pub fn new(n_threads: usize) -> (r: Self)
        ensures
            r@ == (BarrierView { parties: n_threads as nat, arrived: 0, generation: 0 }),
            r@.wf(),
    {
        CyclicBarrierMC { n_threads, arrived: 0, generation: 0 }
    }

    /// A thread arrives. The last one of a round ends it; the others learn which
    /// round they wait for.
    pub fn wait(&mut self) -> (r: Arrival)
        requires
            old(self)@.wf(),
            old(self)@.generation < usize::MAX,
        ensures
            final(self)@.wf(),
            final(self)@ == old(self)@.after_arrival(),
            r is Last <==> final(self)@.generation == old(self)@.generation + 1,
            r matches Arrival::Wait(g) ==> g == old(self)@.generation,
    {
        let local_generation = self.generation;
        self.arrived = self.arrived + 1;
        if self.arrived < self.n_threads {
            Arrival::Wait(local_generation)
        } else {
            self.arrived = 0;
            self.generation = self.generation + 1;
            Arrival::Last
        }
    }

    /// A thread waiting for round `generation` may go on once that round is over.
    pub fn passed(&self, generation: usize) -> (r: Poll<()>)
        ensures
            r is Ready <==> self@.generation != generation,
    {
        if self.generation == generation {
            Poll::Pending
        } else {
            Poll::Ready(())
        }
    }
}

/// Every thread but `i` among `n` threads, in order.
pub open spec fn others(n: nat, i: nat) -> Seq<usize> {
    Seq::new((n - 1) as nat, |k: int| if k < i { k as usize } else { (k + 1) as usize })
}

/// The threads a thread `i` of `n` has to notify at a barrier built on channels.
pub fn peers_of(n: usize, i: usize) -> (peers: Vec<usize>)
    requires
        i < n,
    ensures
        peers@ == others(n as nat, i as nat),
{
    let mut peers: Vec<usize> = Vec::new();
    let mut j: usize = 0;
    while j < n
        invariant
            i < n,
            j <= n,
            peers@ == Seq::new(
                (if j <= i { j as int } else { j - 1 }) as nat,
                |k: int| if k < i { k as usize } else { (k + 1) as usize },
            ),
        decreases n - j,
    {
        if j != i {
            peers.push(j);
        }
        j = j + 1;
        assert(peers@ =~= Seq::new(
            (if j <= i { j as int } else { j - 1 }) as nat,
            |k: int| if k < i { k as usize } else { (k + 1) as usize },
        ));
    }
    assert(peers@ =~= others(n as nat, i as nat));
    peers
}

/// Cyclic barrier for `n_threads` threads built on one channel per thread: each
/// arriving thread sends a token to every other thread and waits for a token
/// from each of them.
pub struct CyclicBarrierC {
    n_threads: usize,
}

impl CyclicBarrierC {
    pub closed spec fn parties(&self) -> nat {
        self.n_threads as nat
    }

    pub fn new(n_threads: usize) -> (r: Self)
        ensures
            r.parties() == n_threads,
    {
        CyclicBarrierC { n_threads }
    }

    /// Thread `i` arrives: it notifies the threads returned, and then waits for
    /// as many tokens as there are of them.
    pub fn wait(&self, i: usize) -> (peers: Vec<usize>)
        requires
            i < self.parties(),
        ensures
            peers@ == others(self.parties(), i as nat),
    {
        peers_of(self.n_threads, i)
    }
}

/// One token reaching the coordinator of `v.0` threads that has received `v.1`
/// tokens of the current round: the new state, and whether every thread has to
/// be answered now.
pub open spec fn collect_step(v: (nat, nat)) -> ((nat, nat), bool) {
    if v.1 + 1 >= v.0 {
        ((v.0, 0nat), true)
    } else {
        ((v.0, v.1 + 1), false)
    }
}

/// The coordinator's state after `k` more tokens.
pub open spec fn after_collects(v: (nat, nat), k: nat) -> (nat, nat)
    decreases k,
{
    if k == 0 {
        v
    } else {
        collect_step(after_collects(v, (k - 1) as nat)).0
    }
}

/// A round of the coordinator of `n` threads: starting a round, the first
/// `n - 1` tokens answer nobody, the `n`-th answers every thread, and the
/// coordinator starts the next round.
pub proof fn lemma_coordinator_round(n: nat, k: nat)
    requires
        n >= 1,
        k < n,
    ensures
        after_collects((n, 0nat), k) == (n, k),
        collect_step(after_collects((n, 0nat), k)).1 <==> k + 1 == n,
        after_collects((n, 0nat), n) == (n, 0nat),
    decreases k,
{
    if k > 0 {
        lemma_coordinator_round(n, (k - 1) as nat);
    }
    lemma_coordinator_prefix(n, (n - 1) as nat);
}

proof fn lemma_coordinator_prefix(n: nat, k: nat)
    requires
        n >= 1,
        k < n,
    ensures
        after_collects((n, 0nat), k) == (n, k),
    decreases k,
{
    if k > 0 {
        lemma_coordinator_prefix(n, (k - 1) as nat);
    }
}

/// The coordination thread of a barrier built on channels: it collects one token
/// per thread and then answers all of them. The view is (parties, tokens received).
pub struct CyclicBarrierCCord {
    n_threads: usize,
    received: usize,
}

impl View for CyclicBarrierCCord {
    type V = (nat, nat);

    closed spec fn view(&self) -> (nat, nat) {
        (self.n_threads as nat, self.received as nat)
    }
}

impl CyclicBarrierCCord {
    pub fn new(n_threads: usize) -> (r: Self)
        ensures
            r@ == (n_threads as nat, 0nat),
    {
        CyclicBarrierCCord { n_threads, received: 0 }
    }

    /// The coordinator received a token. Returns `true` when that completes the
    /// round, so that every thread has to be answered and a new round begins.
    pub fn collect(&mut self) -> (release_all: bool)
        requires
            old(self)@.1 < old(self)@.0 || old(self)@.1 == 0,
        ensures
            final(self)@.1 < final(self)@.0 || final(self)@.1 == 0,
            final(self)@.0 == old(self)@.0,
            release_all == (old(self)@.1 + 1 >= old(self)@.0),
            release_all ==> final(self)@.1 == 0,
            !release_all ==> final(self)@.1 == old(self)@.1 + 1,
            (final(self)@, release_all) == collect_step(old(self)@),
    {
        self.received = self.received + 1;
        if self.received >= self.n_threads {
            self.received = 0;
            true
        } else {
            false
        }
    }
}

/// A round of a barrier: from a state between rounds, the first `parties - 1`
/// arrivals leave the round number unchanged, so that `passed` keeps every one
/// of them waiting; the `parties`-th arrival ends the round (it alone is
/// `Last`), and the barrier is between rounds again, ready to be reused.
pub proof fn lemma_round(s: BarrierView)
    requires
        s.wf(),
        s.arrived == 0,
        s.parties > 0,
    ensures
        forall|k: nat| k < s.parties ==> (#[trigger] s.after_arrivals(k)).generation == s.generation
            && s.after_arrivals(k).arrived == k,
        s.after_arrivals(s.parties).generation == s.generation + 1,
        s.after_arrivals(s.parties).arrived == 0,
        s.after_arrivals(s.parties).parties == s.parties,
{
    assert forall|k: nat| k < s.parties implies (#[trigger] s.after_arrivals(k)).generation == s.generation
        && s.after_arrivals(k).arrived == k && s.after_arrivals(k).parties == s.parties by {
        lemma_partial_round(s, k);
    }
    lemma_partial_round(s, (s.parties - 1) as nat);
}

proof fn lemma_partial_round(s: BarrierView, k: nat)
    requires
        s.arrived == 0,
        k < s.parties,
    ensures
        s.after_arrivals(k).generation == s.generation,
        s.after_arrivals(k).arrived == k,
        s.after_arrivals(k).parties == s.parties,
    decreases k,
{
    if k > 0 {
        lemma_partial_round(s, (k - 1) as nat);
    }
}

} // verus!
