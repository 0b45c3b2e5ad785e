use vstd::prelude::*;
use crate::poll::Poll;
use crate::cyclic_barrier::{Arrival, BarrierView, lemma_round};

verus! {

/// Message of the error returned for fewer than two threads.
pub open spec fn too_few_threads_message() -> Seq<char> {
    "There must be at least 2 threads!"@
}

fn too_few_threads() -> (e: String)
    ensures
        e@ == too_few_threads_message(),
{
    "There must be at least 2 threads!".to_owned()
}

/// The rank handed out after `rank` among `n` threads: ranks go round from 1 to `n`.
pub open spec fn next_rank(rank: nat, n: nat) -> nat {
    if rank == n { 1 } else { rank + 1 }
}

/// A barrier that also tells each thread its position of arrival (1 to `n`) in
/// the round; the threads meet through one channel per thread. The view is
/// (number of threads, next rank to hand out).
pub struct RankingBarrierChannel {
    n_threads: usize,
    ranking: usize,
}

impl View for RankingBarrierChannel {
    type V = (nat, nat);

    closed spec fn view(&self) -> (nat, nat) {
        (self.n_threads as nat, self.ranking as nat)
    }
}

impl RankingBarrierChannel {
    pub open spec fn wf_view(v: (nat, nat)) -> bool {
        v.0 >= 2 && 1 <= v.1 <= v.0
    }

    /// Refuses fewer than two threads.
    pub fn new(n_threads: usize) -> (r: Result<Self, String>)
        ensures
            n_threads < 2 ==> (r matches Err(e) && e@ == too_few_threads_message()),
            n_threads >= 2 ==> (r matches Ok(b) && b@ == (n_threads as nat, 1nat)),
    {
        if n_threads < 2 {
            Err(too_few_threads())
        } else {
            Ok(RankingBarrierChannel { n_threads, ranking: 1 })
        }
    }

    /// Thread `i` arrives and gets its rank; it then meets the other threads on
    /// the channels (see `peers_of`).
    pub fn wait(&mut self, i: usize) -> (rank: usize)
        requires
            Self::wf_view(old(self)@),
            i < old(self)@.0,
        ensures
            Self::wf_view(final(self)@),
            rank == old(self)@.1,
            final(self)@ == (old(self)@.0, next_rank(old(self)@.1, old(self)@.0)),
    {
        let local_ranking = self.ranking;
        if self.ranking == self.n_threads {
            self.ranking = 1;
        } else {
            self.ranking = self.ranking + 1;
        }
        local_ranking
    }
}

/// What a thread arriving at a `RankingBarrierCvar` learns.
pub struct RankedArrival {
    pub rank: usize,
    pub arrival: Arrival,
}

/// A cyclic barrier that also tells each thread its position of arrival in the round.
pub struct RankingBarrierCvar {
    n_threads: usize,
    arrived: usize,
    generation: usize,
}

impl View for RankingBarrierCvar {
    type V = BarrierView;

    closed spec fn view(&self) -> BarrierView {
        BarrierView { parties: self.n_threads as nat, arrived: self.arrived as nat, generation: self.generation as nat }
    }
}

impl RankingBarrierCvar {
    /// The number of the current round.
    pub fn generation(&self) -> (g: usize)
        ensures
            g == self@.generation,
    {
        self.generation
    }

    /// Refuses fewer than two threads.
    pub fn new(n_threads: usize) -> (r: Result<Self, String>)
        ensures
            n_threads < 2 ==> (r matches Err(e) && e@ == too_few_threads_message()),
            n_threads >= 2 ==> (r matches Ok(b) && b@ == (BarrierView { parties: n_threads as nat, arrived: 0, generation: 0 })),
    {
        if n_threads < 2 {
            Err(too_few_threads())
        } else {
            Ok(RankingBarrierCvar { n_threads, arrived: 0, generation: 0 })
        }
    }

    /// A thread arrives: its rank is its position in the round; the last one
    /// ends the round, the others learn which round they wait for.
    pub fn wait(&mut self) -> (r: RankedArrival)
        requires
            old(self)@.wf(),
            old(self)@.generation < usize::MAX,
        ensures
            final(self)@.wf(),
            final(self)@ == old(self)@.after_arrival(),
            r.rank == old(self)@.arrived + 1,
            r.arrival is Last <==> final(self)@.generation == old(self)@.generation + 1,
            r.arrival matches Arrival::Wait(g) ==> g == old(self)@.generation,
    {
        let local_generation = self.generation;
        self.arrived = self.arrived + 1;
        let my_ranking = self.arrived;
        if self.arrived < self.n_threads {
            RankedArrival { rank: my_ranking, arrival: Arrival::Wait(local_generation) }
        } else {
            self.arrived = 0;
            self.generation = self.generation + 1;
            RankedArrival { rank: my_ranking, arrival: Arrival::Last }
        }
    }

    /// A thread waiting for round `generation` may go on once that round is over.
    pub fn passed(&self, generation: usize) -> (r: Poll<()>)
        ensures
            r is Ready <==> self@.generation != generation,
    {
        if self.generation == generation {
            Poll::Pending
        } else {
            Poll::Ready(())
        }
    }
}

/// The ranks given out by a channel ranking barrier go round from 1 to `n`:
/// `k` waits after rank `r` the barrier hands out `(r - 1 + k) % n + 1`.
pub open spec fn rank_after(r: nat, n: nat, k: nat) -> nat
    decreases k,
{
    if k == 0 { r } else { next_rank(rank_after(r, n, (k - 1) as nat), n) }
}

pub proof fn lemma_ranks_cycle(n: nat, k: nat)
    requires
        n >= 2,
    ensures
        rank_after(1, n, k) == k % n + 1,
    decreases k,
{
    if k > 0 {
        lemma_ranks_cycle(n, (k - 1) as nat);
        let p = (k - 1) as int;
        let d = n as int;
        let q = p / d;
        let r = p % d;
        vstd::arithmetic::div_mod::lemma_fundamental_div_mod(p, d);
        vstd::arithmetic::div_mod::lemma_mod_pos_bound(p, d);
        if r + 1 < d {
            assert(k == q * d + (r + 1)) by (nonlinear_arith)
                requires p == d * q + r, k == p + 1;
            vstd::arithmetic::div_mod::lemma_fundamental_div_mod_converse(k as int, d, q, r + 1);
        } else {
            assert(k == (q + 1) * d + 0) by (nonlinear_arith)
                requires p == d * q + r, k == p + 1, r + 1 == d;
            vstd::arithmetic::div_mod::lemma_fundamental_div_mod_converse(k as int, d, q + 1, 0);
        }
        assert(rank_after(1, n, k) == next_rank(rank_after(1, n, (k - 1) as nat), n));
    } else {
        vstd::arithmetic::div_mod::lemma_fundamental_div_mod_converse(0, n as int, 0, 0);
    }
}

/// In every round of a channel ranking barrier of `n` threads the ranks handed
/// out are 1 to `n`, one each, in order of arrival: the `j`-th wait of round `m`
/// (both counted from 0) gets rank `j + 1`.
pub proof fn lemma_channel_round_ranks(n: nat, m: nat, j: nat)
    requires
        n >= 2,
        j < n,
    ensures
        rank_after(1, n, m * n + j) == j + 1,
{
    lemma_ranks_cycle(n, m * n + j);
    vstd::arithmetic::div_mod::lemma_fundamental_div_mod_converse_mod(
        (m * n + j) as int,
        n as int,
        m as int,
        j as int,
    );
}

/// In every round of a condition-variable ranking barrier of `n` threads, the
/// `k`-th arrival (1 to `n`) gets rank `k`. The first `n - 1` arrivals leave the
/// round number unchanged, so that `passed` keeps each of them waiting; the
/// `n`-th ends the round and the barrier is ready for the next one.
pub proof fn lemma_cvar_round_ranks(s: BarrierView, k: nat)
    requires
        s.wf(),
        s.arrived == 0,
        s.parties >= 2,
        1 <= k <= s.parties,
    ensures
        s.after_arrivals((k - 1) as nat).arrived + 1 == k,
        k < s.parties ==> s.after_arrivals(k).generation == s.generation,
        k == s.parties ==> s.after_arrivals(k).generation == s.generation + 1
            && s.after_arrivals(k).arrived == 0,
{
    lemma_round(s);
    assert(s.after_arrivals((k - 1) as nat).arrived == k - 1);
}

} // verus!
