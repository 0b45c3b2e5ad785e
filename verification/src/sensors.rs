use vstd::prelude::*;
use crate::poll::Poll;
use crate::ring::{Ring, fifo_step};

verus! {

/// Number of sensor threads; also the capacity of the `CircularBuffer`.
pub const PRODUCERS_THREADS: usize = 10;

/// Above this sum of one round of readings the machine is slowed down.
pub const SPEED_THRESHOLD: u32 = 50;

pub open spec fn sum_u32(s: Seq<u32>) -> int
    decreases s.len(),
{
    if s.len() == 0 {
        0
    } else {
        sum_u32(s.drop_last()) + s.last()
    }
}

/// The value compared with the threshold is the plain sum of the readings:
/// no readings sum to 0, a single reading sums to itself, and the readings of
/// two runs together sum to the sum of the two.
pub proof fn lemma_sum_readings(a: Seq<u32>, b: Seq<u32>, x: u32)
    ensures
        sum_u32(Seq::<u32>::empty()) == 0,
        sum_u32(seq![x]) == x,
        sum_u32(a + b) == sum_u32(a) + sum_u32(b),
    decreases b.len(),
{
    assert(seq![x].drop_last() =~= Seq::<u32>::empty());
    assert(seq![x].last() == x);
    assert(sum_u32(seq![x].drop_last()) == 0);
    if b.len() == 0 {
        assert(a + b =~= a);
    } else {
        lemma_sum_readings(a, b.drop_last(), x);
        assert((a + b).drop_last() =~= a + b.drop_last());
        assert((a + b).last() == b.last());
    }
}

/// Decides how to adjust the machine after one round of readings: `true` means
/// slow down (the sum exceeds the threshold), `false` means speed up.
pub fn exceeds_speed_threshold(readings: &Vec<u32>) -> (slow_down: bool)
    requires
        sum_u32(readings@) <= u32::MAX,
    ensures
        slow_down == (sum_u32(readings@) > SPEED_THRESHOLD),
{
    let mut sum: u32 = 0;
    let mut i: usize = 0;
    while i < readings.len()
        invariant
            i <= readings.len(),
            sum == sum_u32(readings@.take(i as int)),
            sum_u32(readings@) <= u32::MAX,
        decreases readings.len() - i,
    {
        proof {
            assert(readings@.take(i + 1).drop_last() =~= readings@.take(i as int));
            lemma_sum_prefix_le(readings@, i + 1);
        }
        sum = sum + readings[i];
        i = i + 1;
    }
    assert(readings@.take(readings.len() as int) =~= readings@);
    sum > SPEED_THRESHOLD
}

proof fn lemma_sum_prefix_le(s: Seq<u32>, k: int)
    requires
        0 <= k <= s.len(),
    ensures
        sum_u32(s.take(k)) <= sum_u32(s),
    decreases s.len() - k,
{
    if k < s.len() {
        lemma_sum_prefix_le(s, k + 1);
        assert(s.take(k + 1).drop_last() =~= s.take(k));
    } else {
        assert(s.take(k) =~= s);
    }
}

/// Bounded FIFO of `PRODUCERS_THREADS` readings shared by the sensors and the consumer.
pub struct CircularBuffer {
    ring: Ring<u32>,
}

impl View for CircularBuffer {
    type V = Seq<u32>;

    closed spec fn view(&self) -> Seq<u32> {
        self.ring.contents()
    }
}

impl CircularBuffer {
    pub closed spec fn wf(&self) -> bool {
        self.ring.wf() && self.ring.capacity() == PRODUCERS_THREADS
    }

    pub fn new() -> (r: Self)
        ensures
            r.wf(),
            r@ == Seq::<u32>::empty(),
    {
        let buf = vec![0u32; PRODUCERS_THREADS];
        CircularBuffer { ring: Ring::from_vec(buf) }
    }

    /// Takes the oldest reading; `None` when the buffer is empty.
    pub fn read(&mut self) -> (r: Option<u32>)
        requires
            old(self).wf(),
        ensures
            final(self).wf(),
            old(self)@.len() == 0 ==> r is None && final(self)@ == old(self)@,
            old(self)@.len() > 0 ==> r == Some(old(self)@[0]) && final(self)@ == old(self)@.drop_first(),
            (final(self)@, r) == (fifo_step(old(self)@, PRODUCERS_THREADS as nat, None).0,
                fifo_step(old(self)@, PRODUCERS_THREADS as nat, None).1),
    {
        proof { self.ring.lemma_bounds(); }
        if self.ring.free_cells() == PRODUCERS_THREADS {
            None
        } else {
            Some(self.ring.pop())
        }
    }

    /// Appends a reading; `Err(())` when the buffer is full.
    pub fn write(&mut self, value: u32) -> (r: Result<(), ()>)
        requires
            old(self).wf(),
        ensures
            final(self).wf(),
            old(self)@.len() == PRODUCERS_THREADS ==> r is Err && final(self)@ == old(self)@,
            old(self)@.len() < PRODUCERS_THREADS ==> r is Ok && final(self)@ == old(self)@.push(value),
            final(self)@ == fifo_step(old(self)@, PRODUCERS_THREADS as nat, Some(value)).0,
            r is Ok <==> fifo_step(old(self)@, PRODUCERS_THREADS as nat, Some(value)).2 is Some,
    {
        proof { self.ring.lemma_bounds(); }
        if self.ring.free_cells() == 0 {
            Err(())
        } else {
            self.ring.push(value);
            Ok(())
        }
    }
}

/// Round-trip barrier between `PRODUCERS_THREADS` producers and one consumer:
/// every producer checks in and waits for its own release flag; the consumer
/// waits until all producers have checked in and then releases them all.
pub struct CyclicBarrierProducersConsumerCV {
    released: Vec<bool>,
    arrived: usize,
}

/// Abstract state of the producers/consumer barrier.
pub struct BarrierPCView {
    pub released: Seq<bool>,
    pub arrived: nat,
}

impl View for CyclicBarrierProducersConsumerCV {
    type V = BarrierPCView;

    closed spec fn view(&self) -> BarrierPCView {
        BarrierPCView { released: self.released@, arrived: self.arrived as nat }
    }
}

impl CyclicBarrierProducersConsumerCV {
    /// How many producers have checked in since the consumer last passed.
    pub fn arrived(&self) -> (n: usize)
        ensures
            n == self@.arrived,
    {
        self.arrived
    }

    pub closed spec fn wf(&self) -> bool {
        self.released@.len() == PRODUCERS_THREADS
    }

    pub fn new() -> (r: Self)
        ensures
            r.wf(),
            r@.arrived == 0,
            r@.released == Seq::new(PRODUCERS_THREADS as nat, |i: int| false),
    {
        let r = CyclicBarrierProducersConsumerCV { released: vec![false; PRODUCERS_THREADS], arrived: 0 };
        assert(r@.released =~= Seq::new(PRODUCERS_THREADS as nat, |i: int| false));
        r
    }

    /// Producer `i` checks in. Returns `true` when it is the last of the round,
    /// so that the consumer has to be woken.
    pub fn wait_for_consumer(&mut self, i: usize) -> (wake_consumer: bool)
        requires
            old(self).wf(),
            i < PRODUCERS_THREADS,
            old(self)@.arrived < usize::MAX,
        ensures
            final(self).wf(),
            final(self)@.arrived == old(self)@.arrived + 1,
            final(self)@.released == old(self)@.released,
            wake_consumer == (final(self)@.arrived == PRODUCERS_THREADS),
    {
        self.arrived = self.arrived + 1;
        self.arrived == PRODUCERS_THREADS
    }

    /// Producer `i` tries to leave: ready once the consumer has released it,
    /// and the release flag is consumed.
    pub fn leave(&mut self, i: usize) -> (r: Poll<()>)
        requires
            old(self).wf(),
            i < PRODUCERS_THREADS,
        ensures
            final(self).wf(),
            final(self)@.arrived == old(self)@.arrived,
            old(self)@.released[i as int] ==> r is Ready
                && final(self)@.released == old(self)@.released.update(i as int, false),
            !old(self)@.released[i as int] ==> r is Pending && final(self)@ == old(self)@,
    {
        if self.released[i] {
            self.released.set(i, false);
            Poll::Ready(())
        } else {
            Poll::Pending
        }
    }

    /// The consumer tries to pass: ready once every producer has checked in,
    /// and the check-in count starts over.
    pub fn wait_for_producers(&mut self) -> (r: Poll<()>)
        requires
            old(self).wf(),
        ensures
            final(self).wf(),
            final(self)@.released == old(self)@.released,
            old(self)@.arrived >= PRODUCERS_THREADS ==> r is Ready && final(self)@.arrived == 0,
            old(self)@.arrived < PRODUCERS_THREADS ==> r is Pending && final(self)@.arrived == old(self)@.arrived,
    {
        if self.arrived < PRODUCERS_THREADS {
            Poll::Pending
        } else {
            self.arrived = 0;
            Poll::Ready(())
        }
    }

    /// The consumer releases every producer.
    pub fn restart_producers(&mut self)
        requires
            old(self).wf(),
        ensures
            final(self).wf(),
            final(self)@.arrived == old(self)@.arrived,
            final(self)@.released == Seq::new(PRODUCERS_THREADS as nat, |i: int| true),
    {
        let mut i: usize = 0;
        while i < PRODUCERS_THREADS
            invariant
                i <= PRODUCERS_THREADS,
                self.released@.len() == PRODUCERS_THREADS,
                self.arrived == old(self).arrived,
                forall|j: int| 0 <= j < i ==> self.released@[j],
            decreases PRODUCERS_THREADS - i,
        {
            self.released.set(i, true);
            i = i + 1;
        }
        assert(self@.released =~= Seq::new(PRODUCERS_THREADS as nat, |i: int| true));
    }
}

} // verus!
