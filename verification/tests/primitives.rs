use sync_lab::binary_semaphore::{BinarySemaphore, BinarySemaphoreChannel};
use sync_lab::challenge::Challenge;
use sync_lab::count_down_latch::CountDownLatch;
use sync_lab::counting_semaphore::{CountingSemaphoreWithChannel, CountingSemaphoreWithCondvar};
use sync_lab::cyclic_barrier::{peers_of, Arrival, CyclicBarrierC, CyclicBarrierCCord, CyclicBarrierMC};
use sync_lab::exchanger::{exchange_peer, Exchanger};
use sync_lab::execution_limiter::{heavy_computation, ExecutionLimiter};
use sync_lab::executor::Executor;
use sync_lab::joiner::JoinerCvar;
use sync_lab::limiter::{Limiter, LimiterChannel};
use sync_lab::poll::{Handoff, Poll};
use sync_lab::ranking_barrier::{RankingBarrierChannel, RankingBarrierCvar};
use sync_lab::sensors::{exceeds_speed_threshold, CyclicBarrierProducersConsumerCV, PRODUCERS_THREADS};
use sync_lab::synchronizer::{Meeting, Synchronizer};

fn ready<R>(p: Poll<R>) -> R {
    match p {
        Poll::Ready(r) => r,
        Poll::Pending => panic!("expected the operation to be ready"),
    }
}

fn pending<R>(p: Poll<R>) -> bool {
    matches!(p, Poll::Pending)
}

#[test]
fn binary_semaphore_admits_one_holder() {
    let mut s = BinarySemaphore::new();
    ready(s.wait());
    assert!(pending(s.wait()));
    s.signal();
    ready(s.wait());
}

#[test]
fn binary_semaphore_channel_waits_for_token_when_held() {
    let mut s = BinarySemaphoreChannel::new();
    ready(s.wait());
    assert!(pending(s.wait()));
    assert_eq!(s.waiting(), 1);
    assert!(s.signal());
    assert_eq!(s.waiting(), 0);
    assert!(pending(s.wait()));
}

#[test]
fn binary_semaphore_channel_leaves_no_stale_token() {
    let mut s = BinarySemaphoreChannel::new();
    ready(s.wait());
    assert!(!s.signal());
    ready(s.wait());
    assert!(pending(s.wait()));
}

#[test]
fn count_down_latch_opens_at_zero_and_stays_open() {
    let mut l = CountDownLatch::new(2);
    assert!(pending(l.a_wait()));
    assert!(!l.count_down());
    assert!(pending(l.a_wait()));
    assert!(l.count_down());
    ready(l.a_wait());
    assert!(!l.count_down());
    ready(l.a_wait());
}

#[test]
fn count_down_latch_of_zero_is_open() {
    let mut l = CountDownLatch::new(0);
    ready(l.a_wait());
    assert!(!l.count_down());
}

#[test]
fn counting_semaphore_hands_out_its_resources() {
    let mut s = CountingSemaphoreWithCondvar::new(2);
    ready(s.wait());
    ready(s.wait());
    assert!(pending(s.wait()));
    assert_eq!(s.available(), 0);
    s.signal();
    assert_eq!(s.available(), 1);
    ready(s.wait());
}

#[test]
fn counting_semaphore_channel_signal_undoes_wait() {
    let mut s = CountingSemaphoreWithChannel::new(1);
    ready(s.wait());
    assert!(pending(s.wait()));
    assert!(s.signal());
    assert_eq!((s.available(), s.waiting()), (0, 0));
    assert!(!s.signal());
    assert_eq!(s.available(), 1);
    ready(s.wait());
    assert!(pending(s.wait()));
}

#[test]
fn limiters_count_places() {
    let mut l = Limiter::new(1);
    ready(l.acquire());
    assert!(pending(l.acquire()));
    l.release();
    assert_eq!(l.available(), 1);
    let mut c = LimiterChannel::new(0);
    assert!(pending(c.acquire()));
    assert!(c.release());
    assert_eq!((c.available(), c.waiting()), (0, 0));
    assert!(!c.release());
    assert_eq!(c.available(), 1);
}

#[test]
fn execution_limiter_outcome_and_places() {
    let mut l = ExecutionLimiter::new(3);
    ready(l.acquire());
    assert_eq!(l.available(), 2);
    l.release();
    assert_eq!(l.available(), 3);
    assert_eq!(ExecutionLimiter::outcome::<u64>(Ok(7)), Some(7));
    assert_eq!(ExecutionLimiter::outcome::<u64>(Err(())), None);
}

#[test]
fn heavy_computation_cancels_out() {
    assert_eq!(heavy_computation(), Ok(0));
}

#[test]
fn executor_refuses_after_shutdown() {
    let mut e = Executor::new();
    assert_eq!(e.submit(), Some(()));
    assert_eq!(e.shutdown(), Some(()));
    assert_eq!(e.shutdown(), None);
    assert_eq!(e.submit(), None);
}

#[test]
fn challenge_full_match_first_player_wins() {
    let mut c = Challenge::new();
    assert!(pending(c.result1(5)));
    assert!(pending(c.winner()));
    assert_eq!(ready(c.accept(true)), Ok(()));
    assert!(pending(c.accept(true)));
    assert_eq!(ready(c.result1(7)), Ok(()));
    assert!(pending(c.result1(8)));
    assert!(pending(c.winner()));
    assert_eq!(ready(c.result2(3)), Ok(()));
    assert_eq!(ready(c.winner()), Some(1));
    assert!(pending(c.winner()));
    assert_eq!(ready(c.accept(false)), Ok(()));
}

#[test]
fn challenge_verdicts() {
    let mut c = Challenge::new();
    ready(c.accept(false)).unwrap();
    ready(c.result2(9)).unwrap();
    ready(c.result1(1)).unwrap();
    assert_eq!(ready(c.winner()), Some(-1));
    ready(c.accept(true)).unwrap();
    ready(c.result1(4)).unwrap();
    ready(c.result2(4)).unwrap();
    assert_eq!(ready(c.winner()), Some(0));
    ready(c.accept(true)).unwrap();
    ready(c.result1(-5)).unwrap();
    ready(c.result2(7)).unwrap();
    assert_eq!(ready(c.winner()), Some(2));
}

#[test]
fn challenge_extreme_scores_are_compared() {
    let mut c = Challenge::new();
    ready(c.accept(true)).unwrap();
    ready(c.result1(isize::MIN)).unwrap();
    ready(c.result2(isize::MAX)).unwrap();
    assert_eq!(ready(c.winner()), Some(2));
    ready(c.accept(true)).unwrap();
    ready(c.result1(isize::MAX)).unwrap();
    ready(c.result2(-1)).unwrap();
    assert_eq!(ready(c.winner()), Some(1));
}

#[test]
fn exchanger_swaps_messages() {
    let mut e: Exchanger<String> = Exchanger::new();
    match e.exchange(0, "from 0".to_string()) {
        Handoff::Pending(m) => assert_eq!(m, "from 0"),
        Handoff::Ready(_) => panic!("thread 0 must wait for thread 1 first"),
    }
    match e.exchange(1, "from 1".to_string()) {
        Handoff::Ready(m) => assert_eq!(m, ""),
        Handoff::Pending(_) => panic!("thread 1 goes first"),
    }
    match e.exchange(0, "from 0".to_string()) {
        Handoff::Ready(m) => assert_eq!(m, "from 1"),
        Handoff::Pending(_) => panic!("thread 0 may go now"),
    }
    match e.exchange(1, "again".to_string()) {
        Handoff::Ready(m) => assert_eq!(m, "from 0"),
        Handoff::Pending(_) => panic!("thread 1 may go now"),
    }
    assert_eq!(exchange_peer(0), 1);
    assert_eq!(exchange_peer(1), 0);
}

#[test]
fn cyclic_barrier_round() {
    let mut b = CyclicBarrierMC::new(3);
    assert!(matches!(b.wait(), Arrival::Wait(0)));
    assert!(matches!(b.wait(), Arrival::Wait(0)));
    assert!(pending(b.passed(0)));
    assert!(matches!(b.wait(), Arrival::Last));
    ready(b.passed(0));
    assert_eq!(b.generation(), 1);
    assert!(matches!(b.wait(), Arrival::Wait(1)));
}

#[test]
fn channel_barrier_peers() {
    assert_eq!(peers_of(4, 2), vec![0, 1, 3]);
    assert_eq!(peers_of(1, 0), Vec::<usize>::new());
    let b = CyclicBarrierC::new(3);
    assert_eq!(b.wait(0), vec![1, 2]);
}

#[test]
fn coordinator_releases_every_round() {
    let mut c = CyclicBarrierCCord::new(2);
    assert!(!c.collect());
    assert!(c.collect());
    assert!(!c.collect());
    assert!(c.collect());
}

#[test]
fn ranking_barriers_refuse_fewer_than_two() {
    assert_eq!(RankingBarrierChannel::new(1).err().unwrap(), "There must be at least 2 threads!");
    assert_eq!(RankingBarrierCvar::new(0).err().unwrap(), "There must be at least 2 threads!");
}

#[test]
fn ranking_barrier_channel_ranks_go_round() {
    let mut b = RankingBarrierChannel::new(3).unwrap();
    let ranks: Vec<usize> = (0..7).map(|k| b.wait(k % 3)).collect();
    assert_eq!(ranks, vec![1, 2, 3, 1, 2, 3, 1]);
}

#[test]
fn ranking_barrier_cvar_ranks_within_round() {
    let mut b = RankingBarrierCvar::new(2).unwrap();
    let a = b.wait();
    assert_eq!(a.rank, 1);
    assert!(matches!(a.arrival, Arrival::Wait(0)));
    let c = b.wait();
    assert_eq!(c.rank, 2);
    assert!(matches!(c.arrival, Arrival::Last));
    ready(b.passed(0));
    assert_eq!(b.wait().rank, 1);
}

#[test]
fn joiner_round_shares_every_value() {
    let mut j: JoinerCvar<u32> = JoinerCvar::new(2);
    assert!(matches!(j.supply(0, 10), Arrival::Wait(0)));
    assert!(matches!(j.supply(1, 20), Arrival::Last));
    let m = j.values();
    assert_eq!(m.len(), 2);
    assert_eq!(m[&0], 10);
    assert_eq!(m[&1], 20);
    assert!(matches!(j.supply(0, 11), Arrival::Wait(1)));
    assert_eq!(j.values()[&0], 11);
}

#[test]
fn synchronizer_pairs_ports() {
    let mut s: Synchronizer<i32> = Synchronizer::new();
    assert!(matches!(s.data_from_first_port(1), Meeting::Wait(0)));
    assert!(pending(s.passed(0)));
    match s.data_from_second_port(2) {
        Meeting::Pair(own, kept) => assert_eq!((own, kept), (2, 1)),
        Meeting::Wait(_) => panic!("second value completes the pair"),
    }
    ready(s.passed(0));
    assert!(matches!(s.data_from_second_port(5), Meeting::Wait(1)));
    assert!(matches!(s.data_from_first_port(6), Meeting::Pair(6, 5)));
}

#[test]
fn sensors_barrier_round_trip() {
    let mut b = CyclicBarrierProducersConsumerCV::new();
    assert!(pending(b.wait_for_producers()));
    for i in 0..PRODUCERS_THREADS {
        let last = b.wait_for_consumer(i);
        assert_eq!(last, i == PRODUCERS_THREADS - 1);
        assert!(pending(b.leave(i)));
    }
    ready(b.wait_for_producers());
    assert_eq!(b.arrived(), 0);
    b.restart_producers();
    for i in 0..PRODUCERS_THREADS {
        ready(b.leave(i));
        assert!(pending(b.leave(i)));
    }
}

#[test]
fn speed_threshold() {
    assert!(!exceeds_speed_threshold(&vec![5; 10]));
    assert!(exceeds_speed_threshold(&vec![5, 5, 5, 5, 5, 5, 5, 5, 5, 6]));
    assert!(!exceeds_speed_threshold(&vec![]));
}
