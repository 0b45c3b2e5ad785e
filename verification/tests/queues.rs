use std::sync::mpsc::channel;

use sync_lab::cache::Cache;
use sync_lab::delayed_queue::{DelayedQueue, Take};
use sync_lab::dispatcher::{dispatch_plan, drop_failed, read_outcome, Dispatcher};
use sync_lab::looper::{send_outcome, Looper, Message};
use sync_lab::mpmc::{MpMcChannelMine, MpMcChannelProf};
use sync_lab::poll::{Handoff, Poll};
use sync_lab::processor::Processor;
use sync_lab::ring_buffer::{RingBuffer, CIRCULAR_BUFFER_SIZE};
use sync_lab::sensors::{CircularBuffer, PRODUCERS_THREADS};
use sync_lab::single_thread_executor::SingleThreadExecutor;
use sync_lab::task_queue::WorkerStep;

#[test]
fn ring_buffer_is_fifo_and_bounded() {
    let mut b: RingBuffer<u64> = RingBuffer::new();
    assert_eq!(b.read(), None);
    for v in 0..CIRCULAR_BUFFER_SIZE as u64 {
        assert_eq!(b.write(v), Ok(()));
    }
    assert_eq!(b.write(99), Err(()));
    for v in 0..5 {
        assert_eq!(b.read(), Some(v));
    }
    for v in 100..105 {
        assert_eq!(b.write(v), Ok(()));
    }
    assert_eq!(b.write(99), Err(()));
    let rest: Vec<u64> = (0..CIRCULAR_BUFFER_SIZE).map(|_| b.read().unwrap()).collect();
    let expected: Vec<u64> = (5..20).chain(100..105).collect();
    assert_eq!(rest, expected);
    assert_eq!(b.read(), None);
}

#[test]
fn circular_buffer_wraps_around() {
    let mut b = CircularBuffer::new();
    for round in 0..3u32 {
        for i in 0..PRODUCERS_THREADS as u32 {
            assert_eq!(b.write(round * 100 + i), Ok(()));
        }
        assert_eq!(b.write(7), Err(()));
        for i in 0..PRODUCERS_THREADS as u32 {
            assert_eq!(b.read(), Some(round * 100 + i));
        }
        assert_eq!(b.read(), None);
    }
}

fn sent<E>(h: Handoff<E, Option<()>>) -> Option<()> {
    match h {
        Handoff::Ready(r) => r,
        Handoff::Pending(_) => panic!("expected the send to complete"),
    }
}

#[test]
fn mpmc_prof_send_recv_shutdown() {
    let mut c: MpMcChannelProf<i32> = MpMcChannelProf::new(2);
    assert!(matches!(c.recv(), Poll::Pending));
    assert_eq!(sent(c.send(1)), Some(()));
    assert_eq!(sent(c.send(2)), Some(()));
    assert!(matches!(c.send(3), Handoff::Pending(3)));
    assert!(matches!(c.recv(), Poll::Ready(Some(1))));
    assert_eq!(c.shutdown(), Some(()));
    assert_eq!(sent(c.send(4)), None);
    assert!(matches!(c.recv(), Poll::Ready(Some(2))));
    assert!(matches!(c.recv(), Poll::Ready(None)));
}

#[test]
fn mpmc_mine_send_recv_shutdown() {
    let mut c: MpMcChannelMine<i32> = MpMcChannelMine::new(2);
    assert!(matches!(c.recv(), Poll::Pending));
    assert_eq!(sent(c.send(1)), Some(()));
    assert_eq!(sent(c.send(2)), Some(()));
    assert!(matches!(c.send(3), Handoff::Pending(3)));
    assert!(matches!(c.recv(), Poll::Ready(Some(1))));
    assert_eq!(sent(c.send(3)), Some(()));
    assert_eq!(c.shutdown(), Some(()));
    assert_eq!(sent(c.send(4)), None);
    assert!(matches!(c.recv(), Poll::Ready(Some(2))));
    assert!(matches!(c.recv(), Poll::Ready(Some(3))));
    assert!(matches!(c.recv(), Poll::Ready(None)));
}

#[test]
fn mpmc_of_capacity_zero_never_takes_a_message() {
    let mut c: MpMcChannelMine<i32> = MpMcChannelMine::new(0);
    assert!(matches!(c.send(1), Handoff::Pending(1)));
    assert!(matches!(c.recv(), Poll::Pending));
    c.shutdown();
    assert!(matches!(c.recv(), Poll::Ready(None)));
}

#[test]
fn delayed_queue_takes_earliest_expired() {
    let mut q = DelayedQueue::new();
    assert!(matches!(q.take(0), Take::Ready(None)));
    q.offer("b", 5);
    q.offer("a", -3);
    q.offer("c", -3);
    q.offer("d", 40);
    assert_eq!(q.size(), 4);
    assert!(matches!(q.take(0), Take::Ready(Some("a"))));
    assert!(matches!(q.take(0), Take::Ready(Some("c"))));
    assert!(matches!(q.take(0), Take::WaitFor(5)));
    assert!(matches!(q.take(5), Take::WaitFor(0)));
    assert!(matches!(q.take(6), Take::Ready(Some("b"))));
    assert_eq!(q.size(), 1);
    assert!(matches!(q.take(i64::MIN), Take::WaitFor(w) if w == 40u64 + (1u64 << 63)));
}

#[test]
fn cache_computes_each_key_once() {
    let mut c: Cache<u64, u64> = Cache::new();
    assert_eq!(*c.get(1, |k| k + 1), 2);
    assert_eq!(*c.get(1, |_| panic!("must not be computed again")), 2);
    assert_eq!(*c.get(3, |k| k * 10), 30);
}

#[test]
fn single_thread_executor_runs_in_order_and_joins() {
    let mut e: SingleThreadExecutor<u32> = SingleThreadExecutor::new();
    assert_eq!(e.submit(1), Some(()));
    assert_eq!(e.submit(2), Some(()));
    assert!(e.worker_should_wait(2));
    assert!(!e.worker_should_wait(1));
    assert!(matches!(e.worker_step(), WorkerStep::Run(1)));
    e.close();
    assert_eq!(e.submit(3), None);
    assert!(e.join());
    assert!(!e.join());
    assert!(matches!(e.join_done(), Poll::Pending));
    assert!(!e.worker_should_wait(1));
    assert!(matches!(e.worker_step(), WorkerStep::Run(2)));
    assert!(matches!(e.worker_step(), WorkerStep::Finished));
    assert!(matches!(e.join_done(), Poll::Ready(())));
}

#[test]
fn processor_close_waits_for_consumer() {
    let mut p: Processor<&str> = Processor::new();
    assert_eq!(p.send("x"), Some(()));
    assert!(matches!(p.worker_step(), WorkerStep::Run("x")));
    assert!(matches!(p.worker_step(), WorkerStep::Idle));
    assert!(p.close());
    assert!(!p.close());
    assert_eq!(p.send("y"), None);
    assert!(matches!(p.close_done(), Poll::Pending));
    assert_eq!(p.pending(), 0);
    assert!(matches!(p.worker_step(), WorkerStep::Finished));
    assert!(matches!(p.close_done(), Poll::Ready(())));
}

#[test]
fn dispatcher_broadcasts_and_drops_dead_subscriptions() {
    let mut d: Dispatcher<String> = Dispatcher::new();
    let s1 = d.subscribe();
    let s2 = d.subscribe();
    d.dispatch("hello".to_string());
    assert_eq!(s1.read(), Some("hello".to_string()));
    assert_eq!(s2.read(), Some("hello".to_string()));
    drop(s1);
    d.dispatch("again".to_string());
    assert_eq!(s2.read(), Some("again".to_string()));
    drop(d);
    assert_eq!(s2.read(), None);
}

#[test]
fn looper_sends_messages_in_order() {
    let (sender, receiver) = channel();
    let looper = Looper::with_sender(sender);
    assert_eq!(looper.send(Message::new(1)), Some(()));
    assert_eq!(looper.send(Message::new(2)), Some(()));
    assert_eq!(receiver.recv().unwrap().content(), 1);
    assert_eq!(receiver.recv().unwrap().content(), 2);
    drop(receiver);
    assert_eq!(looper.send(Message::new(3)), None);
}

#[test]
fn message_content_is_a_copy() {
    let m = Message::new("text".to_string());
    assert_eq!(m.content(), "text");
    assert_eq!(m.content(), "text");
}

#[test]
fn channel_replies_are_answered() {
    assert_eq!(send_outcome::<u8>(Ok(())), Some(()));
    assert_eq!(send_outcome(Err(std::sync::mpsc::SendError(7u8))), None);
    assert_eq!(read_outcome(Ok(5u8)), Some(5));
    assert_eq!(read_outcome::<u8>(Err(std::sync::mpsc::RecvError)), None);
}

#[test]
fn drop_failed_keeps_the_others_in_order() {
    let mut items = vec![1, 2, 3, 4, 5];
    drop_failed(&mut items, &vec![true, false, false, true, false]);
    assert_eq!(items, vec![2, 3, 5]);
    let mut none: Vec<i32> = vec![];
    drop_failed(&mut none, &vec![]);
    assert!(none.is_empty());
}

#[test]
fn dispatch_plan_hands_a_copy_to_every_subscription() {
    let msg = "hello".to_string();
    let plan = dispatch_plan(3, &msg);
    assert_eq!(plan, vec![(0, msg.clone()), (1, msg.clone()), (2, msg.clone())]);
    assert!(dispatch_plan(0, &msg).is_empty());
}
