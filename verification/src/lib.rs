pub mod poll;
pub mod ring;
pub mod ring_buffer;
pub mod sensors;
pub mod mpmc;
pub mod delayed_queue;
pub mod challenge;
pub mod couples;
pub mod letter_frequency;
pub mod binary_semaphore;
pub mod count_down_latch;
pub mod counting_semaphore;
pub mod limiter;
pub mod execution_limiter;
pub mod exchanger;
pub mod cyclic_barrier;
pub mod ranking_barrier;
pub mod executor;
pub mod task_queue;
pub mod single_thread_executor;
pub mod processor;
pub mod joiner;
pub mod synchronizer;
pub mod cache;
pub mod channel;
pub mod dispatcher;
pub mod looper;
