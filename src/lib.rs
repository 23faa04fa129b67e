//! A bounded pool of persistent worker threads fed by a blocking,
//! closable work queue.
//!
//! The queue's bookkeeping (`queue_state`) and the pool's worker
//! bookkeeping (`thread_pool`) are plain sequential values with exact
//! contracts; `synchronized_queue` puts the queue state behind a lock and a
//! condition variable so that many threads can share it.
pub mod pool_model;
pub mod queue_state;
pub mod synchronized_queue;
pub mod thread_pool;

pub use queue_state::QueueState;
pub use synchronized_queue::SynchronizedQueue;
pub use thread_pool::ThreadPool;
