//! A fixed-size worker pool: the work queue, the worker's step function and the
//! pool's bookkeeping, with the guarantees that make shutdown orderly; and the
//! request routing and response framing of the small web server that uses it.
pub mod http;
pub mod message;
pub mod pool;
pub mod queue;
pub mod worker;

pub use http::{response, route, Route, SLOW_DELAY_SECS};
pub use message::Message;
pub use pool::ThreadPool;
pub use queue::WorkQueue;
pub use worker::{on_message, Step, Worker, WorkerState};
