//! A bounded-concurrency connection dispatcher: a fixed-size worker pool with
//! graceful shutdown, the accept loop that feeds it, the two-stage shutdown
//! signal, and the small HTTP request reader and responder that the jobs run.

pub mod accept;
pub mod headers;
pub mod pool;
pub mod readiness;
pub mod request;
pub mod response;
pub mod shutdown;
pub mod text;

pub use crate::pool::ThreadPool;
pub use crate::request::Request;
