//! A minimal, verified HTTP/1.1 serving core: request decoding, ordered
//! route matching with prefix wildcards, response encoding, and the job-queue
//! discipline of a fixed-size worker pool. Network I/O and threads live in
//! the embedding application; everything here is verified.

pub mod connection;
pub mod headers;
pub mod pool;
pub mod request;
pub mod response;
pub mod router;
pub mod strutil;

pub use connection::{method_not_allowed_handler, not_found_handler, plan_request, Plan};
pub use headers::HeaderMap;
pub use pool::{Pool, PoolCreationError, WorkerAction};
pub use request::{DecodeError, Request};
pub use response::{Body, Response};
pub use router::{Route, Router};
