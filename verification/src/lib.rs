//! Matching engine of an HTTP reverse tunnel: a broker queues public requests,
//! an agent pulls them, and the broker pairs each posted response with the
//! request that is waiting for it.

pub mod client;
pub mod encoding;
pub mod headers;
pub mod history;
pub mod server;
pub mod store;
pub mod text;
pub mod types;
