//! A verified core for a one-shot command-line HTTP client: parameter
//! parsing, session state, request construction, failure classification,
//! and response rendering. Network and terminal I/O live outside.

pub mod bytes;
pub mod errors;
pub mod param;
pub mod session;
pub mod codec;
pub mod request;
pub mod order;
pub mod render;
pub mod highlight;
pub mod pipeline;
