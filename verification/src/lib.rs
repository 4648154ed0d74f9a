//! Core of a local process supervisor and HTTP/SSE proxy bridge.
//!
//! The library manages the lifecycle record of one co-located backend
//! service: allocating its port, recording the spawned process, polling
//! for readiness, classifying proxied responses, decoding its streaming
//! event protocol, and sequencing shutdown. All network and process I/O
//! lives outside the library; the functions here are the decisions and
//! the byte-level protocol work, each with a proved contract.

pub mod errors;
pub mod json;
pub mod lifecycle;
pub mod probe;
pub mod proxy;
pub mod shutdown;
pub mod session;
pub mod sse;
pub mod text;
