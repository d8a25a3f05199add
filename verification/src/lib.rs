//! Capture-store-and-replay pipeline for inbound HTTP requests.
//!
//! The library holds the verified core: the event data model, the
//! append-only event store with its cursor-based query, the capture and
//! query handler logic, and the replay client's request reconstruction
//! and cursor tracking. Transport, persistence and argument handling
//! live outside the library and talk to it in plain values.

pub mod clock;
pub mod codec;
pub mod event;
pub mod replay;
pub mod server;
pub mod store;
pub mod text;
pub mod urls;
