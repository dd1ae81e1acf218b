//! A feed proxy's core: a compressing text codec, a time-bounded article cache
//! with single-flight background refresh, and the rules by which a feed's items
//! are enriched with full article bodies.
//!
//! Every function here is a pure decision on plain values. Clocks, channels,
//! sockets and tasks live with the caller, which hands in the current time and
//! the events it observed and carries out the actions it is given back. Times
//! are `u64` milliseconds since the Unix epoch; durations are `u64`
//! milliseconds.

pub mod cache;
pub mod codec;
pub mod error;
pub mod feed_handling;
pub mod fluent;
pub mod request_handling;
pub mod text;
