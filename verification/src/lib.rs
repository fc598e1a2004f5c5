//! A real-time connection-management and topic-based broadcast hub.
//!
//! The library tracks live client connections, their subscriptions and
//! activity, and fans typed envelopes out to the connections interested in a
//! topic, without letting one slow or dead client stall delivery to the rest.
//! Everything observable is stated in contracts: the registry's counts, the
//! per-connection queues a broadcast touches, the liveness sweep, and the
//! wire codec, whose round trip is proved lossless.

pub mod bridge;
pub mod codec;
pub mod hub;
pub mod json;
pub mod models;
pub mod protocol;
pub mod runner;
pub mod validate;
