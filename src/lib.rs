//! A queue-driven job worker: message bodies name a registered command and ask
//! for arguments; the worker keeps only the whitelisted arguments, runs the
//! command, and forwards jobs that could not be started to a dead-letter queue.
//!
//! Everything here is pure and verified; the transport, process spawning and
//! JSON decoding live with the program that drives the library.
pub mod job;
pub mod registry;
pub mod wire;
pub mod dispatch;
pub mod backoff;
