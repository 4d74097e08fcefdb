//! A fixed-capacity ring buffer: a queue that overwrites its oldest element
//! once it is full.
//!
//! `buffer` holds the type and its operations, `stream` the byte-stream
//! adapters on top of them. `model` says what a buffer is to its callers, a
//! sequence of live elements with the oldest first, and `laws` proves what
//! follows from that for runs of pushes and pops.

pub mod buffer;
pub mod laws;
pub mod model;
pub mod stream;

pub use buffer::BadRingBuffer;
