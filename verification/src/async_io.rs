//! Many waiting operations on one ring.
//!
//! [`tokio_impl`] holds the multiplexer: it gives every operation a tag,
//! and an operation that is activated drains the completions that have come,
//! keeps its own and puts the others by for their owners, whom it wakes.
//! [`async_std_impl`] holds the form in which one caller at a time waits for
//! its own operation.
//!
//! Neither locks the ring nor waits: whoever drives them holds the lock for the
//! length of one call and does the waiting between calls.

pub mod async_std_impl;
pub mod tokio_impl;

pub use tokio_impl::AsyncIoUring;
