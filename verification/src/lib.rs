//! A completion ring and the multiplexer that lets many waiting operations
//! share it.
//!
//! The ring is a pair of bounded circular buffers: slots that describe
//! operations go in on one side, completion records come out on the other.
//! Every function is verified against a contract stated over the ring's
//! abstract state.
//!
//! - [`ring`] is the circular buffer, [`sizing`] rounds a request up to a size.
//! - [`sys`] is the ring with both of its sides, [`queue`] and [`uring`] are
//!   the handle and the two views that a caller works with.
//! - [`ops`] are the operations, [`flags`] the option sets, [`error`] the
//!   errors, [`poll`] the answer of a call that may have to be made again.
//! - [`async_io`] is the multiplexer.
//! - [`laws`] holds what is proved of all of them together.

pub mod async_io;
pub mod error;
pub mod flags;
pub mod laws;
pub mod ops;
pub mod poll;
pub mod queue;
pub mod ring;
pub mod sizing;
pub mod sys;
pub mod uring;

pub use error::{Error, OsError, Result};
pub use uring::IoUring;
