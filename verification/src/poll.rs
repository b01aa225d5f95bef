//! What a call came to that may have to be made again.

use vstd::prelude::*;

verus! {

/// What a call came to.
#[derive(Debug, PartialEq, Eq)]
pub enum Poll<T> {
    /// The matter is settled, with this value.
    Ready(T),
    /// Nothing is settled yet: the caller waits and calls again.
    Pending,
}

} // verus!
