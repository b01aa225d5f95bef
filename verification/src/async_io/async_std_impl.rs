//! One caller at a time: an operation is submitted, and the caller waits, with
//! the ring to itself, until the completion of that operation has come.
//!
//! The operations go through the multiplexer, so that each has a tag of its
//! own and gets the result of the completion with that tag, whatever else has
//! come meanwhile. Nobody is woken here: the caller does the waiting itself
//! and says what each wait came to.

use vstd::prelude::*;
use crate::async_io::tokio_impl;
use crate::async_io::tokio_impl::{MuxState, SubmitFuture};
use crate::error::{from_ret_code, negated, Error, OsError, Result};
use crate::ops::PrepareOp;
use crate::poll::Poll;
use crate::sys::{setup_sizes, RingState, EINVAL};

verus! {

/// A ring for one waiting caller at a time.
pub struct AsyncIoUring {
    inner: tokio_impl::AsyncIoUring<()>,
}

impl AsyncIoUring {
    /// The state of the multiplexer underneath.
    pub closed spec fn view(&self) -> MuxState<()> {
        self.inner@
    }

    /// Makes a ring of at least `entries` submission slots, as
    /// [`tokio_impl::AsyncIoUring::new`] does.
    pub fn new(entries: u32) -> (r: Result<Self>)
        ensures
            match setup_sizes(entries, 0, 0) {
                Some((sq, cq)) => r matches Ok(ring) && ring@ == (MuxState {
                    ring: RingState::fresh(sq, cq, 0),
                    wakers: Map::<u64, ()>::empty(),
                    results: Map::<u64, i32>::empty(),
                    next_user_data: 1,
                    wrapped: false,
                }) && ring@.ring.well_formed() && ring@.well_formed(),
                None => r matches Err(e) && e == Error::Setup(OsError { code: EINVAL }),
            },
    {
        match tokio_impl::AsyncIoUring::new(entries) {
            Ok(inner) => Ok(Self { inner }),
            Err(e) => Err(e),
        }
    }

    /// Takes `op` in. Nothing is claimed or submitted until the future is started.
    pub fn submit_op<Op: PrepareOp>(&mut self, op: Op) -> (future: SubmitFuture<Op>)
        ensures
            future == SubmitFuture::Unsubmitted(op),
            final(self)@ == old(self)@,
    {
        SubmitFuture::Unsubmitted(op)
    }

    /// The multiplexer underneath, through which the operation is started and
    /// its flush reported.
    pub fn multiplexer(&mut self) -> (inner: &mut tokio_impl::AsyncIoUring<()>)
        ensures
            inner@ == old(self)@,
            final(self)@ == final(inner)@,
    {
        &mut self.inner
    }

    /// What a wait for the completion of `future` came to, where `ret` is the
    /// answer of the operating system's wait.
    ///
    /// A negative answer is an error: the operation is resolved with
    /// [`Error::Io`] and the negated code, and nothing else changes.
    /// Otherwise the operation is activated: it is resolved with the result
    /// of the completion that carries its tag, or stays pending where that
    /// has not come, and the caller waits again.
    pub fn finish<Op: PrepareOp>(&mut self, future: &SubmitFuture<Op>, ret: i32) -> (r: Poll<
        Result<i32>,
    >)
        ensures
            old(self)@.well_formed() ==> final(self)@.well_formed(),
            ret < 0 ==> r == Poll::Ready(Err::<i32, Error>(Error::Io(OsError { code: negated(ret) })))
                && final(self)@ == old(self)@,
            ret >= 0 ==> match *future {
                SubmitFuture::Submitted(tag) => {
                    &&& final(self)@ == old(self)@.activated(tag)
                    &&& r == match old(self)@.resolution(tag) {
                        Some(res) => Poll::Ready(Ok::<i32, Error>(res)),
                        None => Poll::<Result<i32>>::Pending,
                    }
                },
                _ => {
                    &&& r matches Poll::Ready(Err(Error::InvalidOperation(_)))
                    &&& final(self)@ == old(self)@
                },
            },
    {
        if ret < 0 {
            return Poll::Ready(Err(Error::Io(from_ret_code(ret))));
        }
        future.poll(&mut self.inner).outcome
    }
}

} // verus!
