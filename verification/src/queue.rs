//! The two queue views of a ring: one to submit through, one to read
//! completions from.
//!
//! A view borrows the ring. Its contracts speak of the ring's state as the
//! view sees it now (`@`); a view that is let go leaves the ring in the state
//! it saw last.

use vstd::prelude::*;
use crate::error::{from_ret_code, negated, Error, OsError, Result};
use crate::poll::Poll;
use crate::sys;
use crate::sys::RingState;

verus! {

/// The submission side of a ring: hands out slots and flushes them.
pub struct SubmissionQueue<'ring> {
    /// The ring that the view works on.
    pub ring: &'ring mut sys::io_uring,
}

impl<'ring> SubmissionQueue<'ring> {
    /// The state of the ring.
    pub open spec fn view(&self) -> RingState {
        (*self.ring)@
    }

    /// The submission side of `ring`.
    pub fn new(ring: &'ring mut sys::io_uring) -> (sq: Self)
        ensures
            sq@ == old(ring)@,
            *final(sq.ring) == *final(ring),
    {
        Self { ring }
    }

    /// Claims the next free slot and hands it out, zeroed, to be filled.
    /// `None` where every slot is claimed: slots are given back by a flush,
    /// never overwritten.
    pub fn get_sqe(&mut self) -> (r: Option<&mut sys::io_uring_sqe>)
        ensures
            old(self)@.well_formed(),
            r is None <==> old(self)@.space_left() == 0,
            r is None ==> final(self)@ == old(self)@,
            r matches Some(sqe) ==> *sqe == sys::zeroed_sqe() && final(self)@ == old(self)@.acquired(
                *final(sqe),
            ),
            *final(final(self).ring) == *final(old(self).ring),
    {
        sys::io_uring_get_sqe(self.ring)
    }

    /// Claims the next free slot, or fails with [`Error::SubmissionQueueFull`]
    /// where every slot is claimed.
    pub fn get_sqe_or_err(&mut self) -> (r: Result<&mut sys::io_uring_sqe>)
        ensures
            old(self)@.well_formed(),
            r is Ok <==> old(self)@.space_left() > 0,
            r matches Err(e) ==> e == Error::SubmissionQueueFull && final(self)@ == old(self)@,
            r matches Ok(sqe) ==> *sqe == sys::zeroed_sqe() && final(self)@ == old(self)@.acquired(
                *final(sqe),
            ),
            *final(final(self).ring) == *final(old(self).ring),
    {
        match self.get_sqe() {
            Some(sqe) => Ok(sqe),
            None => Err(Error::SubmissionQueueFull),
        }
    }

    /// How many slots are claimed and not yet flushed.
    pub fn ready(&self) -> (n: u32)
        ensures
            n == self@.unflushed.len(),
            self@.well_formed(),
    {
        sys::io_uring_sq_ready(self.ring)
    }

    /// What a flush came to, where `ret` is the far side's answer to it. A
    /// negative answer is an error of the operating system: nothing was
    /// taken, and the call fails with [`Error::Io`] and the negated code.
    /// Any other answer is the number of slots that the far side took,
    /// oldest first; it may be below the number claimed, and the slots that
    /// were not taken stay claimed.
    pub fn submit(&mut self, ret: i32) -> (r: Result<usize>)
        ensures
            r == if ret < 0 {
                Err::<usize, Error>(Error::Io(OsError { code: negated(ret) }))
            } else {
                Ok::<usize, Error>(ret as usize)
            },
            final(self)@ == old(self)@.flushed(ret as int),
            *final(final(self).ring) == *final(old(self).ring),
    {
        if ret < 0 {
            assert(self@.flushed(ret as int) == self@) by {
                assert(self@.unflushed.skip(0) == self@.unflushed);
                assert(self@.in_flight + self@.unflushed.take(0) == self@.in_flight);
            }
            Err(Error::Io(from_ret_code(ret)))
        } else {
            let _ = sys::io_uring_submit(self.ring, ret as u32);
            Ok(ret as usize)
        }
    }

    /// How many slots can still be claimed: the number of slots less the
    /// distance between the two indices of the submission side.
    pub fn space_left(&self) -> (n: u32)
        ensures
            n == self@.space_left(),
    {
        let sq = sys::io_uring_sq(self.ring);
        let head = sq.head();
        let tail = sq.tail();
        sq.entries() - tail.wrapping_sub(head)
    }

    /// Whether every slot is claimed.
    pub fn is_full(&self) -> (full: bool)
        ensures
            full == (self@.space_left() == 0),
    {
        self.space_left() == 0
    }
}

/// The completion side of a ring: hands out completions, each of them once.
pub struct CompletionQueue<'ring> {
    /// The ring that the view works on.
    pub ring: &'ring mut sys::io_uring,
}

impl<'ring> CompletionQueue<'ring> {
    /// The state of the ring.
    pub open spec fn view(&self) -> RingState {
        (*self.ring)@
    }

    /// The completion side of `ring`.
    pub fn new(ring: &'ring mut sys::io_uring) -> (cq: Self)
        ensures
            cq@ == old(ring)@,
            *final(cq.ring) == *final(ring),
    {
        Self { ring }
    }

    /// How many completions wait to be taken.
    pub fn ready(&self) -> (n: u32)
        ensures
            n == self@.completed.len(),
            self@.well_formed(),
    {
        sys::io_uring_cq_ready(self.ring)
    }

    /// Whether `wait_nr` completions are there to be taken.
    pub fn has_ready(&self, wait_nr: u32) -> (enough: bool)
        ensures
            enough == (self@.completed.len() >= wait_nr),
    {
        sys::io_uring_cq_ready(self.ring) >= wait_nr
    }

    /// What a wait for `wait_nr` completions came to, where `ret` is the
    /// answer of the operating system's wait. A negative answer is an
    /// error, reported as [`Error::Io`] with the negated code. Otherwise the
    /// wait is over where that many completions are there, and is to be
    /// made again where they are not.
    pub fn waited(&self, wait_nr: u32, ret: i32) -> (r: Poll<Result<()>>)
        ensures
            r == if ret < 0 {
                Poll::Ready(Err::<(), Error>(Error::Io(OsError { code: negated(ret) })))
            } else if self@.completed.len() >= wait_nr {
                Poll::Ready(Ok::<(), Error>(()))
            } else {
                Poll::<Result<()>>::Pending
            },
    {
        if ret < 0 {
            Poll::Ready(Err(Error::Io(from_ret_code(ret))))
        } else if self.has_ready(wait_nr) {
            Poll::Ready(Ok(()))
        } else {
            Poll::Pending
        }
    }

    /// What a wait for a completion came to, where `ret` is the answer of the
    /// operating system's wait. A negative answer is an error: it is
    /// reported as [`Error::Io`] with the negated code, and the ring is as
    /// it was. Otherwise the oldest completion is handed out, and retired by
    /// that; where none is there yet, nothing changes and the wait is to be
    /// made again.
    pub fn wait_cqe(&mut self, ret: i32) -> (r: Poll<Result<Cqe>>)
        ensures
            r == if ret < 0 {
                Poll::Ready(Err::<Cqe, Error>(Error::Io(OsError { code: negated(ret) })))
            } else if old(self)@.completed.len() > 0 {
                Poll::Ready(Ok::<Cqe, Error>(Cqe { cqe: old(self)@.completed[0] }))
            } else {
                Poll::<Result<Cqe>>::Pending
            },
            final(self)@ == if ret < 0 {
                old(self)@
            } else {
                old(self)@.retired()
            },
            *final(final(self).ring) == *final(old(self).ring),
    {
        if ret < 0 {
            return Poll::Ready(Err(Error::Io(from_ret_code(ret))));
        }
        match self.peek_cqe() {
            Some(cqe) => Poll::Ready(Ok(cqe)),
            None => Poll::Pending,
        }
    }

    /// Takes the oldest completion, if there is one. The completion that is
    /// handed out is retired by that.
    pub fn peek_cqe(&mut self) -> (r: Option<Cqe>)
        ensures
            r == if old(self)@.completed.len() > 0 {
                Some(Cqe { cqe: old(self)@.completed[0] })
            } else {
                None::<Cqe>
            },
            final(self)@ == old(self)@.retired(),
            *final(final(self).ring) == *final(old(self).ring),
    {
        match sys::io_uring_peek_cqe(self.ring) {
            Some(cqe) => {
                sys::io_uring_cqe_seen(self.ring);
                Some(Cqe { cqe })
            },
            None => None,
        }
    }

    /// Takes the oldest completions, at most `count` of them. Each one that is
    /// handed out is retired by that.
    pub fn peek_batch(&mut self, count: usize) -> (r: Vec<Cqe>)
        ensures
            r@.len() == if count <= old(self)@.completed.len() {
                count as int
            } else {
                old(self)@.completed.len() as int
            },
            forall|i: int| 0 <= i < r@.len() ==> (#[trigger] r@[i]).cqe == old(self)@.completed[i],
            final(self)@ == (RingState {
                completed: old(self)@.completed.skip(r@.len() as int),
                ..old(self)@
            }),
            *final(final(self).ring) == *final(old(self).ring),
    {
        let mut out: Vec<Cqe> = Vec::new();
        let ghost start = self@;
        assert(start.completed.skip(0) == start.completed);
        while out.len() < count
            invariant
                out@.len() <= count,
                out@.len() <= start.completed.len(),
                forall|i: int| 0 <= i < out@.len() ==> (#[trigger] out@[i]).cqe == start.completed[i],
                self@ == (RingState { completed: start.completed.skip(out@.len() as int), ..start }),
                *final(self.ring) == *final(old(self).ring),
            ensures
                out@.len() == count || out@.len() == start.completed.len(),
            decreases count - out.len(),
        {
            match self.peek_cqe() {
                Some(cqe) => {
                    out.push(cqe);
                    assert(start.completed.skip(out@.len() - 1).skip(1) == start.completed.skip(
                        out@.len() as int,
                    ));
                },
                None => {
                    break ;
                },
            }
        }
        out
    }
}

/// A completion that was taken from the ring.
#[derive(Clone, Copy, Debug, PartialEq, Eq, Structural)]
pub struct Cqe {
    /// The record.
    pub cqe: sys::io_uring_cqe,
}

impl Cqe {
    /// The tag of the slot that described the operation.
    pub fn user_data(&self) -> (tag: u64)
        ensures
            tag == self.cqe.user_data,
    {
        self.cqe.user_data
    }

    /// The result of the operation: an error code where negative.
    pub fn result(&self) -> (res: i32)
        ensures
            res == self.cqe.res,
    {
        self.cqe.res
    }

    /// The options of the record.
    pub fn flags(&self) -> (flags: u32)
        ensures
            flags == self.cqe.flags,
    {
        self.cqe.flags
    }

    /// Whether the operation succeeded.
    pub fn is_success(&self) -> (ok: bool)
        ensures
            ok == (self.cqe.res >= 0),
    {
        self.result() >= 0
    }

    /// The result, with a negative one turned into the error it stands for.
    pub fn into_result(self) -> (r: core::result::Result<i32, OsError>)
        ensures
            r == if self.cqe.res < 0 {
                Err::<i32, OsError>(OsError { code: negated(self.cqe.res) })
            } else {
                Ok::<i32, OsError>(self.cqe.res)
            },
    {
        let res = self.result();
        if res < 0 {
            Err(from_ret_code(res))
        } else {
            Ok(res)
        }
    }
}

} // verus!
