//! The ring handle.

use vstd::prelude::*;
use crate::error::{from_ret_code, negated, Error, OsError, Result};
use crate::flags::SetupFlags;
use crate::queue::{CompletionQueue, SubmissionQueue};
use crate::sys;
use crate::sys::{oldest_with_tag, setup_sizes, Posting, RingState, EINVAL};

verus! {

/// A ring. It owns its two buffers from the moment it is made until it is
/// dropped, and lends them out through queue views, one at a time.
pub struct IoUring {
    ring: sys::io_uring,
}

impl IoUring {
    /// The state of the ring.
    pub closed spec fn view(&self) -> RingState {
        self.ring@
    }

    /// Makes a ring of at least `entries` submission slots: their number is
    /// `entries` rounded up to a power of two. Fails with [`Error::Setup`]
    /// for no entries and for more than the largest size.
    pub fn new(entries: u32) -> (r: Result<Self>)
        ensures
            match setup_sizes(entries, 0, 0) {
                Some((sq, cq)) => r matches Ok(ring) && ring@ == RingState::fresh(sq, cq, 0)
                    && ring@.well_formed(),
                None => r matches Err(e) && e == Error::Setup(OsError { code: EINVAL }),
            },
    {
        Self::with_flags(entries, SetupFlags::empty())
    }

    /// Makes a ring of at least `entries` submission slots with the given
    /// options. Fails with [`Error::Setup`] for no entries, for more than
    /// the largest size unless the options say to cut the request down, and
    /// for an option that the ring does not have.
    pub fn with_flags(entries: u32, flags: SetupFlags) -> (r: Result<Self>)
        ensures
            match setup_sizes(entries, flags@, 0) {
                Some((sq, cq)) => r matches Ok(ring) && ring@ == RingState::fresh(sq, cq, flags@)
                    && ring@.well_formed(),
                None => r matches Err(e) && e == Error::Setup(OsError { code: EINVAL }),
            },
    {
        match sys::io_uring_queue_init(entries, flags.bits()) {
            Ok(ring) => Ok(Self { ring }),
            Err(ret) => Err(Error::Setup(from_ret_code(ret))),
        }
    }

    /// Makes a ring of at least `entries` submission slots as `params`
    /// describes it, and writes the sizes that the ring got into `params`.
    /// Fails with [`Error::Setup`] as [`IoUring::with_flags`] does, and for a
    /// completion side that is asked to be smaller than the submission side
    /// or larger than the largest size; `params` is then left as it was.
    pub fn with_params(entries: u32, params: &mut sys::io_uring_params) -> (r: Result<Self>)
        ensures
            match setup_sizes(entries, old(params).flags, old(params).cq_entries) {
                Some((sq, cq)) => {
                    &&& r matches Ok(ring)
                    &&& ring@ == RingState::fresh(sq, cq, old(params).flags)
                    &&& ring@.well_formed()
                    &&& *final(params) == (sys::io_uring_params {
                        sq_entries: sq as u32,
                        cq_entries: cq as u32,
                        ..*old(params)
                    })
                },
                None => {
                    &&& r matches Err(e)
                    &&& e == Error::Setup(OsError { code: EINVAL })
                    &&& *final(params) == *old(params)
                },
            },
    {
        match sys::io_uring_queue_init_params(entries, params) {
            Ok(ring) => Ok(Self { ring }),
            Err(ret) => Err(Error::Setup(from_ret_code(ret))),
        }
    }

    /// What a flush came to, where `ret` is the far side's answer to it. A
    /// negative answer is an error of the operating system: nothing was
    /// taken, and the call fails with [`Error::Io`] and the negated code.
    /// Any other answer is the number of slots that the far side took,
    /// oldest first; it may be below the number claimed, and the slots that
    /// were not taken stay claimed.
    pub fn submit(&mut self, ret: i32) -> (r: Result<usize>)
        ensures
            r == if ret < 0 {
                Err::<usize, Error>(Error::Io(OsError { code: negated(ret) }))
            } else {
                Ok::<usize, Error>(ret as usize)
            },
            final(self)@ == old(self)@.flushed(ret as int),
    {
        let mut sq = SubmissionQueue::new(&mut self.ring);
        sq.submit(ret)
    }

    /// The claimed slots that are not yet flushed, oldest first: what the
    /// far side is handed at the next flush.
    pub fn unflushed(&self) -> (slots: Vec<sys::io_uring_sqe>)
        ensures
            slots@ == self@.unflushed,
    {
        sys::io_uring_unflushed(&self.ring)
    }

    /// The submission side. The ring is in the state that the view leaves it in
    /// when the view is let go.
    pub fn submission(&mut self) -> (sq: SubmissionQueue<'_>)
        ensures
            sq@ == old(self)@,
            final(self)@ == (*final(sq.ring))@,
    {
        SubmissionQueue::new(&mut self.ring)
    }

    /// The completion side. The ring is in the state that the view leaves it in
    /// when the view is let go.
    pub fn completion(&mut self) -> (cq: CompletionQueue<'_>)
        ensures
            cq@ == old(self)@,
            final(self)@ == (*final(cq.ring))@,
    {
        CompletionQueue::new(&mut self.ring)
    }

    /// The ring underneath.
    pub fn as_raw_mut(&mut self) -> (ring: &mut sys::io_uring)
        ensures
            ring@ == old(self)@,
            final(self)@ == final(ring)@,
    {
        &mut self.ring
    }

    /// The descriptor that becomes readable when completions have come, or
    /// -1 while the ring has none.
    pub fn as_raw_fd(&self) -> (fd: i32)
        ensures
            fd == self@.ring_fd,
    {
        sys::io_uring_ring_fd(&self.ring)
    }

    /// Sets the descriptor that becomes readable when completions have come.
    pub fn set_raw_fd(&mut self, fd: i32)
        ensures
            final(self)@ == (RingState { ring_fd: fd, ..old(self)@ }),
    {
        sys::io_uring_set_ring_fd(&mut self.ring, fd);
    }

    /// The operations that the far side took and has not completed, oldest first.
    pub fn in_flight(&self) -> (ops: &Vec<sys::io_uring_sqe>)
        ensures
            ops@ == self@.in_flight,
    {
        sys::io_uring_in_flight(&self.ring)
    }

    /// The far side's report that the operation at `index` of those in flight
    /// is done, with its result: a completion with the operation's tag is
    /// posted. Nothing happens, and `false` is returned, where there is no
    /// such operation or no completion slot is free.
    pub fn complete(&mut self, index: usize, res: i32, flags: u32) -> (done: bool)
        ensures
            done == old(self)@.can_complete(index as int),
            final(self)@ == if done {
                old(self)@.completing(index as int, res, flags)
            } else {
                old(self)@
            },
    {
        sys::io_uring_complete(&mut self.ring, index, res, flags)
    }

    /// The far side's report of a completion by its tag: the oldest operation
    /// in flight under `tag` is done, with the result `res`, and its
    /// completion is posted. Where no operation is in flight under the tag,
    /// nothing happens and the report is to be dropped; where no
    /// completion slot is free, nothing happens and the report is to be made
    /// again later.
    pub fn complete_tagged(&mut self, tag: u64, res: i32, flags: u32) -> (r: Posting)
        ensures
            r == old(self)@.posting(tag),
            final(self)@ == if r == Posting::Posted {
                old(self)@.completing(oldest_with_tag(old(self)@.in_flight, tag), res, flags)
            } else {
                old(self)@
            },
    {
        sys::io_uring_complete_tagged(&mut self.ring, tag, res, flags)
    }
}

} // verus!
