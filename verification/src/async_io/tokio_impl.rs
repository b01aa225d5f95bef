//! The completion multiplexer.
//!
//! Many operations wait on one ring, and the ring hands completions out as one
//! stream, each marked with a tag and with no other address. So every
//! operation that is activated drains all the completions that have come: it
//! keeps the one with its own tag, and for every other it puts the result by
//! for the party that waits under that tag and wakes that party, which finds
//! the result at its next activation. An operation that finds nothing
//! registers its waker and waits for the ring's descriptor to become
//! readable.
//!
//! The multiplexer decides; it neither locks, nor talks to the far side, nor
//! waits. Whoever drives it hands the claimed slot to the far side between
//! [`SubmitFuture::start`] and [`SubmitFuture::flushed`], wakes the wakers
//! that [`SubmitFuture::poll`] hands back, and asks the reactor before
//! [`AsyncIoUring::suspend`].

use std::collections::HashMap;
use vstd::prelude::*;
use vstd::std_specs::hash::group_hash_axioms;
use vstd::string::StringExecFns;
use vstd::wrapping::u64_specs::wrapping_add;
use crate::error::{from_ret_code, negated, Error, OsError, Result};
use crate::ops::{PrepareOp, SqeExt};
pub use crate::poll::Poll;
use crate::sys::{io_uring_cqe, io_uring_sqe, setup_sizes, zeroed_sqe, RingState, EINVAL};
use crate::uring::IoUring;

verus! {

/// What the reactor said of the ring's descriptor.
#[derive(Clone, Copy, Debug, PartialEq, Eq, Structural)]
pub enum Readiness {
    /// The descriptor is readable; the reactor's note of that was cleared.
    Ready,
    /// The reactor failed.
    Failed(OsError),
    /// The descriptor is not readable; the reactor will wake the caller when it is.
    Pending,
}

/// What becomes of an operation that found no completion.
#[derive(Debug, PartialEq, Eq)]
pub enum Suspension {
    /// It waits until it is woken.
    Suspended,
    /// Completions may have come: it is to be activated again at once.
    Again,
    /// It is resolved with this error.
    Failed(Error),
}

/// The state of a multiplexer.
pub struct MuxState<W> {
    /// The ring.
    pub ring: RingState,
    /// The parties that wait, each under the tag of its operation.
    pub wakers: Map<u64, W>,
    /// The results that were taken from the ring for a party that was not
    /// the one that took them, each under the tag of its operation.
    pub results: Map<u64, i32>,
    /// The tag that the next operation gets.
    pub next_user_data: u64,
    /// Whether the tags have run through all of `u64`.
    pub wrapped: bool,
}

/// The outcome of a drain pass.
pub struct Drained<W> {
    /// The result of the caller's operation, where its completion was found.
    pub result: Option<i32>,
    /// The completions that the pass left in the ring.
    pub completed: Seq<io_uring_cqe>,
    /// The parties that still wait.
    pub wakers: Map<u64, W>,
    /// The results that are put by.
    pub results: Map<u64, i32>,
    /// The wakers of the parties whose completions the pass met, in that order.
    pub woken: Seq<W>,
}

/// A drain pass for the operation tagged `tag`, with `woken` met so far. The
/// pass takes the completions oldest first. It ends at the caller's own,
/// whose result it returns, or when none is left. The result of another
/// under whose tag a party waits is put by for that party, whose waker is
/// noted and whose record is removed. A completion under whose tag nobody
/// waits is dropped.
pub open spec fn drain_from<W>(
    completed: Seq<io_uring_cqe>,
    wakers: Map<u64, W>,
    results: Map<u64, i32>,
    tag: u64,
    woken: Seq<W>,
) -> Drained<W>
    decreases completed.len(),
{
    if completed.len() == 0 {
        Drained { result: None, completed, wakers, results, woken }
    } else if completed[0].user_data == tag {
        Drained {
            result: Some(completed[0].res),
            completed: completed.skip(1),
            wakers: wakers.remove(tag),
            results,
            woken,
        }
    } else {
        let other = completed[0].user_data;
        if wakers.contains_key(other) {
            drain_from(
                completed.skip(1),
                wakers.remove(other),
                results.insert(other, completed[0].res),
                tag,
                woken.push(wakers[other]),
            )
        } else {
            drain_from(completed.skip(1), wakers, results, tag, woken)
        }
    }
}

/// A drain pass for the operation tagged `tag`.
pub open spec fn drained<W>(
    completed: Seq<io_uring_cqe>,
    wakers: Map<u64, W>,
    results: Map<u64, i32>,
    tag: u64,
) -> Drained<W> {
    drain_from(completed, wakers, results, tag, Seq::empty())
}

/// The slot that describes `op` under the tag `tag`.
pub open spec fn stamped<Op: PrepareOp>(op: Op, tag: u64) -> io_uring_sqe {
    io_uring_sqe { user_data: tag, ..op.prepared(zeroed_sqe()) }
}

impl<W> MuxState<W> {
    /// Whether `tag` was given out to an operation. The tags are given out
    /// from 1 upwards.
    pub open spec fn issued(self, tag: u64) -> bool {
        self.wrapped || 1 <= tag < self.next_user_data
    }

    /// What holds of every multiplexer: whoever waits, and whatever result is
    /// put by, is under a tag that was given out; and no result is put by
    /// for a party that still waits.
    pub open spec fn well_formed(self) -> bool {
        &&& forall|tag: u64| #[trigger]
            self.wakers.contains_key(tag) ==> self.issued(tag) && !self.results.contains_key(tag)
        &&& forall|tag: u64| #[trigger] self.results.contains_key(tag) ==> self.issued(tag)
        &&& self.wrapped || self.next_user_data >= 1
    }

    /// The state after the next tag was given out.
    pub open spec fn issuing(self) -> MuxState<W> {
        MuxState {
            next_user_data: wrapping_add(self.next_user_data, 1),
            wrapped: self.wrapped || self.next_user_data == u64::MAX,
            ..self
        }
    }

    /// The state after `waker` was registered under `tag`.
    pub open spec fn registered(self, tag: u64, waker: W) -> MuxState<W> {
        MuxState { wakers: self.wakers.insert(tag, waker), ..self }
    }

    /// The state after all that is held under `tag` was let go.
    pub open spec fn forgetting(self, tag: u64) -> MuxState<W> {
        MuxState { wakers: self.wakers.remove(tag), results: self.results.remove(tag), ..self }
    }

    /// The result that an activation of the operation tagged `tag` finds: the
    /// one that was put by for it, else the one that a drain pass finds.
    pub open spec fn resolution(self, tag: u64) -> Option<i32> {
        if self.results.contains_key(tag) {
            Some(self.results[tag])
        } else {
            drained(self.ring.completed, self.wakers, self.results, tag).result
        }
    }

    /// The wakers that an activation of the operation tagged `tag` hands back.
    pub open spec fn to_wake(self, tag: u64) -> Seq<W> {
        if self.results.contains_key(tag) {
            Seq::empty()
        } else {
            drained(self.ring.completed, self.wakers, self.results, tag).woken
        }
    }

    /// The state after an activation of the operation tagged `tag`. Where a
    /// result was put by for it, that is taken and the ring is left alone;
    /// else a drain pass is made.
    pub open spec fn activated(self, tag: u64) -> MuxState<W> {
        if self.results.contains_key(tag) {
            self.forgetting(tag)
        } else {
            let pass = drained(self.ring.completed, self.wakers, self.results, tag);
            MuxState {
                ring: RingState { completed: pass.completed, ..self.ring },
                wakers: pass.wakers,
                results: pass.results,
                ..self
            }
        }
    }
}

/// Giving out a tag takes none back.
pub proof fn lemma_issuing_keeps_tags<W>(mux: MuxState<W>)
    ensures
        forall|tag: u64| mux.issued(tag) ==> #[trigger] mux.issuing().issued(tag),
        mux.well_formed() ==> mux.issuing().issued(mux.next_user_data),
        mux.well_formed() ==> mux.issuing().well_formed(),
{
    assert forall|tag: u64| mux.issued(tag) implies #[trigger] mux.issuing().issued(tag) by {}
    if mux.well_formed() {
        assert forall|tag: u64| #[trigger] mux.issuing().wakers.contains_key(tag) implies mux.issuing().issued(
            tag,
        ) && !mux.issuing().results.contains_key(tag) by {
            assert(mux.wakers.contains_key(tag));
        }
        assert forall|tag: u64| #[trigger] mux.issuing().results.contains_key(tag) implies mux.issuing().issued(
            tag,
        ) by {
            assert(mux.results.contains_key(tag));
        }
    }
}

/// Letting go of a tag keeps the multiplexer as it should be.
pub proof fn lemma_forgetting_stays_well_formed<W>(mux: MuxState<W>, tag: u64)
    requires
        mux.well_formed(),
    ensures
        mux.forgetting(tag).well_formed(),
{
    let gone = mux.forgetting(tag);
    assert forall|t: u64| #[trigger] gone.wakers.contains_key(t) implies gone.issued(t)
        && !gone.results.contains_key(t) by {
        assert(mux.wakers.contains_key(t));
    }
    assert forall|t: u64| #[trigger] gone.results.contains_key(t) implies gone.issued(t) by {
        assert(mux.results.contains_key(t));
    }
}

/// Registering a party under a tag that was given out, and for which no
/// result is put by, keeps the multiplexer as it should be; so does letting go
/// of a tag.
pub proof fn lemma_tables_stay_well_formed<W>(mux: MuxState<W>, tag: u64, waker: W)
    requires
        mux.well_formed(),
    ensures
        mux.forgetting(tag).well_formed(),
        mux.issued(tag) && !mux.results.contains_key(tag) ==> mux.registered(
            tag,
            waker,
        ).well_formed(),
{
    let gone = mux.forgetting(tag);
    assert forall|t: u64| #[trigger] gone.wakers.contains_key(t) implies gone.issued(t)
        && !gone.results.contains_key(t) by {
        assert(mux.wakers.contains_key(t));
    }
    assert forall|t: u64| #[trigger] gone.results.contains_key(t) implies gone.issued(t) by {
        assert(mux.results.contains_key(t));
    }
    if mux.issued(tag) && !mux.results.contains_key(tag) {
        let more = mux.registered(tag, waker);
        assert forall|t: u64| #[trigger] more.wakers.contains_key(t) implies more.issued(t)
            && !more.results.contains_key(t) by {
            if t != tag {
                assert(mux.wakers.contains_key(t));
            }
        }
        assert forall|t: u64| #[trigger] more.results.contains_key(t) implies more.issued(t) by {
            assert(mux.results.contains_key(t));
        }
    }
}

/// A ring that many operations wait on, with the table of those that wait.
pub struct AsyncIoUring<W> {
    ring: IoUring,
    wakers: HashMap<u64, W>,
    results: HashMap<u64, i32>,
    next_user_data: u64,
    wrapped: bool,
}

/// What an activation hands back.
pub struct Activation<W> {
    /// `Ready` with the operation's result; `Pending` where no completion for
    /// it has come.
    pub outcome: Poll<Result<i32>>,
    /// The wakers to wake, in this order: those of the other operations whose
    /// completions this activation met.
    pub woken: Vec<W>,
}

/// One operation on its way through the multiplexer.
pub enum SubmitFuture<Op> {
    /// Not yet started: the operation waits to be written into a slot.
    Unsubmitted(Op),
    /// Written into a slot under this tag; the slot waits to be flushed.
    Claimed(u64),
    /// Flushed under this tag.
    Submitted(u64),
}

impl<W> AsyncIoUring<W> {
    /// The state of the multiplexer.
    pub closed spec fn view(&self) -> MuxState<W> {
        MuxState {
            ring: self.ring@,
            wakers: self.wakers@,
            results: self.results@,
            next_user_data: self.next_user_data,
            wrapped: self.wrapped,
        }
    }

    /// Makes a multiplexer on a ring of at least `entries` submission slots, as
    /// [`IoUring::new`] makes it. Nobody waits yet, and the first tag is 1.
    pub fn new(entries: u32) -> (r: Result<Self>)
        ensures
            match setup_sizes(entries, 0, 0) {
                Some((sq, cq)) => r matches Ok(mux) && mux@ == (MuxState {
                    ring: RingState::fresh(sq, cq, 0),
                    wakers: Map::<u64, W>::empty(),
                    results: Map::<u64, i32>::empty(),
                    next_user_data: 1,
                    wrapped: false,
                }) && mux@.ring.well_formed() && mux@.well_formed(),
                None => r matches Err(e) && e == Error::Setup(OsError { code: EINVAL }),
            },
    {
        match IoUring::new(entries) {
            Ok(ring) => Ok(
                Self {
                    ring,
                    wakers: HashMap::new(),
                    results: HashMap::new(),
                    next_user_data: 1,
                    wrapped: false,
                },
            ),
            Err(e) => Err(e),
        }
    }

    /// Takes `op` in. Nothing is claimed or submitted until the future is started.
    pub fn submit_op<Op: PrepareOp>(&mut self, op: Op) -> (future: SubmitFuture<Op>)
        ensures
            future == SubmitFuture::Unsubmitted(op),
            final(self)@ == old(self)@,
    {
        SubmitFuture::Unsubmitted(op)
    }

    /// The ring underneath.
    pub fn ring(&mut self) -> (ring: &mut IoUring)
        ensures
            ring@ == old(self)@.ring,
            final(self)@ == (MuxState { ring: final(ring)@, ..old(self)@ }),
    {
        &mut self.ring
    }

    /// How many parties wait.
    pub fn waiting(&self) -> (n: usize)
        ensures
            n == self@.wakers.len(),
    {
        broadcast use group_hash_axioms;

        self.wakers.len()
    }

    /// Whether a party waits under `tag`.
    pub fn is_waiting(&self, tag: u64) -> (waits: bool)
        ensures
            waits == self@.wakers.contains_key(tag),
    {
        broadcast use group_hash_axioms;

        self.wakers.contains_key(&tag)
    }

    /// Whether a result is put by for the operation tagged `tag`.
    pub fn has_result(&self, tag: u64) -> (has: bool)
        ensures
            has == self@.results.contains_key(tag),
    {
        broadcast use group_hash_axioms;

        self.results.contains_key(&tag)
    }

    /// Whether `tag` was given out to an operation.
    pub fn is_issued(&self, tag: u64) -> (issued: bool)
        ensures
            issued == self@.issued(tag),
    {
        self.wrapped || (1 <= tag && tag < self.next_user_data)
    }

    /// Lets go of all that is held under `tag`: the party has given up
    /// waiting. A completion that comes for the tag later is retired and
    /// wakes nobody.
    pub fn abandon(&mut self, tag: u64) -> (waker: Option<W>)
        ensures
            final(self)@ == old(self)@.forgetting(tag),
            waker == if old(self)@.wakers.contains_key(tag) {
                Some(old(self)@.wakers[tag])
            } else {
                None::<W>
            },
            old(self)@.well_formed() ==> final(self)@.well_formed(),
    {
        broadcast use group_hash_axioms;

        proof {
            if self@.well_formed() {
                lemma_forgetting_stays_well_formed(self@, tag);
            }
        }
        self.results.remove(&tag);
        let waker = self.wakers.remove(&tag);
        assert(self@.results == old(self)@.results.remove(tag));
        assert(self@.wakers == old(self)@.wakers.remove(tag));
        assert(self@ == old(self)@.forgetting(tag));
        waker
    }

    /// One drain pass for the operation tagged `tag`: takes the completions
    /// that have come, oldest first, up to the one with that tag. Each one
    /// taken is retired.
    fn drain(&mut self, tag: u64, woken: &mut Vec<W>) -> (result: Option<i32>)
        ensures
            ({
                let pass = drain_from(
                    old(self)@.ring.completed,
                    old(self)@.wakers,
                    old(self)@.results,
                    tag,
                    old(woken)@,
                );
                &&& result == pass.result
                &&& final(woken)@ == pass.woken
                &&& final(self)@ == (MuxState {
                    ring: RingState { completed: pass.completed, ..old(self)@.ring },
                    wakers: pass.wakers,
                    results: pass.results,
                    ..old(self)@
                })
            }),
            old(self)@.well_formed() ==> final(self)@.well_formed(),
    {
        broadcast use group_hash_axioms;

        let ghost goal = drain_from(
            old(self)@.ring.completed,
            old(self)@.wakers,
            old(self)@.results,
            tag,
            old(woken)@,
        );
        loop
            invariant
                goal == drain_from(
                    old(self)@.ring.completed,
                    old(self)@.wakers,
                    old(self)@.results,
                    tag,
                    old(woken)@,
                ),
                drain_from(self@.ring.completed, self@.wakers, self@.results, tag, woken@) == goal,
                self@.ring == (RingState { completed: self@.ring.completed, ..old(self)@.ring }),
                self@.next_user_data == old(self)@.next_user_data,
                self@.wrapped == old(self)@.wrapped,
                old(self)@.well_formed() ==> self@.well_formed(),
            decreases self@.ring.completed.len(),
        {
            let ghost before = self@;
            let cqe_data = {
                let mut cq = self.ring.completion();
                cq.peek_cqe()
            };
            match cqe_data {
                Some(cqe) => {
                    let other = cqe.user_data();
                    if other == tag {
                        // The caller's own completion
                        self.wakers.remove(&tag);
                        return Some(cqe.result());
                    } else {
                        // Put the result by for the party that waits for it
                        match self.wakers.remove(&other) {
                            Some(waker) => {
                                self.results.insert(other, cqe.result());
                                woken.push(waker);
                            },
                            None => {
                                assert(self@.wakers == before.wakers);
                            },
                        }
                    }
                },
                None => {
                    // Nothing more has come
                    return None;
                },
            }
        }
    }

    /// What becomes of the operation tagged `tag` that found no completion,
    /// where `readiness` is what the reactor said of the ring's descriptor.
    ///
    /// Where the reactor failed, its error resolves the operation, and all
    /// that is held under the tag is let go. Under a tag that was never
    /// given out nothing is registered, and the call fails with
    /// [`Error::InvalidOperation`]. Where a result is put by for the
    /// operation, nothing is registered and the operation is to be
    /// activated again. Else `waker` is registered under the tag: where the
    /// descriptor was readable, the operation is to be activated again;
    /// where it was not, the operation waits.
    pub fn suspend(&mut self, tag: u64, waker: W, readiness: Readiness) -> (r: Suspension)
        ensures
            old(self)@.well_formed() ==> final(self)@.well_formed(),
            match readiness {
                Readiness::Failed(e) => {
                    &&& r == Suspension::Failed(Error::Io(e))
                    &&& final(self)@ == old(self)@.forgetting(tag)
                },
                _ => if !old(self)@.issued(tag) {
                    &&& r matches Suspension::Failed(Error::InvalidOperation(_))
                    &&& final(self)@ == old(self)@
                } else if old(self)@.results.contains_key(tag) {
                    &&& r == Suspension::Again
                    &&& final(self)@ == old(self)@
                } else {
                    &&& r == if readiness == Readiness::Ready {
                        Suspension::Again
                    } else {
                        Suspension::Suspended
                    }
                    &&& final(self)@ == old(self)@.registered(tag, waker)
                },
            },
    {
        broadcast use group_hash_axioms;

        proof {
            if self@.well_formed() {
                lemma_tables_stay_well_formed(self@, tag, waker);
            }
        }
        match readiness {
            Readiness::Failed(e) => {
                self.results.remove(&tag);
                self.wakers.remove(&tag);
                Suspension::Failed(Error::Io(e))
            },
            _ => {
                if !self.is_issued(tag) {
                    Suspension::Failed(
                        Error::InvalidOperation(String::from_str("the tag was never given out")),
                    )
                } else if self.results.contains_key(&tag) {
                    Suspension::Again
                } else {
                    self.wakers.insert(tag, waker);
                    match readiness {
                        Readiness::Ready => Suspension::Again,
                        _ => Suspension::Suspended,
                    }
                }
            },
        }
    }
}

impl<Op: PrepareOp> SubmitFuture<Op> {
    /// The tag of the operation, once it has one.
    pub open spec fn tag(&self) -> Option<u64> {
        match self {
            SubmitFuture::Unsubmitted(_) => None,
            SubmitFuture::Claimed(tag) => Some(*tag),
            SubmitFuture::Submitted(tag) => Some(*tag),
        }
    }

    /// The tag of the operation, once it has one.
    pub fn user_data(&self) -> (tag: Option<u64>)
        ensures
            tag == self.tag(),
    {
        match self {
            SubmitFuture::Unsubmitted(_) => None,
            SubmitFuture::Claimed(tag) => Some(*tag),
            SubmitFuture::Submitted(tag) => Some(*tag),
        }
    }

    /// Starts the operation: gives it the next tag, claims a slot, writes the
    /// operation into it and stamps it with the tag, which is returned. The
    /// slot is then to be flushed, and [`SubmitFuture::flushed`] to be told
    /// what came of that.
    ///
    /// Where no slot is free the call fails with
    /// [`Error::SubmissionQueueFull`]: the tag is spent, nothing else
    /// changes, and the operation can be started again later, under
    /// another tag. An operation that was started before is refused with
    /// [`Error::InvalidOperation`].
    pub fn start<W>(&mut self, inner: &mut AsyncIoUring<W>) -> (r: Result<u64>)
        ensures
            old(inner)@.well_formed() ==> final(inner)@.well_formed(),
            match *old(self) {
                SubmitFuture::Unsubmitted(op) => if old(inner)@.ring.space_left() == 0 {
                    &&& r == Err::<u64, Error>(Error::SubmissionQueueFull)
                    &&& *final(self) == *old(self)
                    &&& final(inner)@ == old(inner)@.issuing()
                } else {
                    let tag = old(inner)@.next_user_data;
                    &&& r == Ok::<u64, Error>(tag)
                    &&& *final(self) == SubmitFuture::<Op>::Claimed(tag)
                    &&& final(inner)@ == (MuxState {
                        ring: old(inner)@.ring.acquired(stamped(op, tag)),
                        ..old(inner)@.issuing()
                    })
                },
                _ => {
                    &&& r matches Err(Error::InvalidOperation(_))
                    &&& *final(self) == *old(self)
                    &&& final(inner)@ == old(inner)@
                },
            },
    {
        match self {
            SubmitFuture::Unsubmitted(_) => {},
            _ => {
                return Err(
                    Error::InvalidOperation(String::from_str("the operation was started before")),
                );
            },
        }
        // Take the next tag
        let user_data = inner.next_user_data;
        if user_data == u64::MAX {
            inner.wrapped = true;
        }
        inner.next_user_data = user_data.wrapping_add(1);
        proof {
            lemma_issuing_keeps_tags(old(inner)@);
        }
        if inner.ring.submission().is_full() {
            return Err(Error::SubmissionQueueFull);
        }
        let mut state = SubmitFuture::Claimed(user_data);
        core::mem::swap(self, &mut state);

        if let SubmitFuture::Unsubmitted(op) = state {
            // Write the operation into a slot
            let mut sq = inner.ring.submission();
            match sq.get_sqe_or_err() {
                Ok(sqe) => {
                    op.prepare(sqe);
                    sqe.set_user_data(user_data);
                },
                Err(_) => {},
            }
        }
        proof {
            lemma_issuing_keeps_tags(old(inner)@);
        }
        Ok(user_data)
    }

    /// What came of the flush of the slot, where `ret` is the far side's
    /// answer to it.
    ///
    /// A negative answer is an error of the operating system: the call
    /// fails with [`Error::Io`] and the negated code, nobody is registered,
    /// and the slot stays claimed. Any other answer is the number of slots
    /// that the far side took, oldest first: `waker` is registered under
    /// the operation's tag and the operation counts as submitted. An
    /// operation that has no claimed slot, or whose tag was never given
    /// out, is refused with [`Error::InvalidOperation`].
    pub fn flushed<W>(&mut self, inner: &mut AsyncIoUring<W>, waker: W, ret: i32) -> (r: Result<()>)
        ensures
            old(inner)@.well_formed() ==> final(inner)@.well_formed(),
            match *old(self) {
                SubmitFuture::Claimed(tag) => if !old(inner)@.issued(tag) {
                    &&& r matches Err(Error::InvalidOperation(_))
                    &&& *final(self) == *old(self)
                    &&& final(inner)@ == old(inner)@
                } else if ret < 0 {
                    &&& r == Err::<(), Error>(Error::Io(OsError { code: negated(ret) }))
                    &&& *final(self) == *old(self)
                    &&& final(inner)@ == old(inner)@
                } else {
                    &&& r == Ok::<(), Error>(())
                    &&& *final(self) == SubmitFuture::<Op>::Submitted(tag)
                    &&& final(inner)@ == (MuxState {
                        ring: old(inner)@.ring.flushed(ret as int),
                        wakers: old(inner)@.wakers.insert(tag, waker),
                        results: old(inner)@.results.remove(tag),
                        ..old(inner)@
                    })
                },
                _ => {
                    &&& r matches Err(Error::InvalidOperation(_))
                    &&& *final(self) == *old(self)
                    &&& final(inner)@ == old(inner)@
                },
            },
    {
        broadcast use group_hash_axioms;

        let user_data = match self {
            SubmitFuture::Claimed(tag) => *tag,
            _ => {
                return Err(
                    Error::InvalidOperation(String::from_str("the operation has no claimed slot")),
                );
            },
        };
        if !inner.is_issued(user_data) {
            return Err(Error::InvalidOperation(String::from_str("the tag was never given out")));
        }
        // Tell the ring what the far side took
        if ret < 0 {
            return Err(Error::Io(from_ret_code(ret)));
        }
        let _ = inner.ring.submit(ret);

        // Register the waker
        inner.results.remove(&user_data);
        inner.wakers.insert(user_data, waker);
        *self = SubmitFuture::Submitted(user_data);
        Ok(())
    }

    /// Activates the operation: looks for its completion.
    ///
    /// Where a result was put by for the operation, the operation is
    /// resolved with it. Else a drain pass is made: where it finds the
    /// operation's completion, the operation is resolved with its result, be
    /// it an error code or not; the results of the other completions that
    /// it takes are put by for their owners, whose wakers are handed back.
    /// Where nothing is found the outcome is `Pending`: the caller asks the
    /// reactor and calls [`AsyncIoUring::suspend`]. An operation that is not
    /// submitted is refused with [`Error::InvalidOperation`].
    pub fn poll<W>(&self, inner: &mut AsyncIoUring<W>) -> (r: Activation<W>)
        ensures
            old(inner)@.well_formed() ==> final(inner)@.well_formed(),
            match *self {
                SubmitFuture::Submitted(tag) => {
                    &&& final(inner)@ == old(inner)@.activated(tag)
                    &&& r.woken@ == old(inner)@.to_wake(tag)
                    &&& r.outcome == match old(inner)@.resolution(tag) {
                        Some(res) => Poll::Ready(Ok::<i32, Error>(res)),
                        None => Poll::<Result<i32>>::Pending,
                    }
                },
                _ => {
                    &&& r.outcome matches Poll::Ready(Err(Error::InvalidOperation(_)))
                    &&& r.woken@ == Seq::<W>::empty()
                    &&& final(inner)@ == old(inner)@
                },
            },
    {
        broadcast use group_hash_axioms;

        let mut woken: Vec<W> = Vec::new();
        let user_data = match self {
            SubmitFuture::Submitted(tag) => *tag,
            _ => {
                return Activation {
                    outcome: Poll::Ready(
                        Err(
                            Error::InvalidOperation(
                                String::from_str("the operation is not submitted"),
                            ),
                        ),
                    ),
                    woken,
                };
            },
        };

        // A result that another activation has put by
        match inner.results.remove(&user_data) {
            Some(result) => {
                inner.wakers.remove(&user_data);
                return Activation { outcome: Poll::Ready(Ok(result)), woken };
            },
            None => {
                assert(inner@.results == old(inner)@.results);
            },
        }

        // Look for completions
        match inner.drain(user_data, &mut woken) {
            Some(result) => Activation { outcome: Poll::Ready(Ok(result)), woken },
            None => Activation { outcome: Poll::Pending, woken },
        }
    }
}

} // verus!
