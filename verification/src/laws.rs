//! What holds of every ring and every multiplexer, proved from the
//! definitions that the contracts are stated with.

use vstd::prelude::*;
use crate::async_io::tokio_impl::{drain_from, lemma_issuing_keeps_tags, Drained, MuxState};
use crate::sys::{io_uring_cqe, io_uring_sqe, RingState};

verus! {

/// The ring after the slots `sqes` were claimed one after the other.
pub open spec fn acquired_all(ring: RingState, sqes: Seq<io_uring_sqe>) -> RingState
    decreases sqes.len(),
{
    if sqes.len() == 0 {
        ring
    } else {
        acquired_all(ring, sqes.drop_last()).acquired(sqes.last())
    }
}

/// Every claim takes one of the free slots.
pub proof fn law_each_claim_takes_a_slot(ring: RingState, sqes: Seq<io_uring_sqe>)
    ensures
        acquired_all(ring, sqes).space_left() == ring.space_left() - sqes.len(),
        acquired_all(ring, sqes).sq_entries == ring.sq_entries,
    decreases sqes.len(),
{
    if sqes.len() > 0 {
        law_each_claim_takes_a_slot(ring, sqes.drop_last());
    }
}

/// Backpressure: on a ring of K slots with none claimed, K claims find a
/// free slot each, and after them none is free, so that the next claim is
/// refused.
pub proof fn law_backpressure(ring: RingState, sqes: Seq<io_uring_sqe>)
    requires
        ring.unflushed.len() == 0,
        sqes.len() == ring.sq_entries,
    ensures
        forall|i: int|
            0 <= i < sqes.len() ==> (#[trigger] acquired_all(ring, sqes.take(i))).space_left() > 0,
        acquired_all(ring, sqes).space_left() == 0,
{
    assert forall|i: int| 0 <= i < sqes.len() implies (#[trigger] acquired_all(
        ring,
        sqes.take(i),
    )).space_left() > 0 by {
        law_each_claim_takes_a_slot(ring, sqes.take(i));
    }
    law_each_claim_takes_a_slot(ring, sqes);
}

/// A flush gives back as many slots as the far side took and loses no
/// operation: each slot taken has become an operation in flight. A flush of
/// which the far side took all that was claimed gives every slot back.
pub proof fn law_flush_frees_what_was_taken(ring: RingState, count: int)
    requires
        ring.well_formed(),
    ensures
        ring.flushed(count).space_left() == ring.space_left() + ring.taken(count),
        ring.flushed(count).in_flight.len() == ring.in_flight.len() + ring.taken(count),
        ring.flushed(count).completed == ring.completed,
        ring.flushed(count).well_formed(),
        count >= ring.unflushed.len() ==> ring.flushed(count).space_left() == ring.sq_entries,
{
}

/// The ring after `n` retirements.
pub open spec fn retired_times(ring: RingState, n: nat) -> RingState
    decreases n,
{
    if n == 0 {
        ring
    } else {
        retired_times(ring.retired(), (n - 1) as nat)
    }
}

/// Retirement is exact: `n` retirements take the `n` oldest completions, or
/// all where there are fewer, and leave the others as they were.
pub proof fn law_retirements_take_the_oldest(ring: RingState, n: nat)
    ensures
        retired_times(ring, n) == (RingState {
            completed: ring.completed.skip(
                if n <= ring.completed.len() {
                    n as int
                } else {
                    ring.completed.len() as int
                },
            ),
            ..ring
        }),
    decreases n,
{
    if n == 0 {
        assert(ring.completed.skip(0) == ring.completed);
    } else {
        law_retirements_take_the_oldest(ring.retired(), (n - 1) as nat);
        if ring.completed.len() > 0 {
            let k = if n <= ring.completed.len() {
                n as int
            } else {
                ring.completed.len() as int
            };
            assert(ring.completed.skip(1).skip(k - 1) == ring.completed.skip(k));
        } else {
            assert(ring.completed.skip(0) == ring.completed);
        }
    }
}

/// Every completion is retired once: after the completions `posted` have
/// come and as many were retired, the ring holds as many completions as
/// before.
pub proof fn law_occupancy_returns(ring: RingState, posted: Seq<io_uring_cqe>)
    ensures
        retired_times(
            RingState { completed: ring.completed + posted, ..ring },
            posted.len(),
        ).completed.len() == ring.completed.len(),
{
    law_retirements_take_the_oldest(
        RingState { completed: ring.completed + posted, ..ring },
        posted.len(),
    );
}

/// The ring after one round: a slot is claimed and filled with `sqe`, the far
/// side takes one slot and completes the operation it took last with `res`,
/// and the oldest completion is taken and retired.
pub open spec fn cycled(ring: RingState, sqe: io_uring_sqe, res: i32) -> RingState {
    let taken = ring.acquired(sqe).flushed(1);
    taken.completing(taken.in_flight.len() - 1, res, 0).retired()
}

/// The ring after one round for each of `sqes`, with the results `results`.
pub open spec fn cycled_all(ring: RingState, sqes: Seq<io_uring_sqe>, results: Seq<i32>) -> RingState
    decreases sqes.len(),
{
    if sqes.len() == 0 {
        ring
    } else {
        cycled(cycled_all(ring, sqes.drop_last(), results), sqes.last(), results[sqes.len() - 1])
    }
}

/// After any number of rounds the ring holds as many completions as before
/// them, and as many slots are free and as many operations in flight: every
/// completion that was handed out was retired, once.
pub proof fn law_rounds_leave_occupancy(ring: RingState, sqes: Seq<io_uring_sqe>, results: Seq<i32>)
    requires
        ring.well_formed(),
        ring.space_left() > 0,
        ring.completed.len() < ring.cq_entries,
    ensures
        cycled_all(ring, sqes, results).completed.len() == ring.completed.len(),
        cycled_all(ring, sqes, results).space_left() == ring.space_left(),
        cycled_all(ring, sqes, results).in_flight.len() == ring.in_flight.len(),
        cycled_all(ring, sqes, results).sq_entries == ring.sq_entries,
        cycled_all(ring, sqes, results).cq_entries == ring.cq_entries,
        cycled_all(ring, sqes, results).well_formed(),
    decreases sqes.len(),
{
    if sqes.len() > 0 {
        law_rounds_leave_occupancy(ring, sqes.drop_last(), results);
        let before = cycled_all(ring, sqes.drop_last(), results);
        let taken = before.acquired(sqes.last()).flushed(1);
        assert(before.acquired(sqes.last()).taken(1) == 1);
        assert(taken.can_complete(taken.in_flight.len() - 1));
    }
}

/// At most one party per tag: as long as the tags have not run through all
/// of `u64`, the tag that is given out next was not given out before, so
/// that nobody waits under it and no result is put by under it; once given
/// out, it counts as given out.
pub proof fn law_issued_tag_is_fresh<W>(mux: MuxState<W>)
    requires
        mux.well_formed(),
        !mux.wrapped,
    ensures
        !mux.issued(mux.next_user_data),
        !mux.wakers.contains_key(mux.next_user_data),
        !mux.results.contains_key(mux.next_user_data),
        mux.issuing().issued(mux.next_user_data),
        mux.issuing().well_formed(),
{
    lemma_issuing_keeps_tags(mux);
}

/// How many completions a drain pass takes.
pub open spec fn taken<W>(completed: Seq<io_uring_cqe>, pass: Drained<W>) -> int {
    completed.len() - pass.completed.len()
}

/// A drain pass takes the oldest completions, up to the first with the
/// caller's tag, whose result it returns; where there is none with that tag
/// it takes them all, and the caller's record stays.
pub proof fn law_drain_takes_up_to_own<W>(
    completed: Seq<io_uring_cqe>,
    wakers: Map<u64, W>,
    results: Map<u64, i32>,
    tag: u64,
    woken: Seq<W>,
)
    ensures
        ({
            let pass = drain_from(completed, wakers, results, tag, woken);
            let n = taken(completed, pass);
            &&& 0 <= n <= completed.len()
            &&& pass.completed == completed.skip(n)
            &&& match pass.result {
                Some(res) => {
                    &&& n >= 1
                    &&& completed[n - 1].user_data == tag
                    &&& completed[n - 1].res == res
                    &&& forall|i: int| 0 <= i < n - 1 ==> (#[trigger] completed[i]).user_data != tag
                },
                None => {
                    &&& n == completed.len()
                    &&& forall|i: int| 0 <= i < n ==> (#[trigger] completed[i]).user_data != tag
                    &&& wakers.contains_key(tag) ==> pass.wakers.contains_key(tag)
                        && pass.wakers[tag] == wakers[tag]
                },
            }
        }),
    decreases completed.len(),
{
    let pass = drain_from(completed, wakers, results, tag, woken);
    if completed.len() == 0 {
        assert(completed.skip(0) == completed);
    } else if completed[0].user_data == tag {
    } else {
        let other = completed[0].user_data;
        if wakers.contains_key(other) {
            law_drain_takes_up_to_own(
                completed.skip(1),
                wakers.remove(other),
                results.insert(other, completed[0].res),
                tag,
                woken.push(wakers[other]),
            );
        } else {
            law_drain_takes_up_to_own(completed.skip(1), wakers, results, tag, woken);
        }
        let n = taken(completed, pass);
        assert(completed.skip(1).skip(n - 1) == completed.skip(n));
        assert forall|i: int| 1 <= i < completed.len() implies completed[i] == completed.skip(1)[i
            - 1] by {}
    }
}

/// Whether the oldest of `completed` that carries `tag` has the result `res`.
pub open spec fn posted(completed: Seq<io_uring_cqe>, tag: u64, res: i32) -> bool
    decreases completed.len(),
{
    completed.len() > 0 && if completed[0].user_data == tag {
        completed[0].res == res
    } else {
        posted(completed.skip(1), tag, res)
    }
}

/// Whether the result `res` is there for the operation tagged `tag`: either
/// it is put by under the tag, or a party waits under the tag and the oldest
/// completion in the ring that carries the tag has that result.
pub open spec fn owed<W>(
    completed: Seq<io_uring_cqe>,
    wakers: Map<u64, W>,
    results: Map<u64, i32>,
    tag: u64,
    res: i32,
) -> bool {
    if results.contains_key(tag) {
        results[tag] == res
    } else {
        wakers.contains_key(tag) && posted(completed, tag, res)
    }
}

/// Whether no result is put by for a party that still waits.
pub open spec fn apart<W>(wakers: Map<u64, W>, results: Map<u64, i32>) -> bool {
    forall|tag: u64| #[trigger] wakers.contains_key(tag) ==> !results.contains_key(tag)
}

/// A drain pass finds the caller's completion where one is in the ring.
pub proof fn law_drain_finds_own<W>(
    completed: Seq<io_uring_cqe>,
    wakers: Map<u64, W>,
    results: Map<u64, i32>,
    tag: u64,
    woken: Seq<W>,
    res: i32,
)
    requires
        posted(completed, tag, res),
    ensures
        drain_from(completed, wakers, results, tag, woken).result == Some(res),
    decreases completed.len(),
{
    if completed[0].user_data != tag {
        let other = completed[0].user_data;
        if wakers.contains_key(other) {
            law_drain_finds_own(
                completed.skip(1),
                wakers.remove(other),
                results.insert(other, completed[0].res),
                tag,
                woken.push(wakers[other]),
                res,
            );
        } else {
            law_drain_finds_own(completed.skip(1), wakers, results, tag, woken, res);
        }
    }
}

/// No completion that a drain pass takes is lost to the party that waits for
/// it: a result that is there for another operation before the pass is there
/// for it after the pass, be it still in the ring or put by.
pub proof fn law_drain_keeps_for_owner<W>(
    completed: Seq<io_uring_cqe>,
    wakers: Map<u64, W>,
    results: Map<u64, i32>,
    tag: u64,
    woken: Seq<W>,
    other: u64,
    res: i32,
)
    requires
        other != tag,
        apart(wakers, results),
        owed(completed, wakers, results, other, res),
    ensures
        ({
            let pass = drain_from(completed, wakers, results, tag, woken);
            owed(pass.completed, pass.wakers, pass.results, other, res) && apart(
                pass.wakers,
                pass.results,
            )
        }),
    decreases completed.len(),
{
    if completed.len() == 0 {
    } else if completed[0].user_data == tag {
        assert forall|t: u64| #[trigger] wakers.remove(tag).contains_key(t) implies !results.contains_key(
            t,
        ) by {
            assert(wakers.contains_key(t));
        }
    } else {
        let first = completed[0].user_data;
        if wakers.contains_key(first) {
            let fewer = wakers.remove(first);
            let more = results.insert(first, completed[0].res);
            assert forall|t: u64| #[trigger] fewer.contains_key(t) implies !more.contains_key(t) by {
                assert(wakers.contains_key(t));
            }
            law_drain_keeps_for_owner(
                completed.skip(1),
                fewer,
                more,
                tag,
                woken.push(wakers[first]),
                other,
                res,
            );
        } else {
            law_drain_keeps_for_owner(completed.skip(1), wakers, results, tag, woken, other, res);
        }
    }
}

/// An operation whose completion was posted resolves at its next activation,
/// with the result of that completion.
pub proof fn law_posted_completion_resolves<W>(mux: MuxState<W>, tag: u64, res: i32)
    requires
        owed(mux.ring.completed, mux.wakers, mux.results, tag, res),
    ensures
        mux.resolution(tag) == Some(res),
{
    if !mux.results.contains_key(tag) {
        law_drain_finds_own(mux.ring.completed, mux.wakers, mux.results, tag, Seq::empty(), res);
    }
}

/// The activation of one operation takes nothing from another: a result that
/// is there for the operation tagged `other` is still there for it after the
/// operation tagged `tag` was activated. With
/// [`law_posted_completion_resolves`]: operations whose completions were all
/// posted resolve each at its next activation, in whatever order the
/// completions came and the operations are activated.
pub proof fn law_activation_keeps_for_others<W>(mux: MuxState<W>, tag: u64, other: u64, res: i32)
    requires
        mux.well_formed(),
        other != tag,
        owed(mux.ring.completed, mux.wakers, mux.results, other, res),
    ensures
        owed(
            mux.activated(tag).ring.completed,
            mux.activated(tag).wakers,
            mux.activated(tag).results,
            other,
            res,
        ),
{
    if !mux.results.contains_key(tag) {
        law_drain_keeps_for_owner(
            mux.ring.completed,
            mux.wakers,
            mux.results,
            tag,
            Seq::empty(),
            other,
            res,
        );
    }
}

/// What is done under one tag takes nothing from another: a result that is
/// there for the operation tagged `other` is still there after a party was
/// registered under `tag`, and after all that was held under `tag` was let
/// go.
pub proof fn law_tables_keep_for_others<W>(
    mux: MuxState<W>,
    tag: u64,
    waker: W,
    other: u64,
    res: i32,
)
    requires
        other != tag,
        owed(mux.ring.completed, mux.wakers, mux.results, other, res),
    ensures
        owed(
            mux.ring.completed,
            mux.registered(tag, waker).wakers,
            mux.registered(tag, waker).results,
            other,
            res,
        ),
        owed(
            mux.ring.completed,
            mux.forgetting(tag).wakers,
            mux.forgetting(tag).results,
            other,
            res,
        ),
{
}

/// An operation that stays pending keeps its record: where a party waits
/// under `tag` and an activation finds no result for it, the party still
/// waits under the tag afterwards, with the waker it had.
pub proof fn law_pending_keeps_the_record<W>(mux: MuxState<W>, tag: u64)
    requires
        mux.wakers.contains_key(tag),
        mux.resolution(tag) is None,
    ensures
        mux.activated(tag).wakers.contains_key(tag),
        mux.activated(tag).wakers[tag] == mux.wakers[tag],
{
    law_drain_takes_up_to_own(mux.ring.completed, mux.wakers, mux.results, tag, Seq::empty());
}

/// A completion that the far side posts is there for the party that waits
/// under its tag, unless an older one for that tag is there already; and it
/// takes nothing from the others.
pub proof fn law_completion_is_owed<W>(
    mux: MuxState<W>,
    cqe: io_uring_cqe,
    tag: u64,
    res: i32,
)
    requires
        owed(mux.ring.completed, mux.wakers, mux.results, tag, res) || (cqe.user_data == tag
            && cqe.res == res && mux.wakers.contains_key(tag) && !mux.results.contains_key(tag)
            && forall|i: int|
            0 <= i < mux.ring.completed.len() ==> (#[trigger] mux.ring.completed[i]).user_data
                != tag),
    ensures
        owed(mux.ring.completed.push(cqe), mux.wakers, mux.results, tag, res),
{
    if !mux.results.contains_key(tag) {
        lemma_posted_after_push(mux.ring.completed, cqe, tag, res);
    }
}

proof fn lemma_posted_after_push(completed: Seq<io_uring_cqe>, cqe: io_uring_cqe, tag: u64, res: i32)
    requires
        posted(completed, tag, res) || (cqe.user_data == tag && cqe.res == res && forall|i: int|
            0 <= i < completed.len() ==> (#[trigger] completed[i]).user_data != tag),
    ensures
        posted(completed.push(cqe), tag, res),
    decreases completed.len(),
{
    let more = completed.push(cqe);
    if completed.len() == 0 {
        assert(more[0] == cqe);
    } else {
        assert(more[0] == completed[0]);
        assert(more.skip(1) == completed.skip(1).push(cqe));
        if completed[0].user_data != tag {
            assert forall|i: int| 0 <= i < completed.skip(1).len() implies (#[trigger] completed.skip(
                1,
            )[i]) == completed[i + 1] by {}
            lemma_posted_after_push(completed.skip(1), cqe, tag, res);
        }
    }
}

/// How many of `completed` carry `tag`.
pub open spec fn carrying(completed: Seq<io_uring_cqe>, tag: u64) -> nat
    decreases completed.len(),
{
    if completed.len() == 0 {
        0
    } else {
        carrying(completed.skip(1), tag) + if completed[0].user_data == tag {
            1nat
        } else {
            0nat
        }
    }
}

/// How many results are in store for the operation tagged `tag`: the
/// completions in the ring that carry the tag, and the result that is put by
/// under it.
pub open spec fn in_store(completed: Seq<io_uring_cqe>, results: Map<u64, i32>, tag: u64) -> nat {
    carrying(completed, tag) + if results.contains_key(tag) {
        1nat
    } else {
        0nat
    }
}

/// A drain pass makes no result: for no tag is more in store after it than
/// before, and what it returns to its caller it has taken from the store of
/// the caller's tag, one completion for one result. A result that it
/// returns is that of the oldest completion with the caller's tag.
pub proof fn law_drain_spends_what_it_returns<W>(
    completed: Seq<io_uring_cqe>,
    wakers: Map<u64, W>,
    results: Map<u64, i32>,
    tag: u64,
    woken: Seq<W>,
    other: u64,
)
    requires
        apart(wakers, results),
    ensures
        ({
            let pass = drain_from(completed, wakers, results, tag, woken);
            let returned = if pass.result is Some {
                1nat
            } else {
                0nat
            };
            &&& in_store(pass.completed, pass.results, tag) + returned == in_store(
                completed,
                results,
                tag,
            )
            &&& in_store(pass.completed, pass.results, other) <= in_store(completed, results, other)
            &&& apart(pass.wakers, pass.results)
            &&& pass.results.contains_key(tag) == results.contains_key(tag)
            &&& pass.result matches Some(res) ==> posted(completed, tag, res)
                && !pass.wakers.contains_key(tag)
        }),
    decreases completed.len(),
{
    if completed.len() == 0 {
    } else if completed[0].user_data == tag {
        assert forall|t: u64| #[trigger] wakers.remove(tag).contains_key(t) implies !results.contains_key(
            t,
        ) by {
            assert(wakers.contains_key(t));
        }
    } else {
        let first = completed[0].user_data;
        if wakers.contains_key(first) {
            let fewer = wakers.remove(first);
            let more = results.insert(first, completed[0].res);
            assert forall|t: u64| #[trigger] fewer.contains_key(t) implies !more.contains_key(t) by {
                assert(wakers.contains_key(t));
            }
            law_drain_spends_what_it_returns(
                completed.skip(1),
                fewer,
                more,
                tag,
                woken.push(wakers[first]),
                other,
            );
        } else {
            law_drain_spends_what_it_returns(completed.skip(1), wakers, results, tag, woken, other);
        }
    }
}

/// One completion resolves one operation, and only the one whose tag it
/// carries. An activation that resolves its operation takes one result
/// from the store of the operation's tag, gives that one, and leaves no
/// record and no result under the tag; an activation that stays pending
/// takes none. For no other tag is more in store afterwards than before.
/// The far side's completions are all that fills the store
/// ([`law_completion_adds_one`]), so that over any run an operation is
/// resolved no more often than completions with its tag were posted, and
/// never with the result of another's.
pub proof fn law_activation_spends_one_completion<W>(mux: MuxState<W>, tag: u64, other: u64)
    requires
        mux.well_formed(),
    ensures
        ({
            let after = mux.activated(tag);
            let returned = if mux.resolution(tag) is Some {
                1nat
            } else {
                0nat
            };
            &&& in_store(after.ring.completed, after.results, tag) + returned == in_store(
                mux.ring.completed,
                mux.results,
                tag,
            )
            &&& in_store(after.ring.completed, after.results, other) <= in_store(
                mux.ring.completed,
                mux.results,
                other,
            )
            &&& mux.resolution(tag) matches Some(res) ==> {
                &&& !after.wakers.contains_key(tag)
                &&& !after.results.contains_key(tag)
                &&& if mux.results.contains_key(tag) {
                    mux.results[tag] == res
                } else {
                    posted(mux.ring.completed, tag, res)
                }
            }
        }),
{
    if !mux.results.contains_key(tag) {
        law_drain_spends_what_it_returns(
            mux.ring.completed,
            mux.wakers,
            mux.results,
            tag,
            Seq::empty(),
            other,
        );
    }
}

/// A completion that the far side posts adds one to the store of its tag and
/// nothing to any other.
pub proof fn law_completion_adds_one(
    completed: Seq<io_uring_cqe>,
    results: Map<u64, i32>,
    cqe: io_uring_cqe,
    tag: u64,
)
    ensures
        in_store(completed.push(cqe), results, tag) == in_store(completed, results, tag)
            + if cqe.user_data == tag {
            1nat
        } else {
            0nat
        },
    decreases completed.len(),
{
    let more = completed.push(cqe);
    if completed.len() == 0 {
        assert(more.skip(1) == Seq::<io_uring_cqe>::empty());
        assert(carrying(more.skip(1), tag) == 0);
    } else {
        assert(more[0] == completed[0]);
        assert(more.skip(1) == completed.skip(1).push(cqe));
        law_completion_adds_one(completed.skip(1), results, cqe, tag);
    }
}

} // verus!
