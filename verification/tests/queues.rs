//! The two queue views and the far side of the ring.

use liburing_rs::error::{check_ret, check_setup, from_ret_code, Error, OsError};
use liburing_rs::ops::{Close, Fsync, Nop, PrepareOp, Read, SqeExt, Write};
use liburing_rs::poll::Poll;
use liburing_rs::queue::Cqe;
use liburing_rs::sys::Posting;
use liburing_rs::ring::Ring;
use liburing_rs::sizing::round_up;
use liburing_rs::sys::{io_uring_cqe, io_uring_sqe};
use liburing_rs::IoUring;

fn claim<Op: PrepareOp>(ring: &mut IoUring, op: Op, tag: u64) {
    let mut sq = ring.submission();
    let sqe = sq.get_sqe_or_err().unwrap();
    op.prepare(sqe);
    sqe.set_user_data(tag);
}

/// A far side that takes every claimed slot.
fn flush(ring: &mut IoUring) -> usize {
    let claimed = ring.unflushed().len() as i32;
    ring.submit(claimed).unwrap()
}

/// A far side that takes every claimed slot and completes every operation it
/// holds, oldest first, with the result 0.
fn run(ring: &mut IoUring) -> usize {
    let taken = flush(ring);
    while ring.complete(0, 0, 0) {}
    taken
}

#[test]
fn the_claim_after_the_last_slot_is_refused() {
    for &entries in &[1u32, 2, 4, 8, 64] {
        let mut ring = IoUring::new(entries).unwrap();
        let mut sq = ring.submission();
        for i in 0..entries {
            assert_eq!(sq.space_left(), entries - i);
            assert_eq!(sq.ready(), i);
            assert!(!sq.is_full());
            assert!(sq.get_sqe().is_some());
        }
        assert_eq!(sq.space_left(), 0);
        assert!(sq.is_full());
        assert!(sq.get_sqe().is_none());
        assert_eq!(sq.get_sqe_or_err().err(), Some(Error::SubmissionQueueFull));
        // Refusing changes nothing.
        assert_eq!(sq.space_left(), 0);
    }
}

#[test]
fn eight_slots_fill_up_and_a_flush_frees_them() {
    let mut ring = IoUring::new(8).unwrap();
    for tag in 0..8 {
        claim(&mut ring, Nop, tag);
    }
    assert_eq!(ring.submission().get_sqe_or_err().err(), Some(Error::SubmissionQueueFull));
    assert_eq!(ring.submit(8), Ok(8));
    assert_eq!(ring.submission().space_left(), 8);
    assert!(ring.submission().get_sqe().is_some());
}

#[test]
fn a_claimed_slot_is_zeroed() {
    let mut ring = IoUring::new(2).unwrap();
    claim(&mut ring, Read::new(5, 0xdead, 77, 9), 1234);
    flush(&mut ring);
    claim(&mut ring, Nop, 1);
    claim(&mut ring, Nop, 2);
    flush(&mut ring);
    // The slot that held the read comes round again.
    let mut sq = ring.submission();
    let sqe = sq.get_sqe().unwrap();
    assert_eq!(*sqe, io_uring_sqe::zeroed());
}

#[test]
fn a_flush_returns_what_the_far_side_answers() {
    let mut ring = IoUring::new(8).unwrap();
    assert_eq!(ring.submit(0), Ok(0));
    claim(&mut ring, Nop, 1);
    claim(&mut ring, Nop, 2);
    claim(&mut ring, Nop, 3);
    assert_eq!(ring.unflushed().len(), 3);
    assert_eq!(ring.submission().submit(3), Ok(3));
    assert_eq!(ring.unflushed().len(), 0);
    assert_eq!(ring.in_flight().len(), 3);
    assert_eq!(ring.submit(0), Ok(0));
}

#[test]
fn a_flush_may_take_fewer_slots_than_are_claimed() {
    let mut ring = IoUring::new(4).unwrap();
    for tag in 1..=4 {
        claim(&mut ring, Nop, tag);
    }
    // The far side takes the two oldest; the others stay claimed.
    assert_eq!(ring.submit(2), Ok(2));
    let in_flight: Vec<u64> = ring.in_flight().iter().map(|op| op.user_data).collect();
    let claimed: Vec<u64> = ring.unflushed().iter().map(|op| op.user_data).collect();
    assert_eq!(in_flight, vec![1, 2]);
    assert_eq!(claimed, vec![3, 4]);
    assert_eq!(ring.submission().space_left(), 2);
    // An answer beyond what is claimed takes what is there.
    assert_eq!(ring.submit(10), Ok(10));
    let in_flight: Vec<u64> = ring.in_flight().iter().map(|op| op.user_data).collect();
    assert_eq!(in_flight, vec![1, 2, 3, 4]);
    assert_eq!(ring.submission().space_left(), 4);
}

#[test]
fn a_failing_flush_takes_nothing() {
    let mut ring = IoUring::new(4).unwrap();
    claim(&mut ring, Nop, 1);
    claim(&mut ring, Nop, 2);
    assert_eq!(ring.submit(-16), Err(Error::Io(OsError { code: 16 })));
    assert_eq!(ring.submission().submit(-4), Err(Error::Io(OsError { code: 4 })));
    assert_eq!(ring.unflushed().len(), 2);
    assert!(ring.in_flight().is_empty());
    assert_eq!(ring.submission().space_left(), 2);
}

#[test]
fn enough_completions_are_there_or_not() {
    let mut ring = IoUring::new(8).unwrap();
    assert!(ring.completion().has_ready(0));
    assert!(!ring.completion().has_ready(1));
    claim(&mut ring, Write::new(4, 0, 1, 0), 1);
    claim(&mut ring, Fsync::new(4), 2);
    flush(&mut ring);
    // Flushed, and nothing has completed yet.
    assert!(!ring.completion().has_ready(2));
    assert!(ring.complete(0, 1, 0));
    assert!(ring.completion().has_ready(1));
    assert!(!ring.completion().has_ready(2));
    assert!(ring.complete(0, 0, 0));
    assert!(ring.completion().has_ready(2));
    assert!(!ring.completion().has_ready(3));
}

#[test]
fn a_wait_for_several_is_over_when_they_are_there() {
    let mut ring = IoUring::new(8).unwrap();
    claim(&mut ring, Nop, 1);
    claim(&mut ring, Nop, 2);
    flush(&mut ring);
    assert_eq!(ring.completion().waited(0, 0), Poll::Ready(Ok(())));
    assert_eq!(ring.completion().waited(2, 0), Poll::Pending);
    assert!(ring.complete(0, 0, 0));
    assert_eq!(ring.completion().waited(1, 0), Poll::Ready(Ok(())));
    assert_eq!(ring.completion().waited(2, 3), Poll::Pending);
    assert!(ring.complete(0, 0, 0));
    assert_eq!(ring.completion().waited(2, 0), Poll::Ready(Ok(())));
    assert_eq!(ring.completion().waited(3, 0), Poll::Pending);
    // A failed wait is the system's error, whatever is there.
    assert_eq!(ring.completion().waited(1, -4), Poll::Ready(Err(Error::Io(OsError { code: 4 }))));
    assert_eq!(ring.completion().waited(9, -4), Poll::Ready(Err(Error::Io(OsError { code: 4 }))));
    // Asking takes nothing.
    assert_eq!(ring.completion().ready(), 2);
}

#[test]
fn the_far_side_completes_by_tag() {
    let mut ring = IoUring::new(2).unwrap();
    claim(&mut ring, Nop, 7);
    claim(&mut ring, Nop, 8);
    flush(&mut ring);
    claim(&mut ring, Nop, 7);
    flush(&mut ring);
    // Nobody is in flight under this tag.
    assert_eq!(ring.complete_tagged(9, 0, 0), Posting::NotInFlight);
    assert_eq!(ring.in_flight().len(), 3);
    // The oldest under the tag is completed, the other stays.
    assert_eq!(ring.complete_tagged(7, 1, 0), Posting::Posted);
    let left: Vec<u64> = ring.in_flight().iter().map(|op| op.user_data).collect();
    assert_eq!(left, vec![8, 7]);
    assert_eq!(ring.complete_tagged(7, 2, 5), Posting::Posted);
    assert_eq!(ring.complete_tagged(7, 3, 0), Posting::NotInFlight);
    assert_eq!(ring.complete_tagged(8, 4, 0), Posting::Posted);
    let got: Vec<(u64, i32, u32)> =
        ring.completion().peek_batch(8).iter().map(|c| (c.user_data(), c.result(), c.flags())).collect();
    assert_eq!(got, vec![(7, 1, 0), (7, 2, 5), (8, 4, 0)]);

    // With the completion side full the report is to be made again.
    for tag in 0..5 {
        claim(&mut ring, Nop, tag);
        flush(&mut ring);
    }
    for tag in 0..4 {
        assert_eq!(ring.complete_tagged(tag, 0, 0), Posting::Posted);
    }
    assert_eq!(ring.complete_tagged(4, 0, 0), Posting::NoRoom);
    assert_eq!(ring.complete_tagged(9, 0, 0), Posting::NotInFlight);
    assert_eq!(ring.in_flight().len(), 1);
    assert!(ring.completion().peek_cqe().is_some());
    assert_eq!(ring.complete_tagged(4, 0, 0), Posting::Posted);
}

#[test]
fn a_wait_gives_the_oldest_completion_or_the_systems_error() {
    let mut ring = IoUring::new(8).unwrap();
    claim(&mut ring, Nop, 5);
    claim(&mut ring, Nop, 6);
    run(&mut ring);
    let mut cq = ring.completion();
    // The wait failed: its error, and the ring is as it was.
    assert_eq!(cq.wait_cqe(-4), Poll::Ready(Err(Error::Io(OsError { code: 4 }))));
    assert_eq!(cq.ready(), 2);
    // The wait ended well: the oldest completion, retired.
    let first = Cqe { cqe: io_uring_cqe { user_data: 5, res: 0, flags: 0 } };
    let second = Cqe { cqe: io_uring_cqe { user_data: 6, res: 0, flags: 0 } };
    assert_eq!(cq.wait_cqe(0), Poll::Ready(Ok(first)));
    assert_eq!(cq.ready(), 1);
    assert_eq!(cq.wait_cqe(7), Poll::Ready(Ok(second)));
    assert_eq!(cq.ready(), 0);
    // Nothing is there: the wait is to be made again.
    assert_eq!(cq.wait_cqe(0), Poll::Pending);
}

#[test]
fn an_empty_completion_queue_gives_nothing() {
    let mut ring = IoUring::new(8).unwrap();
    let mut cq = ring.completion();
    assert_eq!(cq.peek_cqe(), None);
    assert!(cq.peek_batch(4).is_empty());
    // A wait has two outcomes, a completion or the system's error; with
    // nothing there yet it is to be made again.
    assert_eq!(cq.wait_cqe(0), Poll::Pending);
    assert_eq!(cq.wait_cqe(-11), Poll::Ready(Err(Error::Io(OsError { code: 11 }))));
    assert_eq!(cq.ready(), 0);
}

#[test]
fn completions_come_out_oldest_first_and_once() {
    let mut ring = IoUring::new(8).unwrap();
    for tag in 10..15 {
        claim(&mut ring, Nop, tag);
    }
    run(&mut ring);
    let mut cq = ring.completion();
    for tag in 10..15 {
        let cqe = io_uring_cqe { user_data: tag, res: 0, flags: 0 };
        assert_eq!(cq.wait_cqe(0), Poll::Ready(Ok(Cqe { cqe })));
    }
    assert_eq!(cq.peek_cqe(), None);
}

#[test]
fn a_batch_takes_at_most_what_is_there() {
    let mut ring = IoUring::new(8).unwrap();
    for tag in 0..5 {
        claim(&mut ring, Nop, tag);
    }
    run(&mut ring);
    let mut cq = ring.completion();
    assert_eq!(cq.ready(), 5);
    assert!(cq.peek_batch(0).is_empty());
    assert_eq!(cq.ready(), 5);
    let first: Vec<u64> = cq.peek_batch(2).iter().map(|c| c.user_data()).collect();
    assert_eq!(first, vec![0, 1]);
    let rest: Vec<u64> = cq.peek_batch(10).iter().map(|c| c.user_data()).collect();
    assert_eq!(rest, vec![2, 3, 4]);
    assert_eq!(cq.ready(), 0);
    assert!(cq.peek_batch(10).is_empty());
}

#[test]
fn occupancy_returns_after_submit_and_drain_cycles() {
    let mut ring = IoUring::new(4).unwrap();
    // One completion is left waiting throughout, and one operation in flight.
    claim(&mut ring, Nop, 999);
    run(&mut ring);
    claim(&mut ring, Read::new(3, 0, 1, 0), 998);
    flush(&mut ring);
    for round in 0..100u64 {
        claim(&mut ring, Nop, round);
        assert_eq!(ring.submit(1), Ok(1));
        assert!(ring.complete(1, 0, 0));
        let mut cq = ring.completion();
        // In some rounds the handle is let go on an error path.
        let taken: Result<u64, Error> = match cq.wait_cqe(0) {
            Poll::Ready(Ok(_)) if round % 3 == 0 => Err(Error::CompletionQueueEmpty),
            Poll::Ready(Ok(cqe)) => Ok(cqe.user_data()),
            Poll::Ready(Err(e)) => Err(e),
            Poll::Pending => panic!("no completion in round {}", round),
        };
        assert_eq!(taken.is_err(), round % 3 == 0);
        assert_eq!(cq.ready(), 1);
        assert_eq!(ring.submission().space_left(), 4);
        assert_eq!(ring.in_flight().len(), 1);
    }
}

#[test]
fn an_operation_waits_for_the_far_side() {
    let mut ring = IoUring::new(8).unwrap();
    claim(&mut ring, Write::new(4, 0x2000, 512, 4096), 7);
    assert!(ring.in_flight().is_empty());
    assert_eq!(ring.unflushed().len(), 1);
    flush(&mut ring);
    assert_eq!(ring.completion().peek_cqe(), None);

    let op = ring.in_flight()[0];
    assert_eq!(op.opcode, 23);
    assert_eq!((op.fd, op.addr, op.len, op.off, op.user_data), (4, 0x2000, 512, 4096, 7));

    assert!(ring.complete(0, 512, 0));
    assert!(ring.in_flight().is_empty());
    let cqe = Cqe { cqe: io_uring_cqe { user_data: 7, res: 512, flags: 0 } };
    assert_eq!(ring.completion().wait_cqe(0), Poll::Ready(Ok(cqe)));
}

#[test]
fn the_far_side_completes_in_any_order() {
    let mut ring = IoUring::new(8).unwrap();
    claim(&mut ring, Close::new(3), 1);
    claim(&mut ring, Close::new(4), 2);
    claim(&mut ring, Nop, 3);
    flush(&mut ring);
    assert!(!ring.complete(3, 0, 0));
    assert!(ring.complete(1, 0, 0));
    let left: Vec<u64> = ring.in_flight().iter().map(|op| op.user_data).collect();
    assert_eq!(left, vec![1, 3]);
    assert!(ring.complete(1, -9, 2));
    assert!(ring.complete(0, 0, 0));
    assert!(!ring.complete(0, 0, 0));
    let got = ring.completion().peek_batch(8);
    let got: Vec<(u64, i32, u32)> = got.iter().map(|c| (c.user_data(), c.result(), c.flags())).collect();
    assert_eq!(got, vec![(2, 0, 0), (3, -9, 2), (1, 0, 0)]);
}

#[test]
fn a_full_completion_queue_holds_completions_back() {
    // Two submission slots, four completion slots.
    let mut ring = IoUring::new(2).unwrap();
    for round in 0..2 {
        claim(&mut ring, Nop, round * 2);
        claim(&mut ring, Nop, round * 2 + 1);
        run(&mut ring);
    }
    assert!(ring.in_flight().is_empty());
    // The completion side is full: the far side cannot post
    claim(&mut ring, Nop, 4);
    flush(&mut ring);
    assert!(!ring.complete(0, 0, 0));
    assert_eq!(ring.in_flight().len(), 1);
    // until a completion is retired.
    assert_eq!(ring.completion().peek_cqe().unwrap().user_data(), 0);
    assert!(ring.complete(0, 0, 0));
    let tags: Vec<u64> = ring.completion().peek_batch(8).iter().map(|c| c.user_data()).collect();
    assert_eq!(tags, vec![1, 2, 3, 4]);
}

#[test]
fn a_result_is_an_error_where_negative() {
    let ok = Cqe { cqe: io_uring_cqe { user_data: 1, res: 17, flags: 0 } };
    assert!(ok.is_success());
    assert_eq!(ok.into_result(), Ok(17));
    let zero = Cqe { cqe: io_uring_cqe { user_data: 1, res: 0, flags: 0 } };
    assert!(zero.is_success());
    assert_eq!(zero.into_result(), Ok(0));
    let bad = Cqe { cqe: io_uring_cqe { user_data: 1, res: -2, flags: 0 } };
    assert!(!bad.is_success());
    assert_eq!(bad.into_result(), Err(OsError { code: 2 }));
    let worst = Cqe { cqe: io_uring_cqe { user_data: 1, res: i32::MIN, flags: 0 } };
    assert_eq!(worst.into_result(), Err(OsError { code: i32::MIN }));
}

#[test]
fn return_codes_split_into_success_and_failure() {
    assert_eq!(check_ret(-22), Err(OsError { code: 22 }));
    assert_eq!(check_ret(-1), Err(OsError { code: 1 }));
    assert_eq!(check_ret(0), Ok(0));
    assert_eq!(check_ret(7), Ok(7));
    assert_eq!(check_ret(i32::MAX), Ok(i32::MAX));
    assert_eq!(check_ret(i32::MIN), Err(OsError { code: i32::MIN }));
    assert_eq!(from_ret_code(-2).raw_os_error(), 2);
    assert_eq!(check_setup(-22), Err(Error::Setup(OsError { code: 22 })));
    assert_eq!(check_setup(0), Ok(0));
    assert_eq!(check_setup(3), Ok(3));
    assert_eq!(from_ret_code(-2), OsError::from_raw_os_error(2));
}

#[test]
fn a_buffer_wraps_around_its_slots() {
    let mut ring: Ring<u32> = Ring::new(4, 0).unwrap();
    assert_eq!((ring.entries(), ring.len(), ring.head(), ring.tail()), (4, 0, 0, 0));
    assert_eq!(ring.front(), None);
    assert_eq!(ring.pop(), None);
    for round in 0..10u32 {
        for i in 0..3 {
            assert!(ring.push(round * 10 + i));
        }
        assert_eq!(ring.len(), 3);
        assert_eq!(ring.tail().wrapping_sub(ring.head()), 3);
        for i in 0..3 {
            assert_eq!(ring.front(), Some(round * 10 + i));
            assert_eq!(ring.pop(), Some(round * 10 + i));
        }
        assert_eq!(ring.pop(), None);
    }
    for i in 0..4 {
        assert!(ring.push(i));
    }
    assert!(!ring.push(4));
    assert!(ring.acquire().is_none());
    assert_eq!(ring.pop(), Some(0));
    *ring.acquire().unwrap() = 9;
    assert_eq!((ring.pop(), ring.pop(), ring.pop(), ring.pop(), ring.pop()), (Some(1), Some(2), Some(3), Some(9), None));
}

#[test]
fn a_buffer_keeps_its_order_where_the_indices_wrap() {
    let mut ring: Ring<u32> = Ring::starting_at(4, 0, u32::MAX - 2).unwrap();
    assert_eq!((ring.head(), ring.tail(), ring.len()), (u32::MAX - 2, u32::MAX - 2, 0));
    for i in 0..4 {
        assert!(ring.push(100 + i));
    }
    // The tail has wrapped, the head has not.
    assert_eq!((ring.head(), ring.tail(), ring.len()), (u32::MAX - 2, 1, 4));
    assert!(!ring.push(0));
    assert_eq!(ring.pop(), Some(100));
    assert_eq!(ring.pop(), Some(101));
    assert!(ring.push(104));
    assert!(ring.push(105));
    assert_eq!((ring.head(), ring.tail(), ring.len()), (u32::MAX, 3, 4));
    for i in 2..6 {
        assert_eq!(ring.front(), Some(100 + i));
        assert_eq!(ring.pop(), Some(100 + i));
    }
    assert_eq!((ring.head(), ring.tail(), ring.len()), (3, 3, 0));
    assert_eq!(ring.pop(), None);
}

#[test]
fn a_buffer_has_a_power_of_two_of_slots() {
    for entries in [0u32, 3, 5, 6, 7, 12, 100, u32::MAX] {
        assert!(Ring::<u8>::new(entries, 0).is_none());
    }
    for entries in [1u32, 2, 4, 1024] {
        assert_eq!(Ring::<u8>::new(entries, 0).unwrap().entries(), entries);
    }
}

#[test]
fn rounding_up_gives_the_next_power_of_two() {
    let expected = [(1u32, 1u32), (2, 2), (3, 4), (4, 4), (5, 8), (17, 32), (1023, 1024), (1025, 2048)];
    for (n, r) in expected {
        assert_eq!(round_up(n), Some(r));
    }
    assert_eq!(round_up(0), Some(1));
    assert_eq!(round_up(0x8000_0000), Some(0x8000_0000));
    assert_eq!(round_up(0x4000_0001), Some(0x8000_0000));
    assert_eq!(round_up(0x8000_0001), None);
    assert_eq!(round_up(u32::MAX), None);
}
