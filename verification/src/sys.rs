//! The ring itself: its records, laid out as the system interface has them,
//! and the state that both of its sides share.
//!
//! The near side claims slots, fills them and flushes them; it reads
//! completions and retires them. The far side takes what was flushed and, in
//! time, posts one completion for each operation it took. Here the ring lives
//! in memory, and the far side's part is written out as functions of its own:
//! how many slots a flush takes and what completes, and with which result,
//! is for the far side to say.

#![allow(non_camel_case_types)]

use vstd::prelude::*;
use crate::flags::{SETUP_CLAMP, SETUP_CQSIZE, SETUP_SUPPORTED};
use crate::ring::{is_ring_size, Ring};
use crate::sizing::{
    lemma_double_power_of_two, lemma_power_of_two_is_ring_size, lemma_rounded_up, round_up,
    rounded_up, MAX_CQ_ENTRIES, MAX_ENTRIES,
};

verus! {

/// Operation code: do nothing.
pub const IORING_OP_NOP: u8 = 0;

/// Operation code: flush a file to its device.
pub const IORING_OP_FSYNC: u8 = 3;

/// Operation code: accept a connection.
pub const IORING_OP_ACCEPT: u8 = 13;

/// Operation code: connect a socket.
pub const IORING_OP_CONNECT: u8 = 16;

/// Operation code: close a file.
pub const IORING_OP_CLOSE: u8 = 19;

/// Operation code: read into one buffer.
pub const IORING_OP_READ: u8 = 22;

/// Operation code: write from one buffer.
pub const IORING_OP_WRITE: u8 = 23;

/// Option of a flush to the device: the data only, not the metadata.
pub const IORING_FSYNC_DATASYNC: u32 = 1;

/// Error code: an argument is not valid.
pub const EINVAL: i32 = 22;

/// A submission slot: the description of one operation.
#[derive(Clone, Copy, Debug, PartialEq, Eq, Structural)]
pub struct io_uring_sqe {
    /// What to do.
    pub opcode: u8,
    /// Options of the slot.
    pub flags: u8,
    /// Priority of the request.
    pub ioprio: u16,
    /// The file or socket to work on.
    pub fd: i32,
    /// An offset into the file, or a second address.
    pub off: u64,
    /// The address of a buffer.
    pub addr: u64,
    /// The length of the buffer.
    pub len: u32,
    /// Options of the operation.
    pub op_flags: u32,
    /// The tag that the completion carries back.
    pub user_data: u64,
    /// The index of a registered buffer.
    pub buf_index: u16,
    /// The credentials to work under.
    pub personality: u16,
    /// The index of a registered file.
    pub file_index: u32,
    /// A third address.
    pub addr3: u64,
    /// Unused.
    pub pad: u64,
}

/// A completion record: the result of one operation.
#[derive(Clone, Copy, Debug, PartialEq, Eq, Structural)]
pub struct io_uring_cqe {
    /// The tag of the slot that described the operation.
    pub user_data: u64,
    /// The result: an error code where negative.
    pub res: i32,
    /// Options of the record.
    pub flags: u32,
}

/// The slot with every field zero.
pub open spec fn zeroed_sqe() -> io_uring_sqe {
    io_uring_sqe {
        opcode: 0,
        flags: 0,
        ioprio: 0,
        fd: 0,
        off: 0,
        addr: 0,
        len: 0,
        op_flags: 0,
        user_data: 0,
        buf_index: 0,
        personality: 0,
        file_index: 0,
        addr3: 0,
        pad: 0,
    }
}

/// The description of a read or write, or of an operation that is written
/// down as one: everything but the tag is set, the tag stays.
pub open spec fn described(
    before: io_uring_sqe,
    opcode: u8,
    fd: i32,
    addr: u64,
    len: u32,
    off: u64,
    op_flags: u32,
) -> io_uring_sqe {
    io_uring_sqe { opcode, fd, addr, len, off, op_flags, user_data: before.user_data, ..zeroed_sqe() }
}

impl io_uring_sqe {
    /// The slot with every field zero.
    pub fn zeroed() -> (sqe: io_uring_sqe)
        ensures
            sqe == zeroed_sqe(),
    {
        io_uring_sqe {
            opcode: 0,
            flags: 0,
            ioprio: 0,
            fd: 0,
            off: 0,
            addr: 0,
            len: 0,
            op_flags: 0,
            user_data: 0,
            buf_index: 0,
            personality: 0,
            file_index: 0,
            addr3: 0,
            pad: 0,
        }
    }
}

/// Writes a read-or-write description into a slot.
pub fn io_uring_prep_rw(op: u8, sqe: &mut io_uring_sqe, fd: i32, addr: u64, len: u32, offset: u64)
    ensures
        *final(sqe) == described(*old(sqe), op, fd, addr, len, offset, 0),
{
    sqe.opcode = op;
    sqe.flags = 0;
    sqe.ioprio = 0;
    sqe.fd = fd;
    sqe.off = offset;
    sqe.addr = addr;
    sqe.len = len;
    sqe.op_flags = 0;
    sqe.buf_index = 0;
    sqe.personality = 0;
    sqe.file_index = 0;
    sqe.addr3 = 0;
    sqe.pad = 0;
}

/// Describes the operation that does nothing.
pub fn io_uring_prep_nop(sqe: &mut io_uring_sqe)
    ensures
        *final(sqe) == described(*old(sqe), IORING_OP_NOP, -1i32, 0, 0, 0, 0),
{
    io_uring_prep_rw(IORING_OP_NOP, sqe, -1, 0, 0, 0);
}

/// Describes a read of `nbytes` bytes at `offset` of `fd` into the buffer at `buf`.
pub fn io_uring_prep_read(sqe: &mut io_uring_sqe, fd: i32, buf: u64, nbytes: u32, offset: u64)
    ensures
        *final(sqe) == described(*old(sqe), IORING_OP_READ, fd, buf, nbytes, offset, 0),
{
    io_uring_prep_rw(IORING_OP_READ, sqe, fd, buf, nbytes, offset);
}

/// Describes a write of `nbytes` bytes from the buffer at `buf` to `fd` at `offset`.
pub fn io_uring_prep_write(sqe: &mut io_uring_sqe, fd: i32, buf: u64, nbytes: u32, offset: u64)
    ensures
        *final(sqe) == described(*old(sqe), IORING_OP_WRITE, fd, buf, nbytes, offset, 0),
{
    io_uring_prep_rw(IORING_OP_WRITE, sqe, fd, buf, nbytes, offset);
}

/// Describes a flush of `fd` to its device.
pub fn io_uring_prep_fsync(sqe: &mut io_uring_sqe, fd: i32, fsync_flags: u32)
    ensures
        *final(sqe) == described(*old(sqe), IORING_OP_FSYNC, fd, 0, 0, 0, fsync_flags),
{
    io_uring_prep_rw(IORING_OP_FSYNC, sqe, fd, 0, 0, 0);
    sqe.op_flags = fsync_flags;
}

/// Describes the closing of `fd`.
pub fn io_uring_prep_close(sqe: &mut io_uring_sqe, fd: i32)
    ensures
        *final(sqe) == described(*old(sqe), IORING_OP_CLOSE, fd, 0, 0, 0, 0),
{
    io_uring_prep_rw(IORING_OP_CLOSE, sqe, fd, 0, 0, 0);
}

/// Describes the accepting of a connection on `fd`. The peer's address goes to
/// `addr`, its length to the word at `addrlen`.
pub fn io_uring_prep_accept(sqe: &mut io_uring_sqe, fd: i32, addr: u64, addrlen: u64, flags: u32)
    ensures
        *final(sqe) == described(*old(sqe), IORING_OP_ACCEPT, fd, addr, 0, addrlen, flags),
{
    io_uring_prep_rw(IORING_OP_ACCEPT, sqe, fd, addr, 0, addrlen);
    sqe.op_flags = flags;
}

/// Describes the connecting of `fd` to the address of `addrlen` bytes at `addr`.
pub fn io_uring_prep_connect(sqe: &mut io_uring_sqe, fd: i32, addr: u64, addrlen: u32)
    ensures
        *final(sqe) == described(*old(sqe), IORING_OP_CONNECT, fd, addr, 0, addrlen as u64, 0),
{
    io_uring_prep_rw(IORING_OP_CONNECT, sqe, fd, addr, 0, addrlen as u64);
}

/// Stamps a slot with its tag.
pub fn io_uring_sqe_set_data64(sqe: &mut io_uring_sqe, data: u64)
    ensures
        *final(sqe) == (io_uring_sqe { user_data: data, ..*old(sqe) }),
{
    sqe.user_data = data;
}

/// Sets the options of a slot. Only the low eight bits are kept.
pub fn io_uring_sqe_set_flags(sqe: &mut io_uring_sqe, flags: u32)
    ensures
        *final(sqe) == (io_uring_sqe { flags: (flags & 0xff) as u8, ..*old(sqe) }),
{
    assert(flags & 0xff < 0x100) by (bit_vector);
    sqe.flags = (flags & 0xff) as u8;
}

/// What a ring is asked to be, and what it became.
#[derive(Clone, Copy, Debug, PartialEq, Eq, Structural)]
pub struct io_uring_params {
    /// The number of submission slots; set when the ring is made.
    pub sq_entries: u32,
    /// The number of completion slots; asked for where the options say so,
    /// and set when the ring is made.
    pub cq_entries: u32,
    /// The setup options.
    pub flags: u32,
}

/// The state of a ring.
pub struct RingState {
    /// The number of submission slots.
    pub sq_entries: nat,
    /// The number of completion slots.
    pub cq_entries: nat,
    /// The slots that were claimed and not yet flushed, oldest first.
    pub unflushed: Seq<io_uring_sqe>,
    /// The operations that the far side took and has not completed, oldest first.
    pub in_flight: Seq<io_uring_sqe>,
    /// The completions that were posted and not yet retired, oldest first.
    pub completed: Seq<io_uring_cqe>,
    /// The setup options.
    pub flags: u32,
    /// The descriptor that tells of new completions, -1 where there is none.
    pub ring_fd: i32,
}

/// What becomes of a completion that the far side reports by its tag.
#[derive(Clone, Copy, Debug, PartialEq, Eq, Structural)]
pub enum Posting {
    /// The completion is posted.
    Posted,
    /// No completion slot is free: the report is to be made again later.
    NoRoom,
    /// No operation is in flight under the tag: the report is to be dropped.
    NotInFlight,
}

/// The place of the oldest of `ops` that carries `tag`, or the length of
/// `ops` where none does.
pub open spec fn oldest_with_tag(ops: Seq<io_uring_sqe>, tag: u64) -> int
    decreases ops.len(),
{
    if ops.len() == 0 {
        0
    } else if ops[0].user_data == tag {
        0
    } else {
        1 + oldest_with_tag(ops.skip(1), tag)
    }
}

/// The completion of the operation that `sqe` describes.
pub open spec fn completion_of(sqe: io_uring_sqe, res: i32, flags: u32) -> io_uring_cqe {
    io_uring_cqe { user_data: sqe.user_data, res, flags }
}

impl RingState {
    /// A ring on which nothing has happened yet.
    pub open spec fn fresh(sq_entries: nat, cq_entries: nat, flags: u32) -> RingState {
        RingState {
            sq_entries,
            cq_entries,
            unflushed: Seq::empty(),
            in_flight: Seq::empty(),
            completed: Seq::empty(),
            flags,
            ring_fd: -1i32,
        }
    }

    /// Whether the ring keeps within its sizes. Every ring does.
    pub open spec fn well_formed(self) -> bool {
        &&& is_ring_size(self.sq_entries as int)
        &&& is_ring_size(self.cq_entries as int)
        &&& self.unflushed.len() <= self.sq_entries
        &&& self.completed.len() <= self.cq_entries
    }

    /// Whether nothing is claimed, in flight or waiting to be retired.
    pub open spec fn idle(self) -> bool {
        self.unflushed.len() == 0 && self.in_flight.len() == 0 && self.completed.len() == 0
    }

    /// How many slots can still be claimed.
    pub open spec fn space_left(self) -> int {
        self.sq_entries - self.unflushed.len()
    }

    /// The ring after a slot was claimed and filled with `sqe`.
    pub open spec fn acquired(self, sqe: io_uring_sqe) -> RingState {
        RingState { unflushed: self.unflushed.push(sqe), ..self }
    }

    /// How many slots a flush takes where the far side says `count`: that
    /// many, but none for a negative count and no more than are claimed.
    pub open spec fn taken(self, count: int) -> int {
        if count <= 0 {
            0
        } else if count >= self.unflushed.len() {
            self.unflushed.len() as int
        } else {
            count
        }
    }

    /// The ring after a flush of which the far side took `count` slots: the
    /// oldest claimed slots have become operations in flight, in their order.
    pub open spec fn flushed(self, count: int) -> RingState {
        RingState {
            unflushed: self.unflushed.skip(self.taken(count)),
            in_flight: self.in_flight + self.unflushed.take(self.taken(count)),
            ..self
        }
    }

    /// Whether the operation at `index` of those in flight can be completed now.
    pub open spec fn can_complete(self, index: int) -> bool {
        0 <= index < self.in_flight.len() && self.completed.len() < self.cq_entries
    }

    /// The ring after the far side completed the operation at `index` of those in flight.
    pub open spec fn completing(self, index: int, res: i32, flags: u32) -> RingState {
        RingState {
            in_flight: self.in_flight.remove(index),
            completed: self.completed.push(completion_of(self.in_flight[index], res, flags)),
            ..self
        }
    }

    /// What becomes of a completion that the far side reports under `tag`.
    pub open spec fn posting(self, tag: u64) -> Posting {
        if oldest_with_tag(self.in_flight, tag) >= self.in_flight.len() {
            Posting::NotInFlight
        } else if self.completed.len() >= self.cq_entries {
            Posting::NoRoom
        } else {
            Posting::Posted
        }
    }

    /// The ring after its oldest completion, if it has one, was retired.
    pub open spec fn retired(self) -> RingState {
        if self.completed.len() > 0 {
            RingState { completed: self.completed.skip(1), ..self }
        } else {
            self
        }
    }
}

/// The sizes of the ring that a request leads to, or `None` where the request
/// is refused: for no entries, for more than the largest size without the
/// option to cut the request down, for an option that the ring does not
/// have, and for fewer completion slots than submission slots. Without a
/// size of its own the completion side has twice the submission slots.
pub open spec fn setup_sizes(entries: u32, flags: u32, cq_asked: u32) -> Option<(nat, nat)> {
    let clamp = flags & SETUP_CLAMP != 0;
    if flags & !SETUP_SUPPORTED != 0 || entries == 0 || (entries > MAX_ENTRIES && !clamp) {
        None
    } else {
        let sq = rounded_up(if entries > MAX_ENTRIES { MAX_ENTRIES as int } else { entries as int });
        if flags & SETUP_CQSIZE == 0 {
            Some((sq as nat, (2 * sq) as nat))
        } else if cq_asked == 0 || (cq_asked > MAX_CQ_ENTRIES && !clamp) {
            None
        } else {
            let cq = rounded_up(
                if cq_asked > MAX_CQ_ENTRIES { MAX_CQ_ENTRIES as int } else { cq_asked as int },
            );
            if cq < sq {
                None
            } else {
                Some((sq as nat, cq as nat))
            }
        }
    }
}

/// A ring.
pub struct io_uring {
    sq: Ring<io_uring_sqe>,
    cq: Ring<io_uring_cqe>,
    in_flight: Vec<io_uring_sqe>,
    flags: u32,
    ring_fd: i32,
}

impl io_uring {
    /// The state of the ring.
    pub closed spec fn view(&self) -> RingState {
        RingState {
            sq_entries: self.sq.capacity(),
            cq_entries: self.cq.capacity(),
            unflushed: self.sq@,
            in_flight: self.in_flight@,
            completed: self.cq@,
            flags: self.flags,
            ring_fd: self.ring_fd,
        }
    }

    /// The index of the oldest claimed slot.
    pub closed spec fn sq_head(&self) -> u32 {
        self.sq.spec_head()
    }

    /// The index after the newest claimed slot.
    pub closed spec fn sq_tail(&self) -> u32 {
        self.sq.spec_tail()
    }
}

/// Makes a ring of at least `entries` submission slots with the options and the
/// size of the completion side that `p` asks for, and writes the sizes it got
/// into `p`. A refused request gives the negated error code.
pub fn io_uring_queue_init_params(entries: u32, p: &mut io_uring_params) -> (r: Result<io_uring, i32>)
    ensures
        match setup_sizes(entries, old(p).flags, old(p).cq_entries) {
            Some((sq, cq)) => {
                &&& r matches Ok(ring)
                &&& ring@ == RingState::fresh(sq, cq, old(p).flags)
                &&& ring@.well_formed()
                &&& ring.sq_head() == 0 && ring.sq_tail() == 0
                &&& *final(p) == (io_uring_params { sq_entries: sq as u32, cq_entries: cq as u32, ..*old(p) })
            },
            None => r matches Err(code) && code == -EINVAL && *final(p) == *old(p),
        },
{
    let flags = p.flags;
    let clamp = flags & SETUP_CLAMP != 0;
    if flags & !SETUP_SUPPORTED != 0 || entries == 0 || (entries > MAX_ENTRIES && !clamp) {
        return Err(-EINVAL);
    }
    let sq_entries = match round_up(if entries > MAX_ENTRIES { MAX_ENTRIES } else { entries }) {
        Some(n) => n,
        None => {
            return Err(-EINVAL);
        },
    };
    proof {
        lemma_rounded_up(if entries > MAX_ENTRIES { MAX_ENTRIES } else { entries });
    }
    let cq_entries = if flags & SETUP_CQSIZE == 0 {
        proof {
            lemma_double_power_of_two(sq_entries);
            lemma_power_of_two_is_ring_size((2 * sq_entries) as u32);
        }
        2 * sq_entries
    } else {
        let cq_asked = p.cq_entries;
        if cq_asked == 0 || (cq_asked > MAX_CQ_ENTRIES && !clamp) {
            return Err(-EINVAL);
        }
        let cq = match round_up(if cq_asked > MAX_CQ_ENTRIES { MAX_CQ_ENTRIES } else { cq_asked }) {
            Some(n) => n,
            None => {
                return Err(-EINVAL);
            },
        };
        proof {
            lemma_rounded_up(if cq_asked > MAX_CQ_ENTRIES { MAX_CQ_ENTRIES } else { cq_asked });
        }
        if cq < sq_entries {
            return Err(-EINVAL);
        }
        cq
    };
    let sq = Ring::new(sq_entries, io_uring_sqe::zeroed());
    let cq = Ring::new(cq_entries, io_uring_cqe { user_data: 0, res: 0, flags: 0 });
    match (sq, cq) {
        (Some(sq), Some(cq)) => {
            p.sq_entries = sq_entries;
            p.cq_entries = cq_entries;
            Ok(io_uring { sq, cq, in_flight: Vec::new(), flags, ring_fd: -1 })
        },
        _ => Err(-EINVAL),
    }
}

/// Makes a ring of at least `entries` submission slots with the given options.
pub fn io_uring_queue_init(entries: u32, flags: u32) -> (r: Result<io_uring, i32>)
    ensures
        match setup_sizes(entries, flags, 0) {
            Some((sq, cq)) => {
                &&& r matches Ok(ring)
                &&& ring@ == RingState::fresh(sq, cq, flags)
                &&& ring@.well_formed()
                &&& ring.sq_head() == 0 && ring.sq_tail() == 0
            },
            None => r matches Err(code) && code == -EINVAL,
        },
{
    let mut p = io_uring_params { sq_entries: 0, cq_entries: 0, flags };
    io_uring_queue_init_params(entries, &mut p)
}

/// Reads the sizes and fill levels of both sides, which shows that the ring
/// keeps within its sizes.
fn bounds(ring: &io_uring)
    ensures
        ring@.well_formed(),
{
    let _ = ring.sq.len();
    let _ = ring.sq.entries();
    let _ = ring.cq.len();
    let _ = ring.cq.entries();
}

/// The submission side of a ring.
pub fn io_uring_sq(ring: &io_uring) -> (sq: &Ring<io_uring_sqe>)
    ensures
        sq@ == ring@.unflushed,
        sq.capacity() == ring@.sq_entries,
        sq.spec_head() == ring.sq_head(),
        sq.spec_tail() == ring.sq_tail(),
{
    &ring.sq
}

/// The descriptor that tells of new completions.
pub fn io_uring_ring_fd(ring: &io_uring) -> (fd: i32)
    ensures
        fd == ring@.ring_fd,
{
    ring.ring_fd
}

/// Sets the descriptor that tells of new completions.
pub fn io_uring_set_ring_fd(ring: &mut io_uring, fd: i32)
    ensures
        final(ring)@ == (RingState { ring_fd: fd, ..old(ring)@ }),
{
    ring.ring_fd = fd;
}

/// Claims the next free submission slot and hands it out, zeroed, to be
/// filled. `None` where every slot is claimed.
pub fn io_uring_get_sqe(ring: &mut io_uring) -> (r: Option<&mut io_uring_sqe>)
    ensures
        old(ring)@.well_formed(),
        r is None <==> old(ring)@.space_left() == 0,
        r is None ==> *final(ring) == *old(ring),
        r matches Some(sqe) ==> *sqe == zeroed_sqe() && final(ring)@ == old(ring)@.acquired(
            *final(sqe),
        ),
{
    bounds(ring);
    match ring.sq.acquire() {
        Some(sqe) => {
            *sqe = io_uring_sqe::zeroed();
            Some(sqe)
        },
        None => None,
    }
}

/// How many slots are claimed and not yet flushed.
pub fn io_uring_sq_ready(ring: &io_uring) -> (n: u32)
    ensures
        n == ring@.unflushed.len(),
        ring@.well_formed(),
{
    bounds(ring);
    ring.sq.len()
}

/// The claimed slots that are not yet flushed, oldest first.
pub fn io_uring_unflushed(ring: &io_uring) -> (slots: Vec<io_uring_sqe>)
    ensures
        slots@ == ring@.unflushed,
{
    let count = ring.sq.len();
    let mut slots: Vec<io_uring_sqe> = Vec::new();
    let mut i: u32 = 0;
    while i < count
        invariant
            i <= count,
            count == ring.sq@.len(),
            slots@ == ring.sq@.take(i as int),
        decreases count - i,
    {
        match ring.sq.get(i) {
            Some(sqe) => {
                slots.push(sqe);
                assert(ring.sq@.take(i + 1) == ring.sq@.take(i as int).push(ring.sq@[i as int]));
            },
            None => {},
        }
        i = i + 1;
    }
    assert(ring.sq@.take(count as int) == ring.sq@);
    slots
}

/// Flushes claimed slots: the far side takes `count` of them, oldest first, or
/// all where fewer are claimed. Returns how many it took.
pub fn io_uring_submit(ring: &mut io_uring, count: u32) -> (n: u32)
    ensures
        final(ring)@ == old(ring)@.flushed(count as int),
        n == old(ring)@.taken(count as int),
{
    let claimed = ring.sq.len();
    let total = if count < claimed { count } else { claimed };
    let ghost start = ring@;
    let mut moved: u32 = 0;
    assert(start.unflushed.skip(0) == start.unflushed);
    assert(start.in_flight + start.unflushed.take(0) == start.in_flight);
    while moved < total
        invariant
            moved <= total,
            total == start.taken(count as int),
            ring@ == (RingState {
                unflushed: start.unflushed.skip(moved as int),
                in_flight: start.in_flight + start.unflushed.take(moved as int),
                ..start
            }),
        decreases total - moved,
    {
        match ring.sq.pop() {
            Some(sqe) => {
                ring.in_flight.push(sqe);
                assert(start.unflushed.skip(moved as int).skip(1) == start.unflushed.skip(
                    moved + 1,
                ));
                assert((start.in_flight + start.unflushed.take(moved as int)).push(
                    start.unflushed[moved as int],
                ) == start.in_flight + start.unflushed.take(moved + 1));
            },
            None => {},
        }
        moved = moved + 1;
    }
    total
}

/// How many completions wait to be retired.
pub fn io_uring_cq_ready(ring: &io_uring) -> (n: u32)
    ensures
        n == ring@.completed.len(),
        ring@.well_formed(),
{
    bounds(ring);
    ring.cq.len()
}

/// The oldest completion, which stays in the ring until it is retired.
pub fn io_uring_peek_cqe(ring: &io_uring) -> (r: Option<io_uring_cqe>)
    ensures
        r == if ring@.completed.len() > 0 {
            Some(ring@.completed[0])
        } else {
            None::<io_uring_cqe>
        },
{
    ring.cq.front()
}

/// Retires the oldest completion, if there is one.
pub fn io_uring_cqe_seen(ring: &mut io_uring)
    ensures
        final(ring)@ == old(ring)@.retired(),
{
    let _ = ring.cq.pop();
}

/// The operations that the far side took and has not completed, oldest first.
pub fn io_uring_in_flight(ring: &io_uring) -> (ops: &Vec<io_uring_sqe>)
    ensures
        ops@ == ring@.in_flight,
{
    &ring.in_flight
}

/// The far side's report that the operation at `index` of those in flight is
/// done: it leaves the operations in flight and its completion is posted.
/// Nothing happens, and `false` is returned, where there is no such
/// operation or no completion slot is free.
pub fn io_uring_complete(ring: &mut io_uring, index: usize, res: i32, flags: u32) -> (done: bool)
    ensures
        done == old(ring)@.can_complete(index as int),
        final(ring)@ == if done {
            old(ring)@.completing(index as int, res, flags)
        } else {
            old(ring)@
        },
{
    if index < ring.in_flight.len() && ring.cq.len() < ring.cq.entries() {
        let sqe = ring.in_flight.remove(index);
        ring.cq.push(io_uring_cqe { user_data: sqe.user_data, res, flags });
        true
    } else {
        false
    }
}

/// The far side's report of a completion by its tag: the oldest operation in
/// flight under `user_data` leaves the operations in flight and its
/// completion is posted. Nothing happens where no operation is in flight
/// under the tag, or no completion slot is free.
pub fn io_uring_complete_tagged(ring: &mut io_uring, user_data: u64, res: i32, flags: u32) -> (r:
    Posting)
    ensures
        r == old(ring)@.posting(user_data),
        final(ring)@ == if r == Posting::Posted {
            old(ring)@.completing(oldest_with_tag(old(ring)@.in_flight, user_data), res, flags)
        } else {
            old(ring)@
        },
{
    let ghost ops = ring@.in_flight;
    let mut i: usize = 0;
    assert(ops.skip(0) == ops);
    while i < ring.in_flight.len() && ring.in_flight[i].user_data != user_data
        invariant
            i <= ring.in_flight.len(),
            ring.in_flight@ == ops,
            oldest_with_tag(ops, user_data) == i + oldest_with_tag(ops.skip(i as int), user_data),
        decreases ring.in_flight.len() - i,
    {
        assert(ops.skip(i as int)[0] == ops[i as int]);
        assert(ops.skip(i as int).skip(1) == ops.skip(i + 1));
        i = i + 1;
    }
    if i < ring.in_flight.len() {
        assert(ops.skip(i as int)[0] == ops[i as int]);
        if io_uring_complete(ring, i, res, flags) {
            Posting::Posted
        } else {
            Posting::NoRoom
        }
    } else {
        Posting::NotInFlight
    }
}

} // verus!
