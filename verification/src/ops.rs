//! Operations, each of which knows how to describe itself in a slot.
//!
//! A buffer or an address is named by the number that the far side reads
//! it by. Whoever hands such a number in keeps what it names alive and in
//! place until the completion of the operation has been taken.

use vstd::prelude::*;
use crate::sys;
use crate::sys::{described, io_uring_sqe};

verus! {

/// The address of the first byte of `buf`, as a number. It is where the
/// allocator put the buffer, so nothing is said of it.
///
/// Calls `as_ptr` of the slice.
#[verifier::external_body]
fn address_of(buf: &[u8]) -> (addr: u64) {
    buf.as_ptr() as u64
}

/// The address of the first byte of `buf`, as a number. It is where the
/// allocator put the buffer, so nothing is said of it; the buffer is left as
/// it is.
///
/// Calls `as_mut_ptr` of the slice, which hands out the address and writes
/// nothing.
#[verifier::external_body]
fn address_of_mut(buf: &mut [u8]) -> (addr: u64)
    ensures
        final(buf)@ == old(buf)@,
{
    buf.as_mut_ptr() as u64
}

/// An operation that can be written into a submission slot.
pub trait PrepareOp {
    /// The slot after this operation was written into it.
    spec fn prepared(&self, before: io_uring_sqe) -> io_uring_sqe;

    /// Writes this operation into the slot.
    fn prepare(&self, sqe: &mut io_uring_sqe)
        ensures
            *final(sqe) == self.prepared(*old(sqe)),
    ;
}

/// Reads into one buffer.
pub struct Read {
    /// The file to read from.
    pub fd: i32,
    /// The address of the buffer to read into.
    pub buf: u64,
    /// How many bytes to read.
    pub len: u32,
    /// Where in the file to read.
    pub offset: u64,
}

impl Read {
    /// The read of `len` bytes at `offset` of `fd` into the buffer at `buf`.
    pub fn new(fd: i32, buf: u64, len: u32, offset: u64) -> (op: Self)
        ensures
            op == (Read { fd, buf, len, offset }),
    {
        Self { fd, buf, len, offset }
    }

    /// The read at `offset` of `fd` that fills `buf`. Of a length that does
    /// not fit the slot, the low 32 bits are kept.
    pub fn from_slice(fd: i32, buf: &mut [u8], offset: u64) -> (op: Self)
        ensures
            op.fd == fd,
            op.len == old(buf)@.len() as u32,
            op.offset == offset,
            final(buf)@ == old(buf)@,
    {
        let len = buf.len();
        Self { fd, buf: address_of_mut(buf), len: #[verifier::truncate] (len as u32), offset }
    }
}

impl PrepareOp for Read {
    open spec fn prepared(&self, before: io_uring_sqe) -> io_uring_sqe {
        described(before, sys::IORING_OP_READ, self.fd, self.buf, self.len, self.offset, 0)
    }

    fn prepare(&self, sqe: &mut io_uring_sqe) {
        sys::io_uring_prep_read(sqe, self.fd, self.buf, self.len, self.offset);
    }
}

/// Writes from one buffer.
pub struct Write {
    /// The file to write to.
    pub fd: i32,
    /// The address of the buffer to write from.
    pub buf: u64,
    /// How many bytes to write.
    pub len: u32,
    /// Where in the file to write.
    pub offset: u64,
}

impl Write {
    /// The write of `len` bytes from the buffer at `buf` to `fd` at `offset`.
    pub fn new(fd: i32, buf: u64, len: u32, offset: u64) -> (op: Self)
        ensures
            op == (Write { fd, buf, len, offset }),
    {
        Self { fd, buf, len, offset }
    }

    /// The write of all of `buf` to `fd` at `offset`. Of a length that does
    /// not fit the slot, the low 32 bits are kept.
    pub fn from_slice(fd: i32, buf: &[u8], offset: u64) -> (op: Self)
        ensures
            op.fd == fd,
            op.len == buf@.len() as u32,
            op.offset == offset,
    {
        Self { fd, buf: address_of(buf), len: #[verifier::truncate] (buf.len() as u32), offset }
    }
}

impl PrepareOp for Write {
    open spec fn prepared(&self, before: io_uring_sqe) -> io_uring_sqe {
        described(before, sys::IORING_OP_WRITE, self.fd, self.buf, self.len, self.offset, 0)
    }

    fn prepare(&self, sqe: &mut io_uring_sqe) {
        sys::io_uring_prep_write(sqe, self.fd, self.buf, self.len, self.offset);
    }
}

/// Flushes a file to its device.
pub struct Fsync {
    /// The file to flush.
    pub fd: i32,
    /// Options of the flush.
    pub flags: u32,
}

impl Fsync {
    /// The flush of data and metadata of `fd`.
    pub fn new(fd: i32) -> (op: Self)
        ensures
            op == (Fsync { fd, flags: 0 }),
    {
        Self { fd, flags: 0 }
    }

    /// The flush of the data of `fd`, without its metadata.
    pub fn data_sync(fd: i32) -> (op: Self)
        ensures
            op == (Fsync { fd, flags: sys::IORING_FSYNC_DATASYNC }),
    {
        Self { fd, flags: sys::IORING_FSYNC_DATASYNC }
    }
}

impl PrepareOp for Fsync {
    open spec fn prepared(&self, before: io_uring_sqe) -> io_uring_sqe {
        described(before, sys::IORING_OP_FSYNC, self.fd, 0, 0, 0, self.flags)
    }

    fn prepare(&self, sqe: &mut io_uring_sqe) {
        sys::io_uring_prep_fsync(sqe, self.fd, self.flags);
    }
}

/// Does nothing. Its result is 0.
pub struct Nop;

impl PrepareOp for Nop {
    open spec fn prepared(&self, before: io_uring_sqe) -> io_uring_sqe {
        described(before, sys::IORING_OP_NOP, -1i32, 0, 0, 0, 0)
    }

    fn prepare(&self, sqe: &mut io_uring_sqe) {
        sys::io_uring_prep_nop(sqe);
    }
}

/// Accepts a connection.
pub struct Accept {
    /// The listening socket.
    pub fd: i32,
    /// The address of the buffer for the peer's address.
    pub addr: u64,
    /// The address of the word that holds the length of that buffer.
    pub addrlen: u64,
    /// Options of the new socket.
    pub flags: i32,
}

impl Accept {
    /// The accepting of a connection on `fd`.
    pub fn new(fd: i32, addr: u64, addrlen: u64, flags: i32) -> (op: Self)
        ensures
            op == (Accept { fd, addr, addrlen, flags }),
    {
        Self { fd, addr, addrlen, flags }
    }
}

impl PrepareOp for Accept {
    open spec fn prepared(&self, before: io_uring_sqe) -> io_uring_sqe {
        described(before, sys::IORING_OP_ACCEPT, self.fd, self.addr, 0, self.addrlen, self.flags as u32)
    }

    fn prepare(&self, sqe: &mut io_uring_sqe) {
        sys::io_uring_prep_accept(
            sqe,
            self.fd,
            self.addr,
            self.addrlen,
            #[verifier::truncate] (self.flags as u32),
        );
    }
}

/// Connects a socket.
pub struct Connect {
    /// The socket.
    pub fd: i32,
    /// The address of the address to connect to.
    pub addr: u64,
    /// The length of that address.
    pub addrlen: u32,
}

impl Connect {
    /// The connecting of `fd` to the address of `addrlen` bytes at `addr`.
    pub fn new(fd: i32, addr: u64, addrlen: u32) -> (op: Self)
        ensures
            op == (Connect { fd, addr, addrlen }),
    {
        Self { fd, addr, addrlen }
    }
}

impl PrepareOp for Connect {
    open spec fn prepared(&self, before: io_uring_sqe) -> io_uring_sqe {
        described(before, sys::IORING_OP_CONNECT, self.fd, self.addr, 0, self.addrlen as u64, 0)
    }

    fn prepare(&self, sqe: &mut io_uring_sqe) {
        sys::io_uring_prep_connect(sqe, self.fd, self.addr, self.addrlen);
    }
}

/// Closes a file.
pub struct Close {
    /// The file to close.
    pub fd: i32,
}

impl Close {
    /// The closing of `fd`.
    pub fn new(fd: i32) -> (op: Self)
        ensures
            op == (Close { fd }),
    {
        Self { fd }
    }
}

impl PrepareOp for Close {
    open spec fn prepared(&self, before: io_uring_sqe) -> io_uring_sqe {
        described(before, sys::IORING_OP_CLOSE, self.fd, 0, 0, 0, 0)
    }

    fn prepare(&self, sqe: &mut io_uring_sqe) {
        sys::io_uring_prep_close(sqe, self.fd);
    }
}

/// What a slot offers beyond its fields.
pub trait SqeExt {
    /// Stamps the slot with its tag, which the completion carries back.
    fn set_user_data(&mut self, data: u64);

    /// Sets the options of the slot.
    fn set_flags(&mut self, flags: u8);
}

impl SqeExt for io_uring_sqe {
    fn set_user_data(&mut self, data: u64)
        ensures
            *final(self) == (io_uring_sqe { user_data: data, ..*old(self) }),
    {
        sys::io_uring_sqe_set_data64(self, data);
    }

    fn set_flags(&mut self, flags: u8)
        ensures
            *final(self) == (io_uring_sqe { flags, ..*old(self) }),
    {
        assert((flags as u32) & 0xff == flags as u32) by (bit_vector);
        sys::io_uring_sqe_set_flags(self, flags as u32);
    }
}

} // verus!
