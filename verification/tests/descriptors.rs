//! What the operations write into a slot, and what errors say.

use liburing_rs::error::{Error, OsError};
use liburing_rs::flags::{SetupFlags, SqeFlags};
use liburing_rs::ops::{Accept, Close, Connect, Fsync, Nop, PrepareOp, Read, SqeExt, Write};
use liburing_rs::sys::{io_uring_sqe, io_uring_prep_rw, io_uring_sqe_set_flags};

fn dirty() -> io_uring_sqe {
    io_uring_sqe {
        opcode: 0xff,
        flags: 0xff,
        ioprio: 0xffff,
        fd: 99,
        off: 98,
        addr: 97,
        len: 96,
        op_flags: 95,
        user_data: 0xfeed,
        buf_index: 94,
        personality: 93,
        file_index: 92,
        addr3: 91,
        pad: 90,
    }
}

fn described(opcode: u8, fd: i32, addr: u64, len: u32, off: u64, op_flags: u32) -> io_uring_sqe {
    io_uring_sqe { opcode, fd, addr, len, off, op_flags, user_data: 0xfeed, ..io_uring_sqe::zeroed() }
}

fn prepared<Op: PrepareOp>(op: Op) -> io_uring_sqe {
    let mut sqe = dirty();
    op.prepare(&mut sqe);
    sqe
}

#[test]
fn a_description_sets_everything_but_the_tag() {
    assert_eq!(prepared(Nop), described(0, -1, 0, 0, 0, 0));
    assert_eq!(prepared(Read::new(3, 0x1000, 64, 128)), described(22, 3, 0x1000, 64, 128, 0));
    assert_eq!(prepared(Write::new(4, 0x2000, 32, 256)), described(23, 4, 0x2000, 32, 256, 0));
    assert_eq!(prepared(Fsync::new(5)), described(3, 5, 0, 0, 0, 0));
    assert_eq!(prepared(Fsync::data_sync(5)), described(3, 5, 0, 0, 0, 1));
    assert_eq!(prepared(Close::new(6)), described(19, 6, 0, 0, 0, 0));
    assert_eq!(prepared(Accept::new(7, 0x3000, 0x3100, 0x800)), described(13, 7, 0x3000, 0, 0x3100, 0x800));
    assert_eq!(prepared(Accept::new(7, 0, 0, -1)), described(13, 7, 0, 0, 0, u32::MAX));
    assert_eq!(prepared(Connect::new(8, 0x4000, 16)), described(16, 8, 0x4000, 0, 16, 0));
}

#[test]
fn an_operation_on_a_slice_names_its_buffer() {
    let mut buf = [7u8; 48];
    let expected = buf.as_ptr() as u64;
    let op = Read::from_slice(3, &mut buf, 100);
    assert_eq!((op.fd, op.buf, op.len, op.offset), (3, expected, 48, 100));
    assert_eq!(buf, [7u8; 48]);
    let op = Write::from_slice(4, &buf[8..], 200);
    assert_eq!((op.fd, op.buf, op.len, op.offset), (4, expected + 8, 40, 200));
    let op = Write::from_slice(4, &[], 0);
    assert_eq!(op.len, 0);
}

#[test]
fn stamping_changes_the_tag_alone() {
    let mut sqe = dirty();
    sqe.set_user_data(42);
    assert_eq!(sqe, io_uring_sqe { user_data: 42, ..dirty() });
    sqe.set_flags(SqeFlags::io_link().union(SqeFlags::fixed_file()).bits());
    assert_eq!(sqe, io_uring_sqe { user_data: 42, flags: 5, ..dirty() });
    io_uring_sqe_set_flags(&mut sqe, 0x1234);
    assert_eq!(sqe.flags, 0x34);
    io_uring_prep_rw(1, &mut sqe, 2, 3, 4, 5);
    assert_eq!(sqe, io_uring_sqe { opcode: 1, fd: 2, addr: 3, len: 4, off: 5, user_data: 42, ..io_uring_sqe::zeroed() });
}

#[test]
fn option_sets_have_their_bits() {
    assert_eq!(SetupFlags::empty().bits(), 0);
    assert_eq!(SetupFlags::sqpoll().bits(), 2);
    assert_eq!(SetupFlags::cqsize().bits(), 8);
    assert_eq!(SetupFlags::clamp().bits(), 16);
    assert_eq!(SetupFlags::single_issuer().bits(), 4096);
    assert_eq!(SetupFlags::from_bits(24), SetupFlags::cqsize().union(SetupFlags::clamp()));
    assert!(SetupFlags::from_bits(24).contains(SetupFlags::clamp()));
    assert!(SetupFlags::from_bits(24).contains(SetupFlags::empty()));
    assert!(!SetupFlags::from_bits(24).contains(SetupFlags::sqpoll()));
    assert_eq!(SqeFlags::empty().bits(), 0);
    assert_eq!(SqeFlags::fixed_file().bits(), 1);
    assert_eq!(SqeFlags::io_drain().bits(), 2);
    assert_eq!(SqeFlags::io_link().bits(), 4);
}

#[test]
fn errors_say_what_went_wrong() {
    assert_eq!(Error::SubmissionQueueFull.to_string(), "submission queue is full");
    assert_eq!(Error::CompletionQueueEmpty.to_string(), "no completion queue entries available");
    assert_eq!(Error::InvalidOperation("bad offset".to_string()).to_string(), "invalid operation: bad offset");
    assert_eq!(Error::NotSupported("polling".to_string()).to_string(), "feature not supported: polling");
    assert_eq!(Error::Io(OsError { code: 2 }).describe("gone"), "I/O error: gone");
    assert_eq!(Error::Setup(OsError { code: 22 }).describe("bad"), "io_uring setup failed: bad");
    assert_eq!(Error::SubmissionQueueFull.describe("ignored"), "submission queue is full");
}

#[test]
fn an_operating_system_error_is_named_as_the_system_names_it() {
    let text = std::io::Error::from_raw_os_error(22).to_string();
    assert_eq!(OsError { code: 22 }.to_string(), text);
    assert_eq!(Error::Io(OsError { code: 22 }).to_string(), format!("I/O error: {}", text));
    assert_eq!(Error::Setup(OsError { code: 22 }).to_string(), format!("io_uring setup failed: {}", text));
    assert_ne!(OsError { code: 22 }.to_string(), OsError { code: 2 }.to_string());
    assert!(text.contains("22"));
}

#[test]
fn errors_hold_their_operating_system_error() {
    assert_eq!(Error::Io(OsError { code: 5 }).os_error(), Some(OsError { code: 5 }));
    assert_eq!(Error::Setup(OsError { code: 6 }).os_error(), Some(OsError { code: 6 }));
    assert_eq!(Error::SubmissionQueueFull.os_error(), None);
    assert_eq!(Error::CompletionQueueEmpty.os_error(), None);
    assert_eq!(Error::NotSupported(String::new()).os_error(), None);
}
