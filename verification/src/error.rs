//! Error values of the ring.

use vstd::prelude::*;
use vstd::string::StringExecFns;

verus! {

/// An operating-system error, held by its code.
#[derive(Clone, Copy, Debug, PartialEq, Eq, Structural)]
pub struct OsError {
    /// The error code, positive for the codes that the operating system defines.
    pub code: i32,
}

impl OsError {
    /// The error with the given operating-system code.
    pub fn from_raw_os_error(code: i32) -> (e: OsError)
        ensures
            e.code == code,
    {
        OsError { code }
    }

    /// The operating-system code of this error.
    pub fn raw_os_error(&self) -> (code: i32)
        ensures
            code == self.code,
    {
        self.code
    }
}

/// What can go wrong on a ring.
#[derive(Debug, PartialEq, Eq)]
pub enum Error {
    /// The operating system reported an error.
    Io(OsError),
    /// The ring could not be set up.
    Setup(OsError),
    /// No submission slot is free.
    SubmissionQueueFull,
    /// No completion is available.
    CompletionQueueEmpty,
    /// An operation or one of its parameters is invalid.
    InvalidOperation(String),
    /// A feature is not available.
    NotSupported(String),
}

/// The standard library's error value, of which nothing is looked into.
#[verifier::external_type_specification]
#[verifier::external_body]
pub struct ExIoError(std::io::Error);

/// The standard library's error for an operating-system code.
///
/// Calls `std::io::Error::from_raw_os_error`. Nothing is said of the error.
#[verifier::external_body]
fn os_error_of(code: i32) -> (e: std::io::Error) {
    std::io::Error::from_raw_os_error(code)
}

/// The text that an error of the standard library shows itself with. For an
/// operating-system error the system words it, and differently from one
/// system to the next, so nothing is said of it.
///
/// Calls `to_string` of `std::io::Error`.
#[verifier::external_body]
fn os_error_text(e: &std::io::Error) -> (text: String) {
    e.to_string()
}

impl OsError {
    /// The text that the operating system has for this error. The system
    /// words it, and differently from one system to the next, so nothing is
    /// promised of it; what is made of the text is said by
    /// [`Error::describe`].
    pub fn to_string(&self) -> (text: String) {
        let e = os_error_of(self.code);
        os_error_text(&e)
    }
}

impl Error {
    /// The text of this error, where `os_text` is the text that the operating
    /// system has for the error it may hold.
    pub open spec fn described(self, os_text: Seq<char>) -> Seq<char> {
        match self {
            Error::Io(_) => "I/O error: "@ + os_text,
            Error::Setup(_) => "io_uring setup failed: "@ + os_text,
            Error::SubmissionQueueFull => "submission queue is full"@,
            Error::CompletionQueueEmpty => "no completion queue entries available"@,
            Error::InvalidOperation(msg) => "invalid operation: "@ + msg@,
            Error::NotSupported(msg) => "feature not supported: "@ + msg@,
        }
    }

    /// The operating-system error that this error holds.
    pub fn os_error(&self) -> (e: Option<OsError>)
        ensures
            e == match *self {
                Error::Io(e) => Some(e),
                Error::Setup(e) => Some(e),
                _ => None::<OsError>,
            },
    {
        match self {
            Error::Io(e) => Some(*e),
            Error::Setup(e) => Some(*e),
            _ => None,
        }
    }

    /// The text of this error, where `os_text` is the text that the operating
    /// system has for the error it may hold.
    pub fn describe(&self, os_text: &str) -> (text: String)
        ensures
            text@ == self.described(os_text@),
    {
        match self {
            Error::Io(_) => String::from_str("I/O error: ").concat(os_text),
            Error::Setup(_) => String::from_str("io_uring setup failed: ").concat(os_text),
            Error::SubmissionQueueFull => String::from_str("submission queue is full"),
            Error::CompletionQueueEmpty => String::from_str("no completion queue entries available"),
            Error::InvalidOperation(msg) => String::from_str("invalid operation: ").concat(
                msg.as_str(),
            ),
            Error::NotSupported(msg) => String::from_str("feature not supported: ").concat(
                msg.as_str(),
            ),
        }
    }

    /// The text of this error. An operating-system error is named as the
    /// system names it.
    pub fn to_string(&self) -> (text: String)
        ensures
            exists|os_text: Seq<char>| text@ == self.described(os_text),
            !(self is Io || self is Setup) ==> text@ == self.described(Seq::empty()),
    {
        match self.os_error() {
            Some(e) => {
                let os_text = e.to_string();
                self.describe(os_text.as_str())
            },
            None => self.describe(""),
        }
    }
}

/// The result of a ring operation.
pub type Result<T> = core::result::Result<T, Error>;

/// The negation of a return code, wrapping at the one value that has none.
pub open spec fn negated(ret: i32) -> i32 {
    if ret == i32::MIN {
        i32::MIN
    } else {
        (-ret) as i32
    }
}

/// The operating-system error that a negative return code stands for.
pub fn from_ret_code(ret: i32) -> (e: OsError)
    ensures
        e.code == negated(ret),
{
    OsError::from_raw_os_error(0i32.wrapping_sub(ret))
}

/// What a return code says: an error where it is negative, else the code itself.
pub open spec fn checked(ret: i32) -> core::result::Result<i32, OsError> {
    if ret < 0 {
        Err(OsError { code: negated(ret) })
    } else {
        Ok(ret)
    }
}

/// Splits the return code of a setup into success and failure: a negative
/// code is [`Error::Setup`] with the negated code.
pub fn check_setup(ret: i32) -> (r: Result<i32>)
    ensures
        r == if ret < 0 {
            Err::<i32, Error>(Error::Setup(OsError { code: negated(ret) }))
        } else {
            Ok::<i32, Error>(ret)
        },
{
    match check_ret(ret) {
        Ok(n) => Ok(n),
        Err(e) => Err(Error::Setup(e)),
    }
}

/// Splits a return code into success and failure.
pub fn check_ret(ret: i32) -> (r: core::result::Result<i32, OsError>)
    ensures
        r == checked(ret),
{
    if ret < 0 {
        Err(from_ret_code(ret))
    } else {
        Ok(ret)
    }
}

} // verus!
