//! Option sets: those a ring is set up with, and those a slot carries.

use vstd::prelude::*;

verus! {

/// Bit of [`SetupFlags::sqpoll`].
pub const SETUP_SQPOLL: u32 = 0x2;

/// Bit of [`SetupFlags::cqsize`].
pub const SETUP_CQSIZE: u32 = 0x8;

/// Bit of [`SetupFlags::clamp`].
pub const SETUP_CLAMP: u32 = 0x10;

/// Bit of [`SetupFlags::single_issuer`].
pub const SETUP_SINGLE_ISSUER: u32 = 0x1000;

/// All the setup options that a ring accepts.
pub const SETUP_SUPPORTED: u32 = 0x101a;

/// The options a ring is set up with, one bit each.
#[derive(Clone, Copy, Debug, PartialEq, Eq, Structural)]
pub struct SetupFlags(u32);

impl SetupFlags {
    /// The bits of this set.
    pub closed spec fn view(&self) -> u32 {
        self.0
    }

    /// No option.
    pub fn empty() -> (f: SetupFlags)
        ensures
            f@ == 0,
    {
        SetupFlags(0)
    }

    /// The far side polls the submission queue by itself.
    pub fn sqpoll() -> (f: SetupFlags)
        ensures
            f@ == SETUP_SQPOLL,
    {
        SetupFlags(SETUP_SQPOLL)
    }

    /// The size of the completion queue is given with the parameters.
    pub fn cqsize() -> (f: SetupFlags)
        ensures
            f@ == SETUP_CQSIZE,
    {
        SetupFlags(SETUP_CQSIZE)
    }

    /// A request for too many entries is cut down to the largest size.
    pub fn clamp() -> (f: SetupFlags)
        ensures
            f@ == SETUP_CLAMP,
    {
        SetupFlags(SETUP_CLAMP)
    }

    /// Only one thread submits.
    pub fn single_issuer() -> (f: SetupFlags)
        ensures
            f@ == SETUP_SINGLE_ISSUER,
    {
        SetupFlags(SETUP_SINGLE_ISSUER)
    }

    /// The set with exactly the given bits.
    pub fn from_bits(bits: u32) -> (f: SetupFlags)
        ensures
            f@ == bits,
    {
        SetupFlags(bits)
    }

    /// The bits of this set.
    pub fn bits(&self) -> (b: u32)
        ensures
            b == self@,
    {
        self.0
    }

    /// The options of both sets.
    pub fn union(self, other: SetupFlags) -> (f: SetupFlags)
        ensures
            f@ == self@ | other@,
    {
        SetupFlags(self.0 | other.0)
    }

    /// Whether every option of `other` is in this set.
    pub fn contains(&self, other: SetupFlags) -> (b: bool)
        ensures
            b == (self@ & other@ == other@),
    {
        self.0 & other.0 == other.0
    }
}

/// Bit of [`SqeFlags::fixed_file`].
pub const SQE_FIXED_FILE: u8 = 0x1;

/// Bit of [`SqeFlags::io_drain`].
pub const SQE_IO_DRAIN: u8 = 0x2;

/// Bit of [`SqeFlags::io_link`].
pub const SQE_IO_LINK: u8 = 0x4;

/// The options a slot carries, one bit each. The ring hands them on and does
/// not read them.
#[derive(Clone, Copy, Debug, PartialEq, Eq, Structural)]
pub struct SqeFlags(u8);

impl SqeFlags {
    /// The bits of this set.
    pub closed spec fn view(&self) -> u8 {
        self.0
    }

    /// No option.
    pub fn empty() -> (f: SqeFlags)
        ensures
            f@ == 0,
    {
        SqeFlags(0)
    }

    /// The file is named by its index among the registered files.
    pub fn fixed_file() -> (f: SqeFlags)
        ensures
            f@ == SQE_FIXED_FILE,
    {
        SqeFlags(SQE_FIXED_FILE)
    }

    /// The operation starts when all earlier ones have completed.
    pub fn io_drain() -> (f: SqeFlags)
        ensures
            f@ == SQE_IO_DRAIN,
    {
        SqeFlags(SQE_IO_DRAIN)
    }

    /// The next operation starts when this one has completed.
    pub fn io_link() -> (f: SqeFlags)
        ensures
            f@ == SQE_IO_LINK,
    {
        SqeFlags(SQE_IO_LINK)
    }

    /// The bits of this set.
    pub fn bits(&self) -> (b: u8)
        ensures
            b == self@,
    {
        self.0
    }

    /// The options of both sets.
    pub fn union(self, other: SqeFlags) -> (f: SqeFlags)
        ensures
            f@ == self@ | other@,
    {
        SqeFlags(self.0 | other.0)
    }
}

} // verus!
