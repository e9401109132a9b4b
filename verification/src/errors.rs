//! What can go wrong at the system call boundary.

use vstd::prelude::*;
use crate::constants::ENOMEM;

verus! {

/// An error number reported by the operating system.
#[derive(Clone, Copy, Debug, PartialEq, Eq, Structural)]
pub struct OsError {
    /// The error number, as in `errno`.
    pub errno: u32,
}

/// Why a ring could not be set up.
#[derive(Clone, Copy, Debug, PartialEq, Eq, Structural)]
pub enum SetupError {
    /// The requested depth lies outside 1..=4096.
    DepthOutOfRange,
    /// The requested depth is no power of two.
    DepthNotPowerOfTwo,
    /// The kernel could not lock enough memory for the ring.
    NotEnoughLockableMemory,
    /// The rings that the kernel set up cannot be indexed with their masks.
    MalformedRing,
    /// Any other failure of a system call, with its error number.
    Os(OsError),
}

impl SetupError {
    /// How a failed system call of ring setup is reported: running out of
    /// lockable memory gets an error of its own, which carries advice;
    /// everything else is passed on with its number.
    pub open spec fn of_errno(errno: u32) -> SetupError {
        if errno == ENOMEM {
            SetupError::NotEnoughLockableMemory
        } else {
            SetupError::Os(OsError { errno })
        }
    }

    /// Computes [`SetupError::of_errno`].
    pub fn from_errno(errno: u32) -> (error: SetupError)
        ensures
            error == SetupError::of_errno(errno),
    {
        if errno == ENOMEM {
            SetupError::NotEnoughLockableMemory
        } else {
            SetupError::Os(OsError { errno })
        }
    }

    /// The text shown to the user for this error.
    pub open spec fn text(self) -> Seq<char> {
        match self {
            SetupError::DepthOutOfRange => "entries must be between 1 and 4096 (inclusive)"@,
            SetupError::DepthNotPowerOfTwo => "entries must be a power of 2"@,
            SetupError::NotEnoughLockableMemory =>
                "Not enough lockable memory. You probably need to raise the memlock rlimit, which often defaults to a pretty low number."@,
            SetupError::MalformedRing => "the kernel returned a ring whose mask does not fit its size"@,
            SetupError::Os(_) => "the operating system refused the request"@,
        }
    }

    /// The text shown to the user for this error.
    pub fn message(&self) -> (text: &'static str)
        ensures
            text@ == self.text(),
    {
        match self {
            SetupError::DepthOutOfRange => "entries must be between 1 and 4096 (inclusive)",
            SetupError::DepthNotPowerOfTwo => "entries must be a power of 2",
            SetupError::NotEnoughLockableMemory =>
                "Not enough lockable memory. You probably need to raise the memlock rlimit, which often defaults to a pretty low number.",
            SetupError::MalformedRing => "the kernel returned a ring whose mask does not fit its size",
            SetupError::Os(_) => "the operating system refused the request",
        }
    }
}

} // verus!
