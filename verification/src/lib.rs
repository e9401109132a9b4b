//! The sequential core of an io_uring front end: the kernel records and
//! their byte images, the arithmetic of the two rings, the tickets that
//! bound what is in flight, the table of operations in flight, and the
//! completions that carry results back.
//!
//! Nothing in this crate blocks, maps memory or calls the kernel. Every
//! function takes what was read from the ring and returns what is to be
//! written to it, or which call is to be made; whoever drives the ring does
//! the reading, the writing and the calling.

use vstd::prelude::*;

pub mod addr;
pub mod bytes;
pub mod chain;
pub mod completion;
pub mod config;
pub mod constants;
pub mod cq;
pub mod errors;
pub mod in_flight;
pub mod params;
pub mod sq;
pub mod syscall;
pub mod ticket_queue;
pub mod types;
pub mod uring;

pub use addr::{IoVec, MsgHdr, RawAddr, SockAddr};
pub use chain::Order;
pub use completion::{Completion, CompletionState, Completions, CqeData, Filler, Outcome, Waited};
pub use config::{Config, Start};
pub use cq::{Cq, Fault, Reap};
pub use errors::{OsError, SetupError};
pub use in_flight::{Cell, InFlight, Slot};
pub use params::{io_uring_files_update, CqringOffsets, Params, SqringOffsets};
pub use sq::{Enter, Flush, Publish, Region, Sq, Submit};
pub use ticket_queue::TicketQueue;
pub use types::{Cqe, Sqe};
pub use uring::{Prep, Staged, Staging, Uring};

verus! {

/// What to ask of the kernel to start a ring with the standard
/// configuration: 256 entries, and a parameter block of zeros.
pub fn new() -> (start: Result<Start, SetupError>)
    ensures
        start matches Ok(s) && s.entries == 256 && s.params == Params::zero(),
{
    proof {
        reveal_with_fuel(syscall::is_power_of_two, 10);
        assert(syscall::is_power_of_two(256));
    }
    Config::default().start()
}

/// A value that the result of a successful operation can be read as.
pub trait FromCqe: Sized {
    /// The value that a completion entry stands for.
    spec fn of_cqe(cqe: Cqe) -> Self;

    /// Reads the value out of the completion entry of a successful
    /// operation.
    fn from_cqe(cqe: Cqe) -> (value: Self)
        requires
            cqe.res >= 0,
        ensures
            value == Self::of_cqe(cqe),
    ;
}

/// A count of bytes: the entry's result.
impl FromCqe for usize {
    open spec fn of_cqe(cqe: Cqe) -> usize {
        cqe.res as usize
    }

    fn from_cqe(cqe: Cqe) -> (value: usize) {
        cqe.res as usize
    }
}

/// Nothing: the operation has no result beyond its success.
impl FromCqe for () {
    open spec fn of_cqe(cqe: Cqe) -> () {
        ()
    }

    fn from_cqe(cqe: Cqe) -> (value: ()) {
        ()
    }
}

} // verus!
