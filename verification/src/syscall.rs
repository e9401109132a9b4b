//! The three system calls of io_uring: which call to make with which
//! arguments, and what to make of the value that comes back. The call itself
//! is made by the caller.

use vstd::prelude::*;
use crate::constants::{ENTER, MAX_ENTRIES, MIN_ENTRIES, REGISTER, SETUP};
use crate::errors::{OsError, SetupError};

verus! {

/// Whether `n` is a power of two.
pub open spec fn is_power_of_two(n: nat) -> bool
    decreases n,
{
    n == 1 || (n > 1 && n % 2 == 0 && is_power_of_two(n / 2))
}

/// Decides [`is_power_of_two`].
pub fn power_of_two(n: u32) -> (yes: bool)
    ensures
        yes == is_power_of_two(n as nat),
{
    let mut rest: u32 = n;
    while rest > 1 && rest % 2 == 0
        invariant
            is_power_of_two(rest as nat) == is_power_of_two(n as nat),
        decreases rest,
    {
        rest = rest / 2;
    }
    rest == 1
}

/// A system call to be made: its number and its arguments in order.
#[derive(Debug)]
pub struct Syscall {
    /// The system call number.
    pub number: i64,
    /// The arguments, each widened to the machine's long.
    pub args: Vec<i64>,
}

/// The depths that setup accepts: the powers of two from 1 to 4096.
pub open spec fn valid_entries(entries: u32) -> bool {
    MIN_ENTRIES <= entries <= MAX_ENTRIES && is_power_of_two(entries as nat)
}

/// The `io_uring_setup` call for a ring of `entries` submission entries,
/// with the parameter block at address `params`. A depth outside 1..=4096
/// is refused, and so is one that is no power of two.
pub fn setup(entries: u32, params: i64) -> (call: Result<Syscall, SetupError>)
    ensures
        valid_entries(entries) <==> call is Ok,
        call matches Ok(c) ==> c.number == SETUP && c.args@ == seq![entries as i64, params],
        call matches Err(e) ==> e == (if MIN_ENTRIES <= entries <= MAX_ENTRIES {
            SetupError::DepthNotPowerOfTwo
        } else {
            SetupError::DepthOutOfRange
        }),
{
    if entries < MIN_ENTRIES || entries > MAX_ENTRIES {
        return Err(SetupError::DepthOutOfRange);
    }
    if !power_of_two(entries) {
        return Err(SetupError::DepthNotPowerOfTwo);
    }
    let mut args: Vec<i64> = Vec::new();
    args.push(entries as i64);
    args.push(params);
    Ok(Syscall { number: SETUP, args })
}

/// The `io_uring_enter` call on ring `fd`: hand `to_submit` submissions to
/// the kernel and wait until `min_complete` operations have completed. `sig`
/// is the address of a signal mask, or zero, and `sigsz` the size of one,
/// which must fit the machine's long.
pub fn enter(
    fd: i32,
    to_submit: u32,
    min_complete: u32,
    flags: u32,
    sig: i64,
    sigsz: usize,
) -> (call: Syscall)
    requires
        sigsz <= i64::MAX,
    ensures
        call.number == ENTER,
        call.args@ == seq![
            fd as i64,
            to_submit as i64,
            min_complete as i64,
            flags as i64,
            sig,
            sigsz as i64,
        ],
{
    let mut args: Vec<i64> = Vec::new();
    args.push(fd as i64);
    args.push(to_submit as i64);
    args.push(min_complete as i64);
    args.push(flags as i64);
    args.push(sig);
    args.push(sigsz as i64);
    Syscall { number: ENTER, args }
}

/// The `io_uring_register` call on ring `fd`: apply `opcode` to the
/// `nr_args` items at address `arg`.
pub fn register(fd: i32, opcode: u32, arg: i64, nr_args: u32) -> (call: Syscall)
    ensures
        call.number == REGISTER,
        call.args@ == seq![fd as i64, opcode as i64, arg, nr_args as i64],
{
    let mut args: Vec<i64> = Vec::new();
    args.push(fd as i64);
    args.push(opcode as i64);
    args.push(arg);
    args.push(nr_args as i64);
    Syscall { number: REGISTER, args }
}

/// What a system call's return value means: a negative value is a failure,
/// reported with the error number that the operating system left behind;
/// anything else is the result.
pub fn returned(ret: i32, errno: u32) -> (outcome: Result<i32, OsError>)
    ensures
        outcome == (if ret < 0 {
            Err(OsError { errno })
        } else {
            Ok(ret)
        }),
{
    if ret < 0 {
        Err(OsError { errno })
    } else {
        Ok(ret)
    }
}

/// What to do after `io_uring_enter` came back.
#[derive(Clone, Copy, Debug, PartialEq, Eq, Structural)]
pub enum Entered {
    /// A signal interrupted the call: make it again.
    Interrupted,
    /// The call failed.
    Failed(OsError),
    /// The call succeeded; the kernel took this many submissions.
    Accepted(u32),
}

/// The error number of a system call that a signal interrupted.
pub open spec fn interrupted_errno() -> u32 {
    4
}

/// The meaning of the value `ret` that `io_uring_enter` returned, with
/// `errno` as the operating system left it: an interrupted call is to be
/// made again, any other failure is passed on, and a success says how many
/// submissions the kernel took.
pub open spec fn enter_outcome(ret: i32, errno: u32) -> Entered {
    if ret < 0 {
        if errno == interrupted_errno() {
            Entered::Interrupted
        } else {
            Entered::Failed(OsError { errno })
        }
    } else {
        Entered::Accepted(ret as u32)
    }
}

/// `libc::EINTR`: the error number with which a system call fails when a
/// signal arrives before it has done anything. On Linux it is 4.
#[verifier::external_body]
fn eintr() -> (errno: i32)
    ensures
        errno == interrupted_errno(),
{
    libc::EINTR
}

/// Decides what to do after `io_uring_enter` returned `ret`, with `errno`
/// as the operating system left it.
pub fn entered(ret: i32, errno: u32) -> (outcome: Entered)
    ensures
        outcome == enter_outcome(ret, errno),
{
    if ret < 0 {
        let interrupted: i32 = eintr();
        if errno == interrupted as u32 {
            Entered::Interrupted
        } else {
            Entered::Failed(OsError { errno })
        }
    } else {
        Entered::Accepted(ret as u32)
    }
}

} // verus!
