//! Numbers fixed by the kernel's io_uring interface.

use vstd::prelude::*;

verus! {

/// System call number of `io_uring_setup`.
pub const SETUP: i64 = 425;

/// System call number of `io_uring_enter`.
pub const ENTER: i64 = 426;

/// System call number of `io_uring_register`.
pub const REGISTER: i64 = 427;

/// Smallest submission queue depth that setup accepts.
pub const MIN_ENTRIES: u32 = 1;

/// Largest submission queue depth that setup accepts.
pub const MAX_ENTRIES: u32 = 4096;

pub const IORING_OP_NOP: u8 = 0;

pub const IORING_OP_READV: u8 = 1;

pub const IORING_OP_WRITEV: u8 = 2;

pub const IORING_OP_FSYNC: u8 = 3;

pub const IORING_OP_SYNC_FILE_RANGE: u8 = 8;

pub const IORING_OP_SENDMSG: u8 = 9;

pub const IORING_OP_RECVMSG: u8 = 10;

pub const IORING_OP_ACCEPT: u8 = 13;

pub const IORING_OP_SEND: u8 = 26;

pub const IORING_OP_RECV: u8 = 27;

/// Submission flag: `fd` is an index into the registered file set.
pub const IOSQE_FIXED_FILE: u8 = 1;

/// Submission flag: start only after every earlier submission has completed.
pub const IOSQE_IO_DRAIN: u8 = 2;

/// Submission flag: the next submission waits for this one.
pub const IOSQE_IO_LINK: u8 = 4;

/// Setup flag: completions are polled for rather than interrupt driven.
pub const IORING_SETUP_IOPOLL: u32 = 1;

/// Setup flag: a kernel thread polls the submission queue.
pub const IORING_SETUP_SQPOLL: u32 = 2;

/// Fsync flag: synchronise data only, as `fdatasync` does.
pub const IORING_FSYNC_DATASYNC: u32 = 1;

/// Submission ring flag: the kernel's poll thread has parked.
pub const IORING_SQ_NEED_WAKEUP: u32 = 1;

/// Enter flag: wait for completions.
pub const IORING_ENTER_GETEVENTS: u32 = 1;

/// Enter flag: wake the kernel's poll thread.
pub const IORING_ENTER_SQ_WAKEUP: u32 = 2;

/// `mmap` offset of the submission ring.
pub const IORING_OFF_SQ_RING: i64 = 0;

/// `mmap` offset of the completion ring.
pub const IORING_OFF_CQ_RING: i64 = 0x800_0000;

/// `mmap` offset of the submission entry array.
pub const IORING_OFF_SQES: i64 = 0x1000_0000;

/// The error number the kernel gives when locked memory runs out.
pub const ENOMEM: u32 = 12;

} // verus!
