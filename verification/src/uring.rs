//! The ring as a whole: tickets, the in-flight table, the submission half
//! and the counters, kept consistent with one another.
//!
//! Nothing here blocks or calls the kernel. Where a front end has to wait
//! or make a system call, these functions return what to wait for or which
//! call to make, and are called again with what came of it.

use std::task::Waker;
use vstd::prelude::*;
use vstd::set_lib::{lemma_int_range, lemma_len_subset, lemma_set_difference_len, set_int_range};
use crate::addr::{IoVec, MsgHdr, RawAddr, SockAddr};
use crate::chain::Order;
use crate::completion::{
    after_poll, after_wait, pair, poll_result, wait_result, Completion, CompletionState,
    Completions, Filler, Outcome, Waited,
};
use crate::config::Config;
use crate::constants::{
    IORING_FSYNC_DATASYNC, IORING_OP_ACCEPT, IORING_OP_FSYNC, IORING_OP_NOP, IORING_OP_READV,
    IORING_OP_RECV, IORING_OP_RECVMSG, IORING_OP_SEND, IORING_OP_SENDMSG,
    IORING_OP_SYNC_FILE_RANGE, IORING_OP_WRITEV, IORING_SETUP_SQPOLL,
};
use crate::cq::{
    balanced, lemma_reap_only_vacates, lemma_reap_only_vacates_len, lemma_reap_paired,
    lemma_reap_releases, numbered, paired, poisoned, reaped, Cq, Ledger, Reap,
};
use crate::errors::SetupError;
use crate::in_flight::{Cell, InFlight, Slot};
use crate::params::Params;
use crate::sq::{advanced, polled, Sq, Submit};
use crate::syscall::is_power_of_two;
use crate::ticket_queue::{all_below, lemma_distinct_below, TicketQueue};
use crate::types::Sqe;

verus! {

/// What an operation writes into its submission entry, beyond the ticket
/// and the address that every operation gets.
#[derive(Clone, Copy, Debug, PartialEq, Eq, Structural)]
pub struct Prep {
    /// The operation.
    pub opcode: u8,
    /// The file descriptor operated on.
    pub fd: i32,
    /// Length of the buffer, or the number of vectors.
    pub len: u32,
    /// Offset into the file.
    pub off: u64,
    /// How the operation is ordered relative to its neighbours.
    pub order: Order,
    /// Flags specific to the operation.
    pub op_flags: u32,
    /// An address to hand to the kernel in place of the slot's.
    pub addr: Option<u64>,
    /// Whether the entry is the poison pill that ends the ring.
    pub poison: bool,
}

impl Prep {
    /// An operation with no flags of its own, on the slot's address.
    pub open spec fn plain(opcode: u8, fd: i32, len: u32, off: u64, order: Order) -> Prep {
        Prep { opcode, fd, len, off, order, op_flags: 0, addr: None, poison: false }
    }

    /// The entry `sqe`, which holds ticket and address, once the operation
    /// is written into it.
    pub open spec fn applied(self, sqe: Sqe) -> Sqe {
        let prepared = sqe.prepared(self.opcode, self.fd, self.len, self.off, self.order);
        Sqe {
            op_flags: self.op_flags,
            addr: match self.addr {
                Some(addr) => addr,
                None => prepared.addr,
            },
            user_data: if self.poison {
                poisoned(prepared.user_data)
            } else {
                prepared.user_data
            },
            ..prepared
        }
    }

    /// Computes [`Prep::plain`].
    pub fn new(opcode: u8, fd: i32, len: u32, off: u64, order: Order) -> (prep: Prep)
        ensures
            prep == Prep::plain(opcode, fd, len, off, order),
    {
        Prep { opcode, fd, len, off, order, op_flags: 0, addr: None, poison: false }
    }

    /// Writes the operation into `sqe`.
    pub fn apply(&self, sqe: &mut Sqe)
        ensures
            *final(sqe) == self.applied(*old(sqe)),
    {
        sqe.prep_rw(self.opcode, self.fd, self.len as usize, self.off, self.order);
        sqe.op_flags = self.op_flags;
        match self.addr {
            Some(addr) => {
                sqe.addr = addr;
            },
            None => {},
        }
        if self.poison {
            sqe.user_data = sqe.user_data ^ u64::MAX;
        }
    }
}

/// A submission entry ready to be written into the ring.
#[derive(Debug)]
pub struct Staging {
    /// The handle on the operation's result.
    pub completion: Completion,
    /// The operation's ticket, which is also its slot in the in-flight
    /// table.
    pub ticket: usize,
    /// The index in the submission array where the entry belongs.
    pub index: u32,
    /// The entry.
    pub sqe: Sqe,
}

/// What came of the attempt to stage an operation.
#[derive(Debug)]
pub enum Staged {
    /// Every ticket is handed out. Nothing was changed: wait until the
    /// reaper has released tickets, then try again.
    Parked,
    /// The submission ring is full. Nothing was changed: submit what is
    /// staged, then try again.
    Full,
    /// The operation is staged.
    Ready(Staging),
}

/// Which of the three ways an attempt to stage an operation goes.
pub enum Turn {
    /// No ticket is free.
    Parked,
    /// A ticket is free, but the submission ring has no room.
    Full,
    /// The operation can be staged.
    Go,
}

/// The state of a ring.
pub struct UringView {
    /// The submission half.
    pub sq: Sq,
    /// The free tickets; the last is handed out next.
    pub free: Seq<usize>,
    /// The in-flight table.
    pub slots: Seq<Slot>,
    /// The shared states of the completions.
    pub completions: Map<u64, CompletionState>,
    /// The ring's setup flags, as the kernel returned them.
    pub flags: u32,
    /// The ring's file descriptor.
    pub ring_fd: i32,
    /// The configuration that the ring was started with.
    pub config: Config,
    /// How many operations have been staged.
    pub loaded: u64,
    /// How many operations the kernel has confirmed taking.
    pub submitted: u64,
    /// How many operations were published and not confirmed yet.
    pub unconfirmed: u64,
    /// The sequence numbers of the operations, in the order in which they
    /// entered the submission queue.
    pub enqueued: Seq<u64>,
}

impl UringView {
    /// The ring is consistent: the tickets handed out are exactly those of
    /// the occupied slots; every operation in flight has a pending shared
    /// state of its own, under a sequence number that was handed out; the
    /// submission cursor has moved once for every operation staged; the
    /// operations carry the numbers 1, 2, 3 and so on in the order in which
    /// they were enqueued; and every operation staged is either confirmed,
    /// or published, or waits to be published.
    pub open spec fn wf(self) -> bool {
        &&& self.sq.wf()
        &&& balanced(self.slots, self.free, Seq::empty())
        &&& paired(self.slots, self.completions)
        &&& numbered(self.slots, self.loaded)
        &&& self.sq.tail() == self.loaded % 0x1_0000_0000
        &&& self.enqueued.len() == self.loaded
        &&& forall|i: int| 0 <= i < self.enqueued.len() ==> #[trigger] self.enqueued[i] == i + 1
        &&& if polled(self.flags) {
            self.submitted == 0 && self.unconfirmed == 0 && self.sq.head() == 0
        } else {
            self.sq.staged() <= self.sq.entries() && self.submitted + self.unconfirmed
                + self.sq.staged() == self.loaded
        }
    }

    /// The number of operations in flight.
    pub open spec fn outstanding(self) -> int {
        self.slots.len() - self.free.len()
    }

    /// Which way an attempt to stage an operation goes: there must be a
    /// free ticket, and room in the submission ring.
    pub open spec fn turn(self, khead: u32) -> Turn {
        if self.free.len() == 0 {
            Turn::Parked
        } else if !self.sq.has_room(self.flags, khead) {
            Turn::Full
        } else {
            Turn::Go
        }
    }

    /// The ticket that the next operation gets.
    pub open spec fn next_ticket(self) -> usize {
        self.free.last()
    }

    /// The sequence number that the next operation gets.
    pub open spec fn next_id(self) -> u64 {
        (self.loaded + 1) as u64
    }

    /// The entry of the next operation before the operation is written
    /// into it: it holds the ticket, and the address that the in-flight
    /// table hands out.
    pub open spec fn base_sqe(self, iovec: Option<IoVec>, msghdr: bool) -> Sqe {
        Sqe {
            user_data: self.next_ticket() as u64,
            addr: self.slots[self.next_ticket() as int].handed(iovec, msghdr),
            ..Sqe::zero()
        }
    }

    /// The ring after the next operation was staged.
    pub open spec fn staged(
        self,
        iovec: Option<IoVec>,
        address: Option<RawAddr>,
        msghdr: bool,
    ) -> UringView {
        let ticket = self.next_ticket() as int;
        UringView {
            sq: self.sq.taken(),
            free: self.free.drop_last(),
            slots: self.slots.update(
                ticket,
                self.slots[ticket].armed(iovec, address, msghdr, Filler::of(self.next_id())),
            ),
            completions: self.completions.insert(self.next_id(), CompletionState::fresh()),
            loaded: self.next_id(),
            enqueued: self.enqueued.push(self.next_id()),
            ..self
        }
    }

    /// What staging hands out for the next operation.
    pub open spec fn staging(self, iovec: Option<IoVec>, msghdr: bool, prep: Prep) -> Staging {
        Staging {
            completion: Completion::of(self.next_id()),
            ticket: self.next_ticket(),
            index: self.sq.tail() & self.sq.mask(),
            sqe: prep.applied(self.base_sqe(iovec, msghdr)),
        }
    }

    /// The ring after everything staged was published, when no kernel
    /// thread polls; with one, nothing changes.
    pub open spec fn flushed(self) -> UringView {
        if polled(self.flags) {
            self
        } else {
            UringView {
                sq: self.sq.flushed(),
                unconfirmed: (self.unconfirmed + self.sq.staged()) as u64,
                ..self
            }
        }
    }

    /// The ring after the kernel confirmed taking `flushed` operations. No
    /// more is credited than was published.
    pub open spec fn credited(self, flushed: u32) -> UringView {
        let taken = if flushed <= self.unconfirmed {
            flushed as u64
        } else {
            self.unconfirmed
        };
        UringView {
            submitted: (self.submitted + taken) as u64,
            unconfirmed: (self.unconfirmed - taken) as u64,
            ..self
        }
    }

    /// Whether operation `sqe_id` counts as handed to the kernel. With a
    /// polling kernel thread every staged operation does.
    pub open spec fn is_submitted(self, sqe_id: u64) -> bool {
        polled(self.flags) || self.submitted >= sqe_id
    }
}

/// The tickets of the occupied slots.
pub open spec fn occupied(slots: Seq<Slot>) -> Set<int> {
    Set::new(|t: int| 0 <= t < slots.len() && slots[t].filler is Some)
}

/// The tickets below `bound` that are members of `tickets`.
pub open spec fn members(tickets: Seq<usize>, bound: nat) -> Set<int> {
    Set::new(|t: int| 0 <= t < bound && tickets.contains(t as usize))
}

/// Distinct tickets below a bound make a set of as many members.
pub proof fn lemma_members_count(tickets: Seq<usize>, bound: nat)
    requires
        bound <= usize::MAX,
        tickets.no_duplicates(),
        all_below(tickets, bound),
    ensures
        members(tickets, bound).finite(),
        members(tickets, bound).len() == tickets.len(),
    decreases tickets.len(),
{
    if tickets.len() == 0 {
        assert(members(tickets, bound) =~= Set::empty());
    } else {
        let last = tickets.last();
        let rest = tickets.drop_last();
        assert(last == tickets[tickets.len() - 1]);
        assert(last < bound);
        assert forall|i: int| 0 <= i < rest.len() implies #[trigger] rest[i] < bound by {
            assert(rest[i] == tickets[i]);
        }
        assert(rest.no_duplicates()) by {
            assert forall|i: int, j: int|
                0 <= i < rest.len() && 0 <= j < rest.len() && i != j implies rest[i] != rest[j] by {
                assert(rest[i] == tickets[i] && rest[j] == tickets[j]);
            }
        }
        lemma_members_count(rest, bound);
        assert(!rest.contains(last)) by {
            if rest.contains(last) {
                let k = choose|k: int| 0 <= k < rest.len() && rest[k] == last;
                assert(tickets[k] == last);
            }
        }
        assert(members(tickets, bound) =~= members(rest, bound).insert(last as int)) by {
            assert forall|t: int| members(tickets, bound).contains(t) implies members(
                rest,
                bound,
            ).insert(last as int).contains(t) by {
                let k = choose|k: int| 0 <= k < tickets.len() && tickets[k] == t as usize;
                if k < rest.len() {
                    assert(rest[k] == t as usize);
                }
            }
            assert forall|t: int|
                members(rest, bound).insert(last as int).contains(t) implies members(
                tickets,
                bound,
            ).contains(t) by {
                if t == last as int {
                    assert(tickets[tickets.len() - 1] == t as usize);
                } else {
                    let k = choose|k: int| 0 <= k < rest.len() && rest[k] == t as usize;
                    assert(tickets[k] == t as usize);
                }
            }
        }
    }
}

impl UringView {
    /// The operations in flight are never more than the completion queue
    /// has room for: there is one in-flight slot for each entry of the
    /// completion queue, the operations in flight are those of the
    /// occupied slots, and their number is the number of tickets that are
    /// handed out, which lies between zero and the number of slots.
    pub proof fn lemma_outstanding_bounded(self)
        requires
            self.wf(),
        ensures
            0 <= self.outstanding() <= self.slots.len(),
            occupied(self.slots).finite(),
            occupied(self.slots).len() == self.outstanding(),
    {
        let n = self.slots.len();
        assert(self.free + Seq::<usize>::empty() =~= self.free);
        lemma_distinct_below(self.free, n);
        lemma_members_count(self.free, n);
        lemma_int_range(0, n as int);
        let all = set_int_range(0, n as int);
        let free = members(self.free, n);
        assert(occupied(self.slots) =~= all.difference(free));
        assert(all.intersect(free) =~= free);
        lemma_set_difference_len(all, free);
        lemma_len_subset(all.difference(free), all);
    }

    /// Operations enter the submission queue in the order of their
    /// sequence numbers: of two operations, the one with the smaller number
    /// was enqueued first.
    pub proof fn lemma_enqueued_in_order(self, first: int, second: int)
        requires
            self.wf(),
            0 <= first < self.enqueued.len(),
            0 <= second < self.enqueued.len(),
            self.enqueued[first] < self.enqueued[second],
        ensures
            first < second,
    {
    }

    /// Staging an operation enqueues it behind every operation staged
    /// before, under the next sequence number, and in the slot of the
    /// submission array that the cursor selects after as many steps as
    /// operations were staged before.
    pub proof fn lemma_staged_is_last(
        self,
        iovec: Option<IoVec>,
        address: Option<RawAddr>,
        msghdr: bool,
        prep: Prep,
    )
        requires
            self.wf(),
            self.loaded < u64::MAX,
        ensures
            self.staged(iovec, address, msghdr).enqueued.last() == self.next_id(),
            forall|i: int|
                0 <= i < self.enqueued.len() ==> #[trigger] self.enqueued[i] < self.next_id()
                    && self.staged(iovec, address, msghdr).enqueued[i] == self.enqueued[i],
            self.staging(iovec, msghdr, prep).completion == Completion::of(self.next_id()),
            self.staging(iovec, msghdr, prep).index == (((self.next_id() - 1)
                % 0x1_0000_0000) as u32) & self.sq.mask(),
    {
    }

    /// Staging an operation leaves the ring consistent.
    pub proof fn lemma_staging_keeps_wf(
        self,
        iovec: Option<IoVec>,
        address: Option<RawAddr>,
        msghdr: bool,
        khead: u32,
    )
        requires
            self.wf(),
            self.loaded < u64::MAX,
            self.turn(khead) is Go,
        ensures
            self.staged(iovec, address, msghdr).wf(),
            self.staged(iovec, address, msghdr).slots.len() == self.slots.len(),
    {
        let after = self.staged(iovec, address, msghdr);
        let ticket = self.next_ticket() as int;
        let sqe_id = self.next_id();
        self.sq.lemma_cursors();
        assert(self.free + Seq::<usize>::empty() =~= self.free);
        assert(after.free + Seq::<usize>::empty() =~= after.free);
        assert(self.free[self.free.len() - 1] == ticket);
        assert(0 <= ticket < self.slots.len());
        assert(after.free.no_duplicates() && all_below(after.free, after.slots.len())) by {
            assert forall|i: int, j: int|
                0 <= i < after.free.len() && 0 <= j < after.free.len() && i != j implies after.free[i]
                != after.free[j] by {
                assert(after.free[i] == self.free[i] && after.free[j] == self.free[j]);
            }
            assert forall|i: int| 0 <= i < after.free.len() implies #[trigger] after.free[i]
                < after.slots.len() by {
                assert(after.free[i] == self.free[i]);
            }
        }
        assert(!after.free.contains(ticket as usize)) by {
            if after.free.contains(ticket as usize) {
                let k = choose|k: int| 0 <= k < after.free.len() && after.free[k] == ticket as usize;
                assert(self.free[k] == self.free[self.free.len() - 1]);
            }
        }
        assert forall|t: int| 0 <= t < after.slots.len() implies ((
        #[trigger] after.slots[t]).filler is Some <==> !after.free.contains(t as usize)) by {
            if t != ticket {
                assert(after.slots[t] == self.slots[t]);
                if self.free.contains(t as usize) {
                    let k = choose|k: int| 0 <= k < self.free.len() && self.free[k] == t as usize;
                    assert(k < after.free.len());
                    assert(after.free[k] == t as usize);
                }
                if after.free.contains(t as usize) {
                    let k = choose|k: int|
                        0 <= k < after.free.len() && after.free[k] == t as usize;
                    assert(self.free[k] == t as usize);
                }
            }
        }
        if !polled(self.flags) {
            self.sq.lemma_staged_bounded(self.flags, khead);
        }
        Filler::lemma_of_id(sqe_id);
        assert forall|t: int|
            0 <= t < after.slots.len() && (#[trigger] after.slots[t]).filler is Some implies {
            let id = after.slots[t].filler.unwrap().id();
            &&& 1 <= id <= after.loaded
            &&& after.completions.contains_key(id)
            &&& !after.completions[id].done
            &&& after.completions[id].item is None
        } by {
            if t != ticket {
                assert(after.slots[t] == self.slots[t]);
            }
        }
        assert forall|a: int, b: int|
            0 <= a < after.slots.len() && 0 <= b < after.slots.len() && a != b && (
            #[trigger] after.slots[a]).filler is Some && (#[trigger] after.slots[b]).filler
                is Some implies after.slots[a].filler.unwrap().id()
            != after.slots[b].filler.unwrap().id() by {
            if a != ticket {
                assert(after.slots[a] == self.slots[a]);
            }
            if b != ticket {
                assert(after.slots[b] == self.slots[b]);
            }
        }
    }

    /// Staging an operation leaves every operation in flight alone: the
    /// slot of an operation in flight, with its vector, its message header
    /// and its filler, stays as it is, since the new operation moves into a
    /// slot whose ticket was free. And no slot's cells ever move.
    pub proof fn lemma_staging_spares_in_flight(
        self,
        iovec: Option<IoVec>,
        address: Option<RawAddr>,
        msghdr: bool,
        t: int,
    )
        requires
            self.wf(),
            self.free.len() > 0,
            0 <= t < self.slots.len(),
        ensures
            self.staged(iovec, address, msghdr).slots[t].cell == self.slots[t].cell,
            self.slots[t].filler is Some ==> self.staged(iovec, address, msghdr).slots[t]
                == self.slots[t],
    {
        let ticket = self.next_ticket();
        assert(self.free + Seq::<usize>::empty() =~= self.free);
        assert(self.free[self.free.len() - 1] == ticket);
        assert(self.free.contains(ticket));
    }

    /// With every ticket handed out, the next operation has to wait.
    pub proof fn lemma_saturated_parks(self, khead: u32)
        requires
            self.outstanding() == self.slots.len(),
        ensures
            self.turn(khead) is Parked,
    {
    }

    /// After a round of reaping that consumed at least one entry, the next
    /// operation need not wait for a ticket.
    pub proof fn lemma_reaping_unparks(
        self,
        cq: Cq,
        ktail: u32,
        ring: Seq<u8>,
        peers: Seq<Option<SockAddr>>,
        khead: u32,
    )
        requires
            cq.round(ktail, ring, peers, self.slots, self.completions).1 >= 1,
        ensures
            !((UringView {
                slots: cq.round(ktail, ring, peers, self.slots, self.completions).0.slots,
                completions: cq.round(
                    ktail,
                    ring,
                    peers,
                    self.slots,
                    self.completions,
                ).0.completions,
                free: self.free + cq.round(
                    ktail,
                    ring,
                    peers,
                    self.slots,
                    self.completions,
                ).0.released,
                ..self
            }).turn(khead) is Parked),
    {
        lemma_reap_releases(
            Ledger { slots: self.slots, completions: self.completions, released: Seq::empty() },
            cq.pending(ktail, ring),
            peers,
        );
    }

    /// A full submission ring is no dead end: once everything staged has
    /// been published, there is room again, unless a polling kernel thread
    /// lags behind.
    pub proof fn lemma_flush_makes_room(self, khead: u32)
        requires
            self.wf(),
            !polled(self.flags),
        ensures
            !(self.flushed().turn(khead) is Full),
    {
        self.sq.lemma_flush_makes_room(self.flags, khead);
    }

    /// Pushing what is staged to the kernel covers every operation staged
    /// so far: when no kernel thread polls and nothing published earlier
    /// is still unconfirmed, then after a submission and its credit every
    /// sequence number handed out counts as submitted.
    pub proof fn lemma_push_submits(self, sqe_id: u64)
        requires
            self.wf(),
            !polled(self.flags),
            self.unconfirmed == 0,
            sqe_id <= self.loaded,
        ensures
            self.flushed().credited(self.sq.staged()).submitted == self.loaded,
            self.flushed().credited(self.sq.staged()).is_submitted(sqe_id),
    {
        self.sq.lemma_cursors();
    }

    /// The kernel is never credited with more than was staged.
    pub proof fn lemma_submitted_bounded(self)
        requires
            self.wf(),
        ensures
            self.submitted <= self.loaded,
    {
    }
}

/// Whether `staged`, with the ring going from `before` to `after`, is what
/// the attempt to stage the operation `prep` comes to: without a free
/// ticket, or without room in the submission ring, nothing changes and the
/// attempt says which is missing; else the operation is staged.
pub open spec fn stages(
    before: UringView,
    after: UringView,
    staged: Staged,
    iovec: Option<IoVec>,
    address: Option<RawAddr>,
    msghdr: bool,
    prep: Prep,
    khead: u32,
) -> bool {
    match before.turn(khead) {
        Turn::Parked => staged is Parked && after == before,
        Turn::Full => staged is Full && after == before,
        Turn::Go => staged == Staged::Ready(before.staging(iovec, msghdr, prep)) && after
            == before.staged(iovec, address, msghdr),
    }
}

/// The flags with which a range of a file is synchronised: start writing
/// the dirty pages out, and wait until they are written.
pub const SYNC_RANGE_FLAGS: u32 = 6;

/// `libc::SYNC_FILE_RANGE_WRITE`: the flag of `sync_file_range` that starts
/// writing out the dirty pages of the range. On Linux it is 2.
#[verifier::external_body]
fn sync_file_range_write() -> (flag: u32)
    ensures
        flag == 2,
{
    libc::SYNC_FILE_RANGE_WRITE
}

/// `libc::SYNC_FILE_RANGE_WAIT_AFTER`: the flag of `sync_file_range` that
/// waits until the pages of the range are written out. On Linux it is 4.
#[verifier::external_body]
fn sync_file_range_wait_after() -> (flag: u32)
    ensures
        flag == 4,
{
    libc::SYNC_FILE_RANGE_WAIT_AFTER
}

/// The ring.
pub struct Uring {
    sq: Sq,
    ticket_queue: TicketQueue,
    in_flight: InFlight,
    completions: Completions,
    flags: u32,
    ring_fd: i32,
    config: Config,
    loaded: u64,
    submitted: u64,
    unconfirmed: u64,
    enqueued: Ghost<Seq<u64>>,
}

impl View for Uring {
    type V = UringView;

    closed spec fn view(&self) -> UringView {
        UringView {
            sq: self.sq,
            free: self.ticket_queue@,
            slots: self.in_flight@,
            completions: self.completions@,
            flags: self.flags,
            ring_fd: self.ring_fd,
            config: self.config,
            loaded: self.loaded,
            submitted: self.submitted,
            unconfirmed: self.unconfirmed,
            enqueued: self.enqueued@,
        }
    }
}

impl Uring {
    /// There are as many tickets as slots.
    pub closed spec fn sized(&self) -> bool {
        self.ticket_queue.capacity() == self.in_flight@.len()
    }

    /// The ring is consistent, and there are as many tickets as slots.
    pub open spec fn wf(&self) -> bool {
        self@.wf() && self.sized()
    }

    /// The ring that the kernel described in `params`, with descriptor
    /// `ring_fd`, the submission ring's index mask as read from the mapped
    /// ring, and one in-flight slot over each of `cells`. There must be one
    /// slot for each entry of the completion queue, so that the completion
    /// queue has room for everything in flight; and the submission ring must
    /// be one that its mask can index.
    pub fn new(
        config: Config,
        params: &Params,
        ring_fd: i32,
        sq_mask: u32,
        cells: Vec<Cell>,
    ) -> (made: Result<Uring, SetupError>)
        ensures
            made is Ok <==> cells@.len() == params.cq_entries && params.sq_entries >= 1
                && is_power_of_two(params.sq_entries as nat) && sq_mask == params.sq_entries - 1,
            made matches Err(e) ==> e == SetupError::MalformedRing,
            made matches Ok(ring) ==> {
                &&& ring.wf()
                &&& ring@.sq.entries() == params.sq_entries
                &&& ring@.sq.mask() == sq_mask
                &&& ring@.sq.head() == 0
                &&& ring@.sq.tail() == 0
                &&& ring@.free == Seq::new(cells@.len(), |i: int| i as usize)
                &&& ring@.slots.len() == cells@.len()
                &&& forall|t: int|
                    0 <= t < cells@.len() ==> #[trigger] ring@.slots[t] == Slot::vacant(cells@[t])
                &&& ring@.completions == Map::<u64, CompletionState>::empty()
                &&& ring@.flags == params.flags
                &&& ring@.ring_fd == ring_fd
                &&& ring@.config == config
                &&& ring@.loaded == 0
                &&& ring@.submitted == 0
                &&& ring@.unconfirmed == 0
                &&& ring@.enqueued == Seq::<u64>::empty()
                &&& ring@.outstanding() == 0
            },
    {
        if cells.len() as u64 != params.cq_entries as u64 {
            return Err(SetupError::MalformedRing);
        }
        let sq = match Sq::new(params, sq_mask) {
            Ok(sq) => sq,
            Err(e) => { return Err(e); },
        };
        let size: usize = cells.len();
        let in_flight = InFlight::new(cells);
        let ticket_queue = TicketQueue::new(size);
        let ring = Uring {
            sq,
            ticket_queue,
            in_flight,
            completions: Completions::new(),
            flags: params.flags,
            ring_fd,
            config,
            loaded: 0,
            submitted: 0,
            unconfirmed: 0,
            enqueued: Ghost(Seq::empty()),
        };
        proof {
            let free = ring.ticket_queue@;
            assert(free + Seq::<usize>::empty() =~= free);
            assert forall|t: int| 0 <= t < ring.in_flight@.len() implies ((
            #[trigger] ring.in_flight@[t]).filler is Some <==> !free.contains(t as usize)) by {
                assert(free[t] == t as usize);
            }
        }
        Ok(ring)
    }

    /// How many operations have been staged.
    pub fn loaded(&self) -> (loaded: u64)
        ensures
            loaded == self@.loaded,
    {
        self.loaded
    }

    /// How many operations the kernel has confirmed taking.
    pub fn submitted(&self) -> (submitted: u64)
        ensures
            submitted == self@.submitted,
    {
        self.submitted
    }

    /// The ring's setup flags.
    pub fn flags(&self) -> (flags: u32)
        ensures
            flags == self@.flags,
    {
        self.flags
    }

    /// The ring's file descriptor.
    pub fn ring_fd(&self) -> (fd: i32)
        ensures
            fd == self@.ring_fd,
    {
        self.ring_fd
    }

    /// The configuration that the ring was started with.
    pub fn config(&self) -> (config: Config)
        ensures
            config == self@.config,
    {
        self.config
    }

    /// The number of in-flight slots, which is the number of tickets.
    pub fn capacity(&self) -> (capacity: usize)
        ensures
            capacity == self@.slots.len(),
    {
        self.in_flight.size()
    }

    /// The number of free tickets.
    pub fn free_tickets(&self) -> (free: usize)
        ensures
            free == self@.free.len(),
    {
        self.ticket_queue.len()
    }

    /// What the vector and the message header cell of slot `ticket` hold,
    /// to be written to the cells before the operation is submitted.
    pub fn cells(&self, ticket: usize) -> (held: Option<(IoVec, MsgHdr)>)
        ensures
            held == (if ticket < self@.slots.len() {
                Some((self@.slots[ticket as int].iovec, self@.slots[ticket as int].msghdr))
            } else {
                None
            }),
    {
        if ticket < self.in_flight.size() {
            Some((self.in_flight.iovec(ticket), self.in_flight.msghdr(ticket)))
        } else {
            None
        }
    }

    /// Stages an operation: takes a ticket, numbers the operation, creates
    /// its completion, moves it into the in-flight table, takes the next
    /// entry of the submission ring and describes the operation there.
    /// `khead` is the ring's head as the kernel last published it.
    ///
    /// Without a free ticket, or without room in the ring, nothing happens
    /// and the result says what to wait for. The sequence numbers must not
    /// be used up, which takes 2^64 operations.
    pub fn with_sqe(
        &mut self,
        iovec: Option<IoVec>,
        address: Option<RawAddr>,
        msghdr: bool,
        prep: Prep,
        khead: u32,
    ) -> (staged: Staged)
        requires
            old(self).wf(),
            old(self)@.loaded < u64::MAX,
        ensures
            final(self).wf(),
            stages(old(self)@, final(self)@, staged, iovec, address, msghdr, prep, khead),
    {
        if self.ticket_queue.is_empty() {
            return Staged::Parked;
        }
        let index: u32 = match self.sq.try_get_sqe(self.flags, khead) {
            Some(index) => index,
            None => { return Staged::Full; },
        };
        let ticket: usize = match self.ticket_queue.pop() {
            Some(ticket) => ticket,
            None => { return Staged::Parked; },
        };
        let sqe_id: u64 = self.loaded + 1;
        self.loaded = sqe_id;
        let (completion, filler) = pair(&mut self.completions, sqe_id);
        let handed: u64 = self.in_flight.insert(ticket, iovec, address, msghdr, filler);
        let mut sqe = Sqe::zeroed();
        sqe.user_data = ticket as u64;
        sqe.addr = handed;
        prep.apply(&mut sqe);
        proof {
            self.enqueued@ = self.enqueued@.push(sqe_id);
            let before = old(self)@;
            before.sq.lemma_cursors();
            assert(self@ == before.staged(iovec, address, msghdr));
            before.lemma_staging_keeps_wf(iovec, address, msghdr, khead);
        }
        Staged::Ready(Staging { completion, ticket, index, sqe })
    }

    /// Stages the acceptance of a connection on the listening socket `fd`.
    /// On success the result is the new connection's descriptor.
    pub fn accept(&mut self, fd: i32, khead: u32) -> (staged: Staged)
        requires
            old(self).wf(),
            old(self)@.loaded < u64::MAX,
        ensures
            final(self).wf(),
            stages(
                old(self)@,
                final(self)@,
                staged,
                None,
                None,
                false,
                Prep::plain(IORING_OP_ACCEPT, fd, 0, 0, Order::Unordered),
                khead,
            ),
    {
        self.with_sqe(
            None,
            None,
            false,
            Prep::new(IORING_OP_ACCEPT, fd, 0, 0, Order::Unordered),
            khead,
        )
    }

    /// Stages the sending of the buffer `iov` on the socket `fd`. The
    /// result is the number of bytes sent.
    pub fn send(&mut self, fd: i32, iov: IoVec, khead: u32) -> (staged: Staged)
        requires
            old(self).wf(),
            old(self)@.loaded < u64::MAX,
            iov.len <= u32::MAX,
        ensures
            final(self).wf(),
            stages(
                old(self)@,
                final(self)@,
                staged,
                None,
                None,
                true,
                Uring::send_prep(fd, iov, Order::Unordered),
                khead,
            ),
    {
        self.send_ordered(fd, iov, Order::Unordered, khead)
    }

    /// What sending writes into the entry: the buffer itself is handed to
    /// the kernel, with its length.
    pub open spec fn send_prep(fd: i32, iov: IoVec, order: Order) -> Prep {
        Prep {
            opcode: IORING_OP_SEND,
            fd,
            len: iov.len as u32,
            off: 0,
            order,
            op_flags: 0,
            addr: Some(iov.base),
            poison: false,
        }
    }

    /// Stages the sending of the buffer `iov` on the socket `fd`, ordered
    /// as `order` says. The result is the number of bytes sent.
    pub fn send_ordered(&mut self, fd: i32, iov: IoVec, order: Order, khead: u32) -> (staged:
        Staged)
        requires
            old(self).wf(),
            old(self)@.loaded < u64::MAX,
            iov.len <= u32::MAX,
        ensures
            final(self).wf(),
            stages(
                old(self)@,
                final(self)@,
                staged,
                None,
                None,
                true,
                Uring::send_prep(fd, iov, order),
                khead,
            ),
    {
        let prep = Prep {
            opcode: IORING_OP_SEND,
            fd,
            len: iov.len as u32,
            off: 0,
            order,
            op_flags: 0,
            addr: Some(iov.base),
            poison: false,
        };
        self.with_sqe(None, None, true, prep, khead)
    }

    /// Stages the receiving of data from the socket `fd` into the buffer
    /// `iov`. The result is the number of bytes received.
    pub fn recv(&mut self, fd: i32, iov: IoVec, khead: u32) -> (staged: Staged)
        requires
            old(self).wf(),
            old(self)@.loaded < u64::MAX,
            iov.len <= u32::MAX,
        ensures
            final(self).wf(),
            stages(
                old(self)@,
                final(self)@,
                staged,
                Some(iov),
                None,
                true,
                Prep::plain(IORING_OP_RECV, fd, iov.len as u32, 0, Order::Unordered),
                khead,
            ),
    {
        self.recv_ordered(fd, iov, Order::Unordered, khead)
    }

    /// Stages the receiving of data from the socket `fd` into the buffer
    /// `iov`, ordered as `order` says. The buffer goes into the slot's
    /// vector, behind the slot's message header. The result is the number
    /// of bytes received.
    pub fn recv_ordered(&mut self, fd: i32, iov: IoVec, order: Order, khead: u32) -> (staged:
        Staged)
        requires
            old(self).wf(),
            old(self)@.loaded < u64::MAX,
            iov.len <= u32::MAX,
        ensures
            final(self).wf(),
            stages(
                old(self)@,
                final(self)@,
                staged,
                Some(iov),
                None,
                true,
                Prep::plain(IORING_OP_RECV, fd, iov.len as u32, 0, order),
                khead,
            ),
    {
        self.with_sqe(
            Some(iov),
            None,
            true,
            Prep::new(IORING_OP_RECV, fd, iov.len as u32, 0, order),
            khead,
        )
    }

    /// Stages the sending of the buffer `iov` as one message on the socket
    /// `fd` to the address at `to`. The buffer goes into the slot's vector,
    /// and the slot's message header names the vector and the address. The
    /// result is the number of bytes sent.
    pub fn send_to(&mut self, fd: i32, iov: IoVec, to: RawAddr, khead: u32) -> (staged: Staged)
        requires
            old(self).wf(),
            old(self)@.loaded < u64::MAX,
        ensures
            final(self).wf(),
            stages(
                old(self)@,
                final(self)@,
                staged,
                Some(iov),
                Some(to),
                true,
                Prep::plain(IORING_OP_SENDMSG, fd, 1, 0, Order::Unordered),
                khead,
            ),
    {
        self.with_sqe(
            Some(iov),
            Some(to),
            true,
            Prep::new(IORING_OP_SENDMSG, fd, 1, 0, Order::Unordered),
            khead,
        )
    }

    /// Stages the receiving of one message from the socket `fd` into the
    /// buffer `iov`. The slot's message header names the slot's vector and
    /// the slot's peer cell, where the kernel leaves the sender's address.
    /// The result is the number of bytes received, with that address.
    pub fn recv_from(&mut self, fd: i32, iov: IoVec, khead: u32) -> (staged: Staged)
        requires
            old(self).wf(),
            old(self)@.loaded < u64::MAX,
        ensures
            final(self).wf(),
            stages(
                old(self)@,
                final(self)@,
                staged,
                Some(iov),
                None,
                true,
                Prep::plain(IORING_OP_RECVMSG, fd, 1, 0, Order::Unordered),
                khead,
            ),
    {
        self.with_sqe(
            Some(iov),
            None,
            true,
            Prep::new(IORING_OP_RECVMSG, fd, 1, 0, Order::Unordered),
            khead,
        )
    }

    /// Stages the flushing of all buffered writes to the file `fd`, with
    /// the metadata that belongs to them.
    pub fn fsync(&mut self, fd: i32, khead: u32) -> (staged: Staged)
        requires
            old(self).wf(),
            old(self)@.loaded < u64::MAX,
        ensures
            final(self).wf(),
            stages(
                old(self)@,
                final(self)@,
                staged,
                None,
                None,
                false,
                Prep::plain(IORING_OP_FSYNC, fd, 0, 0, Order::Unordered),
                khead,
            ),
    {
        self.fsync_ordered(fd, Order::Unordered, khead)
    }

    /// Stages the flushing of all buffered writes to the file `fd`, with
    /// the metadata that belongs to them, ordered as `order` says.
    pub fn fsync_ordered(&mut self, fd: i32, order: Order, khead: u32) -> (staged: Staged)
        requires
            old(self).wf(),
            old(self)@.loaded < u64::MAX,
        ensures
            final(self).wf(),
            stages(
                old(self)@,
                final(self)@,
                staged,
                None,
                None,
                false,
                Prep::plain(IORING_OP_FSYNC, fd, 0, 0, order),
                khead,
            ),
    {
        self.with_sqe(None, None, false, Prep::new(IORING_OP_FSYNC, fd, 0, 0, order), khead)
    }

    /// What a data-only sync writes into the entry: an fsync with the
    /// data-sync flag among the operation's flags.
    pub open spec fn fdatasync_prep(fd: i32, order: Order) -> Prep {
        Prep { op_flags: IORING_FSYNC_DATASYNC, ..Prep::plain(IORING_OP_FSYNC, fd, 0, 0, order) }
    }

    /// Stages the flushing of all buffered writes to the file `fd`, with
    /// only the metadata that is needed to read them back.
    pub fn fdatasync(&mut self, fd: i32, khead: u32) -> (staged: Staged)
        requires
            old(self).wf(),
            old(self)@.loaded < u64::MAX,
        ensures
            final(self).wf(),
            stages(
                old(self)@,
                final(self)@,
                staged,
                None,
                None,
                false,
                Uring::fdatasync_prep(fd, Order::Unordered),
                khead,
            ),
    {
        self.fdatasync_ordered(fd, Order::Unordered, khead)
    }

    /// Stages the flushing of all buffered writes to the file `fd`, with
    /// only the metadata that is needed to read them back, ordered as
    /// `order` says.
    pub fn fdatasync_ordered(&mut self, fd: i32, order: Order, khead: u32) -> (staged: Staged)
        requires
            old(self).wf(),
            old(self)@.loaded < u64::MAX,
        ensures
            final(self).wf(),
            stages(
                old(self)@,
                final(self)@,
                staged,
                None,
                None,
                false,
                Uring::fdatasync_prep(fd, order),
                khead,
            ),
    {
        let mut prep = Prep::new(IORING_OP_FSYNC, fd, 0, 0, order);
        prep.op_flags = IORING_FSYNC_DATASYNC;
        self.with_sqe(None, None, false, prep, khead)
    }

    /// What synchronising a range writes into the entry: the range, and
    /// among the operation's flags those that start the write-out and wait
    /// for it to finish.
    pub open spec fn sync_file_range_prep(fd: i32, offset: u64, len: usize, order: Order) -> Prep {
        Prep {
            op_flags: SYNC_RANGE_FLAGS,
            ..Prep::plain(IORING_OP_SYNC_FILE_RANGE, fd, len as u32, offset, order)
        }
    }

    /// Stages the synchronisation of `len` bytes of the file `fd` from
    /// `offset` on. Metadata is not synchronised.
    pub fn sync_file_range(&mut self, fd: i32, offset: u64, len: usize, khead: u32) -> (staged:
        Staged)
        requires
            old(self).wf(),
            old(self)@.loaded < u64::MAX,
            len <= u32::MAX,
        ensures
            final(self).wf(),
            stages(
                old(self)@,
                final(self)@,
                staged,
                None,
                None,
                false,
                Uring::sync_file_range_prep(fd, offset, len, Order::Unordered),
                khead,
            ),
    {
        self.sync_file_range_ordered(fd, offset, len, Order::Unordered, khead)
    }

    /// Stages the synchronisation of `len` bytes of the file `fd` from
    /// `offset` on, ordered as `order` says. Metadata is not synchronised.
    pub fn sync_file_range_ordered(
        &mut self,
        fd: i32,
        offset: u64,
        len: usize,
        order: Order,
        khead: u32,
    ) -> (staged: Staged)
        requires
            old(self).wf(),
            old(self)@.loaded < u64::MAX,
            len <= u32::MAX,
        ensures
            final(self).wf(),
            stages(
                old(self)@,
                final(self)@,
                staged,
                None,
                None,
                false,
                Uring::sync_file_range_prep(fd, offset, len, order),
                khead,
            ),
    {
        let write: u32 = sync_file_range_write();
        let wait_after: u32 = sync_file_range_wait_after();
        assert(2u32 | 4u32 == 6u32) by (bit_vector);
        let mut prep = Prep::new(IORING_OP_SYNC_FILE_RANGE, fd, len as u32, offset, order);
        prep.op_flags = write | wait_after;
        self.with_sqe(None, None, false, prep, khead)
    }

    /// Stages the writing of the buffer `iov` to the file `fd` at offset
    /// `at`. The result is the number of bytes written, which may be
    /// fewer than the buffer holds.
    pub fn write_at(&mut self, fd: i32, iov: IoVec, at: u64, khead: u32) -> (staged: Staged)
        requires
            old(self).wf(),
            old(self)@.loaded < u64::MAX,
        ensures
            final(self).wf(),
            stages(
                old(self)@,
                final(self)@,
                staged,
                Some(iov),
                None,
                false,
                Prep::plain(IORING_OP_WRITEV, fd, 1, at, Order::Unordered),
                khead,
            ),
    {
        self.write_at_ordered(fd, iov, at, Order::Unordered, khead)
    }

    /// Stages the writing of the buffer `iov` to the file `fd` at offset
    /// `at`, ordered as `order` says. The buffer goes into the slot's
    /// vector, of which the entry names one.
    pub fn write_at_ordered(
        &mut self,
        fd: i32,
        iov: IoVec,
        at: u64,
        order: Order,
        khead: u32,
    ) -> (staged: Staged)
        requires
            old(self).wf(),
            old(self)@.loaded < u64::MAX,
        ensures
            final(self).wf(),
            stages(
                old(self)@,
                final(self)@,
                staged,
                Some(iov),
                None,
                false,
                Prep::plain(IORING_OP_WRITEV, fd, 1, at, order),
                khead,
            ),
    {
        self.with_sqe(
            Some(iov),
            None,
            false,
            Prep::new(IORING_OP_WRITEV, fd, 1, at, order),
            khead,
        )
    }

    /// Stages the reading of the file `fd` at offset `at` into the buffer
    /// `iov`. The result is the number of bytes read, which may be fewer
    /// than the buffer has room for.
    pub fn read_at(&mut self, fd: i32, iov: IoVec, at: u64, khead: u32) -> (staged: Staged)
        requires
            old(self).wf(),
            old(self)@.loaded < u64::MAX,
        ensures
            final(self).wf(),
            stages(
                old(self)@,
                final(self)@,
                staged,
                Some(iov),
                None,
                false,
                Prep::plain(IORING_OP_READV, fd, 1, at, Order::Unordered),
                khead,
            ),
    {
        self.read_at_ordered(fd, iov, at, Order::Unordered, khead)
    }

    /// Stages the reading of the file `fd` at offset `at` into the buffer
    /// `iov`, ordered as `order` says.
    pub fn read_at_ordered(
        &mut self,
        fd: i32,
        iov: IoVec,
        at: u64,
        order: Order,
        khead: u32,
    ) -> (staged: Staged)
        requires
            old(self).wf(),
            old(self)@.loaded < u64::MAX,
        ensures
            final(self).wf(),
            stages(
                old(self)@,
                final(self)@,
                staged,
                Some(iov),
                None,
                false,
                Prep::plain(IORING_OP_READV, fd, 1, at, order),
                khead,
            ),
    {
        self.with_sqe(
            Some(iov),
            None,
            false,
            Prep::new(IORING_OP_READV, fd, 1, at, order),
            khead,
        )
    }

    /// Stages an operation that does nothing.
    pub fn nop(&mut self, khead: u32) -> (staged: Staged)
        requires
            old(self).wf(),
            old(self)@.loaded < u64::MAX,
        ensures
            final(self).wf(),
            stages(
                old(self)@,
                final(self)@,
                staged,
                None,
                None,
                false,
                Prep::plain(IORING_OP_NOP, 0, 1, 0, Order::Unordered),
                khead,
            ),
    {
        self.nop_ordered(Order::Unordered, khead)
    }

    /// Stages an operation that does nothing, ordered as `order` says.
    pub fn nop_ordered(&mut self, order: Order, khead: u32) -> (staged: Staged)
        requires
            old(self).wf(),
            old(self)@.loaded < u64::MAX,
        ensures
            final(self).wf(),
            stages(
                old(self)@,
                final(self)@,
                staged,
                None,
                None,
                false,
                Prep::plain(IORING_OP_NOP, 0, 1, 0, order),
                khead,
            ),
    {
        self.with_sqe(None, None, false, Prep::new(IORING_OP_NOP, 0, 1, 0, order), khead)
    }

    /// What the poison pill writes into the entry: an operation that does
    /// nothing, ordered after everything before it, with every bit of its
    /// ticket flipped.
    pub open spec fn pill() -> Prep {
        Prep { poison: true, ..Prep::plain(IORING_OP_NOP, 0, 1, 0, Order::Drain) }
    }

    /// Stages the poison pill, the last operation of a ring. The kernel
    /// completes it after everything that was submitted before; when the
    /// reaper meets it, the reaper stops.
    pub fn shutdown(&mut self, khead: u32) -> (staged: Staged)
        requires
            old(self).wf(),
            old(self)@.loaded < u64::MAX,
        ensures
            final(self).wf(),
            stages(old(self)@, final(self)@, staged, None, None, false, Uring::pill(), khead),
    {
        let mut prep = Prep::new(IORING_OP_NOP, 0, 1, 0, Order::Drain);
        prep.poison = true;
        self.with_sqe(None, None, false, prep, khead)
    }

    /// Plans the submission of everything staged, as [`Sq::plans`]
    /// describes it. `ktail` and `kflags` are the submission ring's tail and
    /// flags as read from the ring. What is published here counts as
    /// unconfirmed until it is credited.
    pub fn submit_all(&mut self, ktail: u32, kflags: u32) -> (plan: Submit)
        requires
            old(self).wf(),
        ensures
            final(self).wf(),
            final(self)@ == old(self)@.flushed(),
            old(self)@.sq.plans(plan, old(self)@.flags, old(self)@.ring_fd, ktail, kflags),
    {
        let ghost before = self@;
        let plan = self.sq.submit_all(self.flags, self.ring_fd, ktail, kflags);
        proof {
            before.sq.lemma_cursors();
        }
        if (self.flags & IORING_SETUP_SQPOLL) == 0 {
            self.unconfirmed = self.unconfirmed + plan.flushed as u64;
        }
        plan
    }

    /// Credits a submission that the kernel has taken in full: `flushed`
    /// is the count from the plan. `kdropped` is the ring's count of
    /// submissions that the kernel dropped as invalid; it must not have
    /// risen, or the ring is beyond repair.
    pub fn credit(&mut self, flushed: u32, kdropped: u32)
        requires
            old(self).wf(),
            kdropped == 0,
        ensures
            final(self).wf(),
            final(self)@ == old(self)@.credited(flushed),
    {
        let taken: u64 = if flushed as u64 <= self.unconfirmed {
            flushed as u64
        } else {
            self.unconfirmed
        };
        self.submitted = self.submitted + taken;
        self.unconfirmed = self.unconfirmed - taken;
    }

    /// Whether operation `sqe_id` counts as handed to the kernel.
    pub fn is_submitted(&self, sqe_id: u64) -> (yes: bool)
        ensures
            yes == self@.is_submitted(sqe_id),
    {
        (self.flags & IORING_SETUP_SQPOLL) != 0 || self.submitted >= sqe_id
    }

    /// Makes sure that operation `sqe_id` is handed to the kernel. If the
    /// kernel has confirmed it already, there is nothing to do; else
    /// everything staged is submitted, as in [`Uring::submit_all`].
    pub fn ensure_submitted(&mut self, sqe_id: u64, ktail: u32, kflags: u32) -> (plan: Option<
        Submit,
    >)
        requires
            old(self).wf(),
        ensures
            final(self).wf(),
            old(self)@.submitted >= sqe_id ==> plan is None && final(self)@ == old(self)@,
            old(self)@.submitted < sqe_id ==> final(self)@ == old(self)@.flushed() && (
            plan matches Some(p) && old(self)@.sq.plans(
                p,
                old(self)@.flags,
                old(self)@.ring_fd,
                ktail,
                kflags,
            )),
    {
        if self.submitted >= sqe_id {
            None
        } else {
            Some(self.submit_all(ktail, kflags))
        }
    }

    /// One round of the reaper on this ring, as [`Cq::reaper`] runs it:
    /// the results of the ready entries are delivered, their slots vacated
    /// and their tickets released.
    pub fn reap(
        &mut self,
        cq: &mut Cq,
        koverflow: u32,
        ktail: u32,
        ring: &[u8],
        peers: &Vec<Option<SockAddr>>,
    ) -> (round: Reap)
        requires
            old(self).wf(),
            koverflow == 0,
        ensures
            final(self).wf(),
            ({
                let end = old(cq).round(
                    ktail,
                    ring@,
                    peers@,
                    old(self)@.slots,
                    old(self)@.completions,
                );
                &&& final(self)@ == (UringView {
                    slots: end.0.slots,
                    completions: end.0.completions,
                    free: old(self)@.free + end.0.released,
                    ..old(self)@
                })
                &&& final(cq).head() == advanced(old(cq).head(), end.1)
                &&& final(cq).mask() == old(cq).mask()
                &&& final(cq).entries() == old(cq).entries()
                &&& round == old(cq).report(ktail, ring@, end.1)
            }),
    {
        let ghost start = Ledger {
            slots: self@.slots,
            completions: self@.completions,
            released: Seq::empty(),
        };
        let ghost entries = cq.pending(ktail, ring@);
        proof {
            assert(self.ticket_queue@ + Seq::<usize>::empty() =~= self.ticket_queue@);
            lemma_reap_paired(start, entries, peers@);
            assert forall|t: int|
                0 <= t < start.slots.len() && (#[trigger] reaped(
                    start,
                    entries,
                    peers@,
                ).0.slots[t]).filler is Some implies 1 <= reaped(
                start,
                entries,
                peers@,
            ).0.slots[t].filler.unwrap().id() <= self@.loaded by {
                lemma_reap_only_vacates(start, entries, peers@, t);
            }
            lemma_reap_only_vacates_len(start, entries, peers@);
        }
        let round = cq.reaper(
            koverflow,
            ktail,
            ring,
            peers,
            &mut self.in_flight,
            &mut self.ticket_queue,
            &mut self.completions,
        );
        proof {
            assert(self.ticket_queue@ + Seq::<usize>::empty() =~= self.ticket_queue@);
        }
        round
    }

    /// Looks for the result of `completion` without blocking, as
    /// [`Completion::wait_inner`] does.
    pub fn wait_inner(&mut self, completion: &Completion) -> (found: Waited)
        requires
            old(self).wf(),
        ensures
            final(self).wf(),
            found == wait_result(old(self)@.completions, completion.id()),
            final(self)@ == (UringView {
                completions: after_wait(old(self)@.completions, completion.id()),
                ..old(self)@
            }),
    {
        completion.wait_inner(&mut self.completions)
    }

    /// Takes the result of `completion`, as [`Completion::wait`] does.
    pub fn wait(&mut self, completion: Completion) -> (taken: Result<Outcome, Completion>)
        requires
            old(self).wf(),
        ensures
            final(self).wf(),
            match taken {
                Ok(inner) => wait_result(old(self)@.completions, completion.id()) == Waited::Done(
                    Some(inner),
                ) && final(self)@ == (UringView {
                    completions: old(self)@.completions.remove(completion.id()),
                    ..old(self)@
                }),
                Err(back) => back == completion && !(wait_result(
                    old(self)@.completions,
                    completion.id(),
                ) matches Waited::Done(Some(_))) && final(self)@ == old(self)@,
            },
    {
        completion.wait(&mut self.completions)
    }

    /// Looks for the result of `completion` on behalf of a task, as
    /// [`Completion::poll`] does.
    pub fn poll(&mut self, completion: &Completion, waker: Waker) -> (ready: Option<Outcome>)
        requires
            old(self).wf(),
        ensures
            final(self).wf(),
            ready == poll_result(old(self)@.completions, completion.id()),
            final(self)@ == (UringView {
                completions: after_poll(old(self)@.completions, completion.id(), waker),
                ..old(self)@
            }),
    {
        completion.poll(&mut self.completions, waker)
    }
}

} // verus!
