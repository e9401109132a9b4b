//! The completion half of a ring: which completion entries are ready, which
//! operation each of them completes, and what the operation's result is.

use vstd::prelude::*;
use crate::addr::SockAddr;
use crate::completion::{
    filled, wait_result, CompletionState, Completions, CqeData, Outcome, Waited,
};
use crate::constants::{IORING_ENTER_GETEVENTS, IORING_OFF_CQ_RING};
use crate::errors::{OsError, SetupError};
use crate::in_flight::{InFlight, Slot};
use crate::params::Params;
use crate::sq::{advanced, ahead, Enter, Region};
use crate::syscall::{is_power_of_two, power_of_two};
use crate::ticket_queue::{all_below, TicketQueue};
use crate::types::{Cqe, CQE_SIZE};

verus! {

/// The largest correlation value that is a plain ticket. Anything above is
/// a poison pill: a ticket with every bit flipped.
pub const MAX_TICKET: u64 = 0x7fff_ffff_ffff_ffff;

/// The ticket in a correlation value. A poison pill carries its ticket with
/// every bit flipped.
pub open spec fn ticket_of(user_data: u64) -> u64 {
    if user_data > MAX_TICKET {
        user_data ^ u64::MAX
    } else {
        user_data
    }
}

/// Whether a correlation value is a poison pill, the last submission of a
/// ring that shuts down.
pub open spec fn is_poison(user_data: u64) -> bool {
    user_data > MAX_TICKET
}

/// The correlation value of the poison pill that travels with `ticket`.
pub open spec fn poisoned(ticket: u64) -> u64 {
    ticket ^ u64::MAX
}

/// A poison pill is told from a plain ticket, and gives its ticket back.
pub proof fn lemma_poison_round_trip(ticket: u64)
    requires
        ticket <= MAX_TICKET,
    ensures
        is_poison(poisoned(ticket)),
        ticket_of(poisoned(ticket)) == ticket,
        !is_poison(ticket),
        ticket_of(ticket) == ticket,
{
    assert(ticket <= 0x7fff_ffff_ffff_ffffu64 ==> (ticket ^ 0xffff_ffff_ffff_ffffu64)
        > 0x7fff_ffff_ffff_ffffu64) by (bit_vector);
    assert((ticket ^ 0xffff_ffff_ffff_ffffu64) ^ 0xffff_ffff_ffff_ffffu64 == ticket)
        by (bit_vector);
}

/// Splits a correlation value into its ticket and whether it is a poison
/// pill.
pub fn decode(user_data: u64) -> (parts: (u64, bool))
    ensures
        parts.0 == ticket_of(user_data),
        parts.1 == is_poison(user_data),
{
    if user_data > MAX_TICKET {
        (user_data ^ u64::MAX, true)
    } else {
        (user_data, false)
    }
}

/// The result that a completion entry reports: a negative `res` is the
/// negated error number of a failure; anything else is a success, reported
/// with the entry and the peer's address, where the operation has one.
pub open spec fn outcome_of(cqe: Cqe, address: Option<SockAddr>) -> Outcome {
    if cqe.res < 0 {
        Err(OsError { errno: (-cqe.res) as u32 })
    } else {
        Ok(CqeData { cqe, address })
    }
}

/// The entry in slot `index` of the completion array `ring`, if the array
/// reaches that far.
pub open spec fn entry_at(ring: Seq<u8>, index: int) -> Option<Cqe> {
    if 0 <= index && (index + 1) * CQE_SIZE <= ring.len() {
        Some(Cqe::parse(ring, index * CQE_SIZE))
    } else {
        None
    }
}

/// What reaping works on: the slots of the in-flight table, the shared
/// states of the completions, and the tickets released so far.
pub struct Ledger {
    /// The slots of the in-flight table.
    pub slots: Seq<Slot>,
    /// The shared states of the completions.
    pub completions: Map<u64, CompletionState>,
    /// The tickets released so far, in the order of their entries.
    pub released: Seq<usize>,
}

/// Whether `entry` completes an operation that is in flight.
pub open spec fn claims(slots: Seq<Slot>, entry: Option<Cqe>) -> bool {
    entry matches Some(cqe) && ticket_of(cqe.user_data) < slots.len() && slots[ticket_of(
        cqe.user_data,
    ) as int].filler is Some
}

/// The peer address that was read from the cell of slot `ticket`, if any.
pub open spec fn observed(peers: Seq<Option<SockAddr>>, ticket: int) -> Option<SockAddr> {
    if 0 <= ticket < peers.len() {
        peers[ticket]
    } else {
        None
    }
}

/// The slot of a successful operation once the kernel's report of its peer
/// is taken into account.
pub open spec fn told(slot: Slot, peer: Option<SockAddr>) -> Slot {
    match peer {
        Some(address) => slot.informed(address),
        None => slot,
    }
}

/// The ledger after `cqe`, which completes an operation in flight, was
/// delivered: the operation's result is in its shared state, marked done;
/// its slot is vacant; its ticket is released. A success takes the peer's
/// address along, a failure leaves it.
pub open spec fn delivered(ledger: Ledger, cqe: Cqe, peers: Seq<Option<SockAddr>>) -> Ledger {
    let ticket = ticket_of(cqe.user_data) as int;
    let slot = ledger.slots[ticket];
    let sqe_id = slot.filler.unwrap().id();
    if cqe.res < 0 {
        Ledger {
            slots: ledger.slots.update(ticket, Slot { filler: None, ..slot }),
            completions: filled(ledger.completions, sqe_id, outcome_of(cqe, None)),
            released: ledger.released.push(ticket as usize),
        }
    } else {
        let heard = told(slot, observed(peers, ticket));
        Ledger {
            slots: ledger.slots.update(ticket, Slot { filler: None, address: None, ..heard }),
            completions: filled(ledger.completions, sqe_id, outcome_of(cqe, heard.address)),
            released: ledger.released.push(ticket as usize),
        }
    }
}

/// The ledger after the entries were delivered in order, up to the first
/// that completes nothing in flight, and how many were delivered.
#[verifier::opaque]
pub open spec fn reaped(
    ledger: Ledger,
    entries: Seq<Option<Cqe>>,
    peers: Seq<Option<SockAddr>>,
) -> (Ledger, nat)
    decreases entries.len(),
{
    if entries.len() == 0 || !claims(ledger.slots, entries[0]) {
        (ledger, 0)
    } else {
        let rest = reaped(
            delivered(ledger, entries[0].unwrap(), peers),
            entries.drop_first(),
            peers,
        );
        (rest.0, rest.1 + 1)
    }
}

/// Whether one of the first `count` entries is a poison pill.
pub open spec fn any_poison(entries: Seq<Option<Cqe>>, count: nat) -> bool {
    exists|i: int|
        0 <= i < count && i < entries.len() && (#[trigger] entries[i] matches Some(cqe)
            && is_poison(cqe.user_data))
}

/// Every ticket is either free, released, or the ticket of an occupied
/// slot, and only one of these; and no ticket is free or released twice.
pub open spec fn balanced(slots: Seq<Slot>, free: Seq<usize>, released: Seq<usize>) -> bool {
    &&& slots.len() <= usize::MAX
    &&& (free + released).no_duplicates()
    &&& all_below(free + released, slots.len())
    &&& forall|t: int|
        0 <= t < slots.len() ==> ((#[trigger] slots[t]).filler is Some <==> !(free
            + released).contains(t as usize))
}

/// The tickets that are handed out are exactly those of the occupied slots.
pub open spec fn accounted(slots: Seq<Slot>, queue: TicketQueue) -> bool {
    queue.capacity() == slots.len() && balanced(slots, queue@, Seq::empty())
}

/// Delivering one entry keeps the books balanced.
pub proof fn lemma_delivery_balanced(
    ledger: Ledger,
    cqe: Cqe,
    peers: Seq<Option<SockAddr>>,
    free: Seq<usize>,
)
    requires
        claims(ledger.slots, Some(cqe)),
        balanced(ledger.slots, free, ledger.released),
    ensures
        balanced(delivered(ledger, cqe, peers).slots, free, delivered(ledger, cqe, peers).released),
        delivered(ledger, cqe, peers).slots.len() == ledger.slots.len(),
{
    let ticket = ticket_of(cqe.user_data) as int;
    let after = delivered(ledger, cqe, peers);
    let before = free + ledger.released;
    let now = free + after.released;
    assert(now =~= before.push(ticket as usize));
    assert(ledger.slots[ticket].filler is Some);
    assert(!before.contains(ticket as usize));
    assert(now.no_duplicates()) by {
        assert forall|i: int, j: int|
            0 <= i < now.len() && 0 <= j < now.len() && i != j implies now[i] != now[j] by {
            if i < before.len() && j < before.len() {
                assert(now[i] == before[i] && now[j] == before[j]);
            } else if i < before.len() {
                assert(before.contains(before[i]));
            } else {
                assert(before.contains(before[j]));
            }
        }
    }
    assert(all_below(now, after.slots.len())) by {
        assert forall|i: int| 0 <= i < now.len() implies #[trigger] now[i] < after.slots.len() by {
            if i < before.len() {
                assert(now[i] == before[i]);
            }
        }
    }
    assert forall|t: int| 0 <= t < after.slots.len() implies ((#[trigger] after.slots[t]).filler
        is Some <==> !now.contains(t as usize)) by {
        if t == ticket {
            assert(now[before.len() as int] == ticket as usize);
        } else {
            assert(after.slots[t] == ledger.slots[t]);
            if before.contains(t as usize) {
                let k = choose|k: int| 0 <= k < before.len() && before[k] == t as usize;
                assert(now[k] == t as usize);
            }
            if now.contains(t as usize) {
                let k = choose|k: int| 0 <= k < now.len() && now[k] == t as usize;
                assert(k < before.len());
                assert(before[k] == t as usize);
            }
        }
    }
}

/// Reaping keeps the books balanced, and the table its size.
pub proof fn lemma_reap_balanced(
    ledger: Ledger,
    entries: Seq<Option<Cqe>>,
    peers: Seq<Option<SockAddr>>,
    free: Seq<usize>,
)
    requires
        balanced(ledger.slots, free, ledger.released),
    ensures
        balanced(
            reaped(ledger, entries, peers).0.slots,
            free,
            reaped(ledger, entries, peers).0.released,
        ),
        reaped(ledger, entries, peers).0.slots.len() == ledger.slots.len(),
        reaped(ledger, entries, peers).1 <= entries.len(),
    decreases entries.len(),
{
    reveal(reaped);
    if entries.len() > 0 && claims(ledger.slots, entries[0]) {
        let cqe = entries[0].unwrap();
        lemma_delivery_balanced(ledger, cqe, peers, free);
        lemma_reap_balanced(delivered(ledger, cqe, peers), entries.drop_first(), peers, free);
    }
}

/// Every operation in flight has its own shared state, which is pending:
/// not done, with no result in it. No two operations in flight share a
/// sequence number.
pub open spec fn paired(slots: Seq<Slot>, completions: Map<u64, CompletionState>) -> bool {
    &&& forall|t: int|
        0 <= t < slots.len() && (#[trigger] slots[t]).filler is Some ==> {
            let id = slots[t].filler.unwrap().id();
            &&& completions.contains_key(id)
            &&& !completions[id].done
            &&& completions[id].item is None
        }
    &&& forall|a: int, b: int|
        0 <= a < slots.len() && 0 <= b < slots.len() && a != b && (#[trigger] slots[a]).filler
            is Some && (#[trigger] slots[b]).filler is Some ==> slots[a].filler.unwrap().id()
            != slots[b].filler.unwrap().id()
}

/// The sequence numbers of the operations in flight lie between 1 and
/// `loaded`.
pub open spec fn numbered(slots: Seq<Slot>, loaded: u64) -> bool {
    forall|t: int|
        0 <= t < slots.len() && (#[trigger] slots[t]).filler is Some ==> 1
            <= slots[t].filler.unwrap().id() <= loaded
}

/// Reaping never moves a slot's cells, and never puts an operation into a
/// slot: each slot keeps its operation or loses it.
pub proof fn lemma_reap_only_vacates(
    ledger: Ledger,
    entries: Seq<Option<Cqe>>,
    peers: Seq<Option<SockAddr>>,
    t: int,
)
    requires
        0 <= t < ledger.slots.len(),
    ensures
        reaped(ledger, entries, peers).0.slots.len() == ledger.slots.len(),
        reaped(ledger, entries, peers).0.slots[t].cell == ledger.slots[t].cell,
        reaped(ledger, entries, peers).0.slots[t].iovec == ledger.slots[t].iovec,
        reaped(ledger, entries, peers).0.slots[t].msghdr == ledger.slots[t].msghdr,
        reaped(ledger, entries, peers).0.slots[t].filler is None || reaped(
            ledger,
            entries,
            peers,
        ).0.slots[t].filler == ledger.slots[t].filler,
    decreases entries.len(),
{
    reveal(reaped);
    if entries.len() > 0 && claims(ledger.slots, entries[0]) {
        lemma_reap_only_vacates(
            delivered(ledger, entries[0].unwrap(), peers),
            entries.drop_first(),
            peers,
            t,
        );
    }
}

/// Reaping keeps the table its size.
pub proof fn lemma_reap_only_vacates_len(
    ledger: Ledger,
    entries: Seq<Option<Cqe>>,
    peers: Seq<Option<SockAddr>>,
)
    ensures
        reaped(ledger, entries, peers).0.slots.len() == ledger.slots.len(),
    decreases entries.len(),
{
    reveal(reaped);
    if entries.len() > 0 && claims(ledger.slots, entries[0]) {
        lemma_reap_only_vacates_len(
            delivered(ledger, entries[0].unwrap(), peers),
            entries.drop_first(),
            peers,
        );
    }
}

/// Delivering one entry leaves every other operation in flight with its
/// own pending state.
pub proof fn lemma_delivery_paired(ledger: Ledger, cqe: Cqe, peers: Seq<Option<SockAddr>>)
    requires
        claims(ledger.slots, Some(cqe)),
        paired(ledger.slots, ledger.completions),
    ensures
        paired(delivered(ledger, cqe, peers).slots, delivered(ledger, cqe, peers).completions),
{
    let ticket = ticket_of(cqe.user_data) as int;
    let after = delivered(ledger, cqe, peers);
    let id = ledger.slots[ticket].filler.unwrap().id();
    assert forall|t: int|
        0 <= t < after.slots.len() && (#[trigger] after.slots[t]).filler is Some implies {
        let other = after.slots[t].filler.unwrap().id();
        &&& after.completions.contains_key(other)
        &&& !after.completions[other].done
        &&& after.completions[other].item is None
    } by {
        assert(t != ticket);
        assert(after.slots[t] == ledger.slots[t]);
        assert(ledger.slots[t].filler is Some && ledger.slots[ticket].filler is Some);
        assert(ledger.slots[t].filler.unwrap().id() != id);
    }
    assert forall|a: int, b: int|
        0 <= a < after.slots.len() && 0 <= b < after.slots.len() && a != b && (
        #[trigger] after.slots[a]).filler is Some && (#[trigger] after.slots[b]).filler
            is Some implies after.slots[a].filler.unwrap().id()
        != after.slots[b].filler.unwrap().id() by {
        assert(after.slots[a] == ledger.slots[a]);
        assert(after.slots[b] == ledger.slots[b]);
    }
}

/// Reaping leaves every operation that stays in flight with its own
/// pending state.
pub proof fn lemma_reap_paired(
    ledger: Ledger,
    entries: Seq<Option<Cqe>>,
    peers: Seq<Option<SockAddr>>,
)
    requires
        paired(ledger.slots, ledger.completions),
    ensures
        paired(
            reaped(ledger, entries, peers).0.slots,
            reaped(ledger, entries, peers).0.completions,
        ),
    decreases entries.len(),
{
    reveal(reaped);
    if entries.len() > 0 && claims(ledger.slots, entries[0]) {
        let cqe = entries[0].unwrap();
        lemma_delivery_paired(ledger, cqe, peers);
        lemma_reap_paired(delivered(ledger, cqe, peers), entries.drop_first(), peers);
    }
}

/// Reaping releases one ticket for each entry that it consumes.
pub proof fn lemma_reap_releases(
    ledger: Ledger,
    entries: Seq<Option<Cqe>>,
    peers: Seq<Option<SockAddr>>,
)
    ensures
        reaped(ledger, entries, peers).0.released.len() == ledger.released.len() + reaped(
            ledger,
            entries,
            peers,
        ).1,
    decreases entries.len(),
{
    reveal(reaped);
    if entries.len() > 0 && claims(ledger.slots, entries[0]) {
        lemma_reap_releases(
            delivered(ledger, entries[0].unwrap(), peers),
            entries.drop_first(),
            peers,
        );
    }
}

/// No entry is counted as reaped before the result of its operation has
/// been delivered: for each of the entries that reaping consumed, the
/// shared state of the operation that it completes is done afterwards and
/// holds a result, so that a wait for it finds one.
pub proof fn lemma_consumed_are_filled(
    ledger: Ledger,
    entries: Seq<Option<Cqe>>,
    peers: Seq<Option<SockAddr>>,
    i: int,
)
    requires
        0 <= i < reaped(ledger, entries, peers).1,
    ensures
        i < entries.len(),
        entries[i] matches Some(cqe) && ticket_of(cqe.user_data) < ledger.slots.len() && (
        ledger.slots[ticket_of(cqe.user_data) as int].filler matches Some(filler) && delivered_to(
            reaped(ledger, entries, peers).0.completions,
            filler.id(),
        )),
    decreases entries.len(),
{
    reveal(reaped);
    let first = entries[0].unwrap();
    let next = delivered(ledger, first, peers);
    let rest = entries.drop_first();
    if i == 0 {
        let id = ledger.slots[ticket_of(first.user_data) as int].filler.unwrap().id();
        assert(delivered_to(next.completions, id));
        lemma_done_stays(next, rest, peers, id);
    } else {
        lemma_reap_prefix(next, rest, peers);
        lemma_consumed_are_filled(next, rest, peers, i - 1);
        assert(rest[i - 1] == entries[i]);
        lemma_claimed_later(ledger, entries, peers, i);
    }
}

/// Whether the result of operation `sqe_id` has been delivered and waits to
/// be taken.
pub open spec fn delivered_to(completions: Map<u64, CompletionState>, sqe_id: u64) -> bool {
    &&& completions.contains_key(sqe_id)
    &&& completions[sqe_id].done
    &&& completions[sqe_id].item is Some
    &&& wait_result(completions, sqe_id) matches Waited::Done(Some(_))
}

/// A result that was delivered stays delivered while more entries are
/// reaped.
proof fn lemma_done_stays(
    ledger: Ledger,
    entries: Seq<Option<Cqe>>,
    peers: Seq<Option<SockAddr>>,
    sqe_id: u64,
)
    requires
        delivered_to(ledger.completions, sqe_id),
    ensures
        delivered_to(reaped(ledger, entries, peers).0.completions, sqe_id),
    decreases entries.len(),
{
    reveal(reaped);
    if entries.len() > 0 && claims(ledger.slots, entries[0]) {
        lemma_done_stays(
            delivered(ledger, entries[0].unwrap(), peers),
            entries.drop_first(),
            peers,
            sqe_id,
        );
    }
}

/// Reaping consumes no more entries than there are.
proof fn lemma_reap_prefix(ledger: Ledger, entries: Seq<Option<Cqe>>, peers: Seq<Option<SockAddr>>)
    ensures
        reaped(ledger, entries, peers).1 <= entries.len(),
    decreases entries.len(),
{
    reveal(reaped);
    if entries.len() > 0 && claims(ledger.slots, entries[0]) {
        lemma_reap_prefix(
            delivered(ledger, entries[0].unwrap(), peers),
            entries.drop_first(),
            peers,
        );
    }
}

/// The ledger as it is when the `i`-th entry is reached.
pub open spec fn ledger_before(
    ledger: Ledger,
    entries: Seq<Option<Cqe>>,
    peers: Seq<Option<SockAddr>>,
    i: nat,
) -> Ledger
    decreases i,
{
    if i == 0 {
        ledger
    } else {
        ledger_before(
            delivered(ledger, entries[0].unwrap(), peers),
            entries.drop_first(),
            peers,
            (i - 1) as nat,
        )
    }
}

/// A slot that is occupied when a later entry is reached was occupied, by
/// the same operation, from the start: reaping only ever vacates slots.
proof fn lemma_occupied_since(
    ledger: Ledger,
    entries: Seq<Option<Cqe>>,
    peers: Seq<Option<SockAddr>>,
    i: nat,
    ticket: int,
)
    requires
        i <= reaped(ledger, entries, peers).1,
        0 <= ticket < ledger_before(ledger, entries, peers, i).slots.len(),
        ledger_before(ledger, entries, peers, i).slots[ticket].filler is Some,
    ensures
        ticket < ledger.slots.len(),
        ledger.slots[ticket].filler == ledger_before(
            ledger,
            entries,
            peers,
            i,
        ).slots[ticket].filler,
    decreases i,
{
    reveal(reaped);
    if i > 0 {
        let next = delivered(ledger, entries[0].unwrap(), peers);
        lemma_occupied_since(next, entries.drop_first(), peers, (i - 1) as nat, ticket);
    }
}

/// The `i`-th consumed entry completes the operation that was in its slot
/// from the start.
proof fn lemma_claimed_later(
    ledger: Ledger,
    entries: Seq<Option<Cqe>>,
    peers: Seq<Option<SockAddr>>,
    i: int,
)
    requires
        0 <= i < reaped(ledger, entries, peers).1,
    ensures
        i < entries.len(),
        claims(ledger_before(ledger, entries, peers, i as nat).slots, entries[i]),
        entries[i] matches Some(cqe) && ticket_of(cqe.user_data) < ledger.slots.len()
            && ledger.slots[ticket_of(cqe.user_data) as int].filler == ledger_before(
            ledger,
            entries,
            peers,
            i as nat,
        ).slots[ticket_of(cqe.user_data) as int].filler,
    decreases i,
{
    reveal(reaped);
    lemma_claimed_at(ledger, entries, peers, i);
    let cqe = entries[i].unwrap();
    lemma_occupied_since(ledger, entries, peers, i as nat, ticket_of(cqe.user_data) as int);
}

/// Each consumed entry completed an operation that was in flight when the
/// entry was reached.
proof fn lemma_claimed_at(
    ledger: Ledger,
    entries: Seq<Option<Cqe>>,
    peers: Seq<Option<SockAddr>>,
    i: int,
)
    requires
        0 <= i < reaped(ledger, entries, peers).1,
    ensures
        i < entries.len(),
        claims(ledger_before(ledger, entries, peers, i as nat).slots, entries[i]),
    decreases i,
{
    reveal(reaped);
    if i > 0 {
        let next = delivered(ledger, entries[0].unwrap(), peers);
        lemma_claimed_at(next, entries.drop_first(), peers, i - 1);
        assert(entries.drop_first()[i - 1] == entries[i]);
    }
}

/// Results are delivered in the order of the completion entries: when the
/// result of one entry is delivered, the results of all entries before it
/// have been delivered already. So whoever sees the result of an operation
/// that the kernel completed last, as it does an operation that drains the
/// ring, finds everything completed before it delivered as well.
pub proof fn lemma_delivered_in_order(
    ledger: Ledger,
    entries: Seq<Option<Cqe>>,
    peers: Seq<Option<SockAddr>>,
    earlier: int,
    later: int,
)
    requires
        0 <= earlier < later,
        later < reaped(ledger, entries, peers).1,
    ensures
        earlier < entries.len(),
        entries[earlier] matches Some(cqe) && ticket_of(cqe.user_data) < ledger.slots.len() && (
        ledger.slots[ticket_of(cqe.user_data) as int].filler matches Some(filler) && delivered_to(
            ledger_before(ledger, entries, peers, later as nat).completions,
            filler.id(),
        )),
    decreases entries.len(),
{
    reveal(reaped);
    let first = entries[0].unwrap();
    let next = delivered(ledger, first, peers);
    let rest = entries.drop_first();
    lemma_reap_prefix(ledger, entries, peers);
    if earlier == 0 {
        let id = ledger.slots[ticket_of(first.user_data) as int].filler.unwrap().id();
        assert(delivered_to(next.completions, id));
        lemma_done_until(next, rest, peers, id, (later - 1) as nat);
    } else {
        lemma_delivered_in_order(next, rest, peers, earlier - 1, later - 1);
        assert(rest[earlier - 1] == entries[earlier]);
        lemma_claimed_later(ledger, entries, peers, earlier);
    }
}

/// A result that was delivered stays delivered while more entries are
/// reached.
proof fn lemma_done_until(
    ledger: Ledger,
    entries: Seq<Option<Cqe>>,
    peers: Seq<Option<SockAddr>>,
    sqe_id: u64,
    i: nat,
)
    requires
        delivered_to(ledger.completions, sqe_id),
    ensures
        delivered_to(ledger_before(ledger, entries, peers, i).completions, sqe_id),
    decreases i,
{
    if i > 0 {
        lemma_done_until(
            delivered(ledger, entries[0].unwrap(), peers),
            entries.drop_first(),
            peers,
            sqe_id,
            (i - 1) as nat,
        );
    }
}

/// One more entry counts among the first `count + 1` if it is a poison
/// pill itself or one of the first `count` is.
pub proof fn lemma_poison_step(entries: Seq<Option<Cqe>>, count: nat)
    requires
        count < entries.len(),
    ensures
        any_poison(entries, count + 1) == (any_poison(entries, count) || (
        entries[count as int] matches Some(cqe) && is_poison(cqe.user_data))),
{
    if any_poison(entries, count) {
        let k = choose|k: int|
            0 <= k < count && k < entries.len() && (#[trigger] entries[k] matches Some(c)
                && is_poison(c.user_data));
        assert(0 <= k < count + 1 && k < entries.len() && (entries[k] matches Some(c) && is_poison(
            c.user_data,
        )));
    }
    if entries[count as int] matches Some(cqe) && is_poison(cqe.user_data) {
        let k = count as int;
        assert(0 <= k < count + 1 && k < entries.len() && (entries[k] matches Some(c) && is_poison(
            c.user_data,
        )));
    }
    if any_poison(entries, count + 1) {
        let k = choose|k: int|
            0 <= k < count + 1 && k < entries.len() && (#[trigger] entries[k] matches Some(c)
                && is_poison(c.user_data));
        if k < count {
            assert(0 <= k < count && k < entries.len() && (entries[k] matches Some(c) && is_poison(
                c.user_data,
            )));
        }
    }
}

/// Where no entry is ready, reaping does nothing.
pub proof fn lemma_reap_nothing(
    ledger: Ledger,
    entries: Seq<Option<Cqe>>,
    peers: Seq<Option<SockAddr>>,
)
    requires
        entries.len() == 0,
    ensures
        reaped(ledger, entries, peers) == (ledger, 0nat),
{
    reveal(reaped);
}

/// Reaping from the `count`-th entry on starts with that entry: it is
/// delivered and reaping goes on behind it, or it stops the round.
pub proof fn lemma_reap_unfold(
    ledger: Ledger,
    entries: Seq<Option<Cqe>>,
    peers: Seq<Option<SockAddr>>,
    count: int,
)
    requires
        0 <= count < entries.len(),
    ensures
        claims(ledger.slots, entries[count]) ==> reaped(ledger, entries.skip(count), peers).0
            == reaped(
            delivered(ledger, entries[count].unwrap(), peers),
            entries.skip(count + 1),
            peers,
        ).0 && reaped(ledger, entries.skip(count), peers).1 == reaped(
            delivered(ledger, entries[count].unwrap(), peers),
            entries.skip(count + 1),
            peers,
        ).1 + 1,
        !claims(ledger.slots, entries[count]) ==> reaped(ledger, entries.skip(count), peers) == (
            ledger,
            0nat,
        ),
{
    reveal(reaped);
    let tail = entries.skip(count);
    assert(tail[0] == entries[count]);
    assert(tail.drop_first() =~= entries.skip(count + 1));
}

/// Delivers the result that `cqe` reports, if `cqe` completes an operation
/// in flight: the operation's filler is taken out of its slot and filled,
/// and its ticket is added to the batch `released`. Anything else is left
/// alone.
fn deliver(
    cqe: Cqe,
    peers: &Vec<Option<SockAddr>>,
    in_flight: &mut InFlight,
    completions: &mut Completions,
    released: &mut Vec<usize>,
) -> (delivered: bool)
    ensures
        delivered == claims(old(in_flight)@, Some(cqe)),
        delivered ==> ({
            let after = self::delivered(
                Ledger {
                    slots: old(in_flight)@,
                    completions: old(completions)@,
                    released: old(released)@,
                },
                cqe,
                peers@,
            );
            &&& final(in_flight)@ == after.slots
            &&& final(completions)@ == after.completions
            &&& final(released)@ == after.released
        }),
        !delivered ==> final(in_flight)@ == old(in_flight)@ && final(completions)@ == old(
            completions,
        )@ && final(released)@ == old(released)@,
{
    let (ticket, _) = decode(cqe.user_data);
    if ticket >= in_flight.size() as u64 {
        return false;
    }
    let slot: usize = ticket as usize;
    match in_flight.take_filler(slot) {
        None => false,
        Some(filler) => {
            released.push(slot);
            let result: Outcome = if cqe.res < 0 {
                Err(OsError { errno: (-(cqe.res as i64)) as u32 })
            } else {
                if slot < peers.len() {
                    match peers[slot] {
                        Some(peer) => in_flight.record_peer(slot, peer),
                        None => {},
                    }
                }
                let address = in_flight.take_address(slot);
                Ok(CqeData { cqe, address })
            };
            filler.fill(completions, result);
            proof {
                let after = self::delivered(
                    Ledger {
                        slots: old(in_flight)@,
                        completions: old(completions)@,
                        released: old(released)@,
                    },
                    cqe,
                    peers@,
                );
                assert(in_flight@ =~= after.slots);
            }
            true
        },
    }
}

/// Why reaping stopped before it had consumed every ready entry.
#[derive(Clone, Copy, Debug, PartialEq, Eq, Structural)]
pub enum Fault {
    /// This entry completes no operation that is in flight.
    Stray(Cqe),
    /// The completion array ends before the next ready entry.
    Unreadable,
}

/// What one round of reaping did.
#[derive(Clone, Copy, Debug, PartialEq, Eq)]
pub struct Reap {
    /// How many entries were consumed; each of them had its result
    /// delivered.
    pub count: usize,
    /// Whether one of them was a poison pill: the ring shuts down.
    pub poisoned: bool,
    /// Why entries were left unconsumed, if any were.
    pub fault: Option<Fault>,
}

/// The completion half of a ring.
#[derive(Debug)]
pub struct Cq {
    head: u32,
    ring_mask: u32,
    ring_entries: u32,
}

impl Cq {
    /// The cursor up to which entries have been consumed. It is what the
    /// ring's head is to be set to, with release ordering, after each round
    /// of reaping.
    pub closed spec fn head(&self) -> u32 {
        self.head
    }

    /// The ring's index mask.
    pub closed spec fn mask(&self) -> u32 {
        self.ring_mask
    }

    /// The number of entries in the ring.
    pub closed spec fn entries(&self) -> u32 {
        self.ring_entries
    }

    /// The ring has a power of two of entries, and its mask selects exactly
    /// their indices.
    pub open spec fn wf(&self) -> bool {
        &&& self.entries() >= 1
        &&& is_power_of_two(self.entries() as nat)
        &&& self.mask() == self.entries() - 1
    }

    /// The entries that are ready when the kernel's tail is at `ktail`, in
    /// the order in which the kernel wrote them: the `i`-th is in the slot
    /// that the cursor `i` steps after the head selects.
    pub open spec fn pending(&self, ktail: u32, ring: Seq<u8>) -> Seq<Option<Cqe>> {
        Seq::new(
            ahead(ktail, self.head()) as nat,
            |i: int| entry_at(ring, (advanced(self.head(), i as nat) & self.mask()) as int),
        )
    }

    /// What a round of reaping makes of the in-flight table and the shared
    /// states, which tickets it releases, and how many entries it consumes.
    pub open spec fn round(
        &self,
        ktail: u32,
        ring: Seq<u8>,
        peers: Seq<Option<SockAddr>>,
        slots: Seq<Slot>,
        completions: Map<u64, CompletionState>,
    ) -> (Ledger, nat) {
        reaped(
            Ledger { slots, completions, released: Seq::empty() },
            self.pending(ktail, ring),
            peers,
        )
    }

    /// What a round that consumed `count` entries reports.
    pub open spec fn report(&self, ktail: u32, ring: Seq<u8>, count: nat) -> Reap {
        let entries = self.pending(ktail, ring);
        Reap {
            count: count as usize,
            poisoned: any_poison(entries, count),
            fault: if count < entries.len() {
                Some(
                    match entries[count as int] {
                        Some(cqe) => Fault::Stray(cqe),
                        None => Fault::Unreadable,
                    },
                )
            } else {
                None
            },
        }
    }

    /// The mapping of the completion ring: the cursors, then the completion
    /// entries, 16 bytes each, which end the region.
    pub open spec fn ring_region_of(params: Params) -> Region {
        Region {
            offset: IORING_OFF_CQ_RING,
            len: (params.cq_off.cqes + params.cq_entries * 16) as u64,
        }
    }

    /// Computes [`Cq::ring_region_of`].
    pub fn ring_region(params: &Params) -> (region: Region)
        ensures
            region == Cq::ring_region_of(*params),
    {
        Region {
            offset: IORING_OFF_CQ_RING,
            len: params.cq_off.cqes as u64 + params.cq_entries as u64 * 16,
        }
    }

    /// The completion half of the ring that the kernel described in
    /// `params`, with the index mask and the head as read from the mapped
    /// ring. A ring whose size is no power of two, or whose mask is not its
    /// size less one, is refused.
    pub fn new(params: &Params, ring_mask: u32, khead: u32) -> (made: Result<Cq, SetupError>)
        ensures
            match made {
                Ok(cq) => cq.wf() && cq.entries() == params.cq_entries && cq.mask() == ring_mask
                    && cq.head() == khead,
                Err(e) => e == SetupError::MalformedRing,
            },
            made is Ok <==> params.cq_entries >= 1 && is_power_of_two(params.cq_entries as nat)
                && ring_mask == params.cq_entries - 1,
    {
        let entries: u32 = params.cq_entries;
        if entries >= 1 && power_of_two(entries) && ring_mask == entries - 1 {
            Ok(Cq { head: khead, ring_mask, ring_entries: entries })
        } else {
            Err(SetupError::MalformedRing)
        }
    }

    /// The cursor up to which entries have been consumed.
    pub fn consumed(&self) -> (head: u32)
        ensures
            head == self.head(),
    {
        self.head
    }

    /// The number of entries in the ring.
    pub fn ring_entries(&self) -> (entries: u32)
        ensures
            entries == self.entries(),
    {
        self.ring_entries
    }

    /// The call with which the reaper waits for completions: it submits
    /// nothing and returns once at least one entry is ready.
    pub fn block_for_cqe(ring_fd: i32) -> (call: Enter)
        ensures
            call == (Enter {
                fd: ring_fd,
                to_submit: 0,
                min_complete: 1,
                flags: IORING_ENTER_GETEVENTS,
            }),
    {
        Enter { fd: ring_fd, to_submit: 0, min_complete: 1, flags: IORING_ENTER_GETEVENTS }
    }

    /// Consumes the entries that are ready when the kernel's tail is at
    /// `ktail`. `ring` is the completion array as it stands in the mapped
    /// ring, and `peers[t]` the address read from the peer cell of slot `t`,
    /// where one was read.
    ///
    /// Entry by entry, in the kernel's order: the operation is looked up by
    /// the entry's ticket, its result is delivered, and only then is the
    /// entry counted as consumed. The tickets go back to the queue in one
    /// batch at the end. An entry that completes nothing in flight stops the
    /// round and is reported.
    #[verifier::rlimit(40)]
    pub fn reap_ready_cqes(
        &mut self,
        ktail: u32,
        ring: &[u8],
        peers: &Vec<Option<SockAddr>>,
        in_flight: &mut InFlight,
        ticket_queue: &mut TicketQueue,
        completions: &mut Completions,
    ) -> (reap: Reap)
        ensures
            ({
                let end = old(self).round(
                    ktail,
                    ring@,
                    peers@,
                    old(in_flight)@,
                    old(completions)@,
                );
                &&& final(in_flight)@ == end.0.slots
                &&& final(completions)@ == end.0.completions
                &&& final(ticket_queue)@ == old(ticket_queue)@ + end.0.released
                &&& final(ticket_queue).capacity() == old(ticket_queue).capacity()
                &&& final(self).head() == advanced(old(self).head(), end.1)
                &&& final(self).mask() == old(self).mask()
                &&& final(self).entries() == old(self).entries()
                &&& reap == old(self).report(ktail, ring@, end.1)
            }),
            old(ticket_queue).wf() && accounted(old(in_flight)@, *old(ticket_queue))
                ==> final(ticket_queue).wf() && accounted(
                final(in_flight)@,
                *final(ticket_queue),
            ),
    {
        let ghost entries = self.pending(ktail, ring@);
        let ghost start = Ledger {
            slots: in_flight@,
            completions: completions@,
            released: Seq::empty(),
        };
        let ready: u32 = ktail.wrapping_sub(self.head);
        let mask: u32 = self.ring_mask;
        let mut to_push: Vec<usize> = Vec::new();
        let mut count: u32 = 0;
        let mut poisoned: bool = false;
        let mut fault: Option<Fault> = None;
        proof {
            assert(entries.skip(0) =~= entries);
            assert(to_push@ =~= Seq::<usize>::empty());
        }
        while count < ready && fault.is_none()
            invariant
                count <= ready,
                ready == entries.len(),
                entries == old(self).pending(ktail, ring@),
                mask == old(self).mask(),
                self.ring_mask == old(self).mask(),
                self.ring_entries == old(self).entries(),
                self.head == advanced(old(self).head(), count as nat),
                ticket_queue == old(ticket_queue),
                reaped(start, entries, peers@).0 == reaped(
                    Ledger { slots: in_flight@, completions: completions@, released: to_push@ },
                    entries.skip(count as int),
                    peers@,
                ).0,
                reaped(start, entries, peers@).1 == reaped(
                    Ledger { slots: in_flight@, completions: completions@, released: to_push@ },
                    entries.skip(count as int),
                    peers@,
                ).1 + count,
                fault is Some ==> count < ready && reaped(
                    Ledger { slots: in_flight@, completions: completions@, released: to_push@ },
                    entries.skip(count as int),
                    peers@,
                ) == (
                    Ledger { slots: in_flight@, completions: completions@, released: to_push@ },
                    0nat,
                ) && fault == Some(
                    match entries[count as int] {
                        Some(cqe) => Fault::Stray(cqe),
                        None => Fault::Unreadable,
                    },
                ),
                poisoned == any_poison(entries, count as nat),
            decreases ready - count + (if fault is None { 1int } else { 0int }),
        {
            let ghost now = Ledger {
                slots: in_flight@,
                completions: completions@,
                released: to_push@,
            };
            proof {
                lemma_reap_unfold(now, entries, peers@, count as int);
                lemma_poison_step(entries, count as nat);
            }
            let head: u32 = self.head;
            let index: u64 = (head & mask) as u64;
            let n: usize = ring.len();
            if (index + 1) * 16 > n as u64 {
                assert(entries[count as int] is None);
                fault = Some(Fault::Unreadable);
            } else {
                let cqe = Cqe::read(ring, (index * 16) as usize);
                assert(entries[count as int] == Some(cqe));
                if deliver(cqe, peers, in_flight, completions, &mut to_push) {
                    let (_, pill) = decode(cqe.user_data);
                    self.head = head.wrapping_add(1);
                    poisoned = poisoned || pill;
                    count = count + 1;
                } else {
                    fault = Some(Fault::Stray(cqe));
                }
            }
        }
        proof {
            assert(entries.skip(count as int).len() == ready - count);
            if count == ready {
                lemma_reap_nothing(
                    Ledger { slots: in_flight@, completions: completions@, released: to_push@ },
                    entries.skip(count as int),
                    peers@,
                );
            }
            if old(ticket_queue).wf() && accounted(old(in_flight)@, *old(ticket_queue)) {
                assert(old(ticket_queue)@ + Seq::<usize>::empty() =~= old(ticket_queue)@);
                lemma_reap_balanced(start, entries, peers@, old(ticket_queue)@);
            }
        }
        let ghost released = to_push@;
        ticket_queue.push_multi(to_push);
        proof {
            if old(ticket_queue).wf() && accounted(old(in_flight)@, *old(ticket_queue)) {
                assert(ticket_queue@ + Seq::<usize>::empty() =~= old(ticket_queue)@ + released);
            }
        }
        Reap { count: count as usize, poisoned, fault }
    }

    /// One round of the reaper, after its wait for completions returned:
    /// consumes what is ready and says whether the reaper is to stop, which
    /// it is once a poison pill has come through.
    ///
    /// `koverflow` is the ring's count of completions that the kernel had no
    /// room for. Tickets are handed out so that it cannot rise; a ring where
    /// it has is beyond repair, and no round is run on it.
    pub fn reaper(
        &mut self,
        koverflow: u32,
        ktail: u32,
        ring: &[u8],
        peers: &Vec<Option<SockAddr>>,
        in_flight: &mut InFlight,
        ticket_queue: &mut TicketQueue,
        completions: &mut Completions,
    ) -> (round: Reap)
        requires
            koverflow == 0,
        ensures
            ({
                let end = old(self).round(
                    ktail,
                    ring@,
                    peers@,
                    old(in_flight)@,
                    old(completions)@,
                );
                &&& final(in_flight)@ == end.0.slots
                &&& final(completions)@ == end.0.completions
                &&& final(ticket_queue)@ == old(ticket_queue)@ + end.0.released
                &&& final(ticket_queue).capacity() == old(ticket_queue).capacity()
                &&& final(self).head() == advanced(old(self).head(), end.1)
                &&& final(self).mask() == old(self).mask()
                &&& final(self).entries() == old(self).entries()
                &&& round == old(self).report(ktail, ring@, end.1)
            }),
            old(ticket_queue).wf() && accounted(old(in_flight)@, *old(ticket_queue))
                ==> final(ticket_queue).wf() && accounted(
                final(in_flight)@,
                *final(ticket_queue),
            ),
    {
        self.reap_ready_cqes(ktail, ring, peers, in_flight, ticket_queue, completions)
    }
}

} // verus!
