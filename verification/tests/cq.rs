//! The completion half of a ring.

use rio::completion::{pair, Completion, Completions, CqeData, Waited};
use rio::cq::{decode, Cq, Fault, Reap};
use rio::errors::{OsError, SetupError};
use rio::in_flight::{Cell, InFlight};
use rio::params::Params;
use rio::sq::Enter;
use rio::ticket_queue::TicketQueue;
use rio::types::Cqe;
use rio::{IoVec, SockAddr};

struct Bench {
    cq: Cq,
    in_flight: InFlight,
    tickets: TicketQueue,
    completions: Completions,
    ring: Vec<u8>,
    entries: u32,
    next_id: u64,
}

impl Bench {
    fn new(entries: u32, khead: u32) -> Bench {
        let params = Params { sq_entries: entries, cq_entries: entries, ..Params::default() };
        let cells = (0..entries as u64)
            .map(|t| Cell { iovec: 16 * t, msghdr: 1000 + 56 * t, peer: 5000 + 28 * t, peer_len: 28 })
            .collect();
        Bench {
            cq: Cq::new(&params, entries - 1, khead).unwrap(),
            in_flight: InFlight::new(cells),
            tickets: TicketQueue::new(entries as usize),
            completions: Completions::new(),
            ring: vec![0; entries as usize * 16],
            entries,
            next_id: 0,
        }
    }

    /// Puts an operation in flight, as staging does.
    fn launch(&mut self, with_peer: bool) -> (usize, Completion) {
        let ticket = self.tickets.pop().unwrap();
        self.next_id += 1;
        let (completion, filler) = pair(&mut self.completions, self.next_id);
        let iovec = if with_peer { Some(IoVec { base: 1, len: 1 }) } else { None };
        self.in_flight.insert(ticket, iovec, None, with_peer, filler);
        (ticket, completion)
    }

    /// Writes a completion entry where the kernel would, at cursor `at`.
    fn post(&mut self, at: u32, cqe: Cqe) {
        let slot = (at & (self.entries - 1)) as usize;
        self.ring[slot * 16..slot * 16 + 16].copy_from_slice(&cqe.to_bytes());
    }

    fn reap(&mut self, ktail: u32, peers: &Vec<Option<SockAddr>>) -> Reap {
        self.cq.reap_ready_cqes(
            ktail,
            &self.ring,
            peers,
            &mut self.in_flight,
            &mut self.tickets,
            &mut self.completions,
        )
    }

    fn found(&mut self, completion: &Completion) -> Waited {
        completion.wait_inner(&mut self.completions)
    }
}

fn ok(user_data: u64, res: i32) -> Waited {
    Waited::Done(Some(Ok(CqeData { cqe: Cqe { user_data, res, flags: 0 }, address: None })))
}

#[test]
fn correlation_values_split_into_ticket_and_pill() {
    assert_eq!(decode(0), (0, false));
    assert_eq!(decode(5), (5, false));
    assert_eq!(decode(u64::MAX / 2), (u64::MAX / 2, false));
    assert_eq!(decode(u64::MAX / 2 + 1), (u64::MAX / 2, true));
    assert_eq!(decode(5 ^ u64::MAX), (5, true));
    assert_eq!(decode(u64::MAX), (0, true));
}

#[test]
fn the_reaper_waits_for_one_completion_and_submits_nothing() {
    assert_eq!(Cq::block_for_cqe(7), Enter { fd: 7, to_submit: 0, min_complete: 1, flags: 1 });
}

#[test]
fn malformed_completion_rings_are_refused() {
    let params = Params { cq_entries: 6, ..Params::default() };
    assert_eq!(Cq::new(&params, 5, 0).unwrap_err(), SetupError::MalformedRing);
    let params = Params { cq_entries: 8, ..Params::default() };
    assert_eq!(Cq::new(&params, 6, 0).unwrap_err(), SetupError::MalformedRing);
    let params = Params { cq_entries: 0, ..Params::default() };
    assert_eq!(Cq::new(&params, 0, 0).unwrap_err(), SetupError::MalformedRing);
    let params = Params { cq_entries: 8, ..Params::default() };
    let cq = Cq::new(&params, 7, 40).unwrap();
    assert_eq!(cq.consumed(), 40);
    assert_eq!(cq.ring_entries(), 8);
}

#[test]
fn nothing_ready_means_nothing_reaped() {
    let mut bench = Bench::new(4, 0);
    let (_, completion) = bench.launch(false);
    let round = bench.reap(0, &vec![]);
    assert_eq!(round, Reap { count: 0, poisoned: false, fault: None });
    assert_eq!(bench.cq.consumed(), 0);
    assert_eq!(bench.found(&completion), Waited::Pending);
    assert_eq!(bench.tickets.len(), 3);
}

#[test]
fn ready_entries_are_delivered_and_their_tickets_released() {
    let mut bench = Bench::new(4, 0);
    let (a, first) = bench.launch(false);
    let (b, second) = bench.launch(false);
    let (_c, third) = bench.launch(false);
    assert_eq!((a, b), (3, 2));
    // The kernel completes them out of order.
    bench.post(0, Cqe { user_data: b as u64, res: 20, flags: 0 });
    bench.post(1, Cqe { user_data: a as u64, res: 10, flags: 0 });
    let round = bench.reap(2, &vec![]);
    assert_eq!(round, Reap { count: 2, poisoned: false, fault: None });
    assert_eq!(bench.cq.consumed(), 2);
    assert_eq!(bench.found(&first), ok(a as u64, 10));
    assert_eq!(bench.found(&second), ok(b as u64, 20));
    assert_eq!(bench.found(&third), Waited::Pending);
    assert!(!bench.in_flight.is_occupied(a));
    assert!(!bench.in_flight.is_occupied(b));
    // The batch went back in the order of the entries, behind the free ticket.
    assert_eq!(bench.tickets.len(), 3);
    assert_eq!(bench.tickets.pop(), Some(a));
    assert_eq!(bench.tickets.pop(), Some(b));
    assert_eq!(bench.tickets.pop(), Some(0));
}

#[test]
fn negative_results_are_errors_with_the_negated_number() {
    let mut bench = Bench::new(4, 0);
    let (a, cancelled) = bench.launch(false);
    let (b, again) = bench.launch(false);
    let (c, extreme) = bench.launch(false);
    let (d, zero) = bench.launch(false);
    bench.post(0, Cqe { user_data: a as u64, res: -125, flags: 0 });
    bench.post(1, Cqe { user_data: b as u64, res: -11, flags: 0 });
    bench.post(2, Cqe { user_data: c as u64, res: i32::MIN, flags: 0 });
    bench.post(3, Cqe { user_data: d as u64, res: 0, flags: 9 });
    let round = bench.reap(4, &vec![]);
    assert_eq!(round.count, 4);
    assert_eq!(bench.found(&cancelled), Waited::Done(Some(Err(OsError { errno: 125 }))));
    assert_eq!(bench.found(&again), Waited::Done(Some(Err(OsError { errno: 11 }))));
    assert_eq!(bench.found(&extreme), Waited::Done(Some(Err(OsError { errno: 1 << 31 }))));
    assert_eq!(
        bench.found(&zero),
        Waited::Done(Some(Ok(CqeData { cqe: Cqe { user_data: d as u64, res: 0, flags: 9 }, address: None })))
    );
}

#[test]
fn the_head_follows_the_ring_around() {
    let mut bench = Bench::new(2, u32::MAX - 1);
    for round in 0..6u32 {
        let at = (u32::MAX - 1).wrapping_add(round);
        let (ticket, completion) = bench.launch(false);
        bench.post(at, Cqe { user_data: ticket as u64, res: round as i32, flags: 0 });
        let reap = bench.reap(at.wrapping_add(1), &vec![]);
        assert_eq!(reap, Reap { count: 1, poisoned: false, fault: None });
        assert_eq!(bench.cq.consumed(), at.wrapping_add(1));
        assert_eq!(bench.found(&completion), ok(ticket as u64, round as i32));
    }
}

#[test]
fn a_stray_entry_stops_the_round_and_is_reported() {
    let mut bench = Bench::new(4, 0);
    let (a, first) = bench.launch(false);
    let (b, second) = bench.launch(false);
    let stray = Cqe { user_data: 0, res: 1, flags: 0 };
    bench.post(0, Cqe { user_data: a as u64, res: 1, flags: 0 });
    bench.post(1, stray);
    bench.post(2, Cqe { user_data: b as u64, res: 2, flags: 0 });
    let round = bench.reap(3, &vec![]);
    assert_eq!(round, Reap { count: 1, poisoned: false, fault: Some(Fault::Stray(stray)) });
    assert_eq!(bench.cq.consumed(), 1);
    assert_eq!(bench.found(&first), ok(a as u64, 1));
    assert_eq!(bench.found(&second), Waited::Pending);
    assert!(bench.in_flight.is_occupied(b));
    assert_eq!(bench.tickets.len(), 3);
}

#[test]
fn a_ticket_beyond_the_table_is_stray() {
    let mut bench = Bench::new(2, 0);
    let beyond = Cqe { user_data: 2, res: 0, flags: 0 };
    bench.post(0, beyond);
    assert_eq!(
        bench.reap(1, &vec![]),
        Reap { count: 0, poisoned: false, fault: Some(Fault::Stray(beyond)) }
    );
    let far = Cqe { user_data: u64::MAX / 2, res: 0, flags: 0 };
    bench.post(0, far);
    assert_eq!(bench.reap(1, &vec![]).fault, Some(Fault::Stray(far)));
    assert_eq!(bench.cq.consumed(), 0);
}

#[test]
fn the_same_entry_twice_completes_only_once() {
    let mut bench = Bench::new(2, 0);
    let (a, first) = bench.launch(false);
    let cqe = Cqe { user_data: a as u64, res: 3, flags: 0 };
    bench.post(0, cqe);
    bench.post(1, cqe);
    let round = bench.reap(2, &vec![]);
    assert_eq!(round, Reap { count: 1, poisoned: false, fault: Some(Fault::Stray(cqe)) });
    assert_eq!(bench.found(&first), ok(a as u64, 3));
    assert_eq!(bench.tickets.len(), 2);
}

#[test]
fn a_ring_that_is_too_short_is_reported() {
    let mut bench = Bench::new(4, 0);
    let (a, first) = bench.launch(false);
    let (_b, second) = bench.launch(false);
    bench.post(0, Cqe { user_data: a as u64, res: 1, flags: 0 });
    bench.ring.truncate(16);
    let round = bench.reap(2, &vec![]);
    assert_eq!(round, Reap { count: 1, poisoned: false, fault: Some(Fault::Unreadable) });
    assert_eq!(bench.found(&first), ok(a as u64, 1));
    assert_eq!(bench.found(&second), Waited::Pending);
    bench.ring.clear();
    assert_eq!(bench.reap(2, &vec![]), Reap { count: 0, poisoned: false, fault: Some(Fault::Unreadable) });
}

#[test]
fn a_poison_pill_is_delivered_and_reported() {
    let mut bench = Bench::new(4, 0);
    let (a, work) = bench.launch(false);
    let (p, pill) = bench.launch(false);
    bench.post(0, Cqe { user_data: a as u64, res: 7, flags: 0 });
    bench.post(1, Cqe { user_data: p as u64 ^ u64::MAX, res: 0, flags: 0 });
    let round = bench.reap(2, &vec![]);
    assert_eq!(round, Reap { count: 2, poisoned: true, fault: None });
    assert_eq!(bench.found(&work), ok(a as u64, 7));
    assert_eq!(bench.found(&pill), ok(p as u64 ^ u64::MAX, 0));
    assert_eq!(bench.tickets.len(), 4);
}

#[test]
fn entries_behind_a_poison_pill_are_still_delivered() {
    let mut bench = Bench::new(4, 0);
    let (p, _pill) = bench.launch(false);
    let (a, work) = bench.launch(false);
    bench.post(0, Cqe { user_data: p as u64 ^ u64::MAX, res: 0, flags: 0 });
    bench.post(1, Cqe { user_data: a as u64, res: 7, flags: 0 });
    let round = bench.reap(2, &vec![]);
    assert_eq!(round, Reap { count: 2, poisoned: true, fault: None });
    assert_eq!(bench.found(&work), ok(a as u64, 7));
}

#[test]
fn a_success_takes_the_peer_address_along() {
    let mut bench = Bench::new(4, 0);
    let (a, datagram) = bench.launch(true);
    let (b, silent) = bench.launch(true);
    let (c, plain) = bench.launch(false);
    let peer = SockAddr::V4 { ip: 0x0a00_0001, port: 9 };
    let mut peers = vec![None; 4];
    peers[a] = Some(peer);
    peers[c] = Some(peer);
    bench.post(0, Cqe { user_data: a as u64, res: 5, flags: 0 });
    bench.post(1, Cqe { user_data: b as u64, res: 6, flags: 0 });
    bench.post(2, Cqe { user_data: c as u64, res: 7, flags: 0 });
    assert_eq!(bench.reap(3, &peers).count, 3);
    assert_eq!(
        bench.found(&datagram),
        Waited::Done(Some(Ok(CqeData {
            cqe: Cqe { user_data: a as u64, res: 5, flags: 0 },
            address: Some(peer)
        })))
    );
    // Where nothing was read from the cell, the address is as it was armed.
    assert_eq!(
        bench.found(&silent),
        Waited::Done(Some(Ok(CqeData {
            cqe: Cqe { user_data: b as u64, res: 6, flags: 0 },
            address: Some(SockAddr::V4 { ip: 0, port: 0 })
        })))
    );
    // An operation that expects no peer ignores what its cell holds.
    assert_eq!(bench.found(&plain), ok(c as u64, 7));
    assert_eq!(bench.in_flight.take_address(a), None);
}

#[test]
fn a_failure_leaves_the_peer_address_in_its_slot() {
    let mut bench = Bench::new(2, 0);
    let (a, datagram) = bench.launch(true);
    bench.post(0, Cqe { user_data: a as u64, res: -11, flags: 0 });
    let peers = vec![Some(SockAddr::V4 { ip: 1, port: 1 }); 2];
    assert_eq!(bench.reap(1, &peers).count, 1);
    assert_eq!(bench.found(&datagram), Waited::Done(Some(Err(OsError { errno: 11 }))));
    assert_eq!(bench.in_flight.take_address(a), Some(SockAddr::V4 { ip: 0, port: 0 }));
}

#[test]
fn a_round_of_the_reaper_is_a_round_of_reaping() {
    let mut bench = Bench::new(2, 0);
    let (a, first) = bench.launch(false);
    bench.post(0, Cqe { user_data: a as u64, res: 1, flags: 0 });
    let round = bench.cq.reaper(
        0,
        1,
        &bench.ring,
        &vec![],
        &mut bench.in_flight,
        &mut bench.tickets,
        &mut bench.completions,
    );
    assert_eq!(round, Reap { count: 1, poisoned: false, fault: None });
    assert_eq!(bench.found(&first), ok(a as u64, 1));
}
