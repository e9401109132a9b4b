//! The submission half of a ring.

use rio::errors::SetupError;
use rio::params::{Params, SqringOffsets};
use rio::sq::{Enter, Publish, Region, Sq};
use rio::types::Sqe;
use rio::Order;

const SQPOLL: u32 = 2;

fn params(sq_entries: u32) -> Params {
    Params { sq_entries, cq_entries: 2 * sq_entries, ..Params::default() }
}

fn sq(entries: u32) -> Sq {
    Sq::new(&params(entries), entries - 1).unwrap()
}

#[test]
fn regions_follow_the_kernel_offsets() {
    let mut p = params(256);
    p.sq_off = SqringOffsets { array: 8512, ..SqringOffsets::default() };
    p.cq_off.cqes = 320;
    assert_eq!(Sq::ring_region(&p), Region { offset: 0, len: 8512 + 256 * 4 });
    assert_eq!(Sq::sqes_region(&p), Region { offset: 0x1000_0000, len: 256 * 64 });
    assert_eq!(rio::Cq::ring_region(&p), Region { offset: 0x800_0000, len: 320 + 512 * 16 });
    let mut big = params(u32::MAX);
    big.cq_entries = u32::MAX;
    big.sq_off.array = u32::MAX;
    big.cq_off.cqes = u32::MAX;
    assert_eq!(Sq::ring_region(&big).len, u32::MAX as u64 * 5);
    assert_eq!(Sq::sqes_region(&big).len, u32::MAX as u64 * 64);
    assert_eq!(rio::Cq::ring_region(&big).len, u32::MAX as u64 * 17);
}

#[test]
fn malformed_rings_are_refused() {
    assert_eq!(Sq::new(&params(0), 0).unwrap_err(), SetupError::MalformedRing);
    assert_eq!(Sq::new(&params(6), 5).unwrap_err(), SetupError::MalformedRing);
    assert_eq!(Sq::new(&params(8), 8).unwrap_err(), SetupError::MalformedRing);
    assert_eq!(Sq::new(&params(8), 3).unwrap_err(), SetupError::MalformedRing);
    assert!(Sq::new(&params(8), 7).is_ok());
    assert!(Sq::new(&params(1), 0).is_ok());
    assert_eq!(sq(8).ring_entries(), 8);
}

#[test]
fn entries_are_handed_out_in_ring_order_until_full() {
    let mut sq = sq(4);
    for expected in 0..4 {
        assert_eq!(sq.try_get_sqe(0, 0), Some(expected));
        assert_eq!(sq.pending(), expected + 1);
    }
    assert_eq!(sq.try_get_sqe(0, 0), None);
    assert_eq!(sq.try_get_sqe(0, 99), None);
    assert_eq!(sq.pending(), 4);
}

#[test]
fn flush_publishes_each_staged_entry_once_in_order() {
    let mut sq = sq(4);
    for _ in 0..3 {
        sq.try_get_sqe(0, 0);
    }
    let flush = sq.flush(0);
    assert_eq!(
        flush.writes,
        vec![
            Publish { slot: 0, index: 0 },
            Publish { slot: 1, index: 1 },
            Publish { slot: 2, index: 2 }
        ]
    );
    assert_eq!(flush.tail, 3);
    assert_eq!(sq.pending(), 0);
    let empty = sq.flush(3);
    assert!(empty.writes.is_empty());
    assert_eq!(empty.tail, 3);
    // The ring wraps: the next entries reuse the first slots.
    assert_eq!(sq.try_get_sqe(0, 0), Some(3));
    assert_eq!(sq.try_get_sqe(0, 0), Some(0));
    let flush = sq.flush(3);
    assert_eq!(flush.writes, vec![Publish { slot: 3, index: 3 }, Publish { slot: 0, index: 0 }]);
    assert_eq!(flush.tail, 5);
}

#[test]
fn flush_follows_the_kernel_tail_across_the_wrap_of_the_cursor() {
    let mut sq = sq(2);
    sq.try_get_sqe(0, 0);
    sq.try_get_sqe(0, 0);
    let flush = sq.flush(u32::MAX);
    assert_eq!(flush.writes, vec![Publish { slot: 1, index: 0 }, Publish { slot: 0, index: 1 }]);
    assert_eq!(flush.tail, 1);
}

#[test]
fn a_full_ring_has_room_again_after_a_flush() {
    let mut sq = sq(2);
    assert!(sq.try_get_sqe(0, 0).is_some());
    assert!(sq.try_get_sqe(0, 0).is_some());
    assert!(sq.try_get_sqe(0, 0).is_none());
    sq.flush(0);
    assert_eq!(sq.try_get_sqe(0, 0), Some(0));
}

#[test]
fn depth_of_one_alternates_between_full_and_free() {
    let mut sq = sq(1);
    for round in 0..10u32 {
        assert_eq!(sq.try_get_sqe(0, 0), Some(0));
        assert_eq!(sq.try_get_sqe(0, 0), None);
        let flush = sq.flush(round);
        assert_eq!(flush.writes, vec![Publish { slot: 0, index: 0 }]);
        assert_eq!(flush.tail, round + 1);
    }
}

#[test]
fn with_a_polling_kernel_the_kernel_head_decides() {
    let mut sq = sq(2);
    assert_eq!(sq.try_get_sqe(SQPOLL, 0), Some(0));
    assert_eq!(sq.try_get_sqe(SQPOLL, 0), Some(1));
    assert_eq!(sq.try_get_sqe(SQPOLL, 0), None);
    // The kernel has taken one entry.
    assert_eq!(sq.try_get_sqe(SQPOLL, 1), Some(0));
    assert_eq!(sq.try_get_sqe(SQPOLL, 1), None);
    assert_eq!(sq.try_get_sqe(SQPOLL, 3), Some(1));
}

#[test]
fn submit_all_without_polling_flushes_and_enters() {
    let mut sq = sq(8);
    for _ in 0..5 {
        sq.try_get_sqe(0, 0);
    }
    let plan = sq.submit_all(0, 9, 100, 1);
    assert_eq!(plan.flushed, 5);
    let flush = plan.flush.unwrap();
    assert_eq!(flush.writes.len(), 5);
    assert_eq!(flush.writes[0], Publish { slot: 100 & 7, index: 0 });
    assert_eq!(flush.writes[4], Publish { slot: 104 & 7, index: 4 });
    assert_eq!(flush.tail, 105);
    assert_eq!(plan.enter, Some(Enter { fd: 9, to_submit: 5, min_complete: 0, flags: 1 }));
    assert_eq!(sq.pending(), 0);
    // Nothing staged: nothing to publish, no call to make.
    let plan = sq.submit_all(0, 9, 105, 0);
    assert_eq!(plan.flushed, 0);
    assert!(plan.flush.unwrap().writes.is_empty());
    assert_eq!(plan.enter, None);
}

#[test]
fn submit_all_with_polling_only_wakes_a_parked_kernel_thread() {
    let mut sq = sq(8);
    for _ in 0..3 {
        sq.try_get_sqe(SQPOLL, 0);
    }
    let plan = sq.submit_all(SQPOLL, 9, 0, 0);
    assert_eq!(plan.flushed, 0);
    assert!(plan.flush.is_none());
    assert_eq!(plan.enter, None);
    assert_eq!(sq.pending(), 3);
    let plan = sq.submit_all(SQPOLL, 9, 0, 1);
    assert_eq!(plan.flushed, 0);
    assert!(plan.flush.is_none());
    assert_eq!(plan.enter, Some(Enter { fd: 9, to_submit: 3, min_complete: 0, flags: 2 }));
    assert_eq!(sq.pending(), 3);
    // Other bits of the ring flags do not count as a request to wake.
    let plan = sq.submit_all(SQPOLL, 9, 0, 2);
    assert_eq!(plan.enter, None);
}

#[test]
fn partial_submission_is_repeated_for_the_rest() {
    let call = Enter { fd: 3, to_submit: 10, min_complete: 0, flags: 1 };
    assert_eq!(call.next(4), Some(Enter { to_submit: 6, ..call }));
    assert_eq!(call.next(0), Some(call));
    assert_eq!(call.next(10), None);
    assert_eq!(call.next(11), None);
    assert_eq!(Enter { to_submit: 6, ..call }.next(6), None);
}

#[test]
fn a_wakeup_call_is_made_once() {
    let call = Enter { fd: 3, to_submit: 10, min_complete: 0, flags: 2 };
    assert_eq!(call.next(0), None);
    assert_eq!(call.next(3), None);
}

#[test]
fn prep_rw_clears_what_an_earlier_operation_left() {
    let mut sqe = Sqe {
        opcode: 9,
        flags: 7,
        ioprio: 5,
        fd: 4,
        off: 3,
        addr: 0x1234,
        len: 2,
        op_flags: 1,
        user_data: 77,
        buf_index: 6,
    };
    sqe.prep_rw(2, 11, 1, 8192, Order::Link);
    assert_eq!(
        sqe,
        Sqe {
            opcode: 2,
            flags: 4,
            ioprio: 0,
            fd: 11,
            off: 8192,
            addr: 0x1234,
            len: 1,
            op_flags: 0,
            user_data: 77,
            buf_index: 0
        }
    );
    sqe.prep_rw(0, 0, 1, 0, Order::Drain);
    assert_eq!(sqe.flags, 2);
    sqe.prep_rw(0, 0, u32::MAX as usize, 0, Order::Unordered);
    assert_eq!(sqe.flags, 0);
    assert_eq!(sqe.len, u32::MAX);
    assert_eq!(Sqe::zeroed().to_bytes(), vec![0u8; 64]);
}

#[test]
fn apply_order_adds_the_chain_bits() {
    let mut sqe = Sqe::zeroed();
    sqe.apply_order(Order::Unordered);
    assert_eq!(sqe.flags, 0);
    sqe.flags = 1;
    sqe.apply_order(Order::Link);
    assert_eq!(sqe.flags, 5);
    sqe.apply_order(Order::Drain);
    assert_eq!(sqe.flags, 7);
}
