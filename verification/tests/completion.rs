//! Completions, their fillers and the table between them.

use std::sync::atomic::{AtomicUsize, Ordering};
use std::sync::Arc;
use std::task::{Wake, Waker};

use rio::completion::{pair, Completions, CqeData, Waited};
use rio::errors::OsError;
use rio::types::Cqe;
use rio::{CompletionState, FromCqe, SockAddr};

struct Counter(AtomicUsize);

impl Wake for Counter {
    fn wake(self: Arc<Self>) {
        self.0.fetch_add(1, Ordering::SeqCst);
    }
}

fn counting_waker() -> (Arc<Counter>, Waker) {
    let counter = Arc::new(Counter(AtomicUsize::new(0)));
    (counter.clone(), Waker::from(counter))
}

fn data(res: i32) -> CqeData {
    CqeData { cqe: Cqe { user_data: 3, res, flags: 0 }, address: None }
}

#[test]
fn default_state_is_pending_and_empty() {
    let state = CompletionState::default();
    assert!(!state.done);
    assert!(state.item.is_none());
    assert!(state.waker.is_none());
}

#[test]
fn pair_registers_a_pending_state() {
    let mut table = Completions::new();
    assert_eq!(table.len(), 0);
    let (completion, filler) = pair(&mut table, 7);
    assert_eq!(completion.sqe_id(), 7);
    assert!(table.contains(7));
    assert!(!table.contains(8));
    assert_eq!(table.len(), 1);
    assert_eq!(completion.wait_inner(&mut table), Waited::Pending);
    assert_eq!(completion.wait_inner(&mut table), Waited::Pending);
    assert!(table.contains(7));
    filler.fill(&mut table, Ok(data(12)));
    assert!(table.contains(7));
}

#[test]
fn fill_then_wait_yields_the_result_once() {
    let mut table = Completions::new();
    let (completion, filler) = pair(&mut table, 1);
    filler.fill(&mut table, Ok(data(4096)));
    assert_eq!(completion.wait_inner(&mut table), Waited::Done(Some(Ok(data(4096)))));
    assert!(!table.contains(1));
    assert_eq!(completion.wait_inner(&mut table), Waited::Done(None));
    assert_eq!(table.len(), 0);
}

#[test]
fn fill_delivers_errors_too() {
    let mut table = Completions::new();
    let (completion, filler) = pair(&mut table, 2);
    filler.fill(&mut table, Err(OsError { errno: 125 }));
    assert_eq!(completion.wait_inner(&mut table), Waited::Done(Some(Err(OsError { errno: 125 }))));
}

#[test]
fn fill_touches_only_its_own_operation() {
    let mut table = Completions::new();
    let (first, first_filler) = pair(&mut table, 1);
    let (second, second_filler) = pair(&mut table, 2);
    second_filler.fill(&mut table, Ok(data(2)));
    assert_eq!(first.wait_inner(&mut table), Waited::Pending);
    assert_eq!(second.wait_inner(&mut table), Waited::Done(Some(Ok(data(2)))));
    first_filler.fill(&mut table, Ok(data(1)));
    assert_eq!(first.wait_inner(&mut table), Waited::Done(Some(Ok(data(1)))));
}

#[test]
fn wait_returns_the_completion_while_pending() {
    let mut table = Completions::new();
    let (completion, filler) = pair(&mut table, 5);
    let completion = match completion.wait(&mut table) {
        Err(back) => back,
        Ok(_) => panic!("nothing was delivered yet"),
    };
    assert_eq!(completion.sqe_id(), 5);
    assert!(table.contains(5));
    filler.fill(&mut table, Ok(data(9)));
    match completion.wait(&mut table) {
        Ok(result) => assert_eq!(result, Ok(data(9))),
        Err(_) => panic!("the result was delivered"),
    }
    assert!(!table.contains(5));
}

#[test]
fn wait_after_the_result_was_taken_has_nothing_to_take() {
    let mut table = Completions::new();
    let (completion, filler) = pair(&mut table, 5);
    filler.fill(&mut table, Ok(data(9)));
    assert_eq!(completion.wait_inner(&mut table), Waited::Done(Some(Ok(data(9)))));
    assert!(completion.wait(&mut table).is_err());
}

#[test]
fn poll_registers_the_waker_and_fill_wakes_it() {
    let mut table = Completions::new();
    let (completion, filler) = pair(&mut table, 3);
    let (counter, waker) = counting_waker();
    assert_eq!(completion.poll(&mut table, waker), None);
    assert_eq!(counter.0.load(Ordering::SeqCst), 0);
    assert!(table.contains(3));
    filler.fill(&mut table, Ok(data(1)));
    assert_eq!(counter.0.load(Ordering::SeqCst), 1);
    let (again, waker) = counting_waker();
    assert_eq!(completion.poll(&mut table, waker), Some(Ok(data(1))));
    assert_eq!(again.0.load(Ordering::SeqCst), 0);
    assert!(!table.contains(3));
}

#[test]
fn poll_keeps_only_the_latest_waker() {
    let mut table = Completions::new();
    let (completion, filler) = pair(&mut table, 3);
    let (first, waker) = counting_waker();
    assert_eq!(completion.poll(&mut table, waker), None);
    let (second, waker) = counting_waker();
    assert_eq!(completion.poll(&mut table, waker), None);
    filler.fill(&mut table, Err(OsError { errno: 11 }));
    assert_eq!(first.0.load(Ordering::SeqCst), 0);
    assert_eq!(second.0.load(Ordering::SeqCst), 1);
}

#[test]
fn poll_after_the_result_was_taken_stays_pending() {
    let mut table = Completions::new();
    let (completion, filler) = pair(&mut table, 3);
    filler.fill(&mut table, Ok(data(1)));
    let (_, waker) = counting_waker();
    assert_eq!(completion.poll(&mut table, waker), Some(Ok(data(1))));
    let (counter, waker) = counting_waker();
    assert_eq!(completion.poll(&mut table, waker), None);
    assert_eq!(counter.0.load(Ordering::SeqCst), 0);
    assert_eq!(table.len(), 0);
}

#[test]
fn fill_without_a_waiter_wakes_nobody() {
    let mut table = Completions::new();
    let (completion, filler) = pair(&mut table, 1);
    filler.fill(&mut table, Ok(data(0)));
    assert_eq!(completion.wait_inner(&mut table), Waited::Done(Some(Ok(data(0)))));
}

#[test]
fn results_convert_to_counts_and_to_nothing() {
    let cqe = Cqe { user_data: 1, res: 4096, flags: 0 };
    assert_eq!(<usize as FromCqe>::from_cqe(cqe), 4096usize);
    assert_eq!(<() as FromCqe>::from_cqe(cqe), ());
    assert_eq!(<usize as FromCqe>::from_cqe(Cqe { res: 0, ..cqe }), 0usize);
    assert_eq!(<usize as FromCqe>::from_cqe(Cqe { res: i32::MAX, ..cqe }), i32::MAX as usize);
}

#[test]
fn results_carry_the_peer_address() {
    let mut table = Completions::new();
    let (completion, filler) = pair(&mut table, 1);
    let peer = SockAddr::V4 { ip: 0x7f00_0001, port: 8080 };
    let result = CqeData { cqe: Cqe { user_data: 0, res: 5, flags: 0 }, address: Some(peer) };
    filler.fill(&mut table, Ok(result));
    assert_eq!(completion.wait_inner(&mut table), Waited::Done(Some(Ok(result))));
    assert_eq!(SockAddr::new_unspecified(), SockAddr::V4 { ip: 0, port: 0 });
}
