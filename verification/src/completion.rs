//! Completions: the promise that a submitted operation will have a result.
//!
//! Each submission gets a sequence number, a [`Completion`] for whoever waits
//! for the result and a [`Filler`] for whoever delivers it. The state they
//! share lives in a [`Completions`] table under the sequence number, from
//! the submission until the result has been taken.

use std::collections::HashMap;
use std::task::Waker;
use vstd::prelude::*;
use vstd::std_specs::hash::group_hash_axioms;
use crate::addr::SockAddr;
use crate::errors::OsError;
use crate::types::Cqe;

verus! {

broadcast use group_hash_axioms;

/// A task to be resumed when a result arrives. Nothing is known of it but
/// that it can be woken.
#[verifier::external_type_specification]
#[verifier::external_body]
pub struct ExWaker(Waker);

/// `Waker::wake`: resumes the task that the waker belongs to. Nothing is
/// claimed of the call.
#[verifier::external_body]
fn wake(waker: Waker) {
    waker.wake()
}

/// What a successful operation left behind.
#[derive(Clone, Copy, Debug, PartialEq, Eq, Structural)]
pub struct CqeData {
    /// The completion entry.
    pub cqe: Cqe,
    /// The peer's address, for operations that report one.
    pub address: Option<SockAddr>,
}

/// The result of an operation: what it left behind, or the error it failed
/// with.
pub type Outcome = Result<CqeData, OsError>;

/// The state that a completion and its filler share.
#[derive(Debug)]
pub struct CompletionState {
    /// Whether the result has been delivered.
    pub done: bool,
    /// The result, from its delivery until it is taken.
    pub item: Option<Outcome>,
    /// The task to resume on delivery, if one is waiting.
    pub waker: Option<Waker>,
}

impl CompletionState {
    /// The state of an operation that has just been submitted.
    pub open spec fn fresh() -> CompletionState {
        CompletionState { done: false, item: None, waker: None }
    }

    /// The state of an operation whose result is `inner`.
    pub open spec fn ready(inner: Outcome) -> CompletionState {
        CompletionState { done: true, item: Some(inner), waker: None }
    }
}

impl Default for CompletionState {
    fn default() -> (state: CompletionState)
        ensures
            state == CompletionState::fresh(),
    {
        CompletionState { done: false, item: None, waker: None }
    }
}

/// What a wait found.
#[derive(Clone, Copy, Debug, PartialEq, Eq)]
pub enum Waited {
    /// The operation has not completed: block, then look again.
    Pending,
    /// The operation has completed. The result is handed out once; later
    /// waits find `None`.
    Done(Option<Outcome>),
}

/// The table of shared states, by sequence number.
pub struct Completions {
    table: HashMap<u64, CompletionState>,
}

impl View for Completions {
    type V = Map<u64, CompletionState>;

    closed spec fn view(&self) -> Map<u64, CompletionState> {
        self.table@
    }
}

/// The table after the result `inner` was delivered for `sqe_id`.
pub open spec fn filled(table: Map<u64, CompletionState>, sqe_id: u64, inner: Outcome) -> Map<
    u64,
    CompletionState,
> {
    table.insert(sqe_id, CompletionState::ready(inner))
}

/// What a wait for `sqe_id` finds in `table`. A state that is gone has had
/// its result taken.
pub open spec fn wait_result(table: Map<u64, CompletionState>, sqe_id: u64) -> Waited {
    if !table.contains_key(sqe_id) {
        Waited::Done(None)
    } else if table[sqe_id].done {
        Waited::Done(table[sqe_id].item)
    } else {
        Waited::Pending
    }
}

/// The table after a wait for `sqe_id`: a state whose result was delivered
/// leaves with the result.
pub open spec fn after_wait(table: Map<u64, CompletionState>, sqe_id: u64) -> Map<
    u64,
    CompletionState,
> {
    if table.contains_key(sqe_id) && table[sqe_id].done {
        table.remove(sqe_id)
    } else {
        table
    }
}

/// What a poll for `sqe_id` finds in `table`: the result, if it is there to
/// be taken.
pub open spec fn poll_result(table: Map<u64, CompletionState>, sqe_id: u64) -> Option<Outcome> {
    if table.contains_key(sqe_id) {
        table[sqe_id].item
    } else {
        None
    }
}

/// The table after a poll for `sqe_id` on behalf of `waker`: a result that
/// is there leaves with its state; a pending operation remembers the waker.
pub open spec fn after_poll(table: Map<u64, CompletionState>, sqe_id: u64, waker: Waker) -> Map<
    u64,
    CompletionState,
> {
    if !table.contains_key(sqe_id) {
        table
    } else if table[sqe_id].item is Some {
        table.remove(sqe_id)
    } else if !table[sqe_id].done {
        table.insert(sqe_id, CompletionState { waker: Some(waker), ..table[sqe_id] })
    } else {
        table
    }
}

/// Once a result is delivered, a wait finds it, whatever the table held
/// before; and the wait removes the state.
pub proof fn lemma_fill_then_wait(table: Map<u64, CompletionState>, sqe_id: u64, inner: Outcome)
    ensures
        wait_result(filled(table, sqe_id, inner), sqe_id) == Waited::Done(Some(inner)),
        !after_wait(filled(table, sqe_id, inner), sqe_id).contains_key(sqe_id),
{
}

/// A wait stays pending exactly as long as the operation is known and its
/// result has not been delivered, and while it is pending it changes
/// nothing.
pub proof fn lemma_wait_pending(table: Map<u64, CompletionState>, sqe_id: u64)
    ensures
        wait_result(table, sqe_id) is Pending <==> table.contains_key(sqe_id)
            && !table[sqe_id].done,
        wait_result(table, sqe_id) is Pending ==> after_wait(table, sqe_id) == table,
{
}

/// Delivering a result for one operation leaves the others as they were.
pub proof fn lemma_fill_is_local(
    table: Map<u64, CompletionState>,
    sqe_id: u64,
    inner: Outcome,
    other: u64,
)
    requires
        other != sqe_id,
    ensures
        wait_result(filled(table, sqe_id, inner), other) == wait_result(table, other),
{
}

impl Completions {
    /// The empty table.
    pub fn new() -> (table: Completions)
        ensures
            table@ == Map::<u64, CompletionState>::empty(),
    {
        Completions { table: HashMap::new() }
    }

    /// Whether an operation is known to the table.
    pub fn contains(&self, sqe_id: u64) -> (known: bool)
        ensures
            known == self@.contains_key(sqe_id),
    {
        self.table.contains_key(&sqe_id)
    }

    /// The number of operations known to the table.
    pub fn len(&self) -> (n: usize)
        ensures
            n == self@.len(),
    {
        self.table.len()
    }
}

/// The waiting side of a completion.
///
/// It cannot be copied, and only [`pair`] makes one: whoever holds it is the
/// one party entitled to the result.
#[derive(Debug)]
pub struct Completion {
    sqe_id: u64,
}

/// The delivering side of a completion. It is used up by the delivery.
#[derive(Debug)]
pub struct Filler {
    sqe_id: u64,
}

/// Creates the two sides of the completion of submission `sqe_id` and enters
/// its state, fresh, in the table.
pub fn pair(table: &mut Completions, sqe_id: u64) -> (sides: (Completion, Filler))
    ensures
        sides.0 == Completion::of(sqe_id),
        sides.1 == Filler::of(sqe_id),
        final(table)@ == old(table)@.insert(sqe_id, CompletionState::fresh()),
{
    table.table.insert(sqe_id, CompletionState::default());
    (Completion { sqe_id }, Filler { sqe_id })
}

impl Completion {
    /// The sequence number of the submission.
    pub closed spec fn id(&self) -> u64 {
        self.sqe_id
    }

    /// The waiting side of the completion of submission `sqe_id`.
    pub closed spec fn of(sqe_id: u64) -> Completion {
        Completion { sqe_id }
    }

    /// A completion is known by its sequence number.
    pub proof fn lemma_of_id(sqe_id: u64)
        ensures
            Completion::of(sqe_id).id() == sqe_id,
    {
    }

    /// The sequence number of the submission.
    pub fn sqe_id(&self) -> (id: u64)
        ensures
            id == self.id(),
    {
        self.sqe_id
    }

    /// Looks for the result without blocking. While the operation is pending
    /// nothing changes; once its result has been delivered this hands it
    /// out and forgets the operation, so a later look finds it gone.
    pub fn wait_inner(&self, table: &mut Completions) -> (found: Waited)
        ensures
            found == wait_result(old(table)@, self.id()),
            final(table)@ == after_wait(old(table)@, self.id()),
    {
        let done = match table.table.get(&self.sqe_id) {
            Some(state) => state.done,
            None => { return Waited::Done(None); },
        };
        if done {
            match table.table.remove(&self.sqe_id) {
                Some(state) => Waited::Done(state.item),
                None => Waited::Done(None),
            }
        } else {
            Waited::Pending
        }
    }

    /// Takes the result. If there is none to take, because the operation is
    /// still pending or because its result was taken before, the completion
    /// comes back and nothing has changed.
    pub fn wait(self, table: &mut Completions) -> (taken: Result<Outcome, Completion>)
        ensures
            match taken {
                Ok(inner) => wait_result(old(table)@, self.id()) == Waited::Done(Some(inner))
                    && final(table)@ == old(table)@.remove(self.id()),
                Err(back) => back == self && !(wait_result(old(table)@, self.id())
                    matches Waited::Done(Some(_))) && final(table)@ == old(table)@,
            },
    {
        let ready = match table.table.get(&self.sqe_id) {
            Some(state) => state.done && state.item.is_some(),
            None => false,
        };
        if ready {
            match table.table.remove(&self.sqe_id) {
                Some(CompletionState { item: Some(inner), .. }) => Ok(inner),
                _ => Err(self),
            }
        } else {
            Err(self)
        }
    }

    /// Looks for the result on behalf of a task. A result that is there is
    /// handed out, and its state leaves the table. Otherwise, if the
    /// operation is pending, `waker` is remembered, to be woken by the
    /// delivery.
    pub fn poll(&self, table: &mut Completions, waker: Waker) -> (ready: Option<Outcome>)
        ensures
            ready == poll_result(old(table)@, self.id()),
            final(table)@ == after_poll(old(table)@, self.id(), waker),
    {
        let (present, pending) = match table.table.get(&self.sqe_id) {
            Some(state) => (state.item.is_some(), !state.done),
            None => { return None; },
        };
        if present {
            match table.table.remove(&self.sqe_id) {
                Some(state) => state.item,
                None => None,
            }
        } else if pending {
            match table.table.remove(&self.sqe_id) {
                Some(state) => {
                    let next = CompletionState {
                        done: state.done,
                        item: state.item,
                        waker: Some(waker),
                    };
                    table.table.insert(self.sqe_id, next);
                    assert(table@ =~= after_poll(old(table)@, self.id(), waker));
                },
                None => {},
            }
            None
        } else {
            None
        }
    }
}

impl Filler {
    /// The sequence number of the submission.
    pub closed spec fn id(&self) -> u64 {
        self.sqe_id
    }

    /// The delivering side of the completion of submission `sqe_id`.
    pub closed spec fn of(sqe_id: u64) -> Filler {
        Filler { sqe_id }
    }

    /// A filler is known by its sequence number.
    pub proof fn lemma_of_id(sqe_id: u64)
        ensures
            Filler::of(sqe_id).id() == sqe_id,
    {
    }

    /// Delivers the result: wakes the task that waits for it, if there is
    /// one, and leaves the result in the table, marked done.
    pub fn fill(self, table: &mut Completions, inner: Outcome)
        ensures
            final(table)@ == filled(old(table)@, self.id(), inner),
    {
        match table.table.remove(&self.sqe_id) {
            Some(state) => {
                match state.waker {
                    Some(waker) => wake(waker),
                    None => {},
                }
            },
            None => {},
        }
        table.table.insert(
            self.sqe_id,
            CompletionState { done: true, item: Some(inner), waker: None },
        );
        assert(table@ =~= filled(old(table)@, self.id(), inner));
    }
}

} // verus!
