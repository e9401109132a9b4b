//! The free list of tickets. A ticket is an index into the table of
//! in-flight operations; a submission takes one and gets it back only when
//! its completion has been reaped, so there are never more operations in
//! flight than the completion queue has room for.

use vstd::prelude::*;

verus! {

/// The tickets that are free to be handed out, of `capacity` in all.
#[derive(Debug)]
pub struct TicketQueue {
    tickets: Vec<usize>,
    capacity: usize,
}

impl View for TicketQueue {
    type V = Seq<usize>;

    /// The free tickets; the last one is handed out next.
    closed spec fn view(&self) -> Seq<usize> {
        self.tickets@
    }
}

/// Every member of `s` is below `bound`.
pub open spec fn all_below(s: Seq<usize>, bound: nat) -> bool {
    forall|i: int| 0 <= i < s.len() ==> #[trigger] s[i] < bound
}

/// Distinct numbers below a bound are at most as many as the bound.
pub proof fn lemma_distinct_below(s: Seq<usize>, bound: nat)
    requires
        s.no_duplicates(),
        all_below(s, bound),
    ensures
        s.len() <= bound,
    decreases bound,
{
    if s.len() > 0 {
        if bound == 0 {
            assert(s[0] < bound);
        } else {
            let top = (bound - 1) as nat;
            if exists|k: int| 0 <= k < s.len() && s[k] == top {
                let k = choose|k: int| 0 <= k < s.len() && s[k] == top;
                let rest = s.remove(k);
                assert forall|i: int| 0 <= i < rest.len() implies #[trigger] rest[i] < top by {
                    if i < k {
                        assert(rest[i] == s[i]);
                        assert(s[i] < bound);
                    } else {
                        assert(rest[i] == s[i + 1]);
                        assert(s[i + 1] < bound);
                    }
                }
                assert(rest.no_duplicates()) by {
                    assert forall|i: int, j: int|
                        0 <= i < rest.len() && 0 <= j < rest.len() && i != j implies rest[i]
                        != rest[j] by {
                        let si = if i < k { i } else { i + 1 };
                        let sj = if j < k { j } else { j + 1 };
                        assert(rest[i] == s[si]);
                        assert(rest[j] == s[sj]);
                    }
                }
                lemma_distinct_below(rest, top);
            } else {
                assert forall|i: int| 0 <= i < s.len() implies #[trigger] s[i] < top by {
                    assert(s[i] < bound);
                }
                lemma_distinct_below(s, top);
            }
        }
    }
}

impl TicketQueue {
    /// The number of tickets that exist, free or not.
    pub closed spec fn capacity(&self) -> nat {
        self.capacity as nat
    }

    /// No ticket is free twice, and every free ticket exists.
    pub open spec fn wf(&self) -> bool {
        self@.no_duplicates() && all_below(self@, self.capacity())
    }

    /// The number of tickets that are handed out.
    pub open spec fn outstanding(&self) -> int {
        self.capacity() - self@.len()
    }

    /// Whether `batch` can be given back: its tickets exist, none comes
    /// twice, and none is free already.
    pub open spec fn releasable(&self, batch: Seq<usize>) -> bool {
        &&& batch.no_duplicates()
        &&& all_below(batch, self.capacity())
        &&& forall|i: int| 0 <= i < batch.len() ==> !self@.contains(#[trigger] batch[i])
    }

    /// The tickets handed out are never more than exist, and never fewer
    /// than none.
    pub proof fn lemma_outstanding_bounded(&self)
        requires
            self.wf(),
        ensures
            0 <= self.outstanding() <= self.capacity(),
    {
        lemma_distinct_below(self@, self.capacity());
    }

    /// A queue of `size` tickets, `0` to `size - 1`, all of them free.
    pub fn new(size: usize) -> (queue: TicketQueue)
        ensures
            queue.wf(),
            queue.capacity() == size,
            queue@ == Seq::new(size as nat, |i: int| i as usize),
            queue.outstanding() == 0,
    {
        let mut tickets: Vec<usize> = Vec::new();
        let mut next: usize = 0;
        while next < size
            invariant
                next <= size,
                tickets@ == Seq::new(next as nat, |i: int| i as usize),
            decreases size - next,
        {
            tickets.push(next);
            next = next + 1;
            assert(tickets@ =~= Seq::new(next as nat, |i: int| i as usize));
        }
        TicketQueue { tickets, capacity: size }
    }

    /// Gives a batch of tickets back, after the free ones.
    pub fn push_multi(&mut self, new_tickets: Vec<usize>)
        ensures
            final(self)@ == old(self)@ + new_tickets@,
            final(self).capacity() == old(self).capacity(),
            old(self).wf() && old(self).releasable(new_tickets@) ==> final(self).wf(),
    {
        let ghost batch = new_tickets@;
        let mut new_tickets = new_tickets;
        self.tickets.append(&mut new_tickets);
        proof {
            let before = old(self)@;
            let after = self@;
            if old(self).wf() && old(self).releasable(batch) {
                assert forall|i: int, j: int|
                    0 <= i < after.len() && 0 <= j < after.len() && i != j implies after[i]
                    != after[j] by {
                    if i >= before.len() && j < before.len() {
                        assert(after[i] == batch[i - before.len()]);
                        assert(before.contains(before[j]));
                    } else if j >= before.len() && i < before.len() {
                        assert(after[j] == batch[j - before.len()]);
                        assert(before.contains(before[i]));
                    } else if i >= before.len() {
                        assert(after[i] == batch[i - before.len()]);
                        assert(after[j] == batch[j - before.len()]);
                    }
                }
                assert forall|i: int| 0 <= i < after.len() implies #[trigger] after[i]
                    < self.capacity() by {
                    if i >= before.len() {
                        assert(after[i] == batch[i - before.len()]);
                    } else {
                        assert(after[i] == before[i]);
                    }
                }
            }
        }
    }

    /// Takes a free ticket, the one that was given back last. `None` says
    /// that every ticket is handed out: the caller has to wait until the
    /// reaper gives some back.
    pub fn pop(&mut self) -> (ticket: Option<usize>)
        ensures
            final(self).capacity() == old(self).capacity(),
            old(self)@.len() == 0 ==> ticket is None && final(self)@ == old(self)@,
            old(self)@.len() > 0 ==> ticket == Some(old(self)@.last()) && final(self)@ == old(
                self,
            )@.drop_last(),
            old(self).wf() ==> final(self).wf(),
            old(self).wf() ==> (ticket matches Some(t) ==> t < old(self).capacity()
                && !final(self)@.contains(t)),
    {
        let ticket = self.tickets.pop();
        proof {
            if old(self).wf() && old(self)@.len() > 0 {
                let before = old(self)@;
                let after = self@;
                let last = before.len() - 1;
                assert(before[last] < self.capacity());
                assert forall|i: int| 0 <= i < after.len() implies #[trigger] after[i]
                    < self.capacity() by {
                    assert(after[i] == before[i]);
                }
                assert forall|i: int, j: int|
                    0 <= i < after.len() && 0 <= j < after.len() && i != j implies after[i]
                    != after[j] by {
                    assert(after[i] == before[i]);
                    assert(after[j] == before[j]);
                }
                if after.contains(before[last]) {
                    let k = choose|k: int| 0 <= k < after.len() && after[k] == before[last];
                    assert(before[k] == before[last]);
                }
            }
        }
        ticket
    }

    /// Whether no ticket is free.
    pub fn is_empty(&self) -> (empty: bool)
        ensures
            empty == (self@.len() == 0),
    {
        self.tickets.len() == 0
    }

    /// The number of free tickets.
    pub fn len(&self) -> (free: usize)
        ensures
            free == self@.len(),
    {
        self.tickets.len()
    }

    /// The number of tickets that exist, free or not.
    pub fn size(&self) -> (size: usize)
        ensures
            size == self.capacity(),
    {
        self.capacity
    }
}

} // verus!
