//! The submission half of a ring: which entry of the submission array is
//! filled next, and what has to be written where to hand the filled entries
//! to the kernel.
//!
//! The ring's memory is shared with the kernel and belongs to whoever drives
//! the ring. The functions here take what was read from it and return what
//! is to be written to it.

use vstd::arithmetic::div_mod::{
    lemma_fundamental_div_mod, lemma_mod_equivalence, lemma_mod_mod, lemma_mod_multiples_basic,
    lemma_small_mod,
};
use vstd::arithmetic::power2::{
    lemma2_to64, lemma_pow2_adds, lemma_pow2_pos, lemma_pow2_strictly_increases, lemma_pow2_unfold,
    pow2,
};
use vstd::bits::{lemma_u32_low_bits_mask_is_mod, low_bits_mask};
use vstd::prelude::*;
use crate::constants::{
    IORING_ENTER_GETEVENTS, IORING_ENTER_SQ_WAKEUP, IORING_OFF_SQES, IORING_OFF_SQ_RING,
    IORING_SETUP_SQPOLL, IORING_SQ_NEED_WAKEUP,
};
use crate::errors::SetupError;
use crate::params::Params;
use crate::syscall::{is_power_of_two, power_of_two};

verus! {

/// How far the cursor `tail` is ahead of the cursor `head`. Cursors count up
/// forever and wrap around at 2^32.
pub open spec fn ahead(tail: u32, head: u32) -> u32 {
    if tail >= head {
        (tail - head) as u32
    } else {
        (tail - head + 0x1_0000_0000) as u32
    }
}

/// The cursor `n` steps after `cursor`.
pub open spec fn advanced(cursor: u32, n: nat) -> u32 {
    ((cursor + n) % 0x1_0000_0000) as u32
}

/// Whether the ring was set up with a kernel thread that polls the
/// submission queue.
pub open spec fn polled(ring_flags: u32) -> bool {
    ring_flags & IORING_SETUP_SQPOLL != 0
}

/// Whether the kernel's poll thread has parked and wants to be woken.
pub open spec fn needs_wakeup(kflags: u32) -> bool {
    kflags & IORING_SQ_NEED_WAKEUP != 0
}

/// A power of two is two raised to some exponent.
pub proof fn lemma_exponent(n: nat) -> (e: nat)
    requires
        is_power_of_two(n),
    ensures
        n == pow2(e),
    decreases n,
{
    if n == 1 {
        lemma2_to64();
        0
    } else {
        let half = lemma_exponent(n / 2);
        lemma_pow2_unfold(half + 1);
        half + 1
    }
}

/// A ring of a power of two of entries divides the range of the cursors
/// evenly, and its mask takes a cursor to its remainder.
pub proof fn lemma_mask_is_modulo(entries: u32, cursor: u32)
    requires
        entries >= 1,
        is_power_of_two(entries as nat),
    ensures
        cursor & ((entries - 1) as u32) == cursor % entries,
        0x1_0000_0000int % (entries as int) == 0,
{
    let e = lemma_exponent(entries as nat);
    lemma2_to64();
    if e >= 32 {
        if e > 32 {
            lemma_pow2_strictly_increases(32, e);
        }
        assert(false);
    }
    lemma_u32_low_bits_mask_is_mod(cursor, e);
    assert(low_bits_mask(e) == entries - 1);
    let rest = (32 - e) as nat;
    lemma_pow2_adds(e, rest);
    lemma_pow2_pos(rest);
    assert(0x1_0000_0000int == (entries as int) * (pow2(rest) as int));
    assert(0x1_0000_0000int % (entries as int) == 0) by {
        lemma_mod_multiples_basic(pow2(rest) as int, entries as int);
        assert((pow2(rest) as int) * (entries as int) == (entries as int) * (pow2(rest) as int))
            by (nonlinear_arith);
    }
}

/// Cursors that are less than a ring's size apart select different slots.
pub proof fn lemma_slots_apart(entries: u32, cursor: u32, i: nat, j: nat)
    requires
        entries >= 1,
        is_power_of_two(entries as nat),
        i < j,
        j - i < entries,
    ensures
        advanced(cursor, i) & ((entries - 1) as u32) != advanced(cursor, j) & ((entries
            - 1) as u32),
{
    let n = entries as int;
    let a = advanced(cursor, i);
    let b = advanced(cursor, j);
    lemma_mask_is_modulo(entries, a);
    lemma_mask_is_modulo(entries, b);
    let wrap = 0x1_0000_0000int;
    let parts = wrap / n;
    assert(wrap == n * parts) by {
        lemma_fundamental_div_mod(wrap, n);
    }
    assert(parts > 0) by {
        if parts <= 0 {
            assert(n * parts <= 0) by (nonlinear_arith)
                requires
                    n >= 1,
                    parts <= 0,
            ;
        }
    }
    assert((a as int) % n == (cursor + i) % n) by {
        lemma_mod_mod(cursor + i, n, parts);
    }
    assert((b as int) % n == (cursor + j) % n) by {
        lemma_mod_mod(cursor + j, n, parts);
    }
    if (cursor + j) % n == (cursor + i) % n {
        lemma_mod_equivalence(cursor + j, cursor + i, n);
        lemma_small_mod((j - i) as nat, n as nat);
        assert(false);
    }
}

/// A stretch of the ring's file to map into memory.
#[derive(Clone, Copy, Debug, PartialEq, Eq, Structural)]
pub struct Region {
    /// Offset in the ring's file.
    pub offset: i64,
    /// Length in bytes.
    pub len: u64,
}

/// One write into the ring's index array: slot `slot` names submission
/// entry `index`.
#[derive(Clone, Copy, Debug, PartialEq, Eq, Structural)]
pub struct Publish {
    /// The slot of the index array to write.
    pub slot: u32,
    /// The index of the submission entry to write there.
    pub index: u32,
}

/// What publishing the filled entries asks for: the writes into the index
/// array, in order, and then the new tail, to be stored with release
/// ordering.
#[derive(Debug)]
pub struct Flush {
    /// The writes into the index array.
    pub writes: Vec<Publish>,
    /// The tail to store once the writes are made.
    pub tail: u32,
}

/// An `io_uring_enter` call to make.
#[derive(Clone, Copy, Debug, PartialEq, Eq, Structural)]
pub struct Enter {
    /// The ring's file descriptor.
    pub fd: i32,
    /// How many submissions the kernel is asked to take.
    pub to_submit: u32,
    /// How many completions to wait for.
    pub min_complete: u32,
    /// Flags of the call.
    pub flags: u32,
}

/// What submitting everything asks for.
#[derive(Debug)]
pub struct Submit {
    /// What to publish first, if anything.
    pub flush: Option<Flush>,
    /// The call to make then, if any.
    pub enter: Option<Enter>,
    /// How many entries were published, which is what the submission is
    /// credited with once the kernel has taken them all.
    pub flushed: u32,
}

/// The submission half of a ring.
#[derive(Debug)]
pub struct Sq {
    sqe_head: u32,
    sqe_tail: u32,
    ring_mask: u32,
    ring_entries: u32,
}

impl Sq {
    /// The cursor up to which entries have been published.
    pub closed spec fn head(&self) -> u32 {
        self.sqe_head
    }

    /// The cursor up to which entries have been handed out for filling.
    pub closed spec fn tail(&self) -> u32 {
        self.sqe_tail
    }

    /// The ring's index mask.
    pub closed spec fn mask(&self) -> u32 {
        self.ring_mask
    }

    /// The number of entries in the ring.
    pub closed spec fn entries(&self) -> u32 {
        self.ring_entries
    }

    /// The ring has a power of two of entries, and its mask selects exactly
    /// their indices.
    pub open spec fn wf(&self) -> bool {
        &&& self.entries() >= 1
        &&& is_power_of_two(self.entries() as nat)
        &&& self.mask() == self.entries() - 1
    }

    /// The number of entries that were handed out and are not published yet.
    pub open spec fn staged(&self) -> u32 {
        ahead(self.tail(), self.head())
    }

    /// The head that counts when looking for room: with a polling kernel
    /// thread it is the kernel's, read from the ring; without, everything
    /// that was published has been taken, and it is our own.
    pub open spec fn seen_head(&self, ring_flags: u32, khead: u32) -> u32 {
        if polled(ring_flags) {
            khead
        } else {
            self.head()
        }
    }

    /// Whether one more entry can be handed out.
    pub open spec fn has_room(&self, ring_flags: u32, khead: u32) -> bool {
        ahead(advanced(self.tail(), 1), self.seen_head(ring_flags, khead)) <= self.entries()
    }

    /// The ring after one more entry was handed out.
    pub closed spec fn taken(&self) -> Sq {
        Sq { sqe_tail: advanced(self.sqe_tail, 1), ..*self }
    }

    /// The ring after everything handed out was published.
    pub closed spec fn flushed(&self) -> Sq {
        Sq { sqe_head: self.sqe_tail, ..*self }
    }

    /// The `i`-th write of a flush that finds the kernel's tail at `ktail`.
    pub open spec fn publish(&self, ktail: u32, i: int) -> Publish {
        Publish {
            slot: advanced(ktail, i as nat) & self.mask(),
            index: advanced(self.head(), i as nat) & self.mask(),
        }
    }

    /// Whether `flush` is what publishing asks for when the kernel's tail
    /// is at `ktail`: one write for each entry handed out, in the order in
    /// which they were handed out, and the tail moved past them all.
    pub open spec fn flushes(&self, flush: Flush, ktail: u32) -> bool {
        &&& flush.writes@.len() == self.staged()
        &&& forall|i: int|
            0 <= i < flush.writes@.len() ==> #[trigger] flush.writes@[i] == self.publish(ktail, i)
        &&& flush.tail == advanced(ktail, self.staged() as nat)
    }

    /// Whether `plan` is what submitting everything asks for.
    ///
    /// Without a polling kernel thread the entries are published and the
    /// kernel is entered to take them, if there are any. With one, nothing
    /// is published, and the kernel is entered only to wake the thread, if
    /// the ring's flags `kflags` say that it has parked.
    pub open spec fn plans(
        &self,
        plan: Submit,
        ring_flags: u32,
        ring_fd: i32,
        ktail: u32,
        kflags: u32,
    ) -> bool {
        if polled(ring_flags) {
            &&& plan.flushed == 0
            &&& plan.flush is None
            &&& plan.enter == (if needs_wakeup(kflags) {
                Some(
                    Enter {
                        fd: ring_fd,
                        to_submit: self.staged(),
                        min_complete: 0,
                        flags: IORING_ENTER_SQ_WAKEUP,
                    },
                )
            } else {
                None
            })
        } else {
            &&& plan.flushed == self.staged()
            &&& plan.flush matches Some(flush) && self.flushes(flush, ktail)
            &&& plan.enter == (if self.staged() > 0 {
                Some(
                    Enter {
                        fd: ring_fd,
                        to_submit: self.staged(),
                        min_complete: 0,
                        flags: IORING_ENTER_GETEVENTS,
                    },
                )
            } else {
                None
            })
        }
    }

    /// The mapping of the ring itself: the cursors, flags and the index
    /// array, which ends the region.
    pub open spec fn ring_region_of(params: Params) -> Region {
        Region {
            offset: IORING_OFF_SQ_RING,
            len: (params.sq_off.array + params.sq_entries * 4) as u64,
        }
    }

    /// The mapping of the array of submission entries, 64 bytes each.
    pub open spec fn sqes_region_of(params: Params) -> Region {
        Region { offset: IORING_OFF_SQES, len: (params.sq_entries * 64) as u64 }
    }

    /// What handing out an entry and what publishing do to the cursors.
    pub proof fn lemma_cursors(&self)
        ensures
            self.taken().head() == self.head(),
            self.taken().tail() == advanced(self.tail(), 1),
            self.taken().mask() == self.mask(),
            self.taken().entries() == self.entries(),
            self.flushed().head() == self.tail(),
            self.flushed().tail() == self.tail(),
            self.flushed().mask() == self.mask(),
            self.flushed().entries() == self.entries(),
            self.flushed().staged() == 0,
            self.wf() ==> self.taken().wf() && self.flushed().wf(),
    {
    }

    /// Once everything is published there is room again, unless a polling
    /// kernel thread lags behind: a full ring is no dead end.
    pub proof fn lemma_flush_makes_room(&self, ring_flags: u32, khead: u32)
        requires
            self.wf(),
            !polled(ring_flags),
        ensures
            self.flushed().has_room(ring_flags, khead),
    {
    }

    /// Without a polling kernel thread, handing out entries never leaves
    /// more of them unpublished than the ring holds.
    pub proof fn lemma_staged_bounded(&self, ring_flags: u32, khead: u32)
        requires
            self.wf(),
            !polled(ring_flags),
            self.has_room(ring_flags, khead),
            self.staged() <= self.entries(),
        ensures
            self.taken().staged() == self.staged() + 1,
            self.taken().staged() <= self.entries(),
    {
        assert(!is_power_of_two(0xffff_ffff));
    }

    /// The entries that wait to be published lie in different slots of the
    /// submission array, and are published through different slots of the
    /// index array: none overwrites another before the kernel has seen it.
    pub proof fn lemma_staged_apart(&self, ktail: u32, i: int, j: int)
        requires
            self.wf(),
            self.staged() <= self.entries(),
            0 <= i < j < self.staged(),
        ensures
            self.publish(ktail, i).index != self.publish(ktail, j).index,
            self.publish(ktail, i).slot != self.publish(ktail, j).slot,
    {
        lemma_slots_apart(self.entries(), self.head(), i as nat, j as nat);
        lemma_slots_apart(self.entries(), ktail, i as nat, j as nat);
    }

    /// Computes [`Sq::ring_region_of`].
    pub fn ring_region(params: &Params) -> (region: Region)
        ensures
            region == Sq::ring_region_of(*params),
    {
        Region {
            offset: IORING_OFF_SQ_RING,
            len: params.sq_off.array as u64 + params.sq_entries as u64 * 4,
        }
    }

    /// Computes [`Sq::sqes_region_of`].
    pub fn sqes_region(params: &Params) -> (region: Region)
        ensures
            region == Sq::sqes_region_of(*params),
    {
        Region { offset: IORING_OFF_SQES, len: params.sq_entries as u64 * 64 }
    }

    /// The submission half of the ring that the kernel described in
    /// `params`, with the index mask as read from the mapped ring. Nothing
    /// is handed out yet. A ring whose size is no power of two, or whose
    /// mask is not its size less one, is refused.
    pub fn new(params: &Params, ring_mask: u32) -> (made: Result<Sq, SetupError>)
        ensures
            match made {
                Ok(sq) => sq.wf() && sq.entries() == params.sq_entries && sq.mask() == ring_mask
                    && sq.head() == 0 && sq.tail() == 0,
                Err(e) => e == SetupError::MalformedRing,
            },
            made is Ok <==> params.sq_entries >= 1 && is_power_of_two(params.sq_entries as nat)
                && ring_mask == params.sq_entries - 1,
    {
        let entries: u32 = params.sq_entries;
        if entries >= 1 && power_of_two(entries) && ring_mask == entries - 1 {
            Ok(Sq { sqe_head: 0, sqe_tail: 0, ring_mask, ring_entries: entries })
        } else {
            Err(SetupError::MalformedRing)
        }
    }

    /// The number of entries in the ring.
    pub fn ring_entries(&self) -> (entries: u32)
        ensures
            entries == self.entries(),
    {
        self.ring_entries
    }

    /// The number of entries that were handed out and are not published yet.
    pub fn pending(&self) -> (staged: u32)
        ensures
            staged == self.staged(),
    {
        self.sqe_tail.wrapping_sub(self.sqe_head)
    }

    /// Hands out the next entry of the submission array, by its index, or
    /// `None` if the ring is full. The entry is not visible to the kernel
    /// until it is published.
    pub fn try_get_sqe(&mut self, ring_flags: u32, khead: u32) -> (entry: Option<u32>)
        ensures
            old(self).has_room(ring_flags, khead) ==> entry == Some(
                old(self).tail() & old(self).mask(),
            ) && *final(self) == old(self).taken(),
            !old(self).has_room(ring_flags, khead) ==> entry is None && *final(self) == *old(
                self,
            ),
            old(self).wf() ==> final(self).wf() && (entry matches Some(index) ==> index
                < old(self).entries()),
    {
        let next: u32 = self.sqe_tail.wrapping_add(1);
        let head: u32 = if (ring_flags & IORING_SETUP_SQPOLL) == 0 {
            self.sqe_head
        } else {
            khead
        };
        if next.wrapping_sub(head) <= self.ring_entries {
            let tail: u32 = self.sqe_tail;
            let mask: u32 = self.ring_mask;
            let index: u32 = tail & mask;
            assert(tail & mask <= mask) by (bit_vector);
            self.sqe_tail = next;
            Some(index)
        } else {
            None
        }
    }

    /// Publishes the entries that were handed out: for each, in the order
    /// in which they were handed out, the next slot of the index array after
    /// the kernel's tail `ktail` is made to name it; then the tail moves
    /// past them all.
    pub fn flush(&mut self, ktail: u32) -> (flush: Flush)
        ensures
            *final(self) == old(self).flushed(),
            old(self).flushes(flush, ktail),
    {
        let mask: u32 = self.ring_mask;
        let to_submit: u32 = self.sqe_tail.wrapping_sub(self.sqe_head);
        let mut writes: Vec<Publish> = Vec::new();
        let mut tail: u32 = ktail;
        let mut done: u32 = 0;
        while done < to_submit
            invariant
                done <= to_submit,
                to_submit == old(self).staged(),
                mask == old(self).mask(),
                self.sqe_tail == old(self).tail(),
                self.ring_mask == old(self).mask(),
                self.ring_entries == old(self).entries(),
                self.sqe_head == advanced(old(self).head(), done as nat),
                tail == advanced(ktail, done as nat),
                writes@.len() == done,
                forall|i: int|
                    0 <= i < done ==> #[trigger] writes@[i] == old(self).publish(ktail, i),
            decreases to_submit - done,
        {
            writes.push(Publish { slot: tail & mask, index: self.sqe_head & mask });
            tail = tail.wrapping_add(1);
            self.sqe_head = self.sqe_head.wrapping_add(1);
            done = done + 1;
        }
        Flush { writes, tail }
    }

    /// Plans the submission of everything that was handed out, as
    /// [`Sq::plans`] describes it.
    pub fn submit_all(&mut self, ring_flags: u32, ring_fd: i32, ktail: u32, kflags: u32) -> (plan:
        Submit)
        ensures
            old(self).plans(plan, ring_flags, ring_fd, ktail, kflags),
            *final(self) == (if polled(ring_flags) {
                *old(self)
            } else {
                old(self).flushed()
            }),
    {
        if (ring_flags & IORING_SETUP_SQPOLL) == 0 {
            let flush = self.flush(ktail);
            let flushed: u32 = flush.writes.len() as u32;
            let enter = if flushed > 0 {
                Some(
                    Enter {
                        fd: ring_fd,
                        to_submit: flushed,
                        min_complete: 0,
                        flags: IORING_ENTER_GETEVENTS,
                    },
                )
            } else {
                None
            };
            Submit { flush: Some(flush), enter, flushed }
        } else if (kflags & IORING_SQ_NEED_WAKEUP) != 0 {
            let to_submit: u32 = self.sqe_tail.wrapping_sub(self.sqe_head);
            Submit {
                flush: None,
                enter: Some(
                    Enter {
                        fd: ring_fd,
                        to_submit,
                        min_complete: 0,
                        flags: IORING_ENTER_SQ_WAKEUP,
                    },
                ),
                flushed: 0,
            }
        } else {
            Submit { flush: None, enter: None, flushed: 0 }
        }
    }
}

impl Enter {
    /// The call that follows this one once the kernel has taken `accepted`
    /// submissions: a call that submits is repeated for what is left, until
    /// nothing is; a call that only wakes the poll thread is made once.
    pub open spec fn following(self, accepted: u32) -> Option<Enter> {
        if self.flags == IORING_ENTER_GETEVENTS && accepted < self.to_submit {
            Some(Enter { to_submit: (self.to_submit - accepted) as u32, ..self })
        } else {
            None
        }
    }

    /// Computes [`Enter::following`].
    pub fn next(&self, accepted: u32) -> (next: Option<Enter>)
        ensures
            next == self.following(accepted),
    {
        if self.flags == IORING_ENTER_GETEVENTS && accepted < self.to_submit {
            Some(
                Enter {
                    fd: self.fd,
                    to_submit: self.to_submit - accepted,
                    min_complete: self.min_complete,
                    flags: self.flags,
                },
            )
        } else {
            None
        }
    }
}

} // verus!
