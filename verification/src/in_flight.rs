//! The table of in-flight operations, indexed by ticket.
//!
//! The kernel reads the vector and the message header of an operation, and
//! writes the peer's address, at addresses that must not move while the
//! operation is in flight. The memory itself belongs to whoever drives the
//! ring; the table knows where each slot's cells stand, keeps what they
//! hold, and decides which address an operation hands to the kernel.

use vstd::prelude::*;
use crate::addr::{IoVec, MsgHdr, RawAddr, SockAddr};
use crate::completion::Filler;

verus! {

/// Where the three cells of one slot stand in memory.
#[derive(Clone, Copy, Debug, PartialEq, Eq, Structural)]
pub struct Cell {
    /// Address of the slot's vector.
    pub iovec: u64,
    /// Address of the slot's message header.
    pub msghdr: u64,
    /// Address of the slot's peer address.
    pub peer: u64,
    /// Bytes available at `peer`.
    pub peer_len: u32,
}

/// One slot of the table.
#[derive(Debug)]
pub struct Slot {
    /// Where the slot's cells stand.
    pub cell: Cell,
    /// What the vector cell holds.
    pub iovec: IoVec,
    /// What the message header cell holds.
    pub msghdr: MsgHdr,
    /// The peer's address, while the operation in the slot reports one.
    pub address: Option<SockAddr>,
    /// The filler of the operation in the slot; `None` while the slot is
    /// vacant.
    pub filler: Option<Filler>,
}

impl Slot {
    /// A vacant slot over `cell`.
    pub open spec fn vacant(cell: Cell) -> Slot {
        Slot { cell, iovec: IoVec::empty(), msghdr: MsgHdr::zero(), address: None, filler: None }
    }

    /// The slot after an operation moved in.
    ///
    /// Without a vector only the filler is stored. With one, the vector goes
    /// into its cell. If the operation takes a message header, the header is
    /// pointed at that one vector, and at a socket address: the caller's,
    /// if `address` gives one, and else the slot's own peer cell, which then
    /// starts out as the unspecified address.
    pub open spec fn armed(
        self,
        iovec: Option<IoVec>,
        address: Option<RawAddr>,
        msghdr: bool,
        filler: Filler,
    ) -> Slot {
        match iovec {
            None => Slot { filler: Some(filler), ..self },
            Some(vector) => if msghdr {
                match address {
                    Some(raw) => Slot {
                        iovec: vector,
                        msghdr: MsgHdr {
                            iov: self.cell.iovec,
                            iovlen: 1,
                            name: raw.name,
                            namelen: raw.len,
                            ..self.msghdr
                        },
                        address: None,
                        filler: Some(filler),
                        ..self
                    },
                    None => Slot {
                        iovec: vector,
                        msghdr: MsgHdr {
                            iov: self.cell.iovec,
                            iovlen: 1,
                            name: self.cell.peer,
                            namelen: self.cell.peer_len,
                            ..self.msghdr
                        },
                        address: Some(SockAddr::unspecified()),
                        filler: Some(filler),
                        ..self
                    },
                }
            } else {
                Slot { iovec: vector, filler: Some(filler), ..self }
            },
        }
    }

    /// The address that an operation in this slot hands to the kernel: that
    /// of the message header, that of the vector, or none.
    pub open spec fn handed(self, iovec: Option<IoVec>, msghdr: bool) -> u64 {
        if iovec is Some {
            if msghdr {
                self.cell.msghdr
            } else {
                self.cell.iovec
            }
        } else {
            0
        }
    }

    /// The slot after the kernel reported `peer` in its peer cell: a slot
    /// that expects an address takes it, any other ignores it.
    pub open spec fn informed(self, peer: SockAddr) -> Slot {
        if self.address is Some {
            Slot { address: Some(peer), ..self }
        } else {
            self
        }
    }
}

/// The table of in-flight operations.
#[derive(Debug)]
pub struct InFlight {
    slots: Vec<Slot>,
}

impl View for InFlight {
    type V = Seq<Slot>;

    closed spec fn view(&self) -> Seq<Slot> {
        self.slots@
    }
}

impl InFlight {
    /// The number of slots.
    pub open spec fn capacity(&self) -> nat {
        self@.len()
    }

    /// Whether an operation is in slot `ticket`.
    pub open spec fn occupied(&self, ticket: int) -> bool {
        0 <= ticket < self@.len() && self@[ticket].filler is Some
    }

    /// A table with one vacant slot for each of `cells`.
    pub fn new(cells: Vec<Cell>) -> (table: InFlight)
        ensures
            table@.len() == cells@.len(),
            forall|t: int|
                0 <= t < cells@.len() ==> #[trigger] table@[t] == Slot::vacant(cells@[t]),
    {
        let mut slots: Vec<Slot> = Vec::new();
        let mut t: usize = 0;
        while t < cells.len()
            invariant
                t <= cells@.len(),
                slots@.len() == t,
                forall|k: int| 0 <= k < t ==> #[trigger] slots@[k] == Slot::vacant(cells@[k]),
            decreases cells@.len() - t,
        {
            slots.push(
                Slot {
                    cell: cells[t],
                    iovec: IoVec { base: 0, len: 0 },
                    msghdr: MsgHdr {
                        name: 0,
                        namelen: 0,
                        iov: 0,
                        iovlen: 0,
                        control: 0,
                        controllen: 0,
                        flags: 0,
                    },
                    address: None,
                    filler: None,
                },
            );
            t = t + 1;
        }
        InFlight { slots }
    }

    /// The number of slots.
    pub fn size(&self) -> (size: usize)
        ensures
            size == self.capacity(),
    {
        self.slots.len()
    }

    /// Whether an operation is in slot `ticket`.
    pub fn is_occupied(&self, ticket: usize) -> (occupied: bool)
        ensures
            occupied == self.occupied(ticket as int),
    {
        ticket < self.slots.len() && self.slots[ticket].filler.is_some()
    }

    /// What the vector cell of slot `ticket` holds, for writing it to the
    /// cell. The ticket must name a slot of the table.
    pub fn iovec(&self, ticket: usize) -> (iovec: IoVec)
        requires
            ticket < self.capacity(),
        ensures
            iovec == self@[ticket as int].iovec,
    {
        self.slots[ticket].iovec
    }

    /// What the message header cell of slot `ticket` holds, for writing it
    /// to the cell. The ticket must name a slot of the table.
    pub fn msghdr(&self, ticket: usize) -> (msghdr: MsgHdr)
        requires
            ticket < self.capacity(),
        ensures
            msghdr == self@[ticket as int].msghdr,
    {
        self.slots[ticket].msghdr
    }

    /// Moves an operation into slot `ticket`, which must be a slot of the
    /// table, and returns the address that it hands to the kernel.
    pub fn insert(
        &mut self,
        ticket: usize,
        iovec: Option<IoVec>,
        address: Option<RawAddr>,
        msghdr: bool,
        filler: Filler,
    ) -> (handed: u64)
        requires
            ticket < old(self).capacity(),
        ensures
            final(self)@ == old(self)@.update(
                ticket as int,
                old(self)@[ticket as int].armed(iovec, address, msghdr, filler),
            ),
            handed == old(self)@[ticket as int].handed(iovec, msghdr),
    {
        let cell: Cell = self.slots[ticket].cell;
        let slot = &mut self.slots[ticket];
        match iovec {
            Some(vector) => {
                slot.iovec = vector;
                if msghdr {
                    slot.msghdr.iov = cell.iovec;
                    slot.msghdr.iovlen = 1;
                    match address {
                        Some(raw) => {
                            slot.address = None;
                            slot.msghdr.name = raw.name;
                            slot.msghdr.namelen = raw.len;
                        },
                        None => {
                            slot.address = Some(SockAddr::new_unspecified());
                            slot.msghdr.name = cell.peer;
                            slot.msghdr.namelen = cell.peer_len;
                        },
                    }
                }
            },
            None => {},
        }
        slot.filler = Some(filler);
        assert(self@ =~= old(self)@.update(
            ticket as int,
            old(self)@[ticket as int].armed(iovec, address, msghdr, filler),
        ));
        if iovec.is_some() {
            if msghdr {
                cell.msghdr
            } else {
                cell.iovec
            }
        } else {
            0
        }
    }

    /// Takes the filler out of slot `ticket`, which is vacant from then on.
    /// A ticket that names no slot, or a vacant one, yields nothing and
    /// changes nothing.
    pub fn take_filler(&mut self, ticket: usize) -> (filler: Option<Filler>)
        ensures
            old(self).occupied(ticket as int) ==> filler == old(self)@[ticket as int].filler
                && final(self)@ == old(self)@.update(
                ticket as int,
                Slot { filler: None, ..old(self)@[ticket as int] },
            ),
            !old(self).occupied(ticket as int) ==> filler is None && final(self)@ == old(self)@,
    {
        if ticket < self.slots.len() {
            let filler = self.slots[ticket].filler.take();
            assert(self@ =~= old(self)@.update(
                ticket as int,
                Slot { filler: None, ..old(self)@[ticket as int] },
            ));
            filler
        } else {
            None
        }
    }

    /// Takes the peer's address out of slot `ticket`. A ticket that names no
    /// slot yields nothing and changes nothing.
    pub fn take_address(&mut self, ticket: usize) -> (address: Option<SockAddr>)
        ensures
            ticket < old(self).capacity() ==> address == old(self)@[ticket as int].address
                && final(self)@ == old(self)@.update(
                ticket as int,
                Slot { address: None, ..old(self)@[ticket as int] },
            ),
            ticket >= old(self).capacity() ==> address is None && final(self)@ == old(self)@,
    {
        if ticket < self.slots.len() {
            let address = self.slots[ticket].address.take();
            assert(self@ =~= old(self)@.update(
                ticket as int,
                Slot { address: None, ..old(self)@[ticket as int] },
            ));
            address
        } else {
            None
        }
    }

    /// Records the address that the kernel left in the peer cell of slot
    /// `ticket`. Only a slot that expects an address takes it.
    pub fn record_peer(&mut self, ticket: usize, peer: SockAddr)
        ensures
            ticket < old(self).capacity() ==> final(self)@ == old(self)@.update(
                ticket as int,
                old(self)@[ticket as int].informed(peer),
            ),
            ticket >= old(self).capacity() ==> final(self)@ == old(self)@,
    {
        if ticket < self.slots.len() {
            if self.slots[ticket].address.is_some() {
                self.slots[ticket].address = Some(peer);
            }
            assert(self@ =~= old(self)@.update(
                ticket as int,
                old(self)@[ticket as int].informed(peer),
            ));
        }
    }
}

} // verus!
