//! The parameter block of ring setup: what user space asks for, and the
//! offsets the kernel answers with.

use vstd::prelude::*;
use crate::bytes::{
    get_u32, get_u64, le_u32, le_u64, lemma_empty_prefix, lemma_u32_found, lemma_u64_found,
    put_u32, put_u64,
    put_zeros, u32_at, u64_at, zeros,
};

verus! {

/// Bytes in the image of an [`SqringOffsets`].
pub const SQRING_OFFSETS_SIZE: usize = 40;

/// Alignment the kernel gives an [`SqringOffsets`].
pub const SQRING_OFFSETS_ALIGN: usize = 8;

/// Where, inside the mapped submission ring, each of its parts lies.
#[derive(Clone, Copy, Debug, PartialEq, Eq)]
pub struct SqringOffsets {
    /// Offset of the head cursor, which the kernel advances.
    pub head: u32,
    /// Offset of the tail cursor, which user space advances.
    pub tail: u32,
    /// Offset of the index mask.
    pub ring_mask: u32,
    /// Offset of the number of entries.
    pub ring_entries: u32,
    /// Offset of the ring's flags.
    pub flags: u32,
    /// Offset of the count of submissions that the kernel dropped.
    pub dropped: u32,
    /// Offset of the array that maps ring slots to submission entries.
    pub array: u32,
    /// Reserved.
    pub resv1: u32,
    /// Reserved.
    pub resv2: u64,
}

impl SqringOffsets {
    /// The byte image of the offsets.
    pub open spec fn bytes(self) -> Seq<u8> {
        le_u32(self.head) + le_u32(self.tail) + le_u32(self.ring_mask) + le_u32(self.ring_entries)
            + le_u32(self.flags) + le_u32(self.dropped) + le_u32(self.array) + le_u32(self.resv1)
            + le_u64(self.resv2)
    }

    /// The offsets whose image starts at byte `at` of `s`.
    pub open spec fn parse(s: Seq<u8>, at: int) -> SqringOffsets {
        SqringOffsets {
            head: u32_at(s, at),
            tail: u32_at(s, at + 4),
            ring_mask: u32_at(s, at + 8),
            ring_entries: u32_at(s, at + 12),
            flags: u32_at(s, at + 16),
            dropped: u32_at(s, at + 20),
            array: u32_at(s, at + 24),
            resv1: u32_at(s, at + 28),
            resv2: u64_at(s, at + 32),
        }
    }

    /// All offsets zero.
    pub open spec fn zero() -> SqringOffsets {
        SqringOffsets {
            head: 0,
            tail: 0,
            ring_mask: 0,
            ring_entries: 0,
            flags: 0,
            dropped: 0,
            array: 0,
            resv1: 0,
            resv2: 0,
        }
    }

    /// An image read back gives the offsets it was made from, wherever the
    /// image stands.
    pub proof fn lemma_round_trip(self, prefix: Seq<u8>, suffix: Seq<u8>)
        ensures
            self.bytes().len() == SQRING_OFFSETS_SIZE,
            SqringOffsets::parse(prefix + self.bytes() + suffix, prefix.len() as int) == self,
    {
        let image = self.bytes();
        let s = prefix + image + suffix;
        let at = prefix.len() as int;
        assert(image.len() == 40);
        assert(s.subrange(at, at + 40) == image) by {
            assert(s.subrange(at, at + 40) =~= image);
        }
        self.lemma_fields_found(s, at);
    }

    proof fn lemma_fields_found(self, s: Seq<u8>, at: int)
        requires
            0 <= at,
            at + 40 <= s.len(),
            s.subrange(at, at + 40) == self.bytes(),
        ensures
            SqringOffsets::parse(s, at) == self,
    {
        let image = self.bytes();
        assert(u32_at(s, at) == self.head) by {
            assert(s.subrange(at, at + 4) =~= s.subrange(at, at + 40).subrange(0, 4));
            assert(image.subrange(0, 4) =~= le_u32(self.head));
            lemma_u32_found(s, at, self.head);
        }
        assert(u32_at(s, at + 4) == self.tail) by {
            assert(s.subrange(at + 4, at + 8) =~= s.subrange(at, at + 40).subrange(4, 8));
            assert(image.subrange(4, 8) =~= le_u32(self.tail));
            lemma_u32_found(s, at + 4, self.tail);
        }
        assert(u32_at(s, at + 8) == self.ring_mask) by {
            assert(s.subrange(at + 8, at + 12) =~= s.subrange(at, at + 40).subrange(8, 12));
            assert(image.subrange(8, 12) =~= le_u32(self.ring_mask));
            lemma_u32_found(s, at + 8, self.ring_mask);
        }
        assert(u32_at(s, at + 12) == self.ring_entries) by {
            assert(s.subrange(at + 12, at + 16) =~= s.subrange(at, at + 40).subrange(12, 16));
            assert(image.subrange(12, 16) =~= le_u32(self.ring_entries));
            lemma_u32_found(s, at + 12, self.ring_entries);
        }
        assert(u32_at(s, at + 16) == self.flags) by {
            assert(s.subrange(at + 16, at + 20) =~= s.subrange(at, at + 40).subrange(16, 20));
            assert(image.subrange(16, 20) =~= le_u32(self.flags));
            lemma_u32_found(s, at + 16, self.flags);
        }
        assert(u32_at(s, at + 20) == self.dropped) by {
            assert(s.subrange(at + 20, at + 24) =~= s.subrange(at, at + 40).subrange(20, 24));
            assert(image.subrange(20, 24) =~= le_u32(self.dropped));
            lemma_u32_found(s, at + 20, self.dropped);
        }
        assert(u32_at(s, at + 24) == self.array) by {
            assert(s.subrange(at + 24, at + 28) =~= s.subrange(at, at + 40).subrange(24, 28));
            assert(image.subrange(24, 28) =~= le_u32(self.array));
            lemma_u32_found(s, at + 24, self.array);
        }
        assert(u32_at(s, at + 28) == self.resv1) by {
            assert(s.subrange(at + 28, at + 32) =~= s.subrange(at, at + 40).subrange(28, 32));
            assert(image.subrange(28, 32) =~= le_u32(self.resv1));
            lemma_u32_found(s, at + 28, self.resv1);
        }
        assert(u64_at(s, at + 32) == self.resv2) by {
            assert(s.subrange(at + 32, at + 40) =~= s.subrange(at, at + 40).subrange(32, 40));
            assert(image.subrange(32, 40) =~= le_u64(self.resv2));
            lemma_u64_found(s, at + 32, self.resv2);
        }
    }

    /// Appends the image to `out`.
    pub fn write(&self, out: &mut Vec<u8>)
        ensures
            final(out)@ == old(out)@ + self.bytes(),
    {
        put_u32(out, self.head);
        put_u32(out, self.tail);
        put_u32(out, self.ring_mask);
        put_u32(out, self.ring_entries);
        put_u32(out, self.flags);
        put_u32(out, self.dropped);
        put_u32(out, self.array);
        put_u32(out, self.resv1);
        put_u64(out, self.resv2);
        assert(out@ =~= old(out)@ + self.bytes());
    }

    /// The image of the offsets.
    pub fn to_bytes(&self) -> (out: Vec<u8>)
        ensures
            out@ == self.bytes(),
            out@.len() == SQRING_OFFSETS_SIZE,
    {
        let mut out: Vec<u8> = Vec::new();
        self.write(&mut out);
        proof {
            lemma_empty_prefix(self.bytes());
        }
        out
    }

    /// Reads the offsets whose image starts at byte `at` of `bytes`.
    pub fn read(bytes: &[u8], at: usize) -> (offsets: SqringOffsets)
        requires
            at + SQRING_OFFSETS_SIZE <= bytes@.len(),
        ensures
            offsets == SqringOffsets::parse(bytes@, at as int),
    {
        let n: usize = bytes.len();
        SqringOffsets {
            head: get_u32(bytes, at),
            tail: get_u32(bytes, at + 4),
            ring_mask: get_u32(bytes, at + 8),
            ring_entries: get_u32(bytes, at + 12),
            flags: get_u32(bytes, at + 16),
            dropped: get_u32(bytes, at + 20),
            array: get_u32(bytes, at + 24),
            resv1: get_u32(bytes, at + 28),
            resv2: get_u64(bytes, at + 32),
        }
    }

    /// Reads offsets from exactly their image; anything of another length
    /// is refused.
    pub fn from_bytes(bytes: &[u8]) -> (offsets: Option<SqringOffsets>)
        ensures
            offsets == (if bytes@.len() == SQRING_OFFSETS_SIZE {
                Some(SqringOffsets::parse(bytes@, 0))
            } else {
                None
            }),
    {
        if bytes.len() == SQRING_OFFSETS_SIZE {
            Some(SqringOffsets::read(bytes, 0))
        } else {
            None
        }
    }
}

impl Default for SqringOffsets {
    fn default() -> (offsets: SqringOffsets)
        ensures
            offsets == SqringOffsets::zero(),
    {
        SqringOffsets {
            head: 0,
            tail: 0,
            ring_mask: 0,
            ring_entries: 0,
            flags: 0,
            dropped: 0,
            array: 0,
            resv1: 0,
            resv2: 0,
        }
    }
}

/// Bytes in the image of a [`CqringOffsets`].
pub const CQRING_OFFSETS_SIZE: usize = 40;

/// Alignment the kernel gives a [`CqringOffsets`].
pub const CQRING_OFFSETS_ALIGN: usize = 8;

/// Where, inside the mapped completion ring, each of its parts lies.
#[derive(Clone, Copy, Debug, PartialEq, Eq)]
pub struct CqringOffsets {
    /// Offset of the head cursor, which user space advances.
    pub head: u32,
    /// Offset of the tail cursor, which the kernel advances.
    pub tail: u32,
    /// Offset of the index mask.
    pub ring_mask: u32,
    /// Offset of the number of entries.
    pub ring_entries: u32,
    /// Offset of the count of completions lost to overflow.
    pub overflow: u32,
    /// Offset of the completion entries.
    pub cqes: u32,
    /// Reserved.
    pub resv: [u64; 2],
}

impl CqringOffsets {
    /// The byte image of the offsets.
    pub open spec fn bytes(self) -> Seq<u8> {
        le_u32(self.head) + le_u32(self.tail) + le_u32(self.ring_mask) + le_u32(self.ring_entries)
            + le_u32(self.overflow) + le_u32(self.cqes) + le_u64(self.resv[0]) + le_u64(
            self.resv[1],
        )
    }

    /// The offsets whose image starts at byte `at` of `s`.
    pub open spec fn parse(s: Seq<u8>, at: int) -> CqringOffsets {
        CqringOffsets {
            head: u32_at(s, at),
            tail: u32_at(s, at + 4),
            ring_mask: u32_at(s, at + 8),
            ring_entries: u32_at(s, at + 12),
            overflow: u32_at(s, at + 16),
            cqes: u32_at(s, at + 20),
            resv: [u64_at(s, at + 24), u64_at(s, at + 32)],
        }
    }

    /// All offsets zero.
    pub open spec fn zero() -> CqringOffsets {
        CqringOffsets {
            head: 0,
            tail: 0,
            ring_mask: 0,
            ring_entries: 0,
            overflow: 0,
            cqes: 0,
            resv: [0u64, 0u64],
        }
    }

    /// An image read back gives offsets with the fields it was made from,
    /// wherever the image stands.
    pub proof fn lemma_round_trip(self, prefix: Seq<u8>, suffix: Seq<u8>)
        ensures
            self.bytes().len() == CQRING_OFFSETS_SIZE,
            self.same_as(
                CqringOffsets::parse(prefix + self.bytes() + suffix, prefix.len() as int),
            ),
    {
        let image = self.bytes();
        let s = prefix + image + suffix;
        let at = prefix.len() as int;
        assert(image.len() == 40);
        assert(s.subrange(at, at + 40) == image) by {
            assert(s.subrange(at, at + 40) =~= image);
        }
        self.lemma_fields_found(s, at);
    }

    /// Whether two sets of offsets have the same fields.
    pub open spec fn same_as(self, other: CqringOffsets) -> bool {
        &&& other.head == self.head
        &&& other.tail == self.tail
        &&& other.ring_mask == self.ring_mask
        &&& other.ring_entries == self.ring_entries
        &&& other.overflow == self.overflow
        &&& other.cqes == self.cqes
        &&& other.resv@ == self.resv@
    }

    proof fn lemma_fields_found(self, s: Seq<u8>, at: int)
        requires
            0 <= at,
            at + 40 <= s.len(),
            s.subrange(at, at + 40) == self.bytes(),
        ensures
            self.same_as(CqringOffsets::parse(s, at)),
    {
        let image = self.bytes();
        assert(u32_at(s, at) == self.head) by {
            assert(s.subrange(at, at + 4) =~= s.subrange(at, at + 40).subrange(0, 4));
            assert(image.subrange(0, 4) =~= le_u32(self.head));
            lemma_u32_found(s, at, self.head);
        }
        assert(u32_at(s, at + 4) == self.tail) by {
            assert(s.subrange(at + 4, at + 8) =~= s.subrange(at, at + 40).subrange(4, 8));
            assert(image.subrange(4, 8) =~= le_u32(self.tail));
            lemma_u32_found(s, at + 4, self.tail);
        }
        assert(u32_at(s, at + 8) == self.ring_mask) by {
            assert(s.subrange(at + 8, at + 12) =~= s.subrange(at, at + 40).subrange(8, 12));
            assert(image.subrange(8, 12) =~= le_u32(self.ring_mask));
            lemma_u32_found(s, at + 8, self.ring_mask);
        }
        assert(u32_at(s, at + 12) == self.ring_entries) by {
            assert(s.subrange(at + 12, at + 16) =~= s.subrange(at, at + 40).subrange(12, 16));
            assert(image.subrange(12, 16) =~= le_u32(self.ring_entries));
            lemma_u32_found(s, at + 12, self.ring_entries);
        }
        assert(u32_at(s, at + 16) == self.overflow) by {
            assert(s.subrange(at + 16, at + 20) =~= s.subrange(at, at + 40).subrange(16, 20));
            assert(image.subrange(16, 20) =~= le_u32(self.overflow));
            lemma_u32_found(s, at + 16, self.overflow);
        }
        assert(u32_at(s, at + 20) == self.cqes) by {
            assert(s.subrange(at + 20, at + 24) =~= s.subrange(at, at + 40).subrange(20, 24));
            assert(image.subrange(20, 24) =~= le_u32(self.cqes));
            lemma_u32_found(s, at + 20, self.cqes);
        }
        assert(u64_at(s, at + 24) == self.resv[0]) by {
            assert(s.subrange(at + 24, at + 32) =~= s.subrange(at, at + 40).subrange(24, 32));
            assert(image.subrange(24, 32) =~= le_u64(self.resv[0]));
            lemma_u64_found(s, at + 24, self.resv[0]);
        }
        assert(u64_at(s, at + 32) == self.resv[1]) by {
            assert(s.subrange(at + 32, at + 40) =~= s.subrange(at, at + 40).subrange(32, 40));
            assert(image.subrange(32, 40) =~= le_u64(self.resv[1]));
            lemma_u64_found(s, at + 32, self.resv[1]);
        }
        let back = CqringOffsets::parse(s, at);
        assert(back.resv@ =~= self.resv@);
    }

    /// Appends the image to `out`.
    pub fn write(&self, out: &mut Vec<u8>)
        ensures
            final(out)@ == old(out)@ + self.bytes(),
    {
        put_u32(out, self.head);
        put_u32(out, self.tail);
        put_u32(out, self.ring_mask);
        put_u32(out, self.ring_entries);
        put_u32(out, self.overflow);
        put_u32(out, self.cqes);
        put_u64(out, self.resv[0]);
        put_u64(out, self.resv[1]);
        assert(out@ =~= old(out)@ + self.bytes());
    }

    /// The image of the offsets.
    pub fn to_bytes(&self) -> (out: Vec<u8>)
        ensures
            out@ == self.bytes(),
            out@.len() == CQRING_OFFSETS_SIZE,
    {
        let mut out: Vec<u8> = Vec::new();
        self.write(&mut out);
        proof {
            lemma_empty_prefix(self.bytes());
        }
        out
    }

    /// Reads the offsets whose image starts at byte `at` of `bytes`.
    pub fn read(bytes: &[u8], at: usize) -> (offsets: CqringOffsets)
        requires
            at + CQRING_OFFSETS_SIZE <= bytes@.len(),
        ensures
            offsets == CqringOffsets::parse(bytes@, at as int),
    {
        let n: usize = bytes.len();
        CqringOffsets {
            head: get_u32(bytes, at),
            tail: get_u32(bytes, at + 4),
            ring_mask: get_u32(bytes, at + 8),
            ring_entries: get_u32(bytes, at + 12),
            overflow: get_u32(bytes, at + 16),
            cqes: get_u32(bytes, at + 20),
            resv: [get_u64(bytes, at + 24), get_u64(bytes, at + 32)],
        }
    }

    /// Reads offsets from exactly their image; anything of another length
    /// is refused.
    pub fn from_bytes(bytes: &[u8]) -> (offsets: Option<CqringOffsets>)
        ensures
            offsets == (if bytes@.len() == CQRING_OFFSETS_SIZE {
                Some(CqringOffsets::parse(bytes@, 0))
            } else {
                None
            }),
    {
        if bytes.len() == CQRING_OFFSETS_SIZE {
            Some(CqringOffsets::read(bytes, 0))
        } else {
            None
        }
    }
}

impl Default for CqringOffsets {
    fn default() -> (offsets: CqringOffsets)
        ensures
            offsets == CqringOffsets::zero(),
    {
        CqringOffsets {
            head: 0,
            tail: 0,
            ring_mask: 0,
            ring_entries: 0,
            overflow: 0,
            cqes: 0,
            resv: [0u64, 0u64],
        }
    }
}

/// Bytes in the image of a [`Params`].
pub const PARAMS_SIZE: usize = 120;

/// Alignment the kernel gives a [`Params`].
pub const PARAMS_ALIGN: usize = 8;

/// The parameter block of `io_uring_setup`. User space fills in `flags` and
/// the poll thread's settings; the kernel fills in the rest.
#[derive(Clone, Copy, Debug, PartialEq, Eq)]
pub struct Params {
    /// Entries in the submission queue.
    pub sq_entries: u32,
    /// Entries in the completion queue.
    pub cq_entries: u32,
    /// Setup flags.
    pub flags: u32,
    /// The processor that the kernel's poll thread is pinned to.
    pub sq_thread_cpu: u32,
    /// How long the poll thread idles before it parks, in milliseconds.
    pub sq_thread_idle: u32,
    /// Features of the running kernel.
    pub features: u32,
    /// Reserved.
    pub resv: [u32; 4],
    /// Layout of the submission ring.
    pub sq_off: SqringOffsets,
    /// Layout of the completion ring.
    pub cq_off: CqringOffsets,
}

impl Params {
    /// The byte image of the block.
    pub open spec fn bytes(self) -> Seq<u8> {
        self.scalar_bytes() + self.sq_off.bytes() + self.cq_off.bytes()
    }

    /// The block whose image starts at byte `at` of `s`.
    pub open spec fn parse(s: Seq<u8>, at: int) -> Params {
        Params {
            sq_entries: u32_at(s, at),
            cq_entries: u32_at(s, at + 4),
            flags: u32_at(s, at + 8),
            sq_thread_cpu: u32_at(s, at + 12),
            sq_thread_idle: u32_at(s, at + 16),
            features: u32_at(s, at + 20),
            resv: [u32_at(s, at + 24), u32_at(s, at + 28), u32_at(s, at + 32), u32_at(s, at + 36)],
            sq_off: SqringOffsets::parse(s, at + 40),
            cq_off: CqringOffsets::parse(s, at + 80),
        }
    }

    /// The block with every field zero.
    pub open spec fn zero() -> Params {
        Params {
            sq_entries: 0,
            cq_entries: 0,
            flags: 0,
            sq_thread_cpu: 0,
            sq_thread_idle: 0,
            features: 0,
            resv: [0u32, 0u32, 0u32, 0u32],
            sq_off: SqringOffsets::zero(),
            cq_off: CqringOffsets::zero(),
        }
    }

    /// The image of the scalar fields, which open the block.
    pub open spec fn scalar_bytes(self) -> Seq<u8> {
        le_u32(self.sq_entries) + le_u32(self.cq_entries) + le_u32(self.flags) + le_u32(
            self.sq_thread_cpu,
        ) + le_u32(self.sq_thread_idle) + le_u32(self.features) + le_u32(self.resv[0]) + le_u32(
            self.resv[1],
        ) + le_u32(self.resv[2]) + le_u32(self.resv[3])
    }

    proof fn lemma_scalars_found(self, s: Seq<u8>)
        requires
            s.len() >= 40,
            s.subrange(0, 40) == self.scalar_bytes(),
        ensures
            u32_at(s, 0) == self.sq_entries,
            u32_at(s, 4) == self.cq_entries,
            u32_at(s, 8) == self.flags,
            u32_at(s, 12) == self.sq_thread_cpu,
            u32_at(s, 16) == self.sq_thread_idle,
            u32_at(s, 20) == self.features,
            u32_at(s, 24) == self.resv[0],
            u32_at(s, 28) == self.resv[1],
            u32_at(s, 32) == self.resv[2],
            u32_at(s, 36) == self.resv[3],
    {
        let h = s.subrange(0, 40);
        assert(u32_at(s, 0) == self.sq_entries) by {
            assert(s.subrange(0, 4) =~= h.subrange(0, 4));
            assert(h.subrange(0, 4) =~= le_u32(self.sq_entries));
            lemma_u32_found(s, 0, self.sq_entries);
        }
        assert(u32_at(s, 4) == self.cq_entries) by {
            assert(s.subrange(4, 8) =~= h.subrange(4, 8));
            assert(h.subrange(4, 8) =~= le_u32(self.cq_entries));
            lemma_u32_found(s, 4, self.cq_entries);
        }
        assert(u32_at(s, 8) == self.flags) by {
            assert(s.subrange(8, 12) =~= h.subrange(8, 12));
            assert(h.subrange(8, 12) =~= le_u32(self.flags));
            lemma_u32_found(s, 8, self.flags);
        }
        assert(u32_at(s, 12) == self.sq_thread_cpu) by {
            assert(s.subrange(12, 16) =~= h.subrange(12, 16));
            assert(h.subrange(12, 16) =~= le_u32(self.sq_thread_cpu));
            lemma_u32_found(s, 12, self.sq_thread_cpu);
        }
        assert(u32_at(s, 16) == self.sq_thread_idle) by {
            assert(s.subrange(16, 20) =~= h.subrange(16, 20));
            assert(h.subrange(16, 20) =~= le_u32(self.sq_thread_idle));
            lemma_u32_found(s, 16, self.sq_thread_idle);
        }
        assert(u32_at(s, 20) == self.features) by {
            assert(s.subrange(20, 24) =~= h.subrange(20, 24));
            assert(h.subrange(20, 24) =~= le_u32(self.features));
            lemma_u32_found(s, 20, self.features);
        }
        assert(u32_at(s, 24) == self.resv[0]) by {
            assert(s.subrange(24, 28) =~= h.subrange(24, 28));
            assert(h.subrange(24, 28) =~= le_u32(self.resv[0]));
            lemma_u32_found(s, 24, self.resv[0]);
        }
        assert(u32_at(s, 28) == self.resv[1]) by {
            assert(s.subrange(28, 32) =~= h.subrange(28, 32));
            assert(h.subrange(28, 32) =~= le_u32(self.resv[1]));
            lemma_u32_found(s, 28, self.resv[1]);
        }
        assert(u32_at(s, 32) == self.resv[2]) by {
            assert(s.subrange(32, 36) =~= h.subrange(32, 36));
            assert(h.subrange(32, 36) =~= le_u32(self.resv[2]));
            lemma_u32_found(s, 32, self.resv[2]);
        }
        assert(u32_at(s, 36) == self.resv[3]) by {
            assert(s.subrange(36, 40) =~= h.subrange(36, 40));
            assert(h.subrange(36, 40) =~= le_u32(self.resv[3]));
            lemma_u32_found(s, 36, self.resv[3]);
        }
    }

    /// Whether two blocks have the same fields.
    pub open spec fn same_as(self, other: Params) -> bool {
        &&& other.sq_entries == self.sq_entries
        &&& other.cq_entries == self.cq_entries
        &&& other.flags == self.flags
        &&& other.sq_thread_cpu == self.sq_thread_cpu
        &&& other.sq_thread_idle == self.sq_thread_idle
        &&& other.features == self.features
        &&& other.resv@ == self.resv@
        &&& other.sq_off == self.sq_off
        &&& self.cq_off.same_as(other.cq_off)
    }

    /// An image read back gives a block with the fields it was made from.
    pub proof fn lemma_round_trip(self)
        ensures
            self.bytes().len() == PARAMS_SIZE,
            self.same_as(Params::parse(self.bytes(), 0)),
    {
        let s = self.bytes();
        self.lemma_lengths();
        Params::lemma_three_parts(
            self.scalar_bytes(),
            self.sq_off.bytes(),
            self.cq_off.bytes(),
        );
        self.lemma_scalars_found(s);
        self.lemma_resv_found(s);
        self.sq_off.lemma_fields_found(s, 40);
        self.cq_off.lemma_fields_found(s, 80);
    }

    proof fn lemma_resv_found(self, s: Seq<u8>)
        requires
            u32_at(s, 24) == self.resv[0],
            u32_at(s, 28) == self.resv[1],
            u32_at(s, 32) == self.resv[2],
            u32_at(s, 36) == self.resv[3],
        ensures
            Params::parse(s, 0).resv@ == self.resv@,
    {
        let back = [u32_at(s, 24), u32_at(s, 28), u32_at(s, 32), u32_at(s, 36)];
        assert(back@ =~= self.resv@);
    }

    proof fn lemma_lengths(self)
        ensures
            self.scalar_bytes().len() == 40,
            self.sq_off.bytes().len() == 40,
            self.cq_off.bytes().len() == 40,
    {
    }

    proof fn lemma_three_parts(head: Seq<u8>, a: Seq<u8>, b: Seq<u8>)
        requires
            head.len() == 40,
            a.len() == 40,
            b.len() == 40,
        ensures
            (head + a + b).len() == 120,
            (head + a + b).subrange(0, 40) == head,
            (head + a + b).subrange(40, 80) == a,
            (head + a + b).subrange(80, 120) == b,
    {
        assert((head + a + b).subrange(0, 40) =~= head);
        assert((head + a + b).subrange(40, 80) =~= a);
        assert((head + a + b).subrange(80, 120) =~= b);
    }

    /// Appends the image to `out`.
    pub fn write(&self, out: &mut Vec<u8>)
        ensures
            final(out)@ == old(out)@ + self.bytes(),
    {
        let ghost start = out@;
        put_u32(out, self.sq_entries);
        put_u32(out, self.cq_entries);
        put_u32(out, self.flags);
        put_u32(out, self.sq_thread_cpu);
        put_u32(out, self.sq_thread_idle);
        put_u32(out, self.features);
        put_u32(out, self.resv[0]);
        put_u32(out, self.resv[1]);
        put_u32(out, self.resv[2]);
        put_u32(out, self.resv[3]);
        assert(out@ == start + self.scalar_bytes()) by {
            assert(out@ =~= start + self.scalar_bytes());
        }
        self.sq_off.write(out);
        self.cq_off.write(out);
        proof {
            Params::lemma_regroup(
                start,
                self.scalar_bytes(),
                self.sq_off.bytes(),
                self.cq_off.bytes(),
            );
        }
    }

    proof fn lemma_regroup(start: Seq<u8>, a: Seq<u8>, b: Seq<u8>, c: Seq<u8>)
        ensures
            start + a + b + c == start + (a + b + c),
    {
        assert(start + a + b + c =~= start + (a + b + c));
    }

    /// The image of the block, as it is handed to the kernel.
    pub fn to_bytes(&self) -> (out: Vec<u8>)
        ensures
            out@ == self.bytes(),
            out@.len() == PARAMS_SIZE,
    {
        let mut out: Vec<u8> = Vec::new();
        self.write(&mut out);
        proof {
            lemma_empty_prefix(self.bytes());
        }
        out
    }

    /// Reads a block from exactly its image, as the kernel hands it back;
    /// anything of another length is refused.
    #[verifier::rlimit(30)]
    pub fn from_bytes(bytes: &[u8]) -> (params: Option<Params>)
        ensures
            params == (if bytes@.len() == PARAMS_SIZE {
                Some(Params::parse(bytes@, 0))
            } else {
                None
            }),
    {
        if bytes.len() == PARAMS_SIZE {
            Some(
                Params {
                    sq_entries: get_u32(bytes, 0),
                    cq_entries: get_u32(bytes, 4),
                    flags: get_u32(bytes, 8),
                    sq_thread_cpu: get_u32(bytes, 12),
                    sq_thread_idle: get_u32(bytes, 16),
                    features: get_u32(bytes, 20),
                    resv: [
                        get_u32(bytes, 24),
                        get_u32(bytes, 28),
                        get_u32(bytes, 32),
                        get_u32(bytes, 36),
                    ],
                    sq_off: SqringOffsets::read(bytes, 40),
                    cq_off: CqringOffsets::read(bytes, 80),
                },
            )
        } else {
            None
        }
    }
}

impl Default for Params {
    fn default() -> (params: Params)
        ensures
            params == Params::zero(),
    {
        Params {
            sq_entries: 0,
            cq_entries: 0,
            flags: 0,
            sq_thread_cpu: 0,
            sq_thread_idle: 0,
            features: 0,
            resv: [0u32, 0u32, 0u32, 0u32],
            sq_off: SqringOffsets::default(),
            cq_off: CqringOffsets::default(),
        }
    }
}

/// Bytes in the image of an [`io_uring_files_update`].
pub const FILES_UPDATE_SIZE: usize = 16;

/// Alignment the kernel gives an [`io_uring_files_update`].
pub const FILES_UPDATE_ALIGN: usize = 8;

/// The argument of a registered-files update: from which index on the set
/// changes, and where the new descriptors stand.
#[allow(non_camel_case_types)]
#[derive(Clone, Copy, Debug, PartialEq, Eq, Structural)]
pub struct io_uring_files_update {
    /// First index of the registered set to replace.
    pub offset: u32,
    /// Address of the array of new descriptors.
    pub fds: u64,
}

impl io_uring_files_update {
    /// The byte image of the argument: the offset, four bytes of padding,
    /// the address.
    pub open spec fn bytes(self) -> Seq<u8> {
        le_u32(self.offset) + zeros(4) + le_u64(self.fds)
    }

    /// The argument whose image starts at byte `at` of `s`.
    pub open spec fn parse(s: Seq<u8>, at: int) -> io_uring_files_update {
        io_uring_files_update { offset: u32_at(s, at), fds: u64_at(s, at + 8) }
    }

    /// An image read back gives the argument it was made from, wherever the
    /// image stands.
    pub proof fn lemma_round_trip(self, prefix: Seq<u8>, suffix: Seq<u8>)
        ensures
            self.bytes().len() == FILES_UPDATE_SIZE,
            io_uring_files_update::parse(prefix + self.bytes() + suffix, prefix.len() as int)
                == self,
    {
        let s = prefix + self.bytes() + suffix;
        let at = prefix.len() as int;
        assert(s.subrange(at, at + 4) =~= le_u32(self.offset));
        lemma_u32_found(s, at, self.offset);
        assert(s.subrange(at + 8, at + 16) =~= le_u64(self.fds));
        lemma_u64_found(s, at + 8, self.fds);
    }

    /// The image of the argument.
    pub fn to_bytes(&self) -> (out: Vec<u8>)
        ensures
            out@ == self.bytes(),
            out@.len() == FILES_UPDATE_SIZE,
    {
        let mut out: Vec<u8> = Vec::new();
        put_u32(&mut out, self.offset);
        put_zeros(&mut out, 4);
        put_u64(&mut out, self.fds);
        assert(out@ =~= self.bytes());
        out
    }
}

} // verus!
