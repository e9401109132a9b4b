//! The records that user space and the kernel exchange, and their exact
//! byte images.

use vstd::prelude::*;
use crate::bytes::{
    get_i32, get_u32, get_u64, i32_at, le_i32, le_u16, le_u32, le_u64,
    lemma_i32_bytes_back, lemma_i32_found, lemma_i32_round_trip, lemma_u16_found,
    lemma_u32_bytes_back, lemma_u32_found, lemma_u32_round_trip, lemma_u64_bytes_back,
    lemma_empty_prefix, lemma_u64_found, lemma_u64_round_trip, put_i32, put_u16, put_u32,
    put_u64, put_zeros, u16_at, u32_at, u64_at, zeros,
};
use crate::chain::Order;

verus! {

/// Bytes in the image of a [`Cqe`].
pub const CQE_SIZE: usize = 16;

/// Alignment the kernel gives a [`Cqe`].
pub const CQE_ALIGN: usize = 8;

/// A completion queue entry: what the kernel reports of one finished
/// operation.
#[derive(Clone, Copy, Debug, PartialEq, Eq, Structural)]
pub struct Cqe {
    /// The correlation value of the submission that this completes.
    pub user_data: u64,
    /// The operation's result; a negative value is a negated error number.
    pub res: i32,
    /// Completion flags.
    pub flags: u32,
}

impl Cqe {
    /// The byte image of the entry.
    pub open spec fn bytes(self) -> Seq<u8> {
        le_u64(self.user_data) + le_i32(self.res) + le_u32(self.flags)
    }

    /// The entry whose image starts at byte `at` of `s`.
    pub open spec fn parse(s: Seq<u8>, at: int) -> Cqe {
        Cqe { user_data: u64_at(s, at), res: i32_at(s, at + 8), flags: u32_at(s, at + 12) }
    }

    /// An image read back gives the entry it was made from.
    pub proof fn lemma_round_trip(self, prefix: Seq<u8>, suffix: Seq<u8>)
        ensures
            self.bytes().len() == CQE_SIZE,
            Cqe::parse(prefix + self.bytes() + suffix, prefix.len() as int) == self,
    {
        let s = prefix + self.bytes() + suffix;
        let p1 = prefix + le_u64(self.user_data);
        let p2 = p1 + le_i32(self.res);
        assert(s =~= prefix + le_u64(self.user_data) + (le_i32(self.res) + le_u32(self.flags)
            + suffix));
        lemma_u64_round_trip(
            prefix,
            self.user_data,
            le_i32(self.res) + le_u32(self.flags) + suffix,
        );
        assert(s =~= p1 + le_i32(self.res) + (le_u32(self.flags) + suffix));
        lemma_i32_round_trip(p1, self.res, le_u32(self.flags) + suffix);
        assert(s =~= p2 + le_u32(self.flags) + suffix);
        lemma_u32_round_trip(p2, self.flags, suffix);
    }

    /// Sixteen bytes are the image of the entry that is read from them.
    pub proof fn lemma_bytes_back(s: Seq<u8>, at: int)
        requires
            0 <= at,
            at + CQE_SIZE <= s.len(),
        ensures
            Cqe::parse(s, at).bytes() == s.subrange(at, at + CQE_SIZE),
    {
        lemma_u64_bytes_back(s, at);
        lemma_i32_bytes_back(s, at + 8);
        lemma_u32_bytes_back(s, at + 12);
        assert(Cqe::parse(s, at).bytes() =~= s.subrange(at, at + 16));
    }

    /// Appends the entry's image to `out`.
    pub fn write(&self, out: &mut Vec<u8>)
        ensures
            final(out)@ == old(out)@ + self.bytes(),
    {
        put_u64(out, self.user_data);
        put_i32(out, self.res);
        put_u32(out, self.flags);
        assert(out@ =~= old(out)@ + self.bytes());
    }

    /// The entry's image.
    pub fn to_bytes(&self) -> (out: Vec<u8>)
        ensures
            out@ == self.bytes(),
            out@.len() == CQE_SIZE,
    {
        let mut out: Vec<u8> = Vec::new();
        self.write(&mut out);
        proof {
            lemma_empty_prefix(self.bytes());
        }
        out
    }

    /// Reads the entry whose image starts at byte `at` of `bytes`.
    pub fn read(bytes: &[u8], at: usize) -> (cqe: Cqe)
        requires
            at + CQE_SIZE <= bytes@.len(),
        ensures
            cqe == Cqe::parse(bytes@, at as int),
    {
        let n: usize = bytes.len();
        Cqe {
            user_data: get_u64(bytes, at),
            res: get_i32(bytes, at + 8),
            flags: get_u32(bytes, at + 12),
        }
    }

    /// Reads an entry from exactly its image; anything of another length is
    /// refused.
    pub fn from_bytes(bytes: &[u8]) -> (cqe: Option<Cqe>)
        ensures
            cqe == (if bytes@.len() == CQE_SIZE {
                Some(Cqe::parse(bytes@, 0))
            } else {
                None
            }),
    {
        if bytes.len() == CQE_SIZE {
            Some(Cqe::read(bytes, 0))
        } else {
            None
        }
    }
}

/// Bytes in the image of an [`Sqe`].
pub const SQE_SIZE: usize = 64;

/// Alignment the kernel gives an [`Sqe`].
pub const SQE_ALIGN: usize = 8;

/// A submission queue entry: the description of one operation.
///
/// Three places of the record are shared by several meanings. `off` is the
/// file offset, or a second address; `op_flags` holds the flags that belong to
/// the operation (read and write flags, fsync flags, the flags of
/// `sync_file_range`, message flags, accept flags); `buf_index` opens the
/// padding that fills the record to 64 bytes, all of it zero in the image.
#[derive(Clone, Copy, Debug, PartialEq, Eq, Structural)]
pub struct Sqe {
    /// The operation.
    pub opcode: u8,
    /// Submission flags, the chain bits among them.
    pub flags: u8,
    /// Priority of the request.
    pub ioprio: u16,
    /// The file descriptor operated on.
    pub fd: i32,
    /// Offset into the file, or a second address.
    pub off: u64,
    /// Address of a buffer, or of the vector or message header describing it.
    pub addr: u64,
    /// Length of the buffer, or the number of vectors.
    pub len: u32,
    /// Flags specific to the operation.
    pub op_flags: u32,
    /// The correlation value handed back with the completion.
    pub user_data: u64,
    /// Index into the registered buffers.
    pub buf_index: u16,
}

impl Sqe {
    /// The entry with every field zero.
    pub open spec fn zero() -> Sqe {
        Sqe {
            opcode: 0,
            flags: 0,
            ioprio: 0,
            fd: 0,
            off: 0,
            addr: 0,
            len: 0,
            op_flags: 0,
            user_data: 0,
            buf_index: 0,
        }
    }

    /// The byte image of the entry.
    pub open spec fn bytes(self) -> Seq<u8> {
        seq![self.opcode, self.flags] + le_u16(self.ioprio) + le_i32(self.fd) + le_u64(self.off)
            + le_u64(self.addr) + le_u32(self.len) + le_u32(self.op_flags) + le_u64(
            self.user_data,
        ) + le_u16(self.buf_index) + zeros(22)
    }

    /// The entry whose image starts at byte `at` of `s`.
    pub open spec fn parse(s: Seq<u8>, at: int) -> Sqe {
        Sqe {
            opcode: s[at],
            flags: s[at + 1],
            ioprio: u16_at(s, at + 2),
            fd: i32_at(s, at + 4),
            off: u64_at(s, at + 8),
            addr: u64_at(s, at + 16),
            len: u32_at(s, at + 24),
            op_flags: u32_at(s, at + 28),
            user_data: u64_at(s, at + 32),
            buf_index: u16_at(s, at + 40),
        }
    }

    /// What `prep_rw` makes of an entry: the operation, its descriptor,
    /// length and offset are set, the chain bits are those of `order`, and
    /// everything else but `addr` and `user_data` is zero.
    pub open spec fn prepared(self, opcode: u8, fd: i32, len: u32, off: u64, order: Order) -> Sqe {
        Sqe {
            opcode,
            flags: order.bits(),
            ioprio: 0,
            fd,
            off,
            addr: self.addr,
            len,
            op_flags: 0,
            user_data: self.user_data,
            buf_index: 0,
        }
    }

    /// An image read back gives the entry it was made from, wherever the
    /// image stands.
    pub proof fn lemma_round_trip(self, prefix: Seq<u8>, suffix: Seq<u8>)
        ensures
            self.bytes().len() == SQE_SIZE,
            Sqe::parse(prefix + self.bytes() + suffix, prefix.len() as int) == self,
    {
        let image = self.bytes();
        let s = prefix + image + suffix;
        let at = prefix.len() as int;
        assert(image.len() == 64);
        assert(s.subrange(at, at + 64) == image) by {
            assert(s.subrange(at, at + 64) =~= image);
        }
        self.lemma_fields_found(s, at);
    }

    proof fn lemma_fields_found(self, s: Seq<u8>, at: int)
        requires
            0 <= at,
            at + 64 <= s.len(),
            s.subrange(at, at + 64) == self.bytes(),
        ensures
            Sqe::parse(s, at) == self,
    {
        let image = self.bytes();
        let head = seq![self.opcode, self.flags] + le_u16(self.ioprio) + le_i32(self.fd);
        let mid = le_u64(self.off) + le_u64(self.addr) + le_u32(self.len) + le_u32(self.op_flags);
        let end = le_u64(self.user_data) + le_u16(self.buf_index) + zeros(22);
        assert(head.len() == 8 && mid.len() == 24 && end.len() == 32);
        assert(image == head + mid + end) by {
            assert(image =~= head + mid + end);
        }
        assert(s.subrange(at, at + 8) == head) by {
            assert(s.subrange(at, at + 8) =~= image.subrange(0, 8));
            assert(image.subrange(0, 8) =~= head);
        }
        assert(s.subrange(at + 8, at + 32) == mid) by {
            assert(s.subrange(at + 8, at + 32) =~= image.subrange(8, 32));
            assert(image.subrange(8, 32) =~= mid);
        }
        assert(s.subrange(at + 32, at + 64) == end) by {
            assert(s.subrange(at + 32, at + 64) =~= image.subrange(32, 64));
            assert(image.subrange(32, 64) =~= end);
        }
        assert(s[at] == self.opcode && s[at + 1] == self.flags) by {
            assert(s[at] == s.subrange(at, at + 8)[0]);
            assert(s[at + 1] == s.subrange(at, at + 8)[1]);
        }
        assert(u16_at(s, at + 2) == self.ioprio) by {
            assert(s.subrange(at + 2, at + 4) =~= s.subrange(at, at + 8).subrange(2, 4));
            assert(head.subrange(2, 4) =~= le_u16(self.ioprio));
            lemma_u16_found(s, at + 2, self.ioprio);
        }
        assert(i32_at(s, at + 4) == self.fd) by {
            assert(s.subrange(at + 4, at + 8) =~= s.subrange(at, at + 8).subrange(4, 8));
            assert(head.subrange(4, 8) =~= le_i32(self.fd));
            lemma_i32_found(s, at + 4, self.fd);
        }
        assert(u64_at(s, at + 8) == self.off) by {
            assert(s.subrange(at + 8, at + 16) =~= s.subrange(at + 8, at + 32).subrange(0, 8));
            assert(mid.subrange(0, 8) =~= le_u64(self.off));
            lemma_u64_found(s, at + 8, self.off);
        }
        assert(u64_at(s, at + 16) == self.addr) by {
            assert(s.subrange(at + 16, at + 24) =~= s.subrange(at + 8, at + 32).subrange(8, 16));
            assert(mid.subrange(8, 16) =~= le_u64(self.addr));
            lemma_u64_found(s, at + 16, self.addr);
        }
        assert(u32_at(s, at + 24) == self.len) by {
            assert(s.subrange(at + 24, at + 28) =~= s.subrange(at + 8, at + 32).subrange(16, 20));
            assert(mid.subrange(16, 20) =~= le_u32(self.len));
            lemma_u32_found(s, at + 24, self.len);
        }
        assert(u32_at(s, at + 28) == self.op_flags) by {
            assert(s.subrange(at + 28, at + 32) =~= s.subrange(at + 8, at + 32).subrange(20, 24));
            assert(mid.subrange(20, 24) =~= le_u32(self.op_flags));
            lemma_u32_found(s, at + 28, self.op_flags);
        }
        assert(u64_at(s, at + 32) == self.user_data) by {
            assert(s.subrange(at + 32, at + 40) =~= s.subrange(at + 32, at + 64).subrange(0, 8));
            assert(end.subrange(0, 8) =~= le_u64(self.user_data));
            lemma_u64_found(s, at + 32, self.user_data);
        }
        assert(u16_at(s, at + 40) == self.buf_index) by {
            assert(s.subrange(at + 40, at + 42) =~= s.subrange(at + 32, at + 64).subrange(8, 10));
            assert(end.subrange(8, 10) =~= le_u16(self.buf_index));
            lemma_u16_found(s, at + 40, self.buf_index);
        }
    }

    /// The entry with every field zero.
    pub fn zeroed() -> (sqe: Sqe)
        ensures
            sqe == Sqe::zero(),
    {
        Sqe {
            opcode: 0,
            flags: 0,
            ioprio: 0,
            fd: 0,
            off: 0,
            addr: 0,
            len: 0,
            op_flags: 0,
            user_data: 0,
            buf_index: 0,
        }
    }

    /// Describes an operation in this entry. The entry's slot in the ring is
    /// used again and again for operations of different kinds, so every field
    /// that is not set here is cleared, except `addr` and `user_data`, which
    /// the submission path has filled in already. The kernel takes lengths
    /// of 32 bits, and `len` must be one.
    pub fn prep_rw(&mut self, opcode: u8, file_descriptor: i32, len: usize, off: u64, order: Order)
        requires
            len <= u32::MAX,
        ensures
            *final(self) == old(self).prepared(opcode, file_descriptor, len as u32, off, order),
    {
        self.opcode = opcode;
        self.flags = 0;
        self.ioprio = 0;
        self.fd = file_descriptor;
        self.len = len as u32;
        self.off = off;
        self.op_flags = 0;
        self.buf_index = 0;
        self.apply_order(order);
    }

    /// Sets the chain bits of `order` in the submission flags.
    pub fn apply_order(&mut self, order: Order)
        ensures
            *final(self) == (Sqe { flags: old(self).flags | order.bits(), ..*old(self) }),
            old(self).flags == 0 ==> final(self).flags == order.bits(),
    {
        let bits: u8 = order.flag_bits();
        let before: u8 = self.flags;
        assert(0u8 | bits == bits) by (bit_vector);
        self.flags = before | bits;
    }

    /// Appends the entry's image to `out`.
    pub fn write(&self, out: &mut Vec<u8>)
        ensures
            final(out)@ == old(out)@ + self.bytes(),
    {
        let ghost start = out@;
        let ghost head = seq![self.opcode, self.flags] + le_u16(self.ioprio) + le_i32(self.fd);
        let ghost mid = le_u64(self.off) + le_u64(self.addr) + le_u32(self.len) + le_u32(
            self.op_flags,
        );
        let ghost end = le_u64(self.user_data) + le_u16(self.buf_index) + zeros(22);
        out.push(self.opcode);
        out.push(self.flags);
        put_u16(out, self.ioprio);
        put_i32(out, self.fd);
        assert(out@ == start + head) by {
            assert(out@ =~= start + head);
        }
        put_u64(out, self.off);
        put_u64(out, self.addr);
        put_u32(out, self.len);
        put_u32(out, self.op_flags);
        assert(out@ == start + head + mid) by {
            assert(out@ =~= start + head + mid);
        }
        put_u64(out, self.user_data);
        put_u16(out, self.buf_index);
        put_zeros(out, 22);
        assert(out@ == start + head + mid + end) by {
            assert(out@ =~= start + head + mid + end);
        }
        assert(start + head + mid + end == start + self.bytes()) by {
            assert(self.bytes() =~= head + mid + end);
            assert(start + head + mid + end =~= start + (head + mid + end));
        }
    }

    /// The entry's image.
    pub fn to_bytes(&self) -> (out: Vec<u8>)
        ensures
            out@ == self.bytes(),
            out@.len() == SQE_SIZE,
    {
        let mut out: Vec<u8> = Vec::new();
        self.write(&mut out);
        proof {
            lemma_empty_prefix(self.bytes());
        }
        out
    }
}

} // verus!
