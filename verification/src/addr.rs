//! Addresses and buffers as plain values: what the kernel is pointed at,
//! without the pointers.

use vstd::prelude::*;
use crate::bytes::{
    be_u128, be_u128_at, be_u16, be_u16_at, be_u32, be_u32_at, get_be_u128, get_be_u16,
    get_be_u32, get_u16, get_u32, le_u16, le_u32, lemma_be_u128_found, lemma_be_u16_found,
    lemma_be_u32_found, lemma_u16_found, lemma_u32_found, put_be_u128, put_be_u16, put_be_u32,
    put_u16, put_u32, put_zeros, u16_at, u32_at, zeros,
};

verus! {

/// The address family of IPv4.
pub const AF_INET: u16 = 2;

/// The address family of IPv6.
pub const AF_INET6: u16 = 10;

/// Bytes in the image of an IPv4 socket address.
pub const SOCKADDR_IN_SIZE: usize = 16;

/// Bytes in the image of an IPv6 socket address.
pub const SOCKADDR_IN6_SIZE: usize = 28;

/// A socket address, as the kernel reports the peer of a datagram.
#[derive(Clone, Copy, Debug, PartialEq, Eq, Structural)]
pub enum SockAddr {
    /// An IPv4 address and port, both in host order.
    V4 { ip: u32, port: u16 },
    /// An IPv6 address with its port, flow information and scope.
    V6 { ip6: u128, port: u16, flowinfo: u32, scope_id: u32 },
}

impl SockAddr {
    /// The address `0.0.0.0:0`, which stands in a peer cell until the kernel
    /// has written the real peer there.
    pub open spec fn unspecified() -> SockAddr {
        SockAddr::V4 { ip: 0, port: 0 }
    }

    /// Computes [`SockAddr::unspecified`].
    pub fn new_unspecified() -> (addr: SockAddr)
        ensures
            addr == SockAddr::unspecified(),
    {
        SockAddr::V4 { ip: 0, port: 0 }
    }

    /// The byte image of the address, as the kernel reads and writes it:
    /// the family in the machine's byte order, then port and address in
    /// network order. An IPv4 address is padded to 16 bytes; an IPv6
    /// address has its flow information before and its scope after the
    /// address, both as the machine holds them.
    pub open spec fn bytes(self) -> Seq<u8> {
        match self {
            SockAddr::V4 { ip, port } => le_u16(AF_INET) + be_u16(port) + be_u32(ip) + zeros(8),
            SockAddr::V6 { ip6, port, flowinfo, scope_id } => le_u16(AF_INET6) + be_u16(port)
                + le_u32(flowinfo) + be_u128(ip6) + le_u32(scope_id),
        }
    }

    /// The address whose image opens `s`, if `s` opens with the image of
    /// one: the family says which kind, and the bytes must reach as far as
    /// an address of that kind does.
    pub open spec fn parse(s: Seq<u8>) -> Option<SockAddr> {
        if s.len() >= SOCKADDR_IN_SIZE && u16_at(s, 0) == AF_INET {
            Some(SockAddr::V4 { ip: be_u32_at(s, 4), port: be_u16_at(s, 2) })
        } else if s.len() >= SOCKADDR_IN6_SIZE && u16_at(s, 0) == AF_INET6 {
            Some(
                SockAddr::V6 {
                    ip6: be_u128_at(s, 8),
                    port: be_u16_at(s, 2),
                    flowinfo: u32_at(s, 4),
                    scope_id: u32_at(s, 24),
                },
            )
        } else {
            None
        }
    }

    /// An image read back gives the address it was made from, whatever
    /// follows the image.
    pub proof fn lemma_round_trip(self, suffix: Seq<u8>)
        ensures
            self is V4 ==> self.bytes().len() == SOCKADDR_IN_SIZE,
            self is V6 ==> self.bytes().len() == SOCKADDR_IN6_SIZE,
            SockAddr::parse(self.bytes() + suffix) == Some(self),
    {
        let image = self.bytes();
        let s = image + suffix;
        match self {
            SockAddr::V4 { ip, port } => {
                assert(image.len() == 16);
                assert(s.subrange(0, 16) == image) by {
                    assert(s.subrange(0, 16) =~= image);
                }
                SockAddr::lemma_v4_found(s, ip, port);
            },
            SockAddr::V6 { ip6, port, flowinfo, scope_id } => {
                assert(image.len() == 28) by {
                    SockAddr::lemma_be_u128_len(ip6);
                }
                assert(s.subrange(0, 28) == image) by {
                    assert(s.subrange(0, 28) =~= image);
                }
                SockAddr::lemma_v6_found(s, ip6, port, flowinfo, scope_id);
                assert(AF_INET6 != AF_INET);
            },
        }
    }

    proof fn lemma_be_u128_len(x: u128)
        ensures
            be_u128(x).len() == 16,
    {
    }

    proof fn lemma_v4_found(s: Seq<u8>, ip: u32, port: u16)
        requires
            s.len() >= 16,
            s.subrange(0, 16) == (SockAddr::V4 { ip, port }).bytes(),
        ensures
            u16_at(s, 0) == AF_INET,
            be_u16_at(s, 2) == port,
            be_u32_at(s, 4) == ip,
    {
        let image = s.subrange(0, 16);
        assert(u16_at(s, 0) == AF_INET) by {
            assert(s.subrange(0, 2) =~= image.subrange(0, 2));
            assert(image.subrange(0, 2) =~= le_u16(AF_INET));
            lemma_u16_found(s, 0, AF_INET);
        }
        assert(be_u16_at(s, 2) == port) by {
            assert(s.subrange(2, 4) =~= image.subrange(2, 4));
            assert(image.subrange(2, 4) =~= be_u16(port));
            lemma_be_u16_found(s, 2, port);
        }
        assert(be_u32_at(s, 4) == ip) by {
            assert(s.subrange(4, 8) =~= image.subrange(4, 8));
            assert(image.subrange(4, 8) =~= be_u32(ip));
            lemma_be_u32_found(s, 4, ip);
        }
    }

    proof fn lemma_v6_found(s: Seq<u8>, ip6: u128, port: u16, flowinfo: u32, scope_id: u32)
        requires
            s.len() >= 28,
            s.subrange(0, 28) == (SockAddr::V6 { ip6, port, flowinfo, scope_id }).bytes(),
        ensures
            u16_at(s, 0) == AF_INET6,
            be_u16_at(s, 2) == port,
            u32_at(s, 4) == flowinfo,
            be_u128_at(s, 8) == ip6,
            u32_at(s, 24) == scope_id,
    {
        let image = s.subrange(0, 28);
        let head = le_u16(AF_INET6) + be_u16(port) + le_u32(flowinfo);
        let body = be_u128(ip6);
        let tail = le_u32(scope_id);
        SockAddr::lemma_be_u128_len(ip6);
        assert(head.len() == 8 && body.len() == 16 && tail.len() == 4);
        assert(image == head + body + tail);
        assert(s.subrange(0, 8) == head) by {
            assert(s.subrange(0, 8) =~= image.subrange(0, 8));
            assert(image.subrange(0, 8) =~= head);
        }
        assert(s.subrange(8, 24) == body) by {
            assert(s.subrange(8, 24) =~= image.subrange(8, 24));
            assert(image.subrange(8, 24) =~= body);
        }
        assert(s.subrange(24, 28) == tail) by {
            assert(s.subrange(24, 28) =~= image.subrange(24, 28));
            assert(image.subrange(24, 28) =~= tail);
        }
        assert(u16_at(s, 0) == AF_INET6) by {
            assert(s.subrange(0, 2) =~= s.subrange(0, 8).subrange(0, 2));
            assert(head.subrange(0, 2) =~= le_u16(AF_INET6));
            lemma_u16_found(s, 0, AF_INET6);
        }
        assert(be_u16_at(s, 2) == port) by {
            assert(s.subrange(2, 4) =~= s.subrange(0, 8).subrange(2, 4));
            assert(head.subrange(2, 4) =~= be_u16(port));
            lemma_be_u16_found(s, 2, port);
        }
        assert(u32_at(s, 4) == flowinfo) by {
            assert(s.subrange(4, 8) =~= s.subrange(0, 8).subrange(4, 8));
            assert(head.subrange(4, 8) =~= le_u32(flowinfo));
            lemma_u32_found(s, 4, flowinfo);
        }
        lemma_be_u128_found(s, 8, ip6);
        lemma_u32_found(s, 24, scope_id);
    }

    /// The image of the address.
    pub fn to_bytes(&self) -> (out: Vec<u8>)
        ensures
            out@ == self.bytes(),
    {
        let mut out: Vec<u8> = Vec::new();
        match self {
            SockAddr::V4 { ip, port } => {
                put_u16(&mut out, AF_INET);
                put_be_u16(&mut out, *port);
                put_be_u32(&mut out, *ip);
                put_zeros(&mut out, 8);
            },
            SockAddr::V6 { ip6, port, flowinfo, scope_id } => {
                put_u16(&mut out, AF_INET6);
                put_be_u16(&mut out, *port);
                put_u32(&mut out, *flowinfo);
                put_be_u128(&mut out, *ip6);
                put_u32(&mut out, *scope_id);
            },
        }
        assert(out@ =~= self.bytes());
        out
    }

    /// Reads the address whose image opens `bytes`, as the kernel left it
    /// in a peer cell. Bytes that open with no address give `None`.
    pub fn from_bytes(bytes: &[u8]) -> (addr: Option<SockAddr>)
        ensures
            addr == SockAddr::parse(bytes@),
    {
        let n: usize = bytes.len();
        if n >= SOCKADDR_IN_SIZE && get_u16(bytes, 0) == AF_INET {
            Some(SockAddr::V4 { ip: get_be_u32(bytes, 4), port: get_be_u16(bytes, 2) })
        } else if n >= SOCKADDR_IN6_SIZE && get_u16(bytes, 0) == AF_INET6 {
            Some(
                SockAddr::V6 {
                    ip6: get_be_u128(bytes, 8),
                    port: get_be_u16(bytes, 2),
                    flowinfo: get_u32(bytes, 4),
                    scope_id: get_u32(bytes, 24),
                },
            )
        } else {
            None
        }
    }
}

/// One scatter/gather segment: where a buffer starts and how long it is.
#[derive(Clone, Copy, Debug, PartialEq, Eq, Structural)]
pub struct IoVec {
    /// Address of the first byte.
    pub base: u64,
    /// Length in bytes.
    pub len: usize,
}

impl IoVec {
    /// The segment of no bytes at address zero.
    pub open spec fn empty() -> IoVec {
        IoVec { base: 0, len: 0 }
    }
}

/// A message header: the vectors of a socket message and, for a datagram,
/// where its peer address is read from or written to.
#[derive(Clone, Copy, Debug, PartialEq, Eq, Structural)]
pub struct MsgHdr {
    /// Address of the peer's socket address, or zero.
    pub name: u64,
    /// Bytes available at `name`.
    pub namelen: u32,
    /// Address of the first vector.
    pub iov: u64,
    /// Number of vectors.
    pub iovlen: usize,
    /// Address of ancillary data, or zero.
    pub control: u64,
    /// Bytes of ancillary data.
    pub controllen: usize,
    /// Flags of the received message.
    pub flags: i32,
}

impl MsgHdr {
    /// The header with every field zero.
    pub open spec fn zero() -> MsgHdr {
        MsgHdr { name: 0, namelen: 0, iov: 0, iovlen: 0, control: 0, controllen: 0, flags: 0 }
    }
}

/// A caller's socket address in memory: where it stands and how long it is.
#[derive(Clone, Copy, Debug, PartialEq, Eq, Structural)]
pub struct RawAddr {
    /// Address of the socket address.
    pub name: u64,
    /// Its length in bytes.
    pub len: u32,
}

} // verus!
