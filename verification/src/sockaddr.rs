//! Socket addresses as the bytes of a `sockaddr`, and the IPv4 and IPv6
//! addresses they hold.
//!
//! The address family and the IPv6 scope id are laid out least significant
//! byte first, as on the little-endian machines the kernel runs on; ports,
//! flow labels and addresses in network order.
use vstd::prelude::*;
use crate::bytes::{
    be_bytes, be_value, byte_cap, le_bytes, le_value, lemma_be_roundtrip, lemma_be_value_bound,
    lemma_byte_cap_values, lemma_le_roundtrip, lemma_le_value_bound, push_be, push_le, read_be, read_le,
};
use crate::errno::SysError;

verus! {

/// The IPv4 address family.
pub const AF_INET: u32 = 2;

/// The IPv6 address family.
pub const AF_INET6: u32 = 10;

/// The size of the address-family field that starts every socket address.
pub const SA_FAMILY_SIZE: u32 = 2;

/// The size of the largest socket address (`sockaddr`).
pub const SOCKADDR_SIZE: u32 = 128;

/// The size of an IPv4 socket address (`sockaddr_in`).
pub const SOCKADDR_IN_SIZE: u32 = 16;

/// The size of an IPv6 socket address (`sockaddr_in6`).
pub const SOCKADDR_IN6_SIZE: u32 = 28;

/// An IPv4 address and port.
#[derive(Debug, Clone, Copy, PartialEq, Eq, Structural)]
pub struct SocketAddrV4 {
    /// The address, its first octet most significant.
    pub ip: u32,
    pub port: u16,
}

/// An IPv6 address, port, flow label and scope.
#[derive(Debug, Clone, Copy, PartialEq, Eq, Structural)]
pub struct SocketAddrV6 {
    /// The address, its first octet most significant.
    pub ip: u128,
    pub port: u16,
    pub flowinfo: u32,
    pub scope_id: u32,
}

/// An IPv4 or IPv6 socket address.
#[derive(Debug, Clone, Copy, PartialEq, Eq, Structural)]
pub enum SocketAddr {
    V4(SocketAddrV4),
    V6(SocketAddrV6),
}

/// The bytes of a `sockaddr_in` holding `a`.
pub open spec fn v4_bytes(a: SocketAddrV4) -> Seq<u8> {
    le_bytes(AF_INET as nat, 2) + be_bytes(a.port as nat, 2) + be_bytes(a.ip as nat, 4) + Seq::new(
        8,
        |i: int| 0u8,
    )
}

/// The bytes of a `sockaddr_in6` holding `a`.
pub open spec fn v6_bytes(a: SocketAddrV6) -> Seq<u8> {
    le_bytes(AF_INET6 as nat, 2) + be_bytes(a.port as nat, 2) + be_bytes(a.flowinfo as nat, 4) + be_bytes(
        a.ip as nat,
        16,
    ) + le_bytes(a.scope_id as nat, 4)
}

/// The first `n` bytes of `s`, with zeros where `s` is shorter.
pub open spec fn padded(s: Seq<u8>, n: nat) -> Seq<u8> {
    Seq::new(n, |i: int| if i < s.len() { s[i] } else { 0u8 })
}

/// The IPv4 address that the bytes of a `sockaddr_in` hold.
pub open spec fn parse_v4(s: Seq<u8>) -> SocketAddrV4 {
    SocketAddrV4 { ip: be_value(s.subrange(4, 8)) as u32, port: be_value(s.subrange(2, 4)) as u16 }
}

/// The IPv6 address that the bytes of a `sockaddr_in6` hold.
pub open spec fn parse_v6(s: Seq<u8>) -> SocketAddrV6 {
    SocketAddrV6 {
        ip: be_value(s.subrange(8, 24)) as u128,
        port: be_value(s.subrange(2, 4)) as u16,
        flowinfo: be_value(s.subrange(4, 8)) as u32,
        scope_id: le_value(s.subrange(24, 28)) as u32,
    }
}

/// The address family that the bytes of a socket address start with.
pub open spec fn family_of(s: Seq<u8>) -> nat {
    le_value(s.take(2))
}

/// The IPv4 address that the bytes of a socket address hold, or why none.
pub open spec fn v4_of(s: Seq<u8>) -> Result<SocketAddrV4, SysError> {
    if family_of(s) != AF_INET {
        Err(SysError::EAFNOSUPPORT)
    } else if s.len() > SOCKADDR_IN_SIZE {
        Err(SysError::EINVAL)
    } else {
        Ok(parse_v4(padded(s, SOCKADDR_IN_SIZE as nat)))
    }
}

/// The IPv6 address that the bytes of a socket address hold, or why none.
pub open spec fn v6_of(s: Seq<u8>) -> Result<SocketAddrV6, SysError> {
    if family_of(s) != AF_INET6 {
        Err(SysError::EAFNOSUPPORT)
    } else if s.len() > SOCKADDR_IN6_SIZE {
        Err(SysError::EINVAL)
    } else {
        Ok(parse_v6(padded(s, SOCKADDR_IN6_SIZE as nat)))
    }
}

/// The IPv4 or IPv6 address that the bytes of a socket address hold, by
/// their family, or why none.
pub open spec fn addr_of(s: Seq<u8>) -> Result<SocketAddr, SysError> {
    if family_of(s) == AF_INET {
        match v4_of(s) {
            Ok(a) => Ok(SocketAddr::V4(a)),
            Err(e) => Err(e),
        }
    } else if family_of(s) == AF_INET6 {
        match v6_of(s) {
            Ok(a) => Ok(SocketAddr::V6(a)),
            Err(e) => Err(e),
        }
    } else {
        Err(SysError::EAFNOSUPPORT)
    }
}

/// A socket address as the bytes of a `sockaddr`: between the size of the
/// family field and the size of `sockaddr`.
#[derive(Debug, Clone)]
pub struct SockAddr {
    len: u32,
    storage: Vec<u8>,
}

impl View for SockAddr {
    type V = Seq<u8>;

    closed spec fn view(&self) -> Seq<u8> {
        self.storage@
    }
}

impl SockAddr {
    /// The length lies between the family field's size and `sockaddr`'s,
    /// and the bytes are that many.
    pub closed spec fn wf(&self) -> bool {
        &&& SA_FAMILY_SIZE <= self.len <= SOCKADDR_SIZE
        &&& self.storage@.len() == self.len
    }

    /// A socket address of the first `len` bytes of `bytes`; `EINVAL` when
    /// `len` is smaller than the family field or larger than `sockaddr`.
    pub fn read(bytes: &[u8], len: u32) -> (r: Result<Self, SysError>)
        requires
            len <= bytes@.len(),
        ensures
            len < SA_FAMILY_SIZE || len > SOCKADDR_SIZE ==> r == Err::<Self, SysError>(SysError::EINVAL),
            SA_FAMILY_SIZE <= len <= SOCKADDR_SIZE ==> r is Ok && r->Ok_0.wf() && r->Ok_0@ == bytes@.take(
                len as int,
            ),
    {
        if len < SA_FAMILY_SIZE || len > SOCKADDR_SIZE {
            return Err(SysError::EINVAL);
        }
        let mut storage: Vec<u8> = Vec::new();
        let mut i: usize = 0;
        while i < len as usize
            invariant
                i <= len,
                len <= bytes@.len(),
                storage@ == bytes@.take(i as int),
            decreases len - i,
        {
            storage.push(bytes[i]);
            i = i + 1;
            assert(storage@ =~= bytes@.take(i as int));
        }
        Ok(SockAddr { len, storage })
    }

    /// The address family.
    pub fn family(&self) -> (f: u32)
        requires
            self.wf(),
        ensures
            f == family_of(self@),
    {
        proof {
            lemma_le_value_bound(self@.take(2));
            lemma_byte_cap_values();
        }
        read_le(self.storage.as_slice(), 0, 2) as u32
    }

    /// The number of bytes of the address.
    pub fn addr_len(&self) -> (n: u32)
        requires
            self.wf(),
        ensures
            n == self@.len(),
    {
        self.len
    }

    /// The bytes of the address.
    pub fn bytes(&self) -> (b: &[u8])
        ensures
            b@ == self@,
    {
        self.storage.as_slice()
    }

    /// The `sockaddr_in` of an IPv4 address.
    pub fn from_v4(v4: SocketAddrV4) -> (s: Self)
        ensures
            s.wf(),
            s@ == v4_bytes(v4),
    {
        let mut b: Vec<u8> = Vec::new();
        push_le(&mut b, AF_INET as u128, 2);
        push_be(&mut b, v4.port as u128, 2);
        push_be(&mut b, v4.ip as u128, 4);
        let mut i: usize = 0;
        while i < 8
            invariant
                i <= 8,
                b@ == le_bytes(AF_INET as nat, 2) + be_bytes(v4.port as nat, 2) + be_bytes(v4.ip as nat, 4)
                    + Seq::new(i as nat, |k: int| 0u8),
            decreases 8 - i,
        {
            b.push(0);
            i = i + 1;
            assert(b@ =~= le_bytes(AF_INET as nat, 2) + be_bytes(v4.port as nat, 2) + be_bytes(v4.ip as nat, 4)
                + Seq::new(i as nat, |k: int| 0u8));
        }
        proof { lemma_v4_bytes_len(v4); }
        SockAddr { len: SOCKADDR_IN_SIZE, storage: b }
    }

    /// The `sockaddr_in6` of an IPv6 address.
    pub fn from_v6(v6: SocketAddrV6) -> (s: Self)
        ensures
            s.wf(),
            s@ == v6_bytes(v6),
    {
        let mut b: Vec<u8> = Vec::new();
        push_le(&mut b, AF_INET6 as u128, 2);
        push_be(&mut b, v6.port as u128, 2);
        push_be(&mut b, v6.flowinfo as u128, 4);
        push_be(&mut b, v6.ip, 16);
        push_le(&mut b, v6.scope_id as u128, 4);
        proof { lemma_v6_bytes_len(v6); }
        SockAddr { len: SOCKADDR_IN6_SIZE, storage: b }
    }

    /// The `sockaddr_in` or `sockaddr_in6` of a socket address.
    pub fn from_addr(addr: SocketAddr) -> (s: Self)
        ensures
            s.wf(),
            s@ == match addr {
                SocketAddr::V4(a) => v4_bytes(a),
                SocketAddr::V6(a) => v6_bytes(a),
            },
    {
        match addr {
            SocketAddr::V4(v4) => Self::from_v4(v4),
            SocketAddr::V6(v6) => Self::from_v6(v6),
        }
    }

    /// The first `n` bytes of the address, with zeros past its end.
    ///
    /// Bytes past the length of a socket address are not part of it; they
    /// are read as zero.
    fn padded_bytes(&self, n: usize) -> (v: Vec<u8>)
        requires
            self.wf(),
        ensures
            v@ == padded(self@, n as nat),
    {
        let mut v: Vec<u8> = Vec::new();
        let mut i: usize = 0;
        while i < n
            invariant
                i <= n,
                self.wf(),
                v@ == padded(self@, i as nat),
            decreases n - i,
        {
            if i < self.len as usize {
                v.push(self.storage[i]);
            } else {
                v.push(0);
            }
            i = i + 1;
            assert(v@ =~= padded(self@, i as nat));
        }
        v
    }
}

impl SocketAddrV4 {
    /// The IPv4 address a socket address holds: `EAFNOSUPPORT` when it is of
    /// another family, `EINVAL` when it is longer than a `sockaddr_in`.
    pub fn try_from_sockaddr(addr: &SockAddr) -> (r: Result<Self, SysError>)
        requires
            addr.wf(),
        ensures
            r == v4_of(addr@),
    {
        if addr.family() != AF_INET {
            return Err(SysError::EAFNOSUPPORT);
        }
        if SOCKADDR_IN_SIZE < addr.addr_len() {
            return Err(SysError::EINVAL);
        }
        let b = addr.padded_bytes(SOCKADDR_IN_SIZE as usize);
        let ghost s = b@;
        proof {
            lemma_byte_cap_values();
            lemma_be_value_bound(s.subrange(4, 8));
            lemma_be_value_bound(s.subrange(2, 4));
        }
        let ip = read_be(b.as_slice(), 4, 4) as u32;
        let port = read_be(b.as_slice(), 2, 2) as u16;
        Ok(SocketAddrV4 { ip, port })
    }
}

impl SocketAddrV6 {
    /// The IPv6 address a socket address holds: `EAFNOSUPPORT` when it is of
    /// another family, `EINVAL` when it is longer than a `sockaddr_in6`.
    pub fn try_from_sockaddr(addr: &SockAddr) -> (r: Result<Self, SysError>)
        requires
            addr.wf(),
        ensures
            r == v6_of(addr@),
    {
        if addr.family() != AF_INET6 {
            return Err(SysError::EAFNOSUPPORT);
        }
        if SOCKADDR_IN6_SIZE < addr.addr_len() {
            return Err(SysError::EINVAL);
        }
        let b = addr.padded_bytes(SOCKADDR_IN6_SIZE as usize);
        let ghost s = b@;
        proof {
            lemma_byte_cap_values();
            lemma_be_value_bound(s.subrange(8, 24));
            lemma_be_value_bound(s.subrange(2, 4));
            lemma_be_value_bound(s.subrange(4, 8));
            lemma_le_value_bound(s.subrange(24, 28));
        }
        let ip = read_be(b.as_slice(), 8, 16);
        let port = read_be(b.as_slice(), 2, 2) as u16;
        let flowinfo = read_be(b.as_slice(), 4, 4) as u32;
        let scope_id = read_le(b.as_slice(), 24, 4) as u32;
        Ok(SocketAddrV6 { ip, port, flowinfo, scope_id })
    }
}

impl SocketAddr {
    /// The IPv4 or IPv6 address a socket address holds, by its family;
    /// `EAFNOSUPPORT` for any other family.
    pub fn try_from_sockaddr(addr: &SockAddr) -> (r: Result<Self, SysError>)
        requires
            addr.wf(),
        ensures
            r == addr_of(addr@),
    {
        let f = addr.family();
        if f == AF_INET {
            match SocketAddrV4::try_from_sockaddr(addr) {
                Ok(a) => Ok(SocketAddr::V4(a)),
                Err(e) => Err(e),
            }
        } else if f == AF_INET6 {
            match SocketAddrV6::try_from_sockaddr(addr) {
                Ok(a) => Ok(SocketAddr::V6(a)),
                Err(e) => Err(e),
            }
        } else {
            Err(SysError::EAFNOSUPPORT)
        }
    }
}

proof fn lemma_v4_bytes_len(a: SocketAddrV4)
    ensures
        v4_bytes(a).len() == SOCKADDR_IN_SIZE,
{
    lemma_byte_cap_values();
    lemma_le_roundtrip(AF_INET as nat, 2);
    lemma_be_roundtrip(a.port as nat, 2);
    lemma_be_roundtrip(a.ip as nat, 4);
}

proof fn lemma_v6_bytes_len(a: SocketAddrV6)
    ensures
        v6_bytes(a).len() == SOCKADDR_IN6_SIZE,
{
    lemma_byte_cap_values();
    lemma_le_roundtrip(AF_INET6 as nat, 2);
    lemma_be_roundtrip(a.port as nat, 2);
    lemma_be_roundtrip(a.flowinfo as nat, 4);
    lemma_be_roundtrip(a.ip as nat, 16);
    lemma_le_roundtrip(a.scope_id as nat, 4);
}

/// An IPv4 socket address written as a `sockaddr_in` is of the IPv4 family
/// and reads back unchanged.
pub proof fn lemma_v4_roundtrip(a: SocketAddrV4)
    ensures
        family_of(v4_bytes(a)) == AF_INET,
        v4_bytes(a).len() == SOCKADDR_IN_SIZE,
        parse_v4(padded(v4_bytes(a), SOCKADDR_IN_SIZE as nat)) == a,
        v4_of(v4_bytes(a)) == Ok::<SocketAddrV4, SysError>(a),
        addr_of(v4_bytes(a)) == Ok::<SocketAddr, SysError>(SocketAddr::V4(a)),
{
    lemma_byte_cap_values();
    lemma_le_roundtrip(AF_INET as nat, 2);
    lemma_be_roundtrip(a.port as nat, 2);
    lemma_be_roundtrip(a.ip as nat, 4);
    let s = v4_bytes(a);
    assert(s.take(2) =~= le_bytes(AF_INET as nat, 2));
    assert(padded(s, 16) =~= s);
    assert(s.subrange(2, 4) =~= be_bytes(a.port as nat, 2));
    assert(s.subrange(4, 8) =~= be_bytes(a.ip as nat, 4));
}

/// An IPv6 socket address written as a `sockaddr_in6` is of the IPv6 family
/// and reads back unchanged.
pub proof fn lemma_v6_roundtrip(a: SocketAddrV6)
    ensures
        family_of(v6_bytes(a)) == AF_INET6,
        v6_bytes(a).len() == SOCKADDR_IN6_SIZE,
        parse_v6(padded(v6_bytes(a), SOCKADDR_IN6_SIZE as nat)) == a,
        v6_of(v6_bytes(a)) == Ok::<SocketAddrV6, SysError>(a),
        addr_of(v6_bytes(a)) == Ok::<SocketAddr, SysError>(SocketAddr::V6(a)),
{
    lemma_byte_cap_values();
    lemma_le_roundtrip(AF_INET6 as nat, 2);
    lemma_be_roundtrip(a.port as nat, 2);
    lemma_be_roundtrip(a.flowinfo as nat, 4);
    lemma_be_roundtrip(a.ip as nat, 16);
    lemma_le_roundtrip(a.scope_id as nat, 4);
    let s = v6_bytes(a);
    assert(s.take(2) =~= le_bytes(AF_INET6 as nat, 2));
    assert(padded(s, 28) =~= s);
    assert(s.subrange(2, 4) =~= be_bytes(a.port as nat, 2));
    assert(s.subrange(4, 8) =~= be_bytes(a.flowinfo as nat, 4));
    assert(s.subrange(8, 24) =~= be_bytes(a.ip as nat, 16));
    assert(s.subrange(24, 28) =~= le_bytes(a.scope_id as nat, 4));
}

} // verus!
