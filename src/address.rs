//! Destination addresses and their wire form: a type byte (1 for IPv4, 3 for a
//! domain, 4 for IPv6), the address (a domain with a one-byte length before
//! it), and a big-endian port.

use vstd::prelude::*;
use vstd::utf8::*;

verus! {

/// An IP address with a port.
#[derive(Clone, Copy, Debug, PartialEq, Eq)]
pub enum SocketAddr {
    V4([u8; 4], u16),
    V6([u8; 16], u16),
}

/// A domain name with a port.
#[derive(Clone, Debug, PartialEq, Eq)]
pub struct AddressDomain(pub String, pub u16);

/// Where a connection or a datagram is going.
#[derive(Clone, Debug, PartialEq, Eq)]
pub enum Address {
    Domain(AddressDomain),
    SocketAddr(SocketAddr),
}

/// What an address is, as plain values.
pub enum AddrView {
    V4(Seq<u8>, u16),
    V6(Seq<u8>, u16),
    Domain(Seq<char>, u16),
}

impl View for SocketAddr {
    type V = AddrView;

    open spec fn view(&self) -> AddrView {
        match *self {
            SocketAddr::V4(ip, port) => AddrView::V4(ip@, port),
            SocketAddr::V6(ip, port) => AddrView::V6(ip@, port),
        }
    }
}

impl View for Address {
    type V = AddrView;

    open spec fn view(&self) -> AddrView {
        match *self {
            Address::Domain(AddressDomain(name, port)) => AddrView::Domain(name@, port),
            Address::SocketAddr(s) => s@,
        }
    }
}

/// A port as two big-endian bytes.
pub open spec fn be16(v: u16) -> Seq<u8> {
    seq![(v / 256) as u8, (v % 256) as u8]
}

/// The big-endian integer in bytes `i` and `i + 1` of `b`.
pub open spec fn be16_at(b: Seq<u8>, i: int) -> u16 {
    (b[i] * 256 + b[i + 1]) as u16
}

/// An address can be written when its domain, if any, takes under 256 bytes.
pub open spec fn encodable(a: AddrView) -> bool {
    match a {
        AddrView::Domain(name, _) => encode_utf8(name).len() < 256,
        AddrView::V4(ip, _) => ip.len() == 4,
        AddrView::V6(ip, _) => ip.len() == 16,
    }
}

/// The wire form of an address.
pub open spec fn address_bytes(a: AddrView) -> Seq<u8> {
    match a {
        AddrView::V4(ip, port) => seq![1u8] + ip + be16(port),
        AddrView::V6(ip, port) => seq![4u8] + ip + be16(port),
        AddrView::Domain(name, port) => seq![3u8, encode_utf8(name).len() as u8] + encode_utf8(
            name,
        ) + be16(port),
    }
}

/// The address at the front of `b` and the number of bytes it takes, if `b`
/// starts with a whole, well-formed one.
pub open spec fn parse_address(b: Seq<u8>) -> Option<(AddrView, int)> {
    if b.len() >= 7 && b[0] == 1 {
        Some((AddrView::V4(b.subrange(1, 5), be16_at(b, 5)), 7))
    } else if b.len() >= 19 && b[0] == 4 {
        Some((AddrView::V6(b.subrange(1, 17), be16_at(b, 17)), 19))
    } else if b.len() >= 2 && b[0] == 3 && b.len() >= 4 + b[1] && valid_utf8(
        b.subrange(2, 2 + b[1]),
    ) {
        Some((AddrView::Domain(decode_utf8(b.subrange(2, 2 + b[1])), be16_at(b, 2 + b[1])), 4 + b[1]))
    } else {
        None
    }
}

/// Why an address could not be written.
#[derive(Clone, Copy, Debug, PartialEq, Eq)]
pub enum AddressError {
    DomainTooLong,
}

/// Relies on `String::from_utf8`: it accepts exactly the valid UTF-8 byte
/// strings, and the string it returns holds the characters they encode.
#[verifier::external_body]
pub(crate) fn string_from_utf8(bytes: Vec<u8>) -> (r: Option<String>)
    ensures
        r is Some <==> valid_utf8(bytes@),
        r matches Some(s) ==> s@ == decode_utf8(bytes@),
{
    String::from_utf8(bytes).ok()
}

fn push_be16(out: &mut Vec<u8>, v: u16)
    ensures
        final(out)@ == old(out)@ + be16(v),
{
    out.push((v / 256) as u8);
    out.push((v % 256) as u8);
}

fn read_be16(b: &[u8], i: usize) -> (r: u16)
    requires
        i + 1 < b@.len(),
    ensures
        r == be16_at(b@, i as int),
{
    (b[i] as u16) * 256 + b[i + 1] as u16
}

fn push_all(out: &mut Vec<u8>, b: &[u8])
    ensures
        final(out)@ == old(out)@ + b@,
{
    let mut i: usize = 0;
    while i < b.len()
        invariant
            i <= b@.len(),
            out@ == old(out)@ + b@.subrange(0, i as int),
        decreases b@.len() - i,
    {
        proof {
            assert(b@.subrange(0, i + 1) == b@.subrange(0, i as int).push(b@[i as int]));
        }
        out.push(b[i]);
        i = i + 1;
    }
    proof {
        assert(b@.subrange(0, b@.len() as int) == b@);
    }
}

/// The bytes `b[from..to]` as a vector.
pub fn copy_range(b: &[u8], from: usize, to: usize) -> (r: Vec<u8>)
    requires
        from <= to <= b@.len(),
    ensures
        r@ == b@.subrange(from as int, to as int),
{
    let mut out: Vec<u8> = Vec::new();
    let mut i: usize = from;
    while i < to
        invariant
            from <= i <= to,
            to <= b@.len(),
            out@ == b@.subrange(from as int, i as int),
        decreases to - i,
    {
        proof {
            assert(b@.subrange(from as int, i + 1) == b@.subrange(from as int, i as int).push(
                b@[i as int],
            ));
        }
        out.push(b[i]);
        i = i + 1;
    }
    out
}

impl SocketAddr {
    /// Appends the wire form of this address to `out`.
    pub fn write_to(&self, out: &mut Vec<u8>)
        ensures
            final(out)@ == old(out)@ + address_bytes(self@),
    {
        match self {
            SocketAddr::V4(ip, port) => {
                out.push(1u8);
                push_all(out, ip.as_slice());
                push_be16(out, *port);
            },
            SocketAddr::V6(ip, port) => {
                out.push(4u8);
                push_all(out, ip.as_slice());
                push_be16(out, *port);
            },
        }
        proof {
            match self {
                SocketAddr::V4(ip, port) => {
                    assert(final(out)@ == old(out)@ + (seq![1u8] + ip@ + be16(*port)));
                },
                SocketAddr::V6(ip, port) => {
                    assert(final(out)@ == old(out)@ + (seq![4u8] + ip@ + be16(*port)));
                },
            }
        }
    }
}

impl Address {
    /// Appends the wire form of this address to `out`, unless it holds a
    /// domain of 256 bytes or more; then `out` stays as it was.
    pub fn write_to(&self, out: &mut Vec<u8>) -> (r: Result<(), AddressError>)
        ensures
            encodable(self@) ==> r is Ok && final(out)@ == old(out)@ + address_bytes(self@),
            !encodable(self@) ==> r == Err::<(), _>(AddressError::DomainTooLong) && final(out)@
                == old(out)@,
    {
        match self {
            Address::SocketAddr(s) => {
                s.write_to(out);
                Ok(())
            },
            Address::Domain(AddressDomain(name, port)) => {
                let bytes = name.as_str().as_bytes();
                if bytes.len() >= 256 {
                    return Err(AddressError::DomainTooLong);
                }
                out.push(3u8);
                out.push(bytes.len() as u8);
                push_all(out, bytes);
                push_be16(out, *port);
                proof {
                    assert(final(out)@ == old(out)@ + (seq![3u8, bytes@.len() as u8] + bytes@
                        + be16(*port)));
                }
                Ok(())
            },
        }
    }

    /// Whether the address can be written: a domain must take under 256 bytes.
    pub fn is_encodable(&self) -> (r: bool)
        ensures
            r == encodable(self@),
    {
        match self {
            Address::SocketAddr(_) => true,
            Address::Domain(AddressDomain(name, _)) => name.as_str().as_bytes().len() < 256,
        }
    }

    /// The address at the front of `b`, with the number of bytes it takes.
    pub fn read_from(b: &[u8]) -> (r: Option<(Address, usize)>)
        ensures
            match parse_address(b@) {
                None => r is None,
                Some((v, n)) => r matches Some((a, m)) && a@ == v && m == n,
            },
    {
        if b.len() >= 7 && b[0] == 1 {
            let ip: [u8; 4] = [b[1], b[2], b[3], b[4]];
            proof {
                assert(ip@ == b@.subrange(1, 5));
            }
            Some((Address::SocketAddr(SocketAddr::V4(ip, read_be16(b, 5))), 7))
        } else if b.len() >= 19 && b[0] == 4 {
            let ip: [u8; 16] = [
                b[1],
                b[2],
                b[3],
                b[4],
                b[5],
                b[6],
                b[7],
                b[8],
                b[9],
                b[10],
                b[11],
                b[12],
                b[13],
                b[14],
                b[15],
                b[16],
            ];
            proof {
                assert(ip@ == b@.subrange(1, 17));
            }
            Some((Address::SocketAddr(SocketAddr::V6(ip, read_be16(b, 17))), 19))
        } else if b.len() >= 2 && b[0] == 3 && b.len() >= 4 + b[1] as usize {
            let len = b[1] as usize;
            let name = copy_range(b, 2, 2 + len);
            match string_from_utf8(name) {
                Some(s) => Some(
                    (Address::Domain(AddressDomain(s, read_be16(b, 2 + len))), 4 + len),
                ),
                None => None,
            }
        } else {
            None
        }
    }

    /// The IP address and port, when this is not a domain.
    pub fn socket_addr(&self) -> (r: Option<SocketAddr>)
        ensures
            match self {
                Address::SocketAddr(s) => r == Some(*s),
                Address::Domain(_) => r is None,
            },
    {
        match self {
            Address::SocketAddr(s) => Some(*s),
            Address::Domain(_) => None,
        }
    }
}

/// Writing an address and reading it back gives the same address, and the
/// reader stops where the address ends.
pub proof fn lemma_address_round_trip(a: AddrView, rest: Seq<u8>)
    requires
        encodable(a),
    ensures
        parse_address(address_bytes(a) + rest) == Some((a, address_bytes(a).len() as int)),
{
    let b = address_bytes(a) + rest;
    match a {
        AddrView::V4(ip, port) => {
            assert(b.subrange(1, 5) == ip);
            assert(be16_at(b, 5) == port);
        },
        AddrView::V6(ip, port) => {
            assert(b.subrange(1, 17) == ip);
            assert(be16_at(b, 17) == port);
        },
        AddrView::Domain(name, port) => {
            let e = encode_utf8(name);
            assert(b[1] == e.len());
            assert(b.subrange(2, 2 + b[1]) == e);
            encode_utf8_valid_utf8(name);
            encode_utf8_decode_utf8(name);
            assert(be16_at(b, 2 + b[1]) == port);
        },
    }
}

} // verus!
