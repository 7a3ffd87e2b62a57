//! The SOCKS5 front end of client mode: the decisions on a command request,
//! and the UDP datagrams `RSV(2) | FRAG(1) | ATYP | address | port | payload`.

use crate::address::{
    address_bytes, copy_range, encodable, parse_address, AddrView, Address, SocketAddr,
};
use vstd::prelude::*;

verus! {

/// Why a SOCKS5 datagram could not be read or written.
#[derive(Clone, Copy, Debug, PartialEq, Eq)]
pub enum Socks5Error {
    /// Shorter than the three header bytes.
    Truncated,
    /// The reserved bytes or the fragment number are not zero.
    BadHeader,
    /// No whole, well-formed address follows the header.
    BadAddress,
    /// The address is a domain, where an IP address is needed.
    UnsupportedAddress,
    /// A domain of 256 bytes or more cannot be written.
    DomainTooLong,
    /// No datagram has come from the client yet, so there is nowhere to send.
    NoEndpoint,
}

/// What the front of a datagram holds: the address, and where the payload
/// starts.
pub open spec fn parse_datagram(b: Seq<u8>) -> Result<(AddrView, int), Socks5Error> {
    if b.len() < 3 {
        Err(Socks5Error::Truncated)
    } else if b[0] != 0 || b[1] != 0 || b[2] != 0 {
        Err(Socks5Error::BadHeader)
    } else {
        match parse_address(b.subrange(3, b.len() as int)) {
            Some((a, n)) => Ok((a, 3 + n)),
            None => Err(Socks5Error::BadAddress),
        }
    }
}

/// The address of a datagram and its payload.
pub fn parse_udp(buf: &[u8]) -> (r: Result<(Address, &[u8]), Socks5Error>)
    ensures
        match parse_datagram(buf@) {
            Ok((a, start)) => r matches Ok((addr, payload)) && addr@ == a && payload@ == buf@.subrange(
                start,
                buf@.len() as int,
            ),
            Err(e) => r == Err::<(Address, &[u8]), _>(e),
        },
{
    if buf.len() < 3 {
        return Err(Socks5Error::Truncated);
    }
    if buf[0] != 0 || buf[1] != 0 || buf[2] != 0 {
        return Err(Socks5Error::BadHeader);
    }
    match Address::read_from(&buf[3..buf.len()]) {
        Some((addr, used)) => Ok((addr, &buf[3 + used..buf.len()])),
        None => Err(Socks5Error::BadAddress),
    }
}

/// A datagram to or from `addr` with payload `buf`.
pub fn pack_udp(addr: Address, buf: &[u8]) -> (r: Result<Vec<u8>, Socks5Error>)
    ensures
        encodable(addr@) ==> (r matches Ok(v) && v@ == seq![0u8, 0u8, 0u8] + address_bytes(addr@)
            + buf@),
        !encodable(addr@) ==> r == Err::<Vec<u8>, _>(Socks5Error::DomainTooLong),
{
    let mut out: Vec<u8> = Vec::new();
    out.push(0u8);
    out.push(0u8);
    out.push(0u8);
    match addr.write_to(&mut out) {
        Ok(()) => {},
        Err(_) => {
            return Err(Socks5Error::DomainTooLong);
        },
    }
    let payload = copy_range(buf, 0, buf.len());
    proof {
        assert(buf@.subrange(0, buf@.len() as int) == buf@);
    }
    let mut payload = payload;
    out.append(&mut payload);
    Ok(out)
}

/// A datagram written by `pack_udp` reads back as the same address and
/// payload.
pub proof fn lemma_datagram_round_trip(a: AddrView, payload: Seq<u8>)
    requires
        encodable(a),
    ensures
        parse_datagram(seq![0u8, 0u8, 0u8] + address_bytes(a) + payload) == Ok::<_, Socks5Error>(
            (a, 3 + address_bytes(a).len() as int),
        ),
{
    let b = seq![0u8, 0u8, 0u8] + address_bytes(a) + payload;
    assert(b.subrange(3, b.len() as int) == address_bytes(a) + payload);
    crate::address::lemma_address_round_trip(a, payload);
}

/// The UDP socket of a UDP association and the TCP connection that keeps the
/// association alive. The first datagram's source becomes the client's
/// endpoint; replies go there.
pub struct Socks5UdpSocket<U, T> {
    udp: U,
    _tcp: T,
    endpoint: Option<SocketAddr>,
}

impl<U, T> Socks5UdpSocket<U, T> {
    pub closed spec fn endpoint(&self) -> Option<SocketAddr> {
        self.endpoint
    }

    pub closed spec fn udp(&self) -> U {
        self.udp
    }

    pub fn new(udp: U, tcp: T) -> (r: Self)
        ensures
            r.endpoint() is None,
            r.udp() == udp,
    {
        Socks5UdpSocket { udp, _tcp: tcp, endpoint: None }
    }

    /// The UDP socket, to receive from or send on.
    pub fn udp_mut(&mut self) -> (r: &mut U)
        ensures
            *r == old(self).udp(),
            final(self).udp() == *final(r),
            final(self).endpoint() == old(self).endpoint(),
    {
        &mut self.udp
    }

    /// A datagram came from `from`: where it goes, and its payload. The first
    /// sender is taken as the client's endpoint, whatever the datagram holds.
    pub fn receive(&mut self, from: SocketAddr, datagram: &[u8]) -> (r: Result<
        (SocketAddr, Vec<u8>),
        Socks5Error,
    >)
        ensures
            final(self).udp() == old(self).udp(),
            final(self).endpoint() == match old(self).endpoint() {
                Some(e) => Some(e),
                None => Some(from),
            },
            match parse_datagram(datagram@) {
                Err(e) => r == Err::<(SocketAddr, Vec<u8>), _>(e),
                Ok((AddrView::Domain(_, _), _)) => r == Err::<(SocketAddr, Vec<u8>), _>(
                    Socks5Error::UnsupportedAddress,
                ),
                Ok((a, start)) => r matches Ok((to, payload)) && to@ == a && payload@
                    == datagram@.subrange(start, datagram@.len() as int),
            },
    {
        if self.endpoint.is_none() {
            self.endpoint = Some(from);
        }
        let (addr, payload) = parse_udp(datagram)?;
        match addr {
            Address::SocketAddr(to) => {
                let bytes = copy_range(payload, 0, payload.len());
                proof {
                    assert(payload@.subrange(0, payload@.len() as int) == payload@);
                }
                Ok((to, bytes))
            },
            Address::Domain(_) => Err(Socks5Error::UnsupportedAddress),
        }
    }

    /// The datagram that carries `payload`, from `from`, back to the client,
    /// and the client's endpoint.
    pub fn reply(&self, payload: &[u8], from: SocketAddr) -> (r: Result<
        (Vec<u8>, SocketAddr),
        Socks5Error,
    >)
        ensures
            match self.endpoint() {
                None => r == Err::<(Vec<u8>, SocketAddr), _>(Socks5Error::NoEndpoint),
                Some(e) => r matches Ok((d, to)) && to == e && d@ == seq![0u8, 0u8, 0u8]
                    + address_bytes(from@) + payload@,
            },
    {
        match self.endpoint {
            None => Err(Socks5Error::NoEndpoint),
            Some(e) => {
                let d = pack_udp(Address::SocketAddr(from), payload)?;
                Ok((d, e))
            },
        }
    }
}

/// A SOCKS5 command.
#[derive(Clone, Copy, Debug, PartialEq, Eq)]
pub enum Socks5Command {
    Connect,
    Bind,
    UdpAssociate,
}

/// The SOCKS5 reply code for a command that is not supported.
pub const COMMAND_NOT_SUPPORTED: u8 = 7;

/// What to do with a command request.
#[derive(Debug)]
pub enum Socks5Plan {
    /// Reply success with `0.0.0.0:0`, then relay to the address.
    Connect(Address),
    /// Bind a UDP socket to this address, reply success with its port, then
    /// relay datagrams.
    UdpAssociate(SocketAddr),
    /// Reply with this code, then close.
    Refuse(u8),
    /// Close without a reply.
    Close,
}

/// `0.0.0.0:0`.
pub fn unspecified_v4() -> (r: SocketAddr)
    ensures
        r == SocketAddr::V4([0u8, 0u8, 0u8, 0u8], 0),
{
    SocketAddr::V4([0, 0, 0, 0], 0)
}

/// Decides on a command request to `addr`.
pub fn plan(cmd: Socks5Command, addr: Address) -> (r: Socks5Plan)
    ensures
        cmd == Socks5Command::Connect ==> r == Socks5Plan::Connect(addr),
        cmd == Socks5Command::Bind ==> r == Socks5Plan::Refuse(COMMAND_NOT_SUPPORTED),
        cmd == Socks5Command::UdpAssociate ==> match addr {
            Address::SocketAddr(SocketAddr::V4(_, _)) => r == Socks5Plan::UdpAssociate(
                SocketAddr::V4([0u8, 0u8, 0u8, 0u8], 0),
            ),
            Address::SocketAddr(SocketAddr::V6(_, _)) => r matches Socks5Plan::UdpAssociate(
                SocketAddr::V6(ip, 0),
            ) && ip@ == Seq::new(16, |i: int| 0u8),
            Address::Domain(_) => r == Socks5Plan::Close,
        },
{
    match cmd {
        Socks5Command::Connect => Socks5Plan::Connect(addr),
        Socks5Command::Bind => Socks5Plan::Refuse(COMMAND_NOT_SUPPORTED),
        Socks5Command::UdpAssociate => match addr {
            Address::SocketAddr(SocketAddr::V4(_, _)) => Socks5Plan::UdpAssociate(unspecified_v4()),
            Address::SocketAddr(SocketAddr::V6(_, _)) => {
                let ip: [u8; 16] = [0, 0, 0, 0, 0, 0, 0, 0, 0, 0, 0, 0, 0, 0, 0, 0];
                assert(ip@ =~= Seq::new(16, |i: int| 0u8));
                Socks5Plan::UdpAssociate(SocketAddr::V6(ip, 0))
            },
            Address::Domain(_) => Socks5Plan::Close,
        },
    }
}

/// The address a UDP association's reply names: the client's own IP address
/// with the port of the socket bound for it.
pub fn udp_reply_addr(client: SocketAddr, bound_port: u16) -> (r: SocketAddr)
    ensures
        r == match client {
            SocketAddr::V4(ip, _) => SocketAddr::V4(ip, bound_port),
            SocketAddr::V6(ip, _) => SocketAddr::V6(ip, bound_port),
        },
{
    match client {
        SocketAddr::V4(ip, _) => SocketAddr::V4(ip, bound_port),
        SocketAddr::V6(ip, _) => SocketAddr::V6(ip, bound_port),
    }
}

/// The SOCKS5 listener of client mode.
pub struct Socks5Inbound {
    bind: String,
}

impl Socks5Inbound {
    pub closed spec fn bind(&self) -> Seq<char> {
        self.bind@
    }

    pub fn new(bind: String) -> (r: Socks5Inbound)
        ensures
            r.bind() == bind@,
    {
        Socks5Inbound { bind }
    }

    /// The address it listens on.
    pub fn bind_addr(&self) -> (r: &str)
        ensures
            r@ == self.bind(),
    {
        self.bind.as_str()
    }
}

} // verus!
