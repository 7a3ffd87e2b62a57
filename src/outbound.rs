//! Outbound connections: the direct connector's address policy, and the
//! client's Trojan preamble.

use crate::acl::ACL;
use crate::address::{address_bytes, encodable, Address, AddressError, SocketAddr};
use crate::auth::{credential, credential_of};
use crate::config::TrojanServer;
use vstd::prelude::*;
use vstd::utf8::encode_utf8;

verus! {

/// Why there is nothing to connect to.
#[derive(Clone, Copy, Debug, PartialEq, Eq)]
pub enum OutboundError {
    /// The name resolved to no address.
    NoAddress,
    /// Every address it resolved to is blocked.
    AclDenied,
}

/// The addresses of `resolved` that `acl` lets through, in order.
pub open spec fn allowed_by(acl: ACL, resolved: Seq<SocketAddr>) -> Seq<SocketAddr> {
    resolved.filter(|a: SocketAddr| !acl.blocks(a))
}

/// Connects to destinations directly, except those its ACL blocks.
pub struct DirectOutbound {
    acl: ACL,
}

impl DirectOutbound {
    pub closed spec fn acl(&self) -> ACL {
        self.acl
    }

    /// A connector that blocks nothing.
    pub fn new() -> (r: DirectOutbound)
        ensures
            r.acl().rules4() == Seq::<(Seq<u8>, int)>::empty(),
            r.acl().rules6() == Seq::<(Seq<u8>, int)>::empty(),
    {
        DirectOutbound { acl: ACL::new(false) }
    }

    pub fn with_acl(acl: ACL) -> (r: DirectOutbound)
        ensures
            r.acl() == acl,
    {
        DirectOutbound { acl }
    }

    /// Whether a datagram or a connection may go to `addr`.
    pub fn allows(&self, addr: SocketAddr) -> (r: bool)
        ensures
            r == !self.acl().blocks(addr),
    {
        !self.acl.has_match(addr)
    }

    /// The addresses to try, in order, for a destination that resolved to
    /// `resolved`.
    pub fn candidates(&self, resolved: &Vec<SocketAddr>) -> (r: Result<
        Vec<SocketAddr>,
        OutboundError,
    >)
        ensures
            resolved@.len() == 0 ==> r == Err::<Vec<SocketAddr>, _>(OutboundError::NoAddress),
            resolved@.len() > 0 && allowed_by(self.acl(), resolved@).len() == 0 ==> r == Err::<
                Vec<SocketAddr>,
                _,
            >(OutboundError::AclDenied),
            allowed_by(self.acl(), resolved@).len() > 0 ==> (r matches Ok(v) && v@ == allowed_by(
                self.acl(),
                resolved@,
            )),
    {
        if resolved.len() == 0 {
            proof {
                reveal(Seq::filter);
            }
            return Err(OutboundError::NoAddress);
        }
        let mut out: Vec<SocketAddr> = Vec::new();
        let mut i: usize = 0;
        while i < resolved.len()
            invariant
                i <= resolved@.len(),
                out@ == allowed_by(self.acl(), resolved@.take(i as int)),
            decreases resolved@.len() - i,
        {
            let a = resolved[i];
            proof {
                reveal(Seq::filter);
                assert(resolved@.take(i + 1).drop_last() == resolved@.take(i as int));
                assert(resolved@.take(i + 1).last() == a);
            }
            if self.allows(a) {
                out.push(a);
            }
            i = i + 1;
        }
        proof {
            assert(resolved@.take(resolved@.len() as int) == resolved@);
        }
        if out.len() == 0 {
            Err(OutboundError::AclDenied)
        } else {
            Ok(out)
        }
    }
}

/// The client's preamble: `credential | CR LF | cmd | address | CR LF`.
pub open spec fn head_bytes(credential: Seq<char>, cmd: u8, a: crate::address::AddrView) -> Seq<u8> {
    encode_utf8(credential) + seq![13u8, 10u8, cmd] + address_bytes(a) + seq![13u8, 10u8]
}

/// Connects through a Trojan server.
pub struct TrojanOutbound {
    config: TrojanServer,
    password: String,
}

impl TrojanOutbound {
    /// The credential sent in each preamble.
    pub closed spec fn credential(&self) -> Seq<char> {
        self.password@
    }

    pub closed spec fn server(&self) -> Seq<char> {
        self.config.server@
    }

    pub fn new(config: TrojanServer) -> (r: TrojanOutbound)
        ensures
            r.credential() == credential_of(config.password@),
            r.credential().len() == 56,
            r.server() == config.server@,
    {
        let password = credential(config.password.as_str());
        TrojanOutbound { config, password }
    }

    /// The settings it was made with.
    pub fn config(&self) -> (r: &TrojanServer)
        ensures
            r.server@ == self.server(),
    {
        &self.config
    }

    /// The preamble asking for `cmd` (1 to connect, 3 for UDP) to `addr`.
    pub fn make_head(&self, cmd: u8, addr: &Address) -> (r: Result<Vec<u8>, AddressError>)
        ensures
            encodable(addr@) ==> (r matches Ok(h) && h@ == head_bytes(self.credential(), cmd, addr@)),
            !encodable(addr@) ==> r == Err::<Vec<u8>, _>(AddressError::DomainTooLong),
    {
        let bytes = self.password.as_str().as_bytes();
        let mut head = crate::address::copy_range(bytes, 0, bytes.len());
        proof {
            assert(bytes@.subrange(0, bytes@.len() as int) == bytes@);
        }
        head.push(13u8);
        head.push(10u8);
        head.push(cmd);
        addr.write_to(&mut head)?;
        head.push(13u8);
        head.push(10u8);
        proof {
            assert(head@ == head_bytes(self.credential(), cmd, addr@));
        }
        Ok(head)
    }
}

/// A client's stream to a Trojan server, whose first write carries the
/// preamble and the first payload together.
pub struct TrojanTcp<S> {
    stream: S,
    head: Option<Vec<u8>>,
    is_first: bool,
}

impl<S> TrojanTcp<S> {
    /// The bytes still to go out before writes pass straight through.
    pub closed spec fn pending(&self) -> Option<Seq<u8>> {
        match self.head {
            Some(h) => Some(h@),
            None => None,
        }
    }

    /// No write has been asked for yet.
    pub closed spec fn is_first(&self) -> bool {
        self.is_first
    }

    pub closed spec fn stream(&self) -> S {
        self.stream
    }

    pub fn new(stream: S, head: Vec<u8>) -> (r: Self)
        ensures
            r.pending() == Some(head@),
            r.is_first(),
            r.stream() == stream,
    {
        TrojanTcp { stream, head: Some(head), is_first: true }
    }

    /// The stream, to write to.
    pub fn stream_mut(&mut self) -> (r: &mut S)
        ensures
            *r == old(self).stream(),
            final(self).stream() == *final(r),
            final(self).pending() == old(self).pending(),
            final(self).is_first() == old(self).is_first(),
    {
        &mut self.stream
    }

    /// Before writing `buf`: the bytes to write instead, while the preamble
    /// is not all out. The first call joins `buf` to the preamble.
    pub fn pending_write(&mut self, buf: &[u8]) -> (r: Option<Vec<u8>>)
        ensures
            final(self).stream() == old(self).stream(),
            !final(self).is_first() || old(self).pending() is None,
            match old(self).pending() {
                None => r is None && final(self).pending() is None && final(self).is_first()
                    == old(self).is_first(),
                Some(h) => {
                    let now = if old(self).is_first() {
                        h + buf@
                    } else {
                        h
                    };
                    r matches Some(v) && v@ == now && final(self).pending() == Some(now)
                },
            },
    {
        match &mut self.head {
            None => None,
            Some(head) => {
                if self.is_first {
                    let mut extra = crate::address::copy_range(buf, 0, buf.len());
                    proof {
                        assert(buf@.subrange(0, buf@.len() as int) == buf@);
                    }
                    head.append(&mut extra);
                    self.is_first = false;
                }
                let copy = crate::address::copy_range(head.as_slice(), 0, head.len());
                proof {
                    assert(head@.subrange(0, head@.len() as int) == head@);
                }
                Some(copy)
            },
        }
    }

    /// `n` bytes of the pending preamble went out. Returns whether it is now
    /// all out, which completes the write that joined it.
    pub fn head_sent(&mut self, n: usize) -> (r: bool)
        ensures
            final(self).stream() == old(self).stream(),
            final(self).is_first() == old(self).is_first(),
            match old(self).pending() {
                None => !r && final(self).pending() is None,
                Some(h) => if n >= h.len() {
                    r && final(self).pending() is None
                } else {
                    !r && final(self).pending() == Some(h.skip(n as int))
                },
            },
    {
        match &mut self.head {
            None => false,
            Some(head) => {
                if n >= head.len() {
                    self.head = None;
                    true
                } else {
                    let rest = crate::address::copy_range(head.as_slice(), n, head.len());
                    self.head = Some(rest);
                    false
                }
            },
        }
    }
}

} // verus!
