//! The server side of the Trojan preamble:
//! `credential(56) | CRLF | CMD | ATYP | address | port | CRLF`.
//!
//! The handshake decides, from bytes it only peeks at, whether the peer is an
//! authenticated Trojan client. The caller does the waiting: it fills the
//! stream's buffer, asks the authenticator, and reports back. Only an accepted
//! preamble is drained; on every rejection the stream is left exactly as it
//! was, so that the fallback sees every byte the peer sent.

use crate::address::{
    address_bytes, encodable, lemma_address_round_trip, parse_address, string_from_utf8, AddrView,
    Address,
};
use crate::outbound::head_bytes;
use crate::peekable::PeekableStream;
use vstd::prelude::*;
use vstd::utf8::{
    decode_utf8, encode_utf8, encode_utf8_decode_utf8, is_ascii_chars, is_ascii_chars_encode_utf8,
    partial_valid_utf8_extend_ascii_block, valid_utf8,
};

verus! {

/// Length of the credential field.
pub const CREDENTIAL_LEN: usize = 56;

/// Offset of the command byte.
pub const CMD: usize = 58;

/// Offset of the address type byte.
pub const ATYP: usize = 59;

/// Offset of a domain's length byte.
pub const DOMAIN_LEN: usize = 60;

/// How much is peeked before anything is decided.
pub const HEAD_LEN: usize = 61;

/// What an accepted client asks for.
pub enum Cmd {
    Connect(Address),
    UdpAssociate(Address),
}

/// Why a connection goes to the fallback.
#[derive(Debug)]
pub enum Reject {
    /// The TLS server name is not one this server answers for.
    SniMismatch,
    /// The peer stopped before a whole preamble arrived.
    Incomplete,
    /// The credential field is not hex.
    NotTrojan,
    /// The authenticator does not know this credential.
    AuthFail(String),
    /// The authenticator could not be asked.
    AuthBackend,
    /// The address type is not 1, 3 or 4.
    BadAtyp,
    /// The command is neither 1 (connect) nor 3 (UDP associate).
    BadCommand,
    /// The address is not well formed: a domain that is not UTF-8, or an
    /// address that does not end, with its CR LF, within the peeked bytes.
    BadAddress,
}

/// Where a handshake stands.
pub enum Stage {
    /// Waiting for the TLS handshake.
    Tls,
    /// Waiting for `HEAD_LEN` bytes.
    Head,
    /// Waiting for the authenticator's verdict on this credential.
    Auth(String),
    /// Waiting for this many bytes, to read the request of this credential.
    Request(String, usize),
    /// Decided.
    Finished,
}

/// What the caller is to do next.
pub enum Action {
    /// Make the stream buffer at least this many bytes, then call `on_filled`
    /// (or `on_closed` if the peer stops first).
    Fill(usize),
    /// Ask the authenticator about this credential, then call `on_auth` (or
    /// `on_auth_error`).
    Authenticate(String),
    /// The preamble is accepted and drained: relay as asked.
    Accept(Cmd, String),
    /// Hand the stream, untouched, to the fallback.
    Fallback(Reject),
}

pub struct TrojanHandshake {
    stage: Stage,
}

pub open spec fn is_hex_digit(c: u8) -> bool {
    (48 <= c <= 57) || (65 <= c <= 70) || (97 <= c <= 102)
}

/// The credential field of `b` is hex.
pub open spec fn credential_is_hex(b: Seq<u8>) -> bool {
    forall|i: int| 0 <= i < CREDENTIAL_LEN ==> is_hex_digit(#[trigger] b[i])
}

/// The bytes buffered so far of the credential field are all hex: until one
/// is not, the peer may still be a Trojan client.
pub open spec fn hex_so_far(b: Seq<u8>) -> bool {
    forall|i: int| 0 <= i < b.len() && i < CREDENTIAL_LEN ==> is_hex_digit(#[trigger] b[i])
}

/// The credential of a preamble, as text.
pub open spec fn credential_text(b: Seq<u8>) -> Seq<char> {
    decode_utf8(b.subrange(0, CREDENTIAL_LEN as int))
}

/// How many bytes to peek, once the credential is accepted, to read the
/// request: by the address type, `60 + 8`, `60 + 1 + len + 2` or `60 + 18`,
/// and then the trailing CR LF. For a domain or an IPv6 address that is the
/// whole preamble; for IPv4 it is two bytes more, so an IPv4 request is read
/// once two bytes of payload have come after it.
pub open spec fn request_len(b: Seq<u8>) -> Option<int> {
    if b[ATYP as int] == 1 {
        Some(60 + 8 + 2int)
    } else if b[ATYP as int] == 3 {
        Some(60 + 1 + b[DOMAIN_LEN as int] + 2 + 2)
    } else if b[ATYP as int] == 4 {
        Some(60 + 18 + 2int)
    } else {
        None
    }
}

/// The address of the request in the first `len` bytes of `b`, and where the
/// preamble ends, if a whole address and the CR LF after it lie within them.
pub open spec fn request_address(b: Seq<u8>, len: int) -> Option<(AddrView, int)> {
    match parse_address(b.subrange(ATYP as int, len)) {
        Some((a, n)) => if ATYP + n + 2 <= len {
            Some((a, ATYP + n + 2))
        } else {
            None
        },
        None => None,
    }
}

/// The command, as plain values.
pub open spec fn cmd_view(c: Cmd) -> (u8, AddrView) {
    match c {
        Cmd::Connect(a) => (1u8, a@),
        Cmd::UdpAssociate(a) => (3u8, a@),
    }
}

/// The length of the preamble for the given head, or `BadAtyp`.
pub fn calc_length(head: &[u8]) -> (r: Result<usize, Reject>)
    requires
        head@.len() >= HEAD_LEN,
    ensures
        match request_len(head@) {
            Some(n) => r matches Ok(m) && m == n,
            None => r matches Err(Reject::BadAtyp),
        },
{
    let atyp = head[ATYP];
    if atyp == 1 {
        Ok(60 + 8 + 2)
    } else if atyp == 3 {
        Ok(60 + 1 + head[DOMAIN_LEN] as usize + 2 + 2)
    } else if atyp == 4 {
        Ok(60 + 18 + 2)
    } else {
        Err(Reject::BadAtyp)
    }
}

/// Relies on `hex::decode`: it accepts an even number of hex digits, in either
/// case, and nothing else.
#[verifier::external_body]
fn is_hex(s: &[u8]) -> (r: bool)
    ensures
        r == (s@.len() % 2 == 0 && forall|i: int| 0 <= i < s@.len() ==> is_hex_digit(#[trigger] s@[i])),
{
    hex::decode(s).is_ok()
}

proof fn lemma_hex_is_utf8(b: Seq<u8>)
    requires
        forall|i: int| 0 <= i < b.len() ==> is_hex_digit(#[trigger] b[i]),
    ensures
        valid_utf8(b),
{
    assert(b.subrange(0, 0) == Seq::<u8>::empty());
    assert forall|i: int| 0 <= 0 <= i < b.len() <= b.len() implies #[trigger] vstd::utf8::is_leading_byte_width_1(b[i]) by {
        assert(is_hex_digit(b[i]));
    }
    partial_valid_utf8_extend_ascii_block(b, 0, b.len() as int);
    assert(b.subrange(0, b.len() as int) == b);
}

impl TrojanHandshake {
    #[verifier::type_invariant]
    spec fn request_len_in_range(self) -> bool {
        self.stage matches Stage::Request(_, len) ==> HEAD_LEN <= len <= 320
    }

    pub closed spec fn stage(&self) -> Stage {
        self.stage
    }

    pub fn new() -> (r: Self)
        ensures
            r.stage() is Tls,
    {
        TrojanHandshake { stage: Stage::Tls }
    }

    /// The TLS handshake is done; `sni_matched` says whether the server name
    /// is one this server answers for.
    pub fn on_tls(&mut self, sni_matched: bool) -> (r: Action)
        ensures
            if !(old(self).stage() is Tls) {
                r matches Action::Fallback(Reject::Incomplete) && final(self).stage() is Finished
            } else if sni_matched {
                r matches Action::Fill(n) && n == HEAD_LEN && final(self).stage() is Head
            } else {
                r matches Action::Fallback(Reject::SniMismatch) && final(self).stage() is Finished
            },
    {
        match self.stage {
            Stage::Tls => {},
            _ => {
                self.stage = Stage::Finished;
                return Action::Fallback(Reject::Incomplete);
            },
        }
        if sni_matched {
            self.stage = Stage::Head;
            Action::Fill(HEAD_LEN)
        } else {
            self.stage = Stage::Finished;
            Action::Fallback(Reject::SniMismatch)
        }
    }

    /// The peer stopped, or reading failed, before the bytes asked for came.
    pub fn on_closed(&mut self) -> (r: Action)
        ensures
            r matches Action::Fallback(Reject::Incomplete),
            final(self).stage() is Finished,
    {
        self.stage = Stage::Finished;
        Action::Fallback(Reject::Incomplete)
    }

    /// The stream buffers what the last `Fill` asked for (or more, or less:
    /// while it is short, the same `Fill` comes back). Before the credential
    /// is whole, a byte of it that is not hex already sends the peer to the
    /// fallback. Called out of turn, it ends the handshake in the fallback.
    pub fn on_filled<S>(&mut self, s: &mut PeekableStream<S>) -> (r: Action)
        requires
            old(s).wf(),
        ensures
            final(s).wf(),
            !(r is Accept) ==> *final(s) == *old(s),
            old(self).stage() is Head ==> {
                let b = old(s).buffered();
                if !hex_so_far(b) {
                    r matches Action::Fallback(Reject::NotTrojan) && final(self).stage() is Finished
                } else if b.len() < HEAD_LEN {
                    r matches Action::Fill(n) && n == HEAD_LEN && final(self).stage() is Head
                } else {
                    r matches Action::Authenticate(c) && c@ == credential_text(b) && (final(self).stage() matches Stage::Auth(c2) && c2@ == c@)
                }
            },
            old(self).stage() matches Stage::Request(cred, len) ==> {
                let b = old(s).buffered();
                if b.len() < len {
                    r matches Action::Fill(n) && n == len && final(self).stage() == old(self).stage()
                } else {
                    final(self).stage() is Finished && match request_address(b, len as int) {
                        None => r matches Action::Fallback(Reject::BadAddress),
                        Some((a, end)) => if b[CMD as int] == 1 || b[CMD as int] == 3 {
                            r matches Action::Accept(c, cr) && cmd_view(c) == (b[CMD as int], a)
                                && cr@ == cred@ && final(s).buffered() == b.skip(end) && final(s).delivered() == old(s).delivered() + b.subrange(0, end) && final(s).pulled() == old(s).pulled() && final(s).inner() == old(s).inner()
                        } else {
                            r matches Action::Fallback(Reject::BadCommand)
                        },
                    }
                }
            },
            !(old(self).stage() is Head || old(self).stage() is Request) ==> (r matches Action::Fallback(
                Reject::Incomplete,
            ) && final(self).stage() is Finished),
    {
        match &self.stage {
            Stage::Head => {
                let buffered = s.buffered_len();
                let seen = if buffered < CREDENTIAL_LEN {
                    buffered
                } else {
                    CREDENTIAL_LEN
                };
                let mut field = s.peek_exact(seen);
                if seen % 2 == 1 {
                    // hex::decode takes whole bytes only; a '0' completes the last one.
                    field.push(48u8);
                }
                proof {
                    assert(forall|i: int| 0 <= i < seen ==> #[trigger] field@[i] == s.buffered()[i]);
                }
                if !is_hex(field.as_slice()) {
                    proof {
                        let i = choose|i: int|
                            0 <= i < field@.len() && !is_hex_digit(#[trigger] field@[i]);
                        assert(i < seen);
                        assert(!is_hex_digit(s.buffered()[i]));
                    }
                    self.stage = Stage::Finished;
                    return Action::Fallback(Reject::NotTrojan);
                }
                proof {
                    assert forall|i: int| 0 <= i < seen implies is_hex_digit(
                        #[trigger] s.buffered()[i],
                    ) by {
                        assert(is_hex_digit(field@[i]));
                    }
                }
                if buffered < HEAD_LEN {
                    return Action::Fill(HEAD_LEN);
                }
                proof {
                    assert(field@ == s.buffered().subrange(0, CREDENTIAL_LEN as int));
                    lemma_hex_is_utf8(field@);
                }
                match string_from_utf8(field) {
                    Some(cred) => {
                        let copy = cred.clone();
                        self.stage = Stage::Auth(cred);
                        Action::Authenticate(copy)
                    },
                    None => {
                        self.stage = Stage::Finished;
                        Action::Fallback(Reject::NotTrojan)
                    },
                }
            },
            Stage::Request(cred, len) => {
                let len = *len;
                proof {
                    use_type_invariant(&*self);
                }
                if s.buffered_len() < len {
                    return Action::Fill(len);
                }
                let cred = cred.clone();
                let peeked = s.peek_exact(len);
                let b = peeked.as_slice();
                proof {
                    assert(b@ == s.buffered().subrange(0, len as int));
                    assert(b@.subrange(ATYP as int, len as int) == s.buffered().subrange(
                        ATYP as int,
                        len as int,
                    ));
                }
                self.stage = Stage::Finished;
                let cmd = b[CMD];
                let parsed = Address::read_from(&b[ATYP..len]);
                match parsed {
                    None => Action::Fallback(Reject::BadAddress),
                    Some((address, used)) => {
                        if used > len - ATYP - 2 {
                            return Action::Fallback(Reject::BadAddress);
                        }
                        if cmd != 1 && cmd != 3 {
                            return Action::Fallback(Reject::BadCommand);
                        }
                        let end = ATYP + used + 2;
                        proof {
                            assert(b@.subrange(0, end as int) == s.buffered().subrange(0, end as int));
                        }
                        s.drain(end);
                        if cmd == 1 {
                            Action::Accept(Cmd::Connect(address), cred)
                        } else {
                            Action::Accept(Cmd::UdpAssociate(address), cred)
                        }
                    },
                }
            },
            _ => {
                self.stage = Stage::Finished;
                Action::Fallback(Reject::Incomplete)
            },
        }
    }

    /// The authenticator's verdict on the credential of the `Authenticate`.
    /// Called out of turn, it ends the handshake in the fallback.
    pub fn on_auth<S>(&mut self, s: &PeekableStream<S>, accepted: bool) -> (r: Action)
        ensures
            old(self).stage() matches Stage::Auth(cred) ==> {
                if !accepted {
                    r matches Action::Fallback(Reject::AuthFail(c)) && c@ == cred@ && final(self).stage() is Finished
                } else if s.buffered().len() < HEAD_LEN {
                    r matches Action::Fallback(Reject::Incomplete) && final(self).stage() is Finished
                } else {
                    match request_len(s.buffered()) {
                        None => r matches Action::Fallback(Reject::BadAtyp) && final(self).stage() is Finished,
                        Some(n) => r matches Action::Fill(m) && m == n && (final(self).stage() matches Stage::Request(c, m2) && c@ == cred@ && m2 == n),
                    }
                }
            },
            !(old(self).stage() is Auth) ==> (r matches Action::Fallback(Reject::Incomplete) && final(self).stage() is Finished),
    {
        let cred = match &self.stage {
            Stage::Auth(cred) => cred.clone(),
            _ => {
                self.stage = Stage::Finished;
                return Action::Fallback(Reject::Incomplete);
            },
        };
        self.stage = Stage::Finished;
        if !accepted {
            return Action::Fallback(Reject::AuthFail(cred));
        }
        if s.buffered_len() < HEAD_LEN {
            return Action::Fallback(Reject::Incomplete);
        }
        let head = s.peek_exact(HEAD_LEN);
        match calc_length(head.as_slice()) {
            Ok(len) => {
                self.stage = Stage::Request(cred, len);
                Action::Fill(len)
            },
            Err(e) => Action::Fallback(e),
        }
    }

    /// The authenticator could not be asked.
    pub fn on_auth_error(&mut self) -> (r: Action)
        ensures
            r matches Action::Fallback(Reject::AuthBackend),
            final(self).stage() is Finished,
    {
        self.stage = Stage::Finished;
        Action::Fallback(Reject::AuthBackend)
    }
}

/// A hex digit, in either case.
pub open spec fn is_hex_char(c: char) -> bool {
    ('0' <= c <= '9') || ('a' <= c <= 'f') || ('A' <= c <= 'F')
}

/// What a client writes, the server reads back: a preamble made for a hex
/// credential passes the credential check and names that credential; read
/// from as many bytes as its address type asks for, it gives the same command
/// and address, and ends where the preamble ends.
pub proof fn lemma_preamble_round_trip(credential: Seq<char>, cmd: u8, a: AddrView, rest: Seq<u8>)
    requires
        credential.len() == CREDENTIAL_LEN,
        forall|i: int| 0 <= i < credential.len() ==> is_hex_char(#[trigger] credential[i]),
        encodable(a),
        rest.len() >= 2,
    ensures
        ({
            let head = head_bytes(credential, cmd, a);
            let b = head + rest;
            &&& credential_is_hex(b)
            &&& credential_text(b) == credential
            &&& b[CMD as int] == cmd
            &&& request_len(b) matches Some(len) && len <= b.len() && request_address(b, len)
                == Some((a, head.len() as int))
        }),
{
    let head = head_bytes(credential, cmd, a);
    let b = head + rest;
    let ab = address_bytes(a);
    assert(is_ascii_chars(credential)) by {
        assert forall|i: int| 0 <= i < credential.len() implies '\0' <= #[trigger] credential[i]
            <= '\u{7f}' by {
            assert(is_hex_char(credential[i]));
        }
    }
    is_ascii_chars_encode_utf8(credential);
    let e = encode_utf8(credential);
    assert(head == e + seq![13u8, 10u8, cmd] + ab + seq![13u8, 10u8]);
    assert forall|i: int| 0 <= i < CREDENTIAL_LEN implies is_hex_digit(#[trigger] b[i]) by {
        assert(b[i] == e[i]);
        assert(e[i] == credential[i] as u8);
        assert(is_hex_char(credential[i]));
    }
    assert(b.subrange(0, CREDENTIAL_LEN as int) == e);
    encode_utf8_decode_utf8(credential);
    assert(b[CMD as int] == cmd);
    let len = request_len(b).unwrap();
    assert(b[ATYP as int] == ab[0]);
    let tail = b.subrange(ATYP + ab.len(), len);
    match a {
        AddrView::Domain(name, _) => {
            assert(b[DOMAIN_LEN as int] == ab[1]);
            assert(ab[1] == encode_utf8(name).len());
        },
        _ => {},
    }
    assert(len == ATYP + ab.len() + 2 || (ab[0] == 1 && len == ATYP + ab.len() + 4));
    assert(b.subrange(ATYP as int, len) == ab + tail);
    lemma_address_round_trip(a, tail);
}

} // verus!
