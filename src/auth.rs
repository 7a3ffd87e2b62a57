//! Credentials and the static authenticator.
//!
//! A credential is the lower-case hex of the SHA-224 digest of a password's
//! UTF-8 bytes: 56 characters.

use sha2::Digest;
use vstd::prelude::*;
use vstd::utf8::{encode_utf8, encode_utf8_decode_utf8};

verus! {

/// The SHA-224 digest of `data`.
pub uninterp spec fn sha224_of(data: Seq<u8>) -> Seq<u8>;

/// The hex digit for `v`, below 16, in lower case.
pub open spec fn hex_digit_char(v: int) -> char {
    seq!['0', '1', '2', '3', '4', '5', '6', '7', '8', '9', 'a', 'b', 'c', 'd', 'e', 'f'][v]
}

/// Two lower-case hex digits per byte, the high half first.
pub open spec fn hex_lower(b: Seq<u8>) -> Seq<char> {
    Seq::new(
        2 * b.len(),
        |i: int|
            if i % 2 == 0 {
                hex_digit_char(b[i / 2] as int / 16)
            } else {
                hex_digit_char(b[i / 2] as int % 16)
            },
    )
}

/// The credential of a password.
pub open spec fn credential_of(password: Seq<char>) -> Seq<char> {
    hex_lower(sha224_of(encode_utf8(password)))
}

/// Relies on sha2's `Sha224::digest`: the digest of the bytes, which is 28
/// bytes long.
#[verifier::external_body]
fn sha224(data: &[u8]) -> (r: Vec<u8>)
    ensures
        r@ == sha224_of(data@),
        r@.len() == 28,
{
    sha2::Sha224::digest(data).to_vec()
}

/// Relies on `hex::encode`: two lower-case hex digits per byte, the high half
/// first.
#[verifier::external_body]
fn to_hex(data: &[u8]) -> (r: String)
    ensures
        r@ == hex_lower(data@),
{
    hex::encode(data)
}

/// The credential of `password`.
pub fn credential(password: &str) -> (r: String)
    ensures
        r@ == credential_of(password@),
        r@.len() == 56,
{
    let digest = sha224(password.as_bytes());
    to_hex(digest.as_slice())
}

proof fn lemma_or_xor_zero(d: u8, x: u8, y: u8)
    ensures
        (d | (x ^ y)) == 0 <==> (d == 0 && x == y),
{
    assert((d | (x ^ y)) == 0 <==> (d == 0 && x == y)) by (bit_vector);
}

/// Whether `a` and `b` hold the same bytes; for equal lengths it looks at
/// every byte whatever the others hold.
fn same_bytes(a: &[u8], b: &[u8]) -> (r: bool)
    ensures
        r == (a@ == b@),
{
    if a.len() != b.len() {
        return false;
    }
    let mut diff: u8 = 0;
    let mut i: usize = 0;
    while i < a.len()
        invariant
            i <= a@.len(),
            a@.len() == b@.len(),
            diff == 0 <==> forall|j: int| 0 <= j < i ==> a@[j] == b@[j],
        decreases a@.len() - i,
    {
        proof {
            lemma_or_xor_zero(diff, a@[i as int], b@[i as int]);
        }
        diff = diff | (a[i] ^ b[i]);
        i = i + 1;
    }
    proof {
        if diff == 0 {
            assert(a@ == b@);
        }
    }
    diff == 0
}

/// Two strings with the same UTF-8 bytes are the same string.
proof fn lemma_utf8_injective(x: Seq<char>, y: Seq<char>)
    requires
        encode_utf8(x) == encode_utf8(y),
    ensures
        x == y,
{
    encode_utf8_decode_utf8(x);
    encode_utf8_decode_utf8(y);
}

/// The credentials derived from passwords given in the configuration.
#[derive(Clone)]
pub struct ConfigAuthenticator {
    store: Vec<String>,
}

impl ConfigAuthenticator {
    /// The credentials it accepts.
    pub closed spec fn credentials(&self) -> Seq<Seq<char>> {
        self.store@.map_values(|s: String| s@)
    }

    pub fn new(passwords: Vec<String>) -> (r: ConfigAuthenticator)
        ensures
            r.credentials().len() == passwords@.len(),
            forall|i: int|
                0 <= i < passwords@.len() ==> #[trigger] r.credentials()[i] == credential_of(
                    passwords@[i]@,
                ) && r.credentials()[i].len() == 56,
    {
        let mut store: Vec<String> = Vec::new();
        let mut i: usize = 0;
        while i < passwords.len()
            invariant
                i <= passwords@.len(),
                store@.len() == i,
                forall|k: int|
                    0 <= k < i ==> #[trigger] store@[k]@ == credential_of(passwords@[k]@) && store@[k]@.len()
                        == 56,
            decreases passwords@.len() - i,
        {
            let c = credential(passwords[i].as_str());
            store.push(c);
            i = i + 1;
        }
        ConfigAuthenticator { store }
    }

    /// Whether `credential` is one of the credentials.
    pub fn auth(&self, credential: &str) -> (r: bool)
        ensures
            r == self.credentials().contains(credential@),
    {
        let mut found = false;
        let mut i: usize = 0;
        while i < self.store.len()
            invariant
                i <= self.store@.len(),
                found == exists|j: int| 0 <= j < i && #[trigger] self.store@[j]@ == credential@,
            decreases self.store@.len() - i,
        {
            let same = same_bytes(self.store[i].as_str().as_bytes(), credential.as_bytes());
            proof {
                if same {
                    lemma_utf8_injective(self.store@[i as int]@, credential@);
                }
            }
            found = found || same;
            i = i + 1;
        }
        proof {
            let creds = self.credentials();
            if found {
                let j = choose|j: int| 0 <= j < i && #[trigger] self.store@[j]@ == credential@;
                assert(creds[j] == credential@);
            } else {
                assert forall|j: int| 0 <= j < creds.len() implies creds[j] != credential@ by {
                    assert(self.store@[j]@ != credential@);
                }
            }
        }
        found
    }
}

/// What the composite authenticator does next about a credential.
#[derive(Clone, Copy, Debug, PartialEq, Eq)]
pub enum AuthStep {
    /// The credential is known.
    Accepted,
    /// Ask the remote store.
    AskRemote,
    /// The credential is unknown.
    Rejected,
}

/// Where a traffic record goes.
#[derive(Clone, Copy, Debug, PartialEq, Eq)]
pub enum StatStep {
    /// To the static store, which keeps no records.
    Local,
    /// Ask the remote store whether it knows the credential.
    AskRemote,
    /// To the remote store.
    Remote,
    /// Nobody knows the credential.
    UserNotFound,
}

/// The static store, tried first, and whether a remote store is behind it.
pub struct AuthHub {
    config_auth: ConfigAuthenticator,
    has_remote: bool,
}

impl AuthHub {
    pub closed spec fn credentials(&self) -> Seq<Seq<char>> {
        self.config_auth.credentials()
    }

    pub closed spec fn has_remote(&self) -> bool {
        self.has_remote
    }

    pub fn new(config_auth: ConfigAuthenticator, has_remote: bool) -> (r: AuthHub)
        ensures
            r.credentials() == config_auth.credentials(),
            r.has_remote() == has_remote,
    {
        AuthHub { config_auth, has_remote }
    }

    /// A credential is accepted if some store knows it: the static one first.
    pub fn auth(&self, credential: &str) -> (r: AuthStep)
        ensures
            r == if self.credentials().contains(credential@) {
                AuthStep::Accepted
            } else if self.has_remote() {
                AuthStep::AskRemote
            } else {
                AuthStep::Rejected
            },
    {
        if self.config_auth.auth(credential) {
            AuthStep::Accepted
        } else if self.has_remote {
            AuthStep::AskRemote
        } else {
            AuthStep::Rejected
        }
    }

    /// A traffic record goes to the first store that knows the credential.
    pub fn stat(&self, credential: &str) -> (r: StatStep)
        ensures
            r == if self.credentials().contains(credential@) {
                StatStep::Local
            } else if self.has_remote() {
                StatStep::AskRemote
            } else {
                StatStep::UserNotFound
            },
    {
        if self.config_auth.auth(credential) {
            StatStep::Local
        } else if self.has_remote {
            StatStep::AskRemote
        } else {
            StatStep::UserNotFound
        }
    }

    /// After `AskRemote`: whether the remote store knew the credential.
    pub fn stat_after_remote(known: bool) -> (r: StatStep)
        ensures
            r == if known {
                StatStep::Remote
            } else {
                StatStep::UserNotFound
            },
    {
        if known {
            StatStep::Remote
        } else {
            StatStep::UserNotFound
        }
    }
}

} // verus!
