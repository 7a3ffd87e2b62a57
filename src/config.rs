//! The settings the library reads, as plain values. Loading them from a file
//! is left to the program around the library.

use vstd::prelude::*;

verus! {

/// The Trojan server a client connects through.
pub struct TrojanServer {
    /// `host:port`.
    pub server: String,
    /// The password, in plain text.
    pub password: String,
    /// Whether UDP is relayed.
    pub udp: bool,
    /// The server name sent in the TLS handshake.
    pub sni: String,
    /// Whether the server's certificate goes unchecked.
    pub skip_cert_verify: bool,
}

/// The Trojan settings of a server.
pub struct Trojan {
    /// The passwords, in plain text.
    pub password: Vec<String>,
    /// `host:port` of the HTTP server that rejected connections go to; empty
    /// for the built-in one.
    pub fallback: String,
}

/// The TLS settings of a server.
pub struct Tls {
    pub listen: String,
    pub tcp_nodelay: bool,
    /// The server names to answer for; empty for the certificate's names.
    pub sni: Vec<String>,
    /// Path of the certificate chain.
    pub cert: String,
    /// Path of the private key.
    pub key: String,
}

/// The outbound settings of a server.
pub struct Outbound {
    /// Whether local addresses are blocked.
    pub block_local: bool,
}

/// The remote credential store.
pub struct Redis {
    /// `host:port`.
    pub server: String,
}

/// Where a client listens unless configured otherwise.
pub fn default_bind() -> (r: String)
    ensures
        r@ == "127.0.0.1:1080"@,
{
    String::from_str("127.0.0.1:1080")
}

/// Where a server listens unless configured otherwise.
pub fn default_listen() -> (r: String)
    ensures
        r@ == "0.0.0.0:443"@,
{
    String::from_str("0.0.0.0:443")
}

/// Where the remote credential store is unless configured otherwise.
pub fn default_redis() -> (r: String)
    ensures
        r@ == "127.0.0.1:6379"@,
{
    String::from_str("127.0.0.1:6379")
}

} // verus!
