//! A Trojan proxy library: the byte formats, the handshake decisions and the
//! policies of a TLS-fronted proxy, each stated as a contract and proved.

pub mod acl;
pub mod address;
pub mod auth;
pub mod buffer;
pub mod codec;
pub mod config;
pub mod handshake;
pub mod outbound;
pub mod peekable;
pub mod relay;
pub mod socks5;
pub mod streams;
pub mod tls;
pub mod wildcard;
