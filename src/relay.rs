//! Relay policy: the fallback that rejected peers are handed to, the idle
//! limits, and what a UDP tunnel does on each event.

use vstd::prelude::*;
use vstd::string::StrSliceExecFns;

verus! {

/// A TCP tunnel closes after this many seconds without a read.
pub const TCP_IDLE_TIMEOUT_SECS: u64 = 600;

/// A UDP tunnel closes after this many seconds without traffic.
pub const FULL_CONE_TIMEOUT_SECS: u64 = 30;

/// Where rejected connections go: an HTTP server at `target`, or, when
/// `target` is empty, the built-in responder.
pub struct FallbackAcceptor {
    target: String,
}

impl FallbackAcceptor {
    pub closed spec fn target(&self) -> Seq<char> {
        self.target@
    }

    pub fn new(target: String) -> (r: FallbackAcceptor)
        ensures
            r.target() == target@,
    {
        FallbackAcceptor { target }
    }

    /// Whether the built-in responder answers.
    pub fn uses_builtin(&self) -> (r: bool)
        ensures
            r == (self.target().len() == 0),
    {
        self.target.as_str().is_empty()
    }

    /// The server rejected connections are spliced to.
    pub fn target_addr(&self) -> (r: &str)
        ensures
            r@ == self.target(),
    {
        self.target.as_str()
    }
}

/// The status the built-in responder gives a request with this method: 404
/// to a GET, 405 to anything else.
pub fn builtin_status(method: &str) -> (r: u16)
    ensures
        r == if method@ == seq!['G', 'E', 'T'] {
            404u16
        } else {
            405u16
        },
{
    if method.unicode_len() == 3 && method.get_char(0) == 'G' && method.get_char(1) == 'E'
        && method.get_char(2) == 'T' {
        assert(method@ =~= seq!['G', 'E', 'T']);
        404
    } else {
        405
    }
}

/// Something that happened on a UDP tunnel.
#[derive(Clone, Copy, Debug, PartialEq, Eq)]
pub enum UdpEvent {
    /// A frame came from the client.
    ClientFrame,
    /// The client's stream ended.
    ClientClosed,
    /// The client's stream held something that is not a frame, or a frame
    /// too large.
    ClientBadFrame,
    /// Sending a datagram to its destination failed.
    TargetSendFailed,
    /// A datagram came from a destination.
    TargetDatagram,
    /// Receiving from the UDP socket failed.
    TargetReceiveFailed,
    /// Writing a frame to the client failed.
    ClientWriteFailed,
    /// Nothing happened for `FULL_CONE_TIMEOUT_SECS`.
    IdleTimeout,
}

/// What the tunnel does about it.
#[derive(Clone, Copy, Debug, PartialEq, Eq)]
pub enum UdpAction {
    /// Send the frame's payload to its address.
    SendToTarget,
    /// Frame the datagram and write it to the client.
    SendToClient,
    /// Note it and go on.
    Continue,
    /// Close the tunnel, both ways.
    Close,
}

/// A tunnel forwards what comes from either side, shrugs off failures of
/// single datagrams, and closes when the client goes away, sends garbage,
/// cannot be written to, or the tunnel idles.
pub fn udp_relay_step(event: UdpEvent) -> (r: UdpAction)
    ensures
        r == match event {
            UdpEvent::ClientFrame => UdpAction::SendToTarget,
            UdpEvent::TargetDatagram => UdpAction::SendToClient,
            UdpEvent::TargetSendFailed => UdpAction::Continue,
            UdpEvent::TargetReceiveFailed => UdpAction::Continue,
            UdpEvent::ClientClosed => UdpAction::Close,
            UdpEvent::ClientBadFrame => UdpAction::Close,
            UdpEvent::ClientWriteFailed => UdpAction::Close,
            UdpEvent::IdleTimeout => UdpAction::Close,
        },
{
    match event {
        UdpEvent::ClientFrame => UdpAction::SendToTarget,
        UdpEvent::TargetDatagram => UdpAction::SendToClient,
        UdpEvent::TargetSendFailed => UdpAction::Continue,
        UdpEvent::TargetReceiveFailed => UdpAction::Continue,
        UdpEvent::ClientClosed => UdpAction::Close,
        UdpEvent::ClientBadFrame => UdpAction::Close,
        UdpEvent::ClientWriteFailed => UdpAction::Close,
        UdpEvent::IdleTimeout => UdpAction::Close,
    }
}

} // verus!
