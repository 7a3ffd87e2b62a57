//! UDP datagrams carried over the Trojan stream. A frame is the destination
//! address, the payload length as two big-endian bytes, CR LF, and the
//! payload.

use crate::address::{
    address_bytes, be16, be16_at, copy_range, encodable, lemma_address_round_trip, parse_address,
    AddrView, Address,
};
use vstd::utf8::encode_utf8;
use crate::buffer::{advance, append, buffer_contents, contents};
use bytes::BytesMut;
use vstd::prelude::*;

verus! {

/// The largest payload a frame can carry.
pub const UDP_MAX_SIZE: usize = 65535;

/// The wire form of a frame.
pub open spec fn frame_bytes(a: AddrView, payload: Seq<u8>) -> Seq<u8> {
    address_bytes(a) + be16(payload.len() as u16) + seq![13u8, 10u8] + payload
}

/// How many bytes the address of a frame takes, as its first two bytes tell.
pub open spec fn frame_addr_size(b: Seq<u8>) -> Option<int> {
    if b[0] == 1 {
        Some(7)
    } else if b[0] == 3 {
        Some(4 + b[1])
    } else if b[0] == 4 {
        Some(19)
    } else {
        None
    }
}

/// What the front of a stream of frames holds.
pub enum FrameView {
    /// Not yet a whole frame.
    NeedMore,
    /// Not a frame: an unknown address type, or a domain that is not UTF-8.
    Invalid,
    /// A frame to this address with this payload, taking this many bytes.
    Frame(AddrView, Seq<u8>, int),
}

/// The frame at the front of `b`.
pub open spec fn decode_frame(b: Seq<u8>) -> FrameView {
    if b.len() < 2 {
        FrameView::NeedMore
    } else {
        match frame_addr_size(b) {
            None => FrameView::Invalid,
            Some(n) => if b.len() < n + 4 {
                FrameView::NeedMore
            } else if b.len() < n + 4 + be16_at(b, n) {
                FrameView::NeedMore
            } else {
                match parse_address(b) {
                    None => FrameView::Invalid,
                    Some((a, _)) => FrameView::Frame(
                        a,
                        b.subrange(n + 4, n + 4 + be16_at(b, n)),
                        n + 4 + be16_at(b, n),
                    ),
                }
            },
        }
    }
}

/// Why a frame could not be written or read.
#[derive(Clone, Copy, Debug, PartialEq, Eq)]
pub enum CodecError {
    /// The payload is longer than `UDP_MAX_SIZE`.
    FrameTooLarge,
    /// The address holds a domain of 256 bytes or more.
    DomainTooLong,
    /// The stream does not hold a frame.
    CodecDecode,
}

/// Writes and reads frames. A codec made with a head writes it once, before
/// the first frame: that is how a client sends its preamble.
pub struct UdpCodec(Option<Vec<u8>>);

/// A datagram: its payload and the address it goes to or came from.
pub type UdpPacket = (Vec<u8>, Address);

/// Reads the frame at the front of `b`.
fn decode_slice(b: &[u8]) -> (r: Result<Option<(Vec<u8>, Address, usize)>, CodecError>)
    ensures
        match decode_frame(b@) {
            FrameView::NeedMore => r matches Ok(None),
            FrameView::Invalid => r matches Err(CodecError::CodecDecode),
            FrameView::Frame(a, p, n) => r matches Ok(Some((payload, addr, m))) && payload@ == p
                && addr@ == a && m == n,
        },
{
    if b.len() < 2 {
        return Ok(None);
    }
    let addr_size: usize = if b[0] == 1 {
        7
    } else if b[0] == 3 {
        4 + b[1] as usize
    } else if b[0] == 4 {
        19
    } else {
        return Err(CodecError::CodecDecode);
    };
    if b.len() < addr_size + 4 {
        return Ok(None);
    }
    let length = (b[addr_size] as usize) * 256 + b[addr_size + 1] as usize;
    if b.len() < addr_size + 4 + length {
        return Ok(None);
    }
    match Address::read_from(b) {
        None => Err(CodecError::CodecDecode),
        Some((address, _)) => {
            let payload = copy_range(b, addr_size + 4, addr_size + 4 + length);
            Ok(Some((payload, address, addr_size + 4 + length)))
        },
    }
}

impl UdpCodec {
    /// The head still to be written before the next frame.
    pub closed spec fn pending_head(&self) -> Option<Seq<u8>> {
        match self.0 {
            Some(h) => Some(h@),
            None => None,
        }
    }

    pub fn new(head: Option<Vec<u8>>) -> (r: UdpCodec)
        ensures
            r.pending_head() == (match head {
                Some(h) => Some(h@),
                None => None::<Seq<u8>>,
            }),
    {
        UdpCodec(head)
    }

    /// Appends the frame for `item` to `dst`, after the pending head if there
    /// is one. On an error nothing changes.
    pub fn encode(&mut self, item: UdpPacket, dst: &mut BytesMut) -> (r: Result<(), CodecError>)
        ensures
            item.0@.len() > UDP_MAX_SIZE ==> r matches Err(CodecError::FrameTooLarge),
            item.0@.len() <= UDP_MAX_SIZE && !encodable(item.1@) ==> r matches Err(CodecError::DomainTooLong),
            r is Err ==> *final(self) == *old(self) && buffer_contents(*final(dst))
                == buffer_contents(*old(dst)),
            r is Ok <==> item.0@.len() <= UDP_MAX_SIZE && encodable(item.1@),
            r is Ok ==> final(self).pending_head() is None && buffer_contents(*final(dst))
                == buffer_contents(*old(dst)) + (match old(self).pending_head() {
                Some(h) => h,
                None => Seq::<u8>::empty(),
            }) + frame_bytes(item.1@, item.0@),
    {
        let (payload, address) = item;
        if payload.len() > UDP_MAX_SIZE {
            return Err(CodecError::FrameTooLarge);
        }
        if !address.is_encodable() {
            return Err(CodecError::DomainTooLong);
        }
        let mut frame: Vec<u8> = Vec::new();
        match self.0.take() {
            Some(head) => {
                frame = head;
            },
            None => {},
        }
        let ghost head_part = frame@;
        match address.write_to(&mut frame) {
            Ok(()) => {},
            Err(_) => {
                return Err(CodecError::DomainTooLong);
            },
        }
        frame.push((payload.len() / 256) as u8);
        frame.push((payload.len() % 256) as u8);
        frame.push(13u8);
        frame.push(10u8);
        let mut i: usize = 0;
        while i < payload.len()
            invariant
                i <= payload@.len(),
                payload@.len() <= UDP_MAX_SIZE,
                frame@ == head_part + address_bytes(address@) + be16(payload@.len() as u16)
                    + seq![13u8, 10u8] + payload@.subrange(0, i as int),
            decreases payload@.len() - i,
        {
            proof {
                assert(payload@.subrange(0, i + 1) == payload@.subrange(0, i as int).push(
                    payload@[i as int],
                ));
            }
            frame.push(payload[i]);
            i = i + 1;
        }
        proof {
            assert(payload@.subrange(0, payload@.len() as int) == payload@);
        }
        append(dst, frame.as_slice());
        Ok(())
    }

    /// Takes the frame at the front of `src`, if a whole one is there. Until
    /// then it returns `None` and leaves `src` as it is.
    pub fn decode(&mut self, src: &mut BytesMut) -> (r: Result<Option<UdpPacket>, CodecError>)
        ensures
            *final(self) == *old(self),
            match decode_frame(buffer_contents(*old(src))) {
                FrameView::NeedMore => r matches Ok(None) && buffer_contents(
                    *final(src),
                ) == buffer_contents(*old(src)),
                FrameView::Invalid => r matches Err(CodecError::CodecDecode)
                    && buffer_contents(*final(src)) == buffer_contents(*old(src)),
                FrameView::Frame(a, p, n) => r matches Ok(Some((payload, addr))) && payload@ == p
                    && addr@ == a && buffer_contents(*final(src)) == buffer_contents(
                    *old(src),
                ).skip(n),
            },
    {
        let decoded = decode_slice(contents(src));
        match decoded {
            Ok(Some((payload, address, used))) => {
                advance(src, used);
                Ok(Some((payload, address)))
            },
            Ok(None) => Ok(None),
            Err(e) => Err(e),
        }
    }
}

/// Reading back a frame that was written gives the same address and payload,
/// and leaves what followed it in the stream.
pub proof fn lemma_frame_round_trip(a: AddrView, payload: Seq<u8>, rest: Seq<u8>)
    requires
        encodable(a),
        payload.len() <= UDP_MAX_SIZE,
    ensures
        decode_frame(frame_bytes(a, payload) + rest) == FrameView::Frame(
            a,
            payload,
            frame_bytes(a, payload).len() as int,
        ),
{
    let ab = address_bytes(a);
    let b = frame_bytes(a, payload) + rest;
    let tail = be16(payload.len() as u16) + seq![13u8, 10u8] + payload + rest;
    assert(b == ab + tail);
    lemma_address_round_trip(a, tail);
    let n = ab.len() as int;
    assert(frame_addr_size(b) == Some(n)) by {
        match a {
            AddrView::Domain(name, _) => {
                assert(b[1] == encode_utf8(name).len());
            },
            _ => {},
        }
    }
    assert(be16_at(b, n) == payload.len());
    assert(b.subrange(n + 4, n + 4 + payload.len()) == payload);
}

} // verus!
