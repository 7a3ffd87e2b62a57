//! The growable byte buffer of the `bytes` crate, as far as the frame codec
//! uses it.

use bytes::Buf;
use bytes::BytesMut;
use vstd::prelude::*;

verus! {

#[verifier::external_type_specification]
#[verifier::external_body]
pub struct ExBytesMut(BytesMut);

/// The bytes that a buffer holds, in order.
pub uninterp spec fn buffer_contents(b: BytesMut) -> Seq<u8>;

/// Relies on `<BytesMut as Deref>::deref`: the slice holds the buffer's bytes.
#[verifier::external_body]
pub(crate) fn contents(b: &BytesMut) -> (r: &[u8])
    ensures
        r@ == buffer_contents(*b),
{
    &b[..]
}

/// Relies on `BytesMut::extend_from_slice`: the bytes are appended.
#[verifier::external_body]
pub(crate) fn append(b: &mut BytesMut, extra: &[u8])
    ensures
        buffer_contents(*final(b)) == buffer_contents(*old(b)) + extra@,
{
    b.extend_from_slice(extra)
}

/// Relies on `<BytesMut as Buf>::advance`: the first `n` bytes are dropped; it
/// panics when the buffer holds fewer.
#[verifier::external_body]
pub(crate) fn advance(b: &mut BytesMut, n: usize)
    requires
        n <= buffer_contents(*old(b)).len(),
    ensures
        buffer_contents(*final(b)) == buffer_contents(*old(b)).skip(n as int),
{
    b.advance(n)
}

} // verus!
