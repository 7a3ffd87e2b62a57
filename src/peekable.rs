//! A stream with a read-ahead buffer. Bytes taken from the underlying stream
//! wait in the buffer, where they can be looked at without being consumed;
//! reads and drains take them from the front.
//!
//! Besides the buffer, a stream keeps, as ghost state, every byte pulled from
//! the underlying stream and every byte handed out by a read or a drain. No
//! byte is lost or handed out twice: what was handed out, followed by what is
//! buffered, is exactly what was pulled.

use std::collections::VecDeque;
use vstd::prelude::*;

verus! {

pub struct PeekableStream<S> {
    inner: S,
    buf: VecDeque<u8>,
    pulled: Ghost<Seq<u8>>,
    delivered: Ghost<Seq<u8>>,
}

impl<S> PeekableStream<S> {
    /// What was handed out, followed by what is buffered, is what was pulled.
    pub closed spec fn wf(&self) -> bool {
        self.delivered@ + self.buf@ == self.pulled@
    }

    /// The bytes waiting in the buffer, oldest first.
    pub closed spec fn buffered(&self) -> Seq<u8> {
        self.buf@
    }

    /// Every byte taken from the underlying stream so far, in order.
    pub closed spec fn pulled(&self) -> Seq<u8> {
        self.pulled@
    }

    /// Every byte handed out by a read or a drain so far, in order.
    pub closed spec fn delivered(&self) -> Seq<u8> {
        self.delivered@
    }

    /// The underlying stream.
    pub closed spec fn inner(&self) -> S {
        self.inner
    }

    /// `self` is a later state of `earlier`: both histories only grew.
    pub open spec fn follows(&self, earlier: &Self) -> bool {
        &&& earlier.pulled().is_prefix_of(self.pulled())
        &&& earlier.delivered().is_prefix_of(self.delivered())
    }

    pub fn new(inner: S) -> (r: Self)
        ensures
            r.inner() == inner,
            r.buffered() == Seq::<u8>::empty(),
            r.pulled() == Seq::<u8>::empty(),
            r.delivered() == Seq::<u8>::empty(),
            r.wf(),
    {
        PeekableStream {
            inner,
            buf: VecDeque::new(),
            pulled: Ghost(Seq::empty()),
            delivered: Ghost(Seq::empty()),
        }
    }

    /// A stream whose buffer starts with `buf`, as if those bytes had just
    /// been pulled.
    pub fn with_buf(inner: S, buf: VecDeque<u8>) -> (r: Self)
        ensures
            r.inner() == inner,
            r.buffered() == buf@,
            r.pulled() == buf@,
            r.delivered() == Seq::<u8>::empty(),
            r.wf(),
    {
        proof {
            assert(Seq::<u8>::empty() + buf@ == buf@);
        }
        PeekableStream { inner, buf, pulled: Ghost(buf@), delivered: Ghost(Seq::empty()) }
    }

    /// The underlying stream and the bytes still buffered.
    pub fn into_inner(self) -> (r: (S, VecDeque<u8>))
        ensures
            r.0 == self.inner(),
            r.1@ == self.buffered(),
    {
        (self.inner, self.buf)
    }

    /// The underlying stream, to pull bytes from or to write to. Pulled bytes
    /// must then be handed to `extend`.
    pub fn get_mut(&mut self) -> (r: &mut S)
        ensures
            *r == old(self).inner(),
            final(self).inner() == *final(r),
            final(self).buffered() == old(self).buffered(),
            final(self).pulled() == old(self).pulled(),
            final(self).delivered() == old(self).delivered(),
            final(self).wf() == old(self).wf(),
    {
        &mut self.inner
    }

    /// How many bytes are buffered.
    pub fn buffered_len(&self) -> (r: usize)
        ensures
            r == self.buffered().len(),
    {
        self.buf.len()
    }

    /// How many more bytes must be pulled before `size` are buffered.
    pub fn missing(&self, size: usize) -> (r: usize)
        ensures
            r == if size > self.buffered().len() {
                size - self.buffered().len()
            } else {
                0
            },
    {
        if size > self.buf.len() {
            size - self.buf.len()
        } else {
            0
        }
    }

    /// Records bytes just pulled from the underlying stream: they join the
    /// back of the buffer.
    pub fn extend(&mut self, bytes: &[u8])
        requires
            old(self).wf(),
        ensures
            final(self).wf(),
            final(self).follows(old(self)),
            final(self).inner() == old(self).inner(),
            final(self).buffered() == old(self).buffered() + bytes@,
            final(self).pulled() == old(self).pulled() + bytes@,
            final(self).delivered() == old(self).delivered(),
    {
        let ghost start = self.buf@;
        let ghost before = *self;
        let mut i: usize = 0;
        while i < bytes.len()
            invariant
                i <= bytes@.len(),
                self.inner == before.inner,
                self.pulled == before.pulled,
                self.delivered == before.delivered,
                self.buf@ == start + bytes@.subrange(0, i as int),
            decreases bytes@.len() - i,
        {
            proof {
                assert(bytes@.subrange(0, i + 1) == bytes@.subrange(0, i as int).push(
                    bytes@[i as int],
                ));
            }
            self.buf.push_back(bytes[i]);
            i = i + 1;
        }
        proof {
            assert(bytes@.subrange(0, bytes@.len() as int) == bytes@);
            let before_pulled = self.pulled@;
            self.pulled@ = self.pulled@ + bytes@;
            assert(self.delivered@ + (start + bytes@) == self.delivered@ + start + bytes@);
            assert(self.pulled@.subrange(0, before_pulled.len() as int) == before_pulled);
        }
    }

    /// The first `n` buffered bytes, left in the buffer.
    pub fn peek_exact(&self, n: usize) -> (r: Vec<u8>)
        requires
            n <= self.buffered().len(),
        ensures
            r@ == self.buffered().subrange(0, n as int),
    {
        let mut out: Vec<u8> = Vec::new();
        let mut i: usize = 0;
        while i < n
            invariant
                i <= n,
                n <= self.buf@.len(),
                out@ == self.buf@.subrange(0, i as int),
            decreases n - i,
        {
            proof {
                assert(self.buf@.subrange(0, i + 1) == self.buf@.subrange(0, i as int).push(
                    self.buf@[i as int],
                ));
            }
            out.push(self.buf[i]);
            i = i + 1;
        }
        out
    }

    /// Takes up to `max` bytes from the front of the buffer.
    pub fn read_buffered(&mut self, max: usize) -> (r: Vec<u8>)
        requires
            old(self).wf(),
        ensures
            final(self).wf(),
            final(self).follows(old(self)),
            r@.len() == if max < old(self).buffered().len() {
                max as int
            } else {
                old(self).buffered().len() as int
            },
            r@ == old(self).buffered().subrange(0, r@.len() as int),
            final(self).buffered() == old(self).buffered().skip(r@.len() as int),
            final(self).delivered() == old(self).delivered() + r@,
            final(self).pulled() == old(self).pulled(),
            final(self).inner() == old(self).inner(),
    {
        let ghost start = self.buf@;
        let ghost given = self.delivered@;
        let ghost before = *self;
        let mut out: Vec<u8> = Vec::new();
        while out.len() < max && self.buf.len() > 0
            invariant
                self.inner == before.inner,
                self.pulled == before.pulled,
                self.delivered == before.delivered,
                out@.len() <= max,
                out@.len() <= start.len(),
                out@ == start.subrange(0, out@.len() as int),
                self.buf@ == start.skip(out@.len() as int),
            decreases self.buf@.len(),
        {
            let b = self.buf.pop_front().unwrap();
            proof {
                assert(start.subrange(0, out@.len() as int + 1) == out@.push(b));
                assert(start.skip(out@.len() as int + 1) == start.skip(out@.len() as int).drop_first());
            }
            out.push(b);
        }
        proof {
            self.delivered@ = given + out@;
            assert(self.delivered@.subrange(0, given.len() as int) == given);
            assert(given + out@ + start.skip(out@.len() as int) == given + start);
        }
        out
    }

    /// Discards the first `n` buffered bytes: they count as handed out.
    pub fn drain(&mut self, n: usize)
        requires
            old(self).wf(),
            n <= old(self).buffered().len(),
        ensures
            final(self).wf(),
            final(self).follows(old(self)),
            final(self).buffered() == old(self).buffered().skip(n as int),
            final(self).delivered() == old(self).delivered() + old(self).buffered().subrange(
                0,
                n as int,
            ),
            final(self).pulled() == old(self).pulled(),
            final(self).inner() == old(self).inner(),
    {
        self.read_buffered(n);
    }
}

/// Histories only grow, so a state that follows one that follows `first`
/// follows `first` too.
pub proof fn lemma_follows_transitive<S>(
    first: &PeekableStream<S>,
    second: &PeekableStream<S>,
    third: &PeekableStream<S>,
)
    requires
        second.follows(first),
        third.follows(second),
    ensures
        third.follows(first),
{
    assert(third.pulled().subrange(0, first.pulled().len() as int) == second.pulled().subrange(
        0,
        first.pulled().len() as int,
    ));
    assert(third.delivered().subrange(0, first.delivered().len() as int)
        == second.delivered().subrange(0, first.delivered().len() as int));
}

/// No byte is lost or duplicated: the bytes handed out by reads and drains,
/// followed by those still buffered, are exactly the bytes pulled from the
/// underlying stream, whatever calls led to this state.
pub proof fn lemma_peek_faithful<S>(s: &PeekableStream<S>)
    requires
        s.wf(),
    ensures
        s.delivered() + s.buffered() == s.pulled(),
{
}

/// A stream handed on before anything was read or drained from it (as to the
/// fallback, after a rejected preamble) goes on to yield the bytes that were
/// already peeked, followed by the bytes the peer sends after them.
pub proof fn lemma_fallback_transparent<S>(handed: &PeekableStream<S>, later: &PeekableStream<S>)
    requires
        handed.wf(),
        later.wf(),
        handed.delivered().len() == 0,
        later.follows(handed),
    ensures
        later.delivered() + later.buffered() == handed.buffered() + later.pulled().skip(
            handed.pulled().len() as int,
        ),
{
    assert(handed.buffered() == handed.pulled());
    assert(later.pulled() == handed.pulled() + later.pulled().skip(handed.pulled().len() as int));
}

} // verus!
