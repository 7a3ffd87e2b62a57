//! Bookkeeping that stream wrappers carry around the stream they wrap.

use vstd::prelude::*;

verus! {

/// A stream, wrapped so that the program around the library can give it
/// the I/O traits of its runtime.
pub struct TcpStream<T>(pub T);

impl<T> TcpStream<T> {
    pub fn as_ref(&self) -> (r: &T)
        ensures
            *r == self.0,
    {
        &self.0
    }

    pub fn as_mut(&mut self) -> (r: &mut T)
        ensures
            *r == old(self).0,
            final(self).0 == *final(r),
    {
        &mut self.0
    }
}

/// A traffic record: a credential and the bytes that went up and down.
pub struct PacketStat {
    pub password: String,
    pub upload: u64,
    pub download: u64,
}

impl PacketStat {
    pub fn new(password: String, upload: u64, download: u64) -> (r: PacketStat)
        ensures
            r.password@ == password@,
            r.upload == upload,
            r.download == download,
    {
        PacketStat { password, upload, download }
    }
}

/// Counts the bytes read from and written to a stream. The totals are
/// handed out once, when the stream is closed. A total that reaches
/// `u64::MAX` stays there.
pub struct CountStream<S> {
    inner: S,
    read: u64,
    write: u64,
    closed: bool,
}

impl<S> CountStream<S> {
    pub closed spec fn read_total(&self) -> u64 {
        self.read
    }

    pub closed spec fn write_total(&self) -> u64 {
        self.write
    }

    pub closed spec fn is_closed(&self) -> bool {
        self.closed
    }

    pub closed spec fn inner(&self) -> S {
        self.inner
    }

    pub fn new(inner: S) -> (r: Self)
        ensures
            r.read_total() == 0,
            r.write_total() == 0,
            !r.is_closed(),
            r.inner() == inner,
    {
        CountStream { inner, read: 0, write: 0, closed: false }
    }

    /// The wrapped stream.
    pub fn get_mut(&mut self) -> (r: &mut S)
        ensures
            *r == old(self).inner(),
            final(self).inner() == *final(r),
            final(self).read_total() == old(self).read_total(),
            final(self).write_total() == old(self).write_total(),
            final(self).is_closed() == old(self).is_closed(),
    {
        &mut self.inner
    }

    /// A read of `n` bytes succeeded.
    pub fn record_read(&mut self, n: usize)
        ensures
            final(self).read_total() == if old(self).read_total() + n > u64::MAX {
                u64::MAX as int
            } else {
                old(self).read_total() + n
            },
            final(self).write_total() == old(self).write_total(),
            final(self).is_closed() == old(self).is_closed(),
            final(self).inner() == old(self).inner(),
    {
        self.read = self.read.saturating_add(n as u64);
    }

    /// A write of `n` bytes succeeded.
    pub fn record_write(&mut self, n: usize)
        ensures
            final(self).write_total() == if old(self).write_total() + n > u64::MAX {
                u64::MAX as int
            } else {
                old(self).write_total() + n
            },
            final(self).read_total() == old(self).read_total(),
            final(self).is_closed() == old(self).is_closed(),
            final(self).inner() == old(self).inner(),
    {
        self.write = self.write.saturating_add(n as u64);
    }

    /// The totals, read first, on the first call only.
    pub fn close(&mut self) -> (r: Option<(u64, u64)>)
        ensures
            old(self).is_closed() ==> r is None,
            !old(self).is_closed() ==> r == Some((old(self).read_total(), old(self).write_total())),
            final(self).is_closed(),
            final(self).read_total() == old(self).read_total(),
            final(self).write_total() == old(self).write_total(),
            final(self).inner() == old(self).inner(),
    {
        if self.closed {
            None
        } else {
            self.closed = true;
            Some((self.read, self.write))
        }
    }
}

/// The stage of a write that is flushed before it counts as done.
pub enum PushState {
    /// The next step writes.
    Write,
    /// This many bytes were written; the next step flushes.
    Flush(usize),
}

/// A stream whose every write is flushed before it is reported.
pub struct PushingStream<S> {
    inner: S,
    state: PushState,
}

impl<S> PushingStream<S> {
    pub closed spec fn state(&self) -> PushState {
        self.state
    }

    pub closed spec fn inner(&self) -> S {
        self.inner
    }

    pub fn new(inner: S) -> (r: Self)
        ensures
            r.state() is Write,
            r.inner() == inner,
    {
        PushingStream { inner, state: PushState::Write }
    }

    pub fn get_mut(&mut self) -> (r: &mut S)
        ensures
            *r == old(self).inner(),
            final(self).inner() == *final(r),
            final(self).state() == old(self).state(),
    {
        &mut self.inner
    }

    /// Whether the next step writes (else it flushes).
    pub fn writing(&self) -> (r: bool)
        ensures
            r == self.state() is Write,
    {
        match self.state {
            PushState::Write => true,
            PushState::Flush(_) => false,
        }
    }

    /// The write took `n` bytes; a flush comes next.
    pub fn written(&mut self, n: usize)
        ensures
            final(self).state() == PushState::Flush(n),
            final(self).inner() == old(self).inner(),
    {
        self.state = PushState::Flush(n);
    }

    /// The flush is done: the count to report for the write, if one was
    /// waiting for it.
    pub fn flushed(&mut self) -> (r: Option<usize>)
        ensures
            r == match old(self).state() {
                PushState::Flush(n) => Some(n),
                PushState::Write => None::<usize>,
            },
            final(self).state() is Write,
            final(self).inner() == old(self).inner(),
    {
        let r = match self.state {
            PushState::Flush(n) => Some(n),
            PushState::Write => None,
        };
        self.state = PushState::Write;
        r
    }
}

} // verus!
