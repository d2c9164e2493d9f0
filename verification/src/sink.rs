//! Byte sinks: where the bytes of an object are written to.

use crate::error::{Error, StoreError};
use vstd::slice::slice_subrange;
use vstd::prelude::*;

verus! {

/// Whether `after` is `before` with some leading part of `buf` behind it.
pub open spec fn appended_part(before: Seq<u8>, after: Seq<u8>, buf: Seq<u8>) -> bool {
    &&& before.len() <= after.len() <= before.len() + buf.len()
    &&& after == before + buf.take(after.len() - before.len())
}

/// Something that takes bytes in order.
pub trait Sink {
    /// Every byte that this sink has taken so far, in order.
    spec fn accepted(&self) -> Seq<u8>;

    /// Whether this sink never fails and always takes all it is given.
    spec fn reliable(&self) -> bool;

    /// Whether this sink holds back none of what it has taken: all of it has
    /// gone where the sink sends it.
    spec fn flushed(&self) -> bool;

    /// Offers `buf` and says how many of its leading bytes were taken.
    fn write(&mut self, buf: &[u8]) -> (r: Result<usize, Error>)
        ensures
            final(self).reliable() == old(self).reliable(),
            old(self).reliable() ==> (r matches Ok(n) && n == buf@.len()),
            match r {
                Ok(n) => n <= buf@.len() && final(self).accepted() == old(self).accepted()
                    + buf@.take(n as int),
                Err(_) => appended_part(old(self).accepted(), final(self).accepted(), buf@),
            },
    ;

    /// Offers `buf` and succeeds only if all of it was taken.
    fn write_all(&mut self, buf: &[u8]) -> (r: Result<(), Error>)
        ensures
            final(self).reliable() == old(self).reliable(),
            old(self).reliable() ==> r is Ok,
            match r {
                Ok(_) => final(self).accepted() == old(self).accepted() + buf@,
                Err(_) => appended_part(old(self).accepted(), final(self).accepted(), buf@),
            },
    ;

    /// Asks the sink to pass on what it holds back. Takes no bytes. Where
    /// it succeeds, the sink holds nothing back any more.
    fn flush(&mut self) -> (r: Result<(), Error>)
        ensures
            final(self).reliable() == old(self).reliable(),
            old(self).reliable() ==> r is Ok,
            final(self).accepted() == old(self).accepted(),
            r is Ok ==> final(self).flushed(),
    ;
}

/// A vector takes every byte at its end.
impl Sink for Vec<u8> {
    open spec fn accepted(&self) -> Seq<u8> {
        self@
    }

    open spec fn reliable(&self) -> bool {
        true
    }

    /// Nothing is ever held back.
    open spec fn flushed(&self) -> bool {
        true
    }

    fn write(&mut self, buf: &[u8]) -> (r: Result<usize, Error>) {
        self.extend_from_slice(buf);
        assert(buf@.take(buf@.len() as int) =~= buf@);
        Ok(buf.len())
    }

    fn write_all(&mut self, buf: &[u8]) -> (r: Result<(), Error>) {
        self.extend_from_slice(buf);
        Ok(())
    }

    fn flush(&mut self) -> (r: Result<(), Error>) {
        Ok(())
    }
}

/// A sink that takes every byte and keeps none.
pub struct NullSink {
    seen: Ghost<Seq<u8>>,
}

impl NullSink {
    /// A sink that has taken nothing yet.
    pub fn new() -> (r: NullSink)
        ensures
            r.accepted() == Seq::<u8>::empty(),
    {
        NullSink { seen: Ghost(Seq::empty()) }
    }
}

impl Sink for NullSink {
    closed spec fn accepted(&self) -> Seq<u8> {
        self.seen@
    }

    open spec fn reliable(&self) -> bool {
        true
    }

    /// Nothing is ever held back.
    open spec fn flushed(&self) -> bool {
        true
    }

    fn write(&mut self, buf: &[u8]) -> (r: Result<usize, Error>) {
        self.seen = Ghost(self.seen@ + buf@);
        assert(buf@.take(buf@.len() as int) =~= buf@);
        Ok(buf.len())
    }

    fn write_all(&mut self, buf: &[u8]) -> (r: Result<(), Error>) {
        self.seen = Ghost(self.seen@ + buf@);
        Ok(())
    }

    fn flush(&mut self) -> (r: Result<(), Error>) {
        Ok(())
    }
}

/// A sink that keeps what it takes, up to a limit. Of a write that does not
/// fit it takes the part that does.
pub struct Limited {
    taken: Vec<u8>,
    limit: usize,
}

impl Limited {
    /// How many bytes this sink takes in all.
    pub closed spec fn limit(self) -> nat {
        self.limit as nat
    }

    /// How many more bytes this sink takes.
    pub open spec fn room(self) -> nat {
        if self.accepted().len() <= self.limit() {
            (self.limit() - self.accepted().len()) as nat
        } else {
            0
        }
    }

    /// An empty sink that takes `limit` bytes.
    pub fn new(limit: usize) -> (r: Limited)
        ensures
            r.accepted() == Seq::<u8>::empty(),
            r.limit() == limit,
    {
        Limited { taken: Vec::new(), limit }
    }

    fn room_left(&self) -> (r: usize)
        ensures
            r == self.room(),
    {
        if self.taken.len() <= self.limit {
            self.limit - self.taken.len()
        } else {
            0
        }
    }

    /// The bytes taken so far.
    pub fn taken(&self) -> (r: &[u8])
        ensures
            r@ == self.accepted(),
    {
        self.taken.as_slice()
    }
}

impl Sink for Limited {
    closed spec fn accepted(&self) -> Seq<u8> {
        self.taken@
    }

    open spec fn reliable(&self) -> bool {
        false
    }

    /// Nothing is ever held back.
    open spec fn flushed(&self) -> bool {
        true
    }

    /// Takes as much of `buf` as there is room for.
    fn write(&mut self, buf: &[u8]) -> (r: Result<usize, Error>)
        ensures
            final(self).limit() == old(self).limit(),
            r matches Ok(n) && n == if buf@.len() <= old(self).room() {
                buf@.len()
            } else {
                old(self).room()
            },
    {
        let room: usize = self.room_left();
        let n: usize = if buf.len() <= room {
            buf.len()
        } else {
            room
        };
        self.taken.extend_from_slice(slice_subrange(buf, 0, n));
        assert(buf@.subrange(0, n as int) =~= buf@.take(n as int));
        Ok(n)
    }

    /// Takes all of `buf` if there is room for it. If not, takes the part
    /// that there is room for and fails.
    fn write_all(&mut self, buf: &[u8]) -> (r: Result<(), Error>)
        ensures
            final(self).limit() == old(self).limit(),
            r == if buf@.len() <= old(self).room() {
                Ok::<(), Error>(())
            } else {
                Err::<(), Error>(Error::Store(StoreError::IOFailure))
            },
            final(self).accepted() == old(self).accepted() + if buf@.len() <= old(self).room() {
                buf@
            } else {
                buf@.take(old(self).room() as int)
            },
    {
        let room: usize = self.room_left();
        if buf.len() <= room {
            self.taken.extend_from_slice(buf);
            Ok(())
        } else {
            self.taken.extend_from_slice(slice_subrange(buf, 0, room));
            assert(buf@.subrange(0, room as int) =~= buf@.take(room as int));
            assert(self.accepted() == old(self).accepted() + buf@.take(room as int));
            assert(appended_part(old(self).accepted(), self.accepted(), buf@));
            Err(Error::Store(StoreError::IOFailure))
        }
    }

    fn flush(&mut self) -> (r: Result<(), Error>)
        ensures
            r is Ok,
            final(self).limit() == old(self).limit(),
    {
        Ok(())
    }
}

} // verus!
