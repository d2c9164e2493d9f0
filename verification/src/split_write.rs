//! A writer that hands every write to two sinks.

use crate::error::Error;
use crate::sink::{appended_part, Sink};
use vstd::prelude::*;

verus! {

/// One writer in front of two sinks. Every write goes to the first sink and
/// then to the second, so that both see the same bytes in one pass.
pub struct SplitWrite<'a, A, B> {
    pub first: &'a mut A,
    pub second: &'a mut B,
}

/// What one write through both sinks comes to, given how many bytes each of
/// them took: that number where they agree, a divergence where they do not.
pub fn reconcile(first: usize, second: usize) -> (r: Result<usize, Error>)
    ensures
        r == if first == second {
            Ok::<usize, Error>(first)
        } else {
            Err::<usize, Error>(Error::SinkDivergence { first, second })
        },
{
    if first != second {
        return Err(Error::SinkDivergence { first, second });
    }
    Ok(first)
}

impl<'a, A: Sink, B: Sink> SplitWrite<'a, A, B> {
    /// A writer in front of `first` and `second`.
    pub fn new(first: &'a mut A, second: &'a mut B) -> (r: SplitWrite<'a, A, B>)
        ensures
            *r.first == *old(first),
            *r.second == *old(second),
            *final(r.first) == *final(first),
            *final(r.second) == *final(second),
    {
        SplitWrite { first, second }
    }
}

impl<'a, A: Sink, B: Sink> Sink for SplitWrite<'a, A, B> {
    /// What the first sink has taken; after a successful write the second
    /// has taken the same bytes since.
    open spec fn accepted(&self) -> Seq<u8> {
        self.first.accepted()
    }

    open spec fn reliable(&self) -> bool {
        self.first.reliable() && self.second.reliable()
    }

    /// The writer holds nothing of its own: it is flushed when both sinks
    /// are.
    open spec fn flushed(&self) -> bool {
        self.first.flushed() && self.second.flushed()
    }

    /// Offers `buf` to both sinks. Succeeds only if both took the same
    /// number of bytes; sinks that took different numbers are a divergence.
    fn write(&mut self, buf: &[u8]) -> (r: Result<usize, Error>)
        ensures
            *final(final(self).first) == *final(old(self).first),
            *final(final(self).second) == *final(old(self).second),
            final(self).first.reliable() == old(self).first.reliable(),
            final(self).second.reliable() == old(self).second.reliable(),
            old(self).first.reliable() ==> final(self).first.accepted() == old(
                self,
            ).first.accepted() + buf@,
            match r {
                Ok(n) => final(self).second.accepted() == old(self).second.accepted() + buf@.take(
                    n as int,
                ),
                Err(_) => appended_part(
                    old(self).second.accepted(),
                    final(self).second.accepted(),
                    buf@,
                ),
            },
    {
        assert(buf@.take(0) =~= Seq::<u8>::empty());
        assert(old(self).second.accepted() + Seq::<u8>::empty() =~= old(self).second.accepted());
        assert(buf@.take(buf@.len() as int) =~= buf@);
        let size_a: usize = self.first.write(buf)?;
        let size_b: usize = self.second.write(buf)?;
        reconcile(size_a, size_b)
    }

    /// Offers `buf` to both sinks and succeeds only if both took all of it.
    fn write_all(&mut self, buf: &[u8]) -> (r: Result<(), Error>)
        ensures
            *final(final(self).first) == *final(old(self).first),
            *final(final(self).second) == *final(old(self).second),
            final(self).first.reliable() == old(self).first.reliable(),
            final(self).second.reliable() == old(self).second.reliable(),
            old(self).first.reliable() ==> final(self).first.accepted() == old(
                self,
            ).first.accepted() + buf@,
            match r {
                Ok(_) => final(self).second.accepted() == old(self).second.accepted() + buf@,
                Err(_) => appended_part(
                    old(self).second.accepted(),
                    final(self).second.accepted(),
                    buf@,
                ),
            },
    {
        assert(buf@.take(0) =~= Seq::<u8>::empty());
        assert(old(self).second.accepted() + Seq::<u8>::empty() =~= old(self).second.accepted());
        assert(buf@.take(buf@.len() as int) =~= buf@);
        self.first.write_all(buf)?;
        self.second.write_all(buf)?;
        Ok(())
    }

    /// Flushes both sinks, the first one first, and succeeds only if both
    /// did: then neither holds anything back. Neither takes a byte.
    fn flush(&mut self) -> (r: Result<(), Error>)
        ensures
            *final(final(self).first) == *final(old(self).first),
            *final(final(self).second) == *final(old(self).second),
            final(self).first.reliable() == old(self).first.reliable(),
            final(self).second.reliable() == old(self).second.reliable(),
            final(self).second.accepted() == old(self).second.accepted(),
            r is Ok ==> final(self).first.flushed() && final(self).second.flushed(),
    {
        self.first.flush()?;
        self.second.flush()?;
        Ok(())
    }
}

} // verus!
