//! Outgoing byte buffer with a drain cursor.
use vstd::prelude::*;

use crate::ext::{capacity_of, shrink_capacity};
use crate::ws::error::ConnectionError;
use crate::ws::io::{IoError, IoErrorKind};
use crate::ws::rng::{drew_odds, Rng};

verus! {

/// Data is appended with [`push`](SendBuf::push) and then drained to a stream.
/// A partial write leaves the rest to the next attempt.
pub struct SendBuf {
    buf: Vec<u8>,
    /// Bytes already written to the stream.
    pos: usize,
}

/// What one write of unsent bytes means: how many more bytes are sent, or why
/// draining stops.  An interrupted write sends nothing and is made again.
pub open spec fn write_result(outcome: Result<usize, IoError>) -> Result<int, ConnectionError> {
    match outcome {
        Ok(n) => if n == 0 {
            Err(ConnectionError::Closed)
        } else {
            Ok(n as int)
        },
        Err(e) => if e.kind == IoErrorKind::Interrupted {
            Ok(0)
        } else {
            Err(ConnectionError::Io(e))
        },
    }
}

impl SendBuf {
    /// The bytes that are still to be written.
    pub closed spec fn unsent_bytes(self) -> Seq<u8> {
        self.buf@.skip(self.pos as int)
    }

    /// The bytes that are held, those already written first.
    pub closed spec fn held_bytes(self) -> Seq<u8> {
        self.buf@
    }

    /// The drain cursor is inside the buffer.
    pub closed spec fn wf(self) -> bool {
        self.pos <= self.buf@.len()
    }

    pub fn with_capacity(capacity: usize) -> (r: Self)
        ensures
            r.wf(),
            r.unsent_bytes() == Seq::<u8>::empty(),
            r.held_bytes() == Seq::<u8>::empty(),
    {
        let r = SendBuf { buf: Vec::with_capacity(capacity), pos: 0 };
        assert(r.unsent_bytes() =~= Seq::<u8>::empty());
        r
    }

    /// Whether there is unsent data.
    pub fn has_pending(&self) -> (r: bool)
        requires
            self.wf(),
        ensures
            r <==> self.unsent_bytes().len() > 0,
    {
        self.pos < self.buf.len()
    }

    /// Number of bytes waiting to be sent.
    pub fn pending_len(&self) -> (n: usize)
        requires
            self.wf(),
        ensures
            n == self.unsent_bytes().len(),
    {
        self.buf.len() - self.pos
    }

    /// The bytes that the next write is to be given.
    pub fn unsent(&self) -> (r: &[u8])
        requires
            self.wf(),
        ensures
            r@ == self.unsent_bytes(),
    {
        let r = &self.buf[self.pos..self.buf.len()];
        assert(r@ =~= self.unsent_bytes());
        r
    }

    /// Append bytes without sending.
    pub fn push(&mut self, data: &[u8])
        requires
            old(self).wf(),
        ensures
            final(self).wf(),
            final(self).unsent_bytes() == old(self).unsent_bytes() + data@,
            final(self).held_bytes() == old(self).held_bytes() + data@,
    {
        self.buf.extend_from_slice(data);
        assert(self.unsent_bytes() =~= old(self).unsent_bytes() + data@);
    }

    /// Append a single byte.
    pub fn push_byte(&mut self, b: u8)
        requires
            old(self).wf(),
        ensures
            final(self).wf(),
            final(self).unsent_bytes() == old(self).unsent_bytes().push(b),
            final(self).held_bytes() == old(self).held_bytes().push(b),
    {
        self.buf.push(b);
        assert(self.unsent_bytes() =~= old(self).unsent_bytes().push(b));
    }

    /// Reserve space for at least `additional` more bytes.  Only how much is
    /// allocated changes.
    pub fn reserve(&mut self, additional: usize)
        requires
            old(self).wf(),
        ensures
            final(self).wf(),
            final(self).unsent_bytes() == old(self).unsent_bytes(),
            final(self).held_bytes() == old(self).held_bytes(),
    {
        self.buf.reserve(additional);
    }

    /// The last `len` bytes pushed, for changing them in place.
    pub fn last_mut(&mut self, len: usize) -> (r: &mut [u8])
        requires
            old(self).wf(),
            len <= old(self).held_bytes().len(),
        ensures
            r@ == old(self).held_bytes().skip(old(self).held_bytes().len() - len),
            final(r)@.len() == len || len <= old(self).unsent_bytes().len() ==> final(self).wf(),
            final(self).held_bytes() == old(self).held_bytes().take(
                old(self).held_bytes().len() - len,
            ) + final(r)@,
            old(self).unsent_bytes().len() <= old(self).held_bytes().len(),
            final(self).unsent_bytes() == final(self).held_bytes().skip(
                old(self).held_bytes().len() - old(self).unsent_bytes().len(),
            ),
            len <= old(self).unsent_bytes().len() ==> {
                &&& r@ == old(self).unsent_bytes().skip(old(self).unsent_bytes().len() - len)
                &&& final(self).unsent_bytes() == old(self).unsent_bytes().take(
                    old(self).unsent_bytes().len() - len,
                ) + final(r)@
            },
    {
        let start: usize = self.buf.len() - len;
        let ghost unsent = self.unsent_bytes();
        let ghost pos = self.pos as int;
        let ghost all = self.buf@;
        let (_, last) = self.buf.as_mut_slice().split_at_mut(start);
        proof {
            assert(last@ =~= all.skip(all.len() - len));
            if len <= unsent.len() {
                assert(last@ =~= unsent.skip(unsent.len() - len));
            }
        }
        assert forall|tail: Seq<u8>| len <= unsent.len() implies (#[trigger] (all.take(start as int)
            + tail)).skip(pos) == unsent.take(unsent.len() - len) + tail by {
            assert((all.take(start as int) + tail).skip(pos) =~= unsent.take(unsent.len() - len)
                + tail);
        }
        last
    }

    /// Take in the outcome of one write of the unsent bytes.  Returns whether
    /// everything is sent.
    pub fn flush(&mut self, outcome: Result<usize, IoError>) -> (r: Result<bool, ConnectionError>)
        requires
            old(self).wf(),
            outcome matches Ok(n) ==> n <= old(self).unsent_bytes().len(),
        ensures
            final(self).wf(),
            match write_result(outcome) {
                Ok(n) => {
                    &&& final(self).unsent_bytes() == old(self).unsent_bytes().skip(n)
                    &&& final(self).held_bytes() == old(self).held_bytes()
                    &&& r == Ok::<bool, ConnectionError>(final(self).unsent_bytes().len() == 0)
                },
                Err(e) => {
                    &&& *final(self) == *old(self)
                    &&& r == Err::<bool, ConnectionError>(e)
                },
            },
    {
        match outcome {
            Ok(n) => {
                if n == 0 {
                    return Err(ConnectionError::Closed);
                }
                assert(n <= self.buf.len() - self.pos);
                self.pos = self.pos + n;
                assert(self.unsent_bytes() =~= old(self).unsent_bytes().skip(n as int));
            },
            Err(e) => {
                if e.kind != IoErrorKind::Interrupted {
                    return Err(ConnectionError::Io(e));
                }
                assert(self.unsent_bytes() =~= old(self).unsent_bytes().skip(0));
            },
        }
        Ok(self.pos >= self.buf.len())
    }

    /// Take in the outcome of one write of a best-effort drain.  Returns
    /// whether to write again: there is unsent data and the write did not
    /// fail.  A failure is ignored, and the data stays queued.
    pub fn try_flush(&mut self, outcome: Result<usize, IoError>) -> (again: bool)
        requires
            old(self).wf(),
            outcome matches Ok(n) ==> n <= old(self).unsent_bytes().len(),
        ensures
            final(self).wf(),
            match write_result(outcome) {
                Ok(n) => {
                    &&& final(self).unsent_bytes() == old(self).unsent_bytes().skip(n)
                    &&& final(self).held_bytes() == old(self).held_bytes()
                    &&& again == (final(self).unsent_bytes().len() > 0)
                },
                Err(e) => *final(self) == *old(self) && !again,
            },
    {
        match self.flush(outcome) {
            Ok(done) => !done,
            Err(_) => false,
        }
    }

    /// Once in a while, give allocated memory beyond `max_cap` back.  Does so
    /// only when all data has been sent.
    ///
    /// How much is allocated is up to the allocator, but never less than the
    /// bytes that are held: with more of them than `max_cap`, the odds are drawn
    /// and decide.
    pub fn maybe_shrink<R: Rng>(&mut self, max_cap: usize, rng: &mut R)
        requires
            old(self).wf(),
        ensures
            final(self).wf(),
            old(self).shrinks_to(max_cap, old(rng), *final(self), final(rng)),
    {
        if self.pos >= self.buf.len() && capacity_of(&self.buf) > max_cap {
            let odds: bool = rng.one_in_eight_odds();
            assert(drew_odds(old(rng), odds, rng));
            if odds {
                self.buf.clear();
                self.pos = 0;
                shrink_capacity(&mut self.buf, max_cap);
                assert(self.held_bytes() =~= Seq::<u8>::empty());
                assert(self.unsent_bytes() =~= old(self).unsent_bytes());
            }
        }
    }

    /// What is unsent stays.  While there is something, nothing happens; else
    /// the odds may be drawn, and are with more than `max_cap` bytes held.
    pub open spec fn shrinks_to<R: Rng>(
        self,
        max_cap: usize,
        rng: &R,
        after: Self,
        rng_after: &R,
    ) -> bool {
        let same = after == self && *rng_after == *rng;
        &&& after.unsent_bytes() == self.unsent_bytes()
        &&& self.unsent_bytes().len() > 0 ==> same
        &&& self.unsent_bytes().len() == 0 && self.held_bytes().len() > max_cap
            ==> self.shrunk_by_odds(rng, after, rng_after)
        &&& same || self.shrunk_by_odds(rng, after, rng_after)
    }

    /// The odds are drawn, and the bytes that are held are dropped when they say
    /// so: the buffer is `after` afterwards.
    pub open spec fn shrunk_by_odds<R: Rng>(self, rng: &R, after: Self, rng_after: &R) -> bool {
        exists|odds: bool|
            #[trigger] drew_odds(rng, odds, rng_after) && if odds {
                after.held_bytes() == Seq::<u8>::empty()
            } else {
                after == self
            }
    }

    /// Clear the buffer and lend it out as scratch space.  What is left in it
    /// is unsent data.
    pub fn as_scratch(&mut self) -> (r: &mut Vec<u8>)
        requires
            old(self).wf(),
        ensures
            r@ == Seq::<u8>::empty(),
            final(self).wf(),
            final(self).unsent_bytes() == final(r)@,
            final(self).held_bytes() == final(r)@,
    {
        self.buf.clear();
        self.pos = 0;
        assert forall|s: Seq<u8>| #[trigger] s.skip(0) == s by {
            assert(s.skip(0) =~= s);
        }
        &mut self.buf
    }

    /// Discard all data.
    pub fn clear(&mut self)
        ensures
            final(self).wf(),
            final(self).unsent_bytes() == Seq::<u8>::empty(),
            final(self).held_bytes() == Seq::<u8>::empty(),
    {
        self.buf.clear();
        self.pos = 0;
        assert(self.unsent_bytes() =~= Seq::<u8>::empty());
    }
}

} // verus!
