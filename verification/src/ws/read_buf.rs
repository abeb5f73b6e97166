//! Contiguous read buffer for streaming protocol parsing.
//!
//! ```text
//!  [ consumed | pending |   spare   | allocated ]
//!  0        start      end         len         cap
//! ```
//!
//! - **consumed** (`0..start`): data already processed.  Consuming advances
//!   `start` but keeps the bytes until the next compaction, so that a payload
//!   can still be borrowed after its frame was consumed.
//! - **pending** (`start..end`): data received but not yet processed.
//! - **spare** (`end..len`): initialized memory that the next read fills.
//! - **allocated** (`len..cap`): allocated, not yet initialized.
use std::ops::Range;

use vstd::prelude::*;

use crate::ext::{capacity_of, shrink_capacity};
use crate::ws::io::{IoError, IoErrorKind};
use crate::ws::rng::{drew_odds, Rng};

verus! {

/// Floor for the readable slice reserved at the start of a fill, to avoid tiny
/// reads.
pub const MIN_READ_SLICE: usize = 4096;

/// Extra headroom past the requested target, so that reads closing near the
/// target still get reasonably sized slices.
pub const MIN_READ_HEADROOM: usize = 512;

/// Why a fill stopped.
#[derive(Debug)]
pub enum FillError {
    /// The stream reached its end before enough data was available.
    Eof,
    /// The stream failed.
    Io(IoError),
    /// The stream would block, or its timeout expired.
    WouldBlock,
}

/// Why a search stopped.
#[derive(Debug)]
pub enum ReadUntilError<E> {
    /// The stream reached its end before the search produced a value.
    Eof,
    /// The stream failed.
    Io(IoError),
    /// The stream would block, or its timeout expired.
    WouldBlock,
    /// Pending data reached the caller's limit before the search produced a
    /// value.
    LimitReached,
    /// The search's own error, passed through.
    CallbackError(E),
}

/// The buffer.
pub struct ReadBuf {
    buf: Vec<u8>,
    start: usize,
    end: usize,
}

/// `a + b`, cut off at `usize::MAX`.
pub open spec fn saturating_sum(a: int, b: int) -> int {
    if a + b > usize::MAX {
        usize::MAX as int
    } else {
        a + b
    }
}

/// How much of the buffer a fill up to `target` initializes at least.
pub open spec fn initialized_len(target: int, end: int) -> int {
    let a = saturating_sum(target, MIN_READ_HEADROOM as int);
    let b = saturating_sum(end, MIN_READ_SLICE as int);
    if a >= b {
        a
    } else {
        b
    }
}

/// `data` followed by zeroes up to length `len`.
pub open spec fn zero_extended(data: Seq<u8>, len: int) -> Seq<u8> {
    if data.len() < len {
        data + Seq::new((len - data.len()) as nat, |i: int| 0u8)
    } else {
        data
    }
}

impl ReadBuf {
    /// The initialized bytes.
    pub closed spec fn data(self) -> Seq<u8> {
        self.buf@
    }

    /// Where the pending data starts.
    pub closed spec fn start_pos(self) -> int {
        self.start as int
    }

    /// Where the pending data ends.
    pub closed spec fn end_pos(self) -> int {
        self.end as int
    }

    /// The cursors are in order and inside the buffer.
    pub open spec fn wf(self) -> bool {
        0 <= self.start_pos() <= self.end_pos() <= self.data().len() <= usize::MAX
    }

    /// Received but unprocessed bytes.
    pub open spec fn pending_bytes(self) -> Seq<u8> {
        self.data().subrange(self.start_pos(), self.end_pos())
    }

    /// Bytes that the next read can fill.
    pub open spec fn spare_len_spec(self) -> int {
        self.data().len() - self.end_pos()
    }

    /// An empty buffer with the given initial allocation.
    pub fn with_capacity(capacity: usize) -> (r: Self)
        ensures
            r.wf(),
            r.start_pos() == 0,
            r.end_pos() == 0,
            r.data() == Seq::<u8>::empty(),
    {
        ReadBuf { buf: Vec::with_capacity(capacity), start: 0, end: 0 }
    }

    /// Number of unconsumed bytes.
    pub fn pending_len(&self) -> (n: usize)
        requires
            self.wf(),
        ensures
            n == self.pending_bytes().len(),
    {
        self.end - self.start
    }

    /// Unconsumed data.
    pub fn pending(&self) -> (r: &[u8])
        requires
            self.wf(),
        ensures
            r@ == self.pending_bytes(),
    {
        &self.buf[self.start..self.end]
    }

    /// Initialized bytes at an absolute range.  Absolute offsets are
    /// invalidated by a compaction.
    pub fn slice(&self, range: Range<usize>) -> (r: &[u8])
        requires
            range.start <= range.end <= self.data().len(),
        ensures
            r@ == self.data().subrange(range.start as int, range.end as int),
    {
        &self.buf[range.start..range.end]
    }

    /// Absolute offset of the end of the pending data.
    pub fn end_offset(&self) -> (n: usize)
        ensures
            n == self.end_pos(),
    {
        self.end
    }

    /// Absolute offset of the start of the pending data.
    pub fn start_offset(&self) -> (n: usize)
        ensures
            n == self.start_pos(),
    {
        self.start
    }

    /// Advance past `n` bytes of pending data, or past all of it if there is
    /// less; the bytes stay in place.
    pub fn consume(&mut self, n: usize)
        requires
            old(self).wf(),
        ensures
            final(self).wf(),
            final(self).data() == old(self).data(),
            final(self).end_pos() == old(self).end_pos(),
            n <= old(self).pending_bytes().len() ==> {
                &&& final(self).start_pos() == old(self).start_pos() + n
                &&& final(self).pending_bytes() == old(self).pending_bytes().skip(n as int)
            },
            n > old(self).pending_bytes().len() ==> {
                &&& final(self).start_pos() == old(self).end_pos()
                &&& final(self).pending_bytes() == Seq::<u8>::empty()
            },
    {
        let past: usize = self.start.saturating_add(n);
        self.start = if past < self.end {
            past
        } else {
            self.end
        };
        proof {
            if n <= old(self).pending_bytes().len() {
                assert(self.pending_bytes() =~= old(self).pending_bytes().skip(n as int));
            } else {
                assert(self.pending_bytes() =~= Seq::<u8>::empty());
            }
        }
    }

    /// Begin to make at least `need` bytes pending.  Returns `true` if they
    /// are there already; otherwise the spare region has been made large
    /// enough, and the stream is to be read into it, each outcome going to
    /// [`read_once`](Self::read_once), until `need` bytes are pending.  More
    /// than that may arrive; the extra data stays buffered.  Bytes that were
    /// read stay in the buffer after an error, so that a fill that is begun
    /// again goes on where it stopped.
    pub fn fill_from(&mut self, need: usize) -> (done: bool)
        requires
            old(self).wf(),
        ensures
            final(self).wf(),
            final(self).start_pos() == old(self).start_pos(),
            final(self).end_pos() == old(self).end_pos(),
            final(self).pending_bytes() == old(self).pending_bytes(),
            done <==> old(self).end_pos() >= saturating_sum(
                old(self).start_pos(),
                need as int,
            ),
            done ==> *final(self) == *old(self),
            !done ==> final(self).data() == zero_extended(
                old(self).data(),
                initialized_len(
                    saturating_sum(old(self).start_pos(), need as int),
                    old(self).end_pos(),
                ),
            ) && final(self).spare_len_spec() > 0,
    {
        let target: usize = self.start.saturating_add(need);
        if self.end >= target {
            return true;
        }
        self.ensure_initialized(target);
        assert(self.pending_bytes() =~= old(self).pending_bytes());
        false
    }

    /// Initialize the buffer to at least `target` and some headroom.
    fn ensure_initialized(&mut self, target: usize)
        requires
            old(self).wf(),
        ensures
            final(self).wf(),
            final(self).start_pos() == old(self).start_pos(),
            final(self).end_pos() == old(self).end_pos(),
            final(self).data() == zero_extended(
                old(self).data(),
                initialized_len(target as int, old(self).end_pos()),
            ),
    {
        let a: usize = target.saturating_add(MIN_READ_HEADROOM);
        let b: usize = self.end.saturating_add(MIN_READ_SLICE);
        let needed: usize = if a >= b { a } else { b };
        if self.buf.len() < needed {
            self.buf.resize(needed, 0);
            assert(self.buf@ =~= zero_extended(
                old(self).data(),
                initialized_len(target as int, old(self).end_pos()),
            ));
        }
    }

    /// The region that the next read fills.
    pub fn spare_mut(&mut self) -> (r: &mut [u8])
        requires
            old(self).wf(),
        ensures
            r@ == old(self).data().skip(old(self).end_pos()),
            final(self).data() == old(self).data().take(old(self).end_pos()) + final(r)@,
            final(self).start_pos() == old(self).start_pos(),
            final(self).end_pos() == old(self).end_pos(),
    {
        let end: usize = self.end;
        let (_, spare) = self.buf.as_mut_slice().split_at_mut(end);
        spare
    }

    /// Take in the outcome of one read into the spare region.  `Ok(true)` if
    /// bytes arrived, `Ok(false)` if the read was interrupted and is to be
    /// made again.
    pub fn read_once(&mut self, outcome: Result<usize, IoError>) -> (r: Result<bool, FillError>)
        requires
            old(self).wf(),
            outcome matches Ok(n) ==> n <= old(self).spare_len_spec(),
        ensures
            final(self).wf(),
            r == read_once_result(outcome),
            final(self).data() == old(self).data(),
            final(self).start_pos() == old(self).start_pos(),
            final(self).end_pos() == old(self).end_pos() + (match outcome {
                Ok(n) => n as int,
                Err(_) => 0,
            }),
            final(self).pending_bytes() == old(self).data().subrange(
                old(self).start_pos(),
                final(self).end_pos(),
            ),
    {
        match outcome {
            Ok(n) => {
                if n == 0 {
                    Err(FillError::Eof)
                } else {
                    self.end = self.end + n;
                    Ok(true)
                }
            },
            Err(e) => {
                if e.kind == IoErrorKind::Interrupted {
                    Ok(false)
                } else if e.is_would_block() {
                    Err(FillError::WouldBlock)
                } else {
                    Err(FillError::Io(e))
                }
            },
        }
    }

    /// One turn of a search in the pending data.  `outcome` is what the search
    /// said of the data that is pending now (`Ok(None)` where none is, or to
    /// ask for more); `first` marks the turn before the first read.  The
    /// search ends with the value it found or its own error, or, once `limit`
    /// bytes are pending without a value, with
    /// [`ReadUntilError::LimitReached`].  On `Ok(None)` the stream is to be
    /// read once more.  A read may buffer data beyond `limit`; it stays
    /// pending for later operations.
    pub fn read_until<T, E>(
        &mut self,
        limit: usize,
        first: bool,
        outcome: Result<Option<T>, E>,
    ) -> (r: Result<Option<T>, ReadUntilError<E>>)
        requires
            old(self).wf(),
            !first ==> old(self).data().len() >= saturating_sum(
                old(self).start_pos(),
                limit as int,
            ),
        ensures
            final(self).wf(),
            final(self).start_pos() == old(self).start_pos(),
            final(self).end_pos() == old(self).end_pos(),
            final(self).pending_bytes() == old(self).pending_bytes(),
            r == read_until_result(
                outcome,
                old(self).end_pos() >= saturating_sum(old(self).start_pos(), limit as int),
            ),
            final(self).data() == (if first && r matches Ok(None) {
                zero_extended(
                    old(self).data(),
                    initialized_len(
                        saturating_sum(old(self).start_pos(), limit as int),
                        old(self).end_pos(),
                    ),
                )
            } else {
                old(self).data()
            }),
            r matches Ok(None) ==> final(self).spare_len_spec() > 0 && final(self).data().len()
                >= saturating_sum(old(self).start_pos(), limit as int),
    {
        match outcome {
            Err(e) => Err(ReadUntilError::CallbackError(e)),
            Ok(Some(v)) => Ok(Some(v)),
            Ok(None) => {
                let target: usize = self.start.saturating_add(limit);
                if self.end >= target {
                    return Err(ReadUntilError::LimitReached);
                }
                if first {
                    self.ensure_initialized(target);
                }
                assert(self.pending_bytes() =~= old(self).pending_bytes());
                Ok(None)
            },
        }
    }

    /// Shift the pending data to the front of the buffer, over the consumed
    /// part.  What is not overwritten stays as it is, so the spare region
    /// remains initialized.
    pub fn compact(&mut self)
        requires
            old(self).wf(),
        ensures
            final(self).wf(),
            old(self).compacted(*final(self)),
    {
        let ghost before = *self;
        let n: usize = self.end - self.start;
        let mut i: usize = 0;
        while i < n
            invariant
                before.wf(),
                self.start == before.start,
                self.end == before.end,
                n == self.end - self.start,
                i <= n,
                self.buf@.len() == before.buf@.len(),
                forall|k: int| 0 <= k < i ==> self.buf@[k] == before.buf@[k + before.start],
                forall|k: int| i <= k < self.buf@.len() ==> self.buf@[k] == before.buf@[k],
            decreases n - i,
        {
            let b: u8 = self.buf[self.start + i];
            self.buf[i] = b;
            i = i + 1;
        }
        self.start = 0;
        self.end = n;
        assert(self.pending_bytes() =~= before.pending_bytes());
        assert(self.data() =~= before.pending_bytes() + before.data().skip(n as int));
    }

    /// The consumed prefix wastes enough memory.
    pub open spec fn compacts(self, threshold: usize) -> bool {
        &&& self.start_pos() > 0
        &&& self.start_pos() == self.end_pos() || (self.start_pos() > threshold && self.start_pos()
            > self.end_pos() / 2)
    }

    /// `after` is the buffer with the pending data at the front.
    pub open spec fn compacted(self, after: Self) -> bool {
        let pending = self.pending_bytes();
        &&& after.start_pos() == 0
        &&& after.end_pos() == pending.len()
        &&& after.pending_bytes() == pending
        &&& after.data() == pending + self.data().skip(pending.len() as int)
    }

    /// Compact when the consumed prefix wastes enough memory: when everything
    /// is consumed, or when the prefix exceeds both `threshold` and half of
    /// the data read.  Returns whether it did.
    pub fn maybe_compact(&mut self, threshold: usize) -> (compacted: bool)
        requires
            old(self).wf(),
        ensures
            final(self).wf(),
            final(self).pending_bytes() == old(self).pending_bytes(),
            compacted <==> old(self).compacts(threshold),
            compacted ==> old(self).compacted(*final(self)),
            !compacted ==> *final(self) == *old(self),
    {
        if self.start > 0 && (self.start == self.end || (self.start > threshold && self.start
            > self.end / 2)) {
            self.compact();
            true
        } else {
            false
        }
    }

    /// Once in a while, give allocated memory beyond `max_cap` back, the spare
    /// region included.  The data is not touched.  To be called after
    /// compacting: it does nothing while there is consumed data.
    ///
    /// How much is allocated is up to the allocator, but never less than the
    /// initialized memory: with more of that than `max_cap`, the odds are drawn
    /// and decide.
    pub fn maybe_shrink_capacity<R: Rng>(&mut self, max_cap: usize, rng: &mut R)
        requires
            old(self).wf(),
        ensures
            final(self).wf(),
            old(self).shrinks_to(max_cap, old(rng), *final(self), final(rng)),
    {
        if self.start == 0 && capacity_of(&self.buf) > max_cap {
            let odds: bool = rng.one_in_eight_odds();
            assert(drew_odds(old(rng), odds, rng));
            if odds {
                self.buf.truncate(self.end);
                shrink_capacity(&mut self.buf, max_cap);
                assert(self.data() =~= old(self).data().take(old(self).end_pos()));
                assert(self.pending_bytes() =~= old(self).pending_bytes());
            }
        }
    }

    /// What is pending stays.  With consumed data, nothing happens; else the
    /// odds may be drawn, and are with more than `max_cap` bytes initialized.
    pub open spec fn shrinks_to<R: Rng>(
        self,
        max_cap: usize,
        rng: &R,
        after: Self,
        rng_after: &R,
    ) -> bool {
        let same = after == self && *rng_after == *rng;
        &&& after.start_pos() == self.start_pos()
        &&& after.end_pos() == self.end_pos()
        &&& after.pending_bytes() == self.pending_bytes()
        &&& self.start_pos() > 0 ==> same
        &&& self.start_pos() == 0 && self.data().len() > max_cap ==> self.shrunk_by_odds(
            rng,
            after,
            rng_after,
        )
        &&& same || self.shrunk_by_odds(rng, after, rng_after)
    }

    /// Between frames: compacted if that is worth it, and then perhaps shrunk.
    pub open spec fn tidied<R: Rng>(
        self,
        threshold: usize,
        max_cap: usize,
        rng: &R,
        after: Self,
        rng_after: &R,
    ) -> bool {
        if self.compacts(threshold) {
            exists|c: Self|
                #[trigger] self.compacted(c) && c.shrinks_to(max_cap, rng, after, rng_after)
        } else {
            after == self && *rng_after == *rng
        }
    }

    /// The odds are drawn, and the spare region is given back when they say so:
    /// the buffer is `after` afterwards.
    pub open spec fn shrunk_by_odds<R: Rng>(self, rng: &R, after: Self, rng_after: &R) -> bool {
        exists|odds: bool|
            #[trigger] drew_odds(rng, odds, rng_after) && if odds {
                after.data() == self.data().take(self.end_pos())
            } else {
                after == self
            }
    }

    /// Discard all data, keeping the initialized memory.
    pub fn clear(&mut self)
        requires
            old(self).wf(),
        ensures
            final(self).wf(),
            final(self).start_pos() == 0,
            final(self).end_pos() == 0,
            final(self).data() == old(self).data(),
            final(self).pending_bytes() == Seq::<u8>::empty(),
    {
        self.start = 0;
        self.end = 0;
        assert(self.pending_bytes() =~= Seq::<u8>::empty());
    }
}

/// What one read means to a fill: bytes arrived, or the read is to be made
/// again, or the fill stops.
pub open spec fn read_once_result(outcome: Result<usize, IoError>) -> Result<bool, FillError> {
    match outcome {
        Ok(n) => if n == 0 {
            Err(FillError::Eof)
        } else {
            Ok(true)
        },
        Err(e) => if e.kind == IoErrorKind::Interrupted {
            Ok(false)
        } else if e.spec_is_would_block() {
            Err(FillError::WouldBlock)
        } else {
            Err(FillError::Io(e))
        },
    }
}

/// What one turn of a search returns.
pub open spec fn read_until_result<T, E>(
    outcome: Result<Option<T>, E>,
    limit_reached: bool,
) -> Result<Option<T>, ReadUntilError<E>> {
    match outcome {
        Err(e) => Err(ReadUntilError::CallbackError(e)),
        Ok(Some(v)) => Ok(Some(v)),
        Ok(None) => if limit_reached {
            Err(ReadUntilError::LimitReached)
        } else {
            Ok(None)
        },
    }
}

} // verus!
