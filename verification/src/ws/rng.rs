//! The source of randomness for masking keys and buffer housekeeping.
use vstd::prelude::*;

use crate::bytes::{le_value, lemma_le_value_bound, pow256, read_le};

verus! {

/// The random number generator that a WebSocket draws from.  An own trait, so
/// that the public interface does not depend on any generator crate.
pub trait Rng {
    /// What may be drawn: the generator gives these bytes, and is `after`
    /// afterwards.  A generator that says nothing of itself may give any.
    open spec fn gives(&self, bytes: Seq<u8>, after: &Self) -> bool {
        true
    }

    /// Fill `buf` with random bytes.
    fn fill_bytes(&mut self, buf: &mut [u8])
        ensures
            old(self).gives(final(buf)@, final(self)),
    ;

    /// Return a random `u32`: four random bytes, the lowest first.
    fn next_u32(&mut self) -> (r: u32)
        ensures
            exists|bytes: Seq<u8>|
                bytes.len() == 4 && r == le_value(bytes) && #[trigger] old(self).gives(
                    bytes,
                    final(self),
                ),
    {
        let mut b: [u8; 4] = [0u8; 4];
        self.fill_bytes(&mut b);
        proof {
            lemma_le_value_bound(b@);
            reveal_with_fuel(pow256, 5);
        }
        read_le(&b) as u32
    }

    /// Return `true` with roughly 1-in-8 probability: when a random `u32` is a
    /// multiple of eight.
    fn one_in_eight_odds(&mut self) -> (r: bool)
        ensures
            exists|bytes: Seq<u8>|
                bytes.len() == 4 && r == (le_value(bytes) % 8 == 0) && #[trigger] old(self).gives(
                    bytes,
                    final(self),
                ),
    {
        let n: u32 = self.next_u32();
        assert(n & 0b111 == n % 8) by (bit_vector);
        n & 0b111 == 0
    }
}

/// The generator was asked for a `u32`: it gave `n`, and is `after` afterwards.
pub open spec fn drew<R: Rng>(before: &R, n: u32, after: &R) -> bool {
    exists|bytes: Seq<u8>|
        bytes.len() == 4 && n == le_value(bytes) && #[trigger] before.gives(bytes, after)
}

/// The generator was asked for one-in-eight odds: they came out as `odds`, and
/// the generator is `after` afterwards.
pub open spec fn drew_odds<R: Rng>(before: &R, odds: bool, after: &R) -> bool {
    exists|bytes: Seq<u8>|
        bytes.len() == 4 && odds == (le_value(bytes) % 8 == 0) && #[trigger] before.gives(
            bytes,
            after,
        )
}

} // verus!
