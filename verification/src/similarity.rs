//! Similarity of two embedding vectors as a fixed-point number.

use vstd::prelude::*;

verus! {

/// The fixed-point value that stands for a similarity of exactly one: a
/// similarity is counted in millionths.
pub const SIMILARITY_ONE: i32 = 1_000_000;

/// A cosine similarity between `-1` and `1` inclusive, in millionths.
#[derive(Clone, Copy, Debug, PartialEq, Eq, Structural)]
pub struct Similarity {
    millionths: i32,
}

impl Similarity {
    /// The number of millionths.
    pub closed spec fn value(self) -> int {
        self.millionths as int
    }

    /// The value lies between minus one and one.
    pub open spec fn in_range(self) -> bool {
        -SIMILARITY_ONE <= self.value() <= SIMILARITY_ONE
    }

    #[verifier::type_invariant]
    spec fn bounded(self) -> bool {
        self.in_range()
    }

    /// The nearest similarity to `millionths`: values beyond one in either
    /// direction are brought back to the bound.
    pub open spec fn clamp(millionths: int) -> int {
        if millionths < -SIMILARITY_ONE {
            -SIMILARITY_ONE as int
        } else if millionths > SIMILARITY_ONE {
            SIMILARITY_ONE as int
        } else {
            millionths
        }
    }

    /// Makes a similarity from a count of millionths, clamped to the range.
    pub fn from_millionths(millionths: i64) -> (res: Similarity)
        ensures
            res.value() == Self::clamp(millionths as int),
            res.in_range(),
    {
        if millionths < -(SIMILARITY_ONE as i64) {
            Similarity { millionths: -SIMILARITY_ONE }
        } else if millionths > SIMILARITY_ONE as i64 {
            Similarity { millionths: SIMILARITY_ONE }
        } else {
            Similarity { millionths: millionths as i32 }
        }
    }

    /// The similarity of vectors that have nothing to say about each other,
    /// and of a pair with a vector missing.
    pub fn zero() -> (res: Similarity)
        ensures
            res.value() == 0,
            res.in_range(),
    {
        Similarity { millionths: 0 }
    }

    /// Two similarities of the same value are the same.
    pub proof fn lemma_value_is_all(a: Similarity, b: Similarity)
        requires
            a.value() == b.value(),
        ensures
            a == b,
    {
    }

    /// The number of millionths.
    pub fn millionths(&self) -> (res: i32)
        ensures
            res == self.value(),
            self.in_range(),
    {
        proof {
            use_type_invariant(self);
        }
        self.millionths
    }
}

} // verus!
