//! The score of an event.

use vstd::prelude::*;

verus! {

/// The largest bit pattern a rating can have: positive infinity in
/// IEEE 754 binary32.
pub const RATING_CEILING: u32 = 0x7F80_0000;

/// A score that is never negative and always a number.
///
/// The score is kept as its IEEE 754 binary32 bit pattern. Among the
/// patterns up to [`RATING_CEILING`] a larger pattern encodes a larger
/// score, so two ratings compare as their patterns do, and the pattern `0`
/// is the score zero.
#[derive(Clone, Copy, Debug, PartialEq, Eq, Structural)]
pub struct Rating {
    bits: u32,
}

impl Rating {
    #[verifier::type_invariant]
    spec fn in_range(self) -> bool {
        self.bits <= RATING_CEILING
    }

    /// The bit pattern of the score.
    pub closed spec fn key(self) -> u32 {
        self.bits
    }

    /// The rating every event starts with.
    pub fn zero() -> (rating: Rating)
        ensures
            rating.key() == 0,
    {
        Rating { bits: 0 }
    }

    /// The rating with the given bit pattern, if the pattern encodes a
    /// score that is neither negative nor "not a number".
    pub fn from_bits(bits: u32) -> (rating: Option<Rating>)
        ensures
            rating is Some <==> bits <= RATING_CEILING,
            rating matches Some(r) ==> r.key() == bits,
    {
        if bits <= RATING_CEILING {
            Some(Rating { bits })
        } else {
            None
        }
    }

    /// The bit pattern of the score, which never exceeds [`RATING_CEILING`].
    pub fn bits(&self) -> (bits: u32)
        ensures
            bits == self.key(),
            bits <= RATING_CEILING,
    {
        proof {
            use_type_invariant(self);
        }
        self.bits
    }

    /// Whether this score is at least as high as `other`.
    pub fn at_least(&self, other: &Rating) -> (holds: bool)
        ensures
            holds == (self.key() >= other.key()),
    {
        self.bits >= other.bits
    }
}

} // verus!
