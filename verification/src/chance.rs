//! The probability with which a cell is given a mine, and the random draw
//! that decides it.

use vstd::prelude::*;
use rand::rngs::StdRng;

verus! {

/// The seedable random number generator `rand::rngs::StdRng`. Nothing is
/// known of its state.
#[verifier::external_type_specification]
#[verifier::external_body]
pub struct ExStdRng(rand::rngs::StdRng);

/// One random draw that comes out `true` with a chance of `numerator` in
/// `denominator`.
///
/// Calls `rand::Rng::gen_ratio` on the generator. Not proved, taken from its
/// documentation: with a numerator of zero the draw is always `false`, and
/// with a numerator equal to the denominator it is always `true`. Of any
/// other draw nothing is claimed. The call panics on a denominator of zero
/// and on a numerator above the denominator, which the precondition excludes.
#[verifier::external_body]
fn gen_ratio(rng: &mut StdRng, numerator: u32, denominator: u32) -> (hit: bool)
    requires
        0 < denominator,
        numerator <= denominator,
    ensures
        numerator == 0 ==> !hit,
        numerator == denominator ==> hit,
{
    rand::Rng::gen_ratio(rng, numerator, denominator)
}

/// A probability between 0 and 1, held as a ratio of two whole numbers.
#[derive(Clone, Copy, Debug)]
pub struct Probability {
    num: u32,
    den: u32,
}

impl Probability {
    #[verifier::type_invariant]
    spec fn valid(self) -> bool {
        0 < self.den && self.num <= self.den
    }

    /// The upper part of the ratio.
    pub closed spec fn numerator(self) -> nat {
        self.num as nat
    }

    /// The lower part of the ratio.
    pub closed spec fn denominator(self) -> nat {
        self.den as nat
    }

    /// The probability is 0: the event never happens.
    pub open spec fn is_never(self) -> bool {
        self.numerator() == 0
    }

    /// The probability is 1: the event always happens.
    pub open spec fn is_always(self) -> bool {
        self.numerator() == self.denominator()
    }

    /// The probability of `numerator` in `denominator`, or `None` where the
    /// two do not make a probability: where the denominator is zero or the
    /// numerator is above it.
    pub fn new(numerator: u32, denominator: u32) -> (chance: Option<Probability>)
        ensures
            chance is Some <==> 0 < denominator && numerator <= denominator,
            chance matches Some(p) ==> p.numerator() == numerator && p.denominator()
                == denominator,
    {
        if denominator == 0 || numerator > denominator {
            None
        } else {
            Some(Probability { num: numerator, den: denominator })
        }
    }

    /// The probability 0.
    pub fn never() -> (chance: Probability)
        ensures
            chance.numerator() == 0,
            chance.denominator() == 1,
    {
        Probability { num: 0, den: 1 }
    }

    /// The probability 1.
    pub fn always() -> (chance: Probability)
        ensures
            chance.numerator() == 1,
            chance.denominator() == 1,
    {
        Probability { num: 1, den: 1 }
    }

    /// Draws once from the generator: `true` with this probability. A
    /// probability of 0 never gives `true` and a probability of 1 always does;
    /// any other draw is up to the generator.
    pub fn sample(&self, rng: &mut StdRng) -> (hit: bool)
        ensures
            self.is_never() ==> !hit,
            self.is_always() ==> hit,
    {
        proof {
            use_type_invariant(self);
        }
        gen_ratio(rng, self.num, self.den)
    }
}

} // verus!
