//! The random draws the bots make, through `rand`. What comes out is only
//! ever known to be one of the things it was drawn from.

use vstd::prelude::*;

use crate::model::Outcome;
use crate::use_cases::bet::MIN_TICK;
use rand::seq::IndexedRandom;
use rand::RngExt;

verus! {

#[verifier::external_type_specification]
#[verifier::external_body]
pub struct ExStdRng(rand::rngs::StdRng);

/// `rand::seq::IndexedRandom::choose`: one element of `items`, or none when
/// there are none.
#[verifier::external_body]
pub(crate) fn choose_in<'a, T>(items: &'a [T], rng: &mut rand::rngs::StdRng) -> (r: Option<&'a T>)
    ensures
        items@.len() == 0 <==> r is None,
        r matches Some(x) ==> items@.contains(*x),
{
    items.choose(rng)
}

/// `rand::RngExt::random_range` over `lo..=hi`, which must not be empty.
#[verifier::external_body]
pub(crate) fn random_in(lo: i64, hi: i64, rng: &mut rand::rngs::StdRng) -> (r: i64)
    requires
        lo <= hi,
    ensures
        lo <= r <= hi,
{
    rng.random_range(lo..=hi)
}

/// How heavily an outcome weighs when a winner is drawn: its price, but at
/// least one, so an outcome nobody backed can still win.
pub open spec fn winner_weight_of(o: Outcome) -> u32 {
    if o.price < MIN_TICK {
        MIN_TICK
    } else {
        o.price
    }
}

pub fn winner_weight(o: &Outcome) -> (r: u32)
    ensures
        r == winner_weight_of(*o),
        r >= 1,
{
    if o.price < MIN_TICK {
        MIN_TICK
    } else {
        o.price
    }
}

/// `rand::seq::IndexedRandom::choose_weighted` with `winner_weight`: one of
/// `outcomes`, drawn in proportion to its weight; none when the weights
/// cannot be sampled (no outcomes, or their sum overflows).
#[verifier::external_body]
pub(crate) fn choose_weighted_outcome<'a>(outcomes: &'a [Outcome], rng: &mut rand::rngs::StdRng) -> (r: Option<&'a Outcome>)
    ensures
        outcomes@.len() == 0 ==> r is None,
        r matches Some(x) ==> outcomes@.contains(*x),
{
    outcomes.choose_weighted(rng, |o| winner_weight(o)).ok()
}

} // verus!
