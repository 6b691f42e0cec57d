//! The loop that puts money on the board: which market, which outcome, how
//! much, and when a bot's balance is topped up first.

use vstd::prelude::*;

use crate::demo::random::{choose_in, random_in};
use crate::model::Outcome;
use crate::use_cases::market::MarketView;

verus! {

/// Stake range in minimal currency units, in whole steps.
pub const MIN_STAKE: i64 = 50;

pub const MAX_STAKE: i64 = 900;

pub const STAKE_STEP: i64 = 25;

/// A stake of `steps` whole steps.
pub fn stake_of_steps(steps: i64) -> (r: i64)
    requires
        MIN_STAKE / STAKE_STEP <= steps <= MAX_STAKE / STAKE_STEP,
    ensures
        r == steps * STAKE_STEP,
        MIN_STAKE <= r <= MAX_STAKE,
        r % STAKE_STEP == 0,
{
    steps * STAKE_STEP
}

/// A random stake in whole steps, between the smallest and the largest.
pub fn stake(rng: &mut rand::rngs::StdRng) -> (r: i64)
    ensures
        MIN_STAKE <= r <= MAX_STAKE,
        r % STAKE_STEP == 0,
{
    let steps = random_in(MIN_STAKE / STAKE_STEP, MAX_STAKE / STAKE_STEP, rng);
    stake_of_steps(steps)
}

/// The market's favourite: the outcome at the highest price, the last of
/// them on a tie.
pub open spec fn is_favourite(os: Seq<Outcome>, i: int) -> bool {
    &&& 0 <= i < os.len()
    &&& forall|j: int| 0 <= j < os.len() ==> (#[trigger] os[j]).price <= os[i].price
    &&& forall|j: int| i < j < os.len() ==> (#[trigger] os[j]).price < os[i].price
}

pub fn favourite(outcomes: &Vec<Outcome>) -> (r: usize)
    requires
        outcomes@.len() > 0,
    ensures
        is_favourite(outcomes@, r as int),
{
    let mut best: usize = 0;
    let mut i: usize = 1;
    while i < outcomes.len()
        invariant
            1 <= i <= outcomes@.len(),
            best < i,
            forall|j: int| 0 <= j < i ==> (#[trigger] outcomes@[j]).price <= outcomes@[best as int].price,
            forall|j: int| best < j < i ==> (#[trigger] outcomes@[j]).price < outcomes@[best as int].price,
        decreases outcomes.len() - i,
    {
        if outcomes[i].price >= outcomes[best].price {
            best = i;
        }
        i = i + 1;
    }
    best
}

/// What to back: the favourite when `back_favourite` (the caller's weighted
/// coin), otherwise any outcome.
pub fn pick_outcome<'a>(outcomes: &'a Vec<Outcome>, back_favourite: bool, rng: &mut rand::rngs::StdRng) -> (r: &'a Outcome)
    requires
        outcomes@.len() > 0,
    ensures
        outcomes@.contains(*r),
        back_favourite ==> exists|i: int| is_favourite(outcomes@, i) && outcomes@[i] == *r,
{
    if back_favourite {
        let i = favourite(outcomes);
        return &outcomes[i];
    }
    match choose_in(outcomes.as_slice(), rng) {
        Some(o) => o,
        None => &outcomes[0],
    }
}

/// How much to credit a bot before it stakes `amount`: nothing when its
/// balance covers the stake, otherwise enough to bring it back to the larger
/// of a new account's balance and the stake.
pub fn top_up_credit(balance: i64, amount: i64, starting_balance: i64) -> (r: Option<i64>)
    requires
        (if starting_balance > amount { starting_balance } else { amount }) - balance <= i64::MAX,
    ensures
        balance >= amount ==> r is None,
        balance < amount ==> r == Some(
            ((if starting_balance > amount { starting_balance } else { amount }) - balance) as i64,
        ),
        r matches Some(c) ==> top_up_of(balance as int, amount as int, starting_balance as int)
            == Some(c as int),
        r is None <==> top_up_of(balance as int, amount as int, starting_balance as int) is None,
{
    if balance >= amount {
        return None;
    }
    let target = if starting_balance > amount {
        starting_balance
    } else {
        amount
    };
    Some(target - balance)
}

/// The indices below `n` of listed markets a bot can trade on: still taking
/// bets (`accepting`, as each market says at the time) and with at least two
/// outcomes, in listing order.
pub open spec fn tradable_below(views: Seq<MarketView>, accepting: Seq<bool>, n: int) -> Seq<usize>
    decreases n,
{
    if n <= 0 {
        Seq::empty()
    } else if accepting[n - 1] && views[n - 1].outcomes@.len() >= 2 {
        tradable_below(views, accepting, n - 1).push((n - 1) as usize)
    } else {
        tradable_below(views, accepting, n - 1)
    }
}

/// The listed markets a bot can trade on.
pub fn tradable(views: &Vec<MarketView>, accepting: &Vec<bool>) -> (r: Vec<usize>)
    requires
        views@.len() == accepting@.len(),
    ensures
        r@ == tradable_below(views@, accepting@, views@.len() as int),
{
    let mut r: Vec<usize> = Vec::new();
    let mut i: usize = 0;
    while i < views.len()
        invariant
            i <= views@.len() == accepting@.len(),
            r@ == tradable_below(views@, accepting@, i as int),
        decreases views.len() - i,
    {
        if accepting[i] && views[i].outcomes.len() >= 2 {
            r.push(i);
        }
        i = i + 1;
    }
    r
}

/// A listed market is traded on exactly when it still takes bets and has at
/// least two outcomes: every index `tradable` gives names such a market, once
/// and in listing order, and every such market is given.
pub proof fn tradable_means_open_with_a_choice(views: Seq<MarketView>, accepting: Seq<bool>, n: int)
    requires
        0 <= n <= views.len(),
        views.len() == accepting.len(),
        n <= usize::MAX,
    ensures
        forall|j: int|
            0 <= j < tradable_below(views, accepting, n).len() ==> {
                let i = #[trigger] tradable_below(views, accepting, n)[j] as int;
                &&& 0 <= i < n
                &&& accepting[i]
                &&& views[i].outcomes@.len() >= 2
            },
        forall|j: int, k: int|
            0 <= j < k < tradable_below(views, accepting, n).len() ==> tradable_below(
                views,
                accepting,
                n,
            )[j] < tradable_below(views, accepting, n)[k],
        forall|i: int|
            0 <= i < n && accepting[i] && views[i].outcomes@.len() >= 2 ==> tradable_below(
                views,
                accepting,
                n,
            ).contains(i as usize),
    decreases n,
{
    if n > 0 {
        tradable_means_open_with_a_choice(views, accepting, n - 1);
        let prev = tradable_below(views, accepting, n - 1);
        if accepting[n - 1] && views[n - 1].outcomes@.len() >= 2 {
            let cur = prev.push((n - 1) as usize);
            assert(cur[prev.len() as int] == (n - 1) as usize);
            assert forall|j: int, k: int| 0 <= j < k < cur.len() implies cur[j] < cur[k] by {
                if k == prev.len() {
                    assert(prev[j] < n - 1);
                }
            }
            assert forall|i: int|
                0 <= i < n && accepting[i] && views[i].outcomes@.len() >= 2 implies cur.contains(
                i as usize,
            ) by {
                if i < n - 1 {
                    let w = choose|w: int| 0 <= w < prev.len() && prev[w] == i as usize;
                    assert(cur[w] == i as usize);
                }
            }
        }
    }
}

/// How much a bot is credited before staking `amount`: nothing when its
/// balance covers the stake, otherwise the way to the larger of a new
/// account's balance and the stake.
pub open spec fn top_up_of(balance: int, amount: int, starting_balance: int) -> Option<int> {
    if balance >= amount {
        None
    } else {
        Some((if starting_balance > amount { starting_balance } else { amount }) - balance)
    }
}

/// After a top-up, a bot can always cover the stake it was topped up for,
/// and is never left below a new account's balance; a bot that can already
/// cover it is not credited.
pub proof fn topped_up_covers_the_stake(balance: int, amount: int, starting_balance: int)
    ensures
        top_up_of(balance, amount, starting_balance) is None <==> balance >= amount,
        top_up_of(balance, amount, starting_balance) matches Some(credit) ==> credit > 0
            && balance + credit >= amount && balance + credit >= starting_balance,
{
}

} // verus!
