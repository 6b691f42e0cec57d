//! Placing bets and listing them with the names a feed needs.
//!
//! Each use case holds the stores it reads and writes; the reads and writes
//! themselves happen with whoever runs it, and every decision between them is
//! made by the functions here.

use vstd::prelude::*;

use crate::error::{broken_link, ApplicationError, DomainError};
use crate::ids::{market_id_text, outcome_id_text, user_id_text};
use crate::actor::Actor;
use crate::error::described;
use crate::model::{Bet, Market, MarketId, Outcome, OutcomeId, PricePoint, User, UserId};

verus! {

/// The lowest price a bet can be bought at: one ten-thousandth. An outcome
/// nobody has backed yet sits at zero, which would leave the payout undefined.
pub const MIN_TICK: u32 = 1;

/// A bet joined with the display names a feed or history entry needs.
pub struct BetView {
    pub bet: Bet,
    pub username: String,
    pub market_title: String,
    pub outcome_label: String,
}

/// Validated inputs for placing a bet.
pub struct NewBet {
    pub outcome_id: OutcomeId,
    /// Stake in minimal currency units.
    pub amount: i64,
}

/// Stakes part of the acting user's balance on one outcome of an open market.
pub struct PlaceBet<M, B, U> {
    pub markets: M,
    pub bets: B,
    pub users: U,
}

impl<M, B, U> PlaceBet<M, B, U> {
    pub fn new(markets: M, bets: B, users: U) -> (r: Self)
        ensures
            r.markets == markets,
            r.bets == bets,
            r.users == users,
    {
        PlaceBet { markets, bets, users }
    }
}

/// The public cross-market feed of recently placed (or biggest) bets.
pub struct ListBetFeed<B, M, U> {
    pub bets: B,
    pub markets: M,
    pub users: U,
}

impl<B, M, U> ListBetFeed<B, M, U> {
    pub fn new(bets: B, markets: M, users: U) -> (r: Self)
        ensures
            r.bets == bets,
            r.markets == markets,
            r.users == users,
    {
        ListBetFeed { bets, markets, users }
    }
}

/// The bets placed on one market.
pub struct ListMarketBets<B, M, U> {
    pub bets: B,
    pub markets: M,
    pub users: U,
}

impl<B, M, U> ListMarketBets<B, M, U> {
    pub fn new(bets: B, markets: M, users: U) -> (r: Self)
        ensures
            r.bets == bets,
            r.markets == markets,
            r.users == users,
    {
        ListMarketBets { bets, markets, users }
    }
}

/// One user's bet history.
pub struct ListUserBets<B, M, U> {
    pub bets: B,
    pub markets: M,
    pub users: U,
}

impl<B, M, U> ListUserBets<B, M, U> {
    pub fn new(bets: B, markets: M, users: U) -> (r: Self)
        ensures
            r.bets == bets,
            r.markets == markets,
            r.users == users,
    {
        ListUserBets { bets, markets, users }
    }
}

/// The first index at or after `i` of the outcome with id `id`.
pub open spec fn first_outcome_from(os: Seq<Outcome>, id: OutcomeId, i: int) -> Option<int>
    decreases os.len() - i,
{
    if i < 0 || i >= os.len() {
        None
    } else if os[i].id == id {
        Some(i)
    } else {
        first_outcome_from(os, id, i + 1)
    }
}

pub open spec fn not_in_market_text(outcome: OutcomeId, market: MarketId) -> Seq<char> {
    "outcome "@ + outcome_id_text(outcome) + " does not belong to market "@ + market_id_text(
        market,
    )
}

/// Which of the market's outcomes the bet is on: the first with the bet's
/// outcome id, or a rule violation when the market has none.
pub fn chosen_outcome(outcomes: &Vec<Outcome>, outcome_id: OutcomeId, market_id: MarketId) -> (r:
    Result<usize, ApplicationError>)
    ensures
        match first_outcome_from(outcomes@, outcome_id, 0) {
            Some(i) => r == Ok::<usize, ApplicationError>(i as usize),
            None => r matches Err(ApplicationError::Domain(DomainError::RuleViolation(m))) && m@
                == not_in_market_text(outcome_id, market_id),
        },
{
    let mut i: usize = 0;
    while i < outcomes.len()
        invariant
            i <= outcomes@.len(),
            first_outcome_from(outcomes@, outcome_id, 0) == first_outcome_from(
                outcomes@,
                outcome_id,
                i as int,
            ),
        decreases outcomes.len() - i,
    {
        if outcomes[i].id == outcome_id {
            return Ok(i);
        }
        i = i + 1;
    }
    let mut m = String::from_str("outcome ");
    m.append(outcome_id.to_text().as_str());
    m.append(" does not belong to market ");
    m.append(market_id.to_text().as_str());
    Err(ApplicationError::Domain(DomainError::RuleViolation(m)))
}

/// The price a bet buys at: the one on the board, but never below one tick.
pub fn bet_price(board_price: u32) -> (r: u32)
    ensures
        r == if board_price < MIN_TICK {
            MIN_TICK
        } else {
            board_price
        },
        r >= MIN_TICK,
{
    if board_price < MIN_TICK {
        MIN_TICK
    } else {
        board_price
    }
}

/// One price point per outcome, in the outcomes' order, at its price now.
pub fn price_points(outcomes: &Vec<Outcome>) -> (r: Vec<PricePoint>)
    ensures
        r@.len() == outcomes@.len(),
        forall|i: int|
            0 <= i < outcomes@.len() ==> #[trigger] r@[i] == (PricePoint {
                outcome_id: outcomes@[i].id,
                price: outcomes@[i].price,
            }),
{
    let mut r: Vec<PricePoint> = Vec::new();
    let mut i: usize = 0;
    while i < outcomes.len()
        invariant
            i <= outcomes@.len(),
            r@.len() == i,
            forall|j: int|
                0 <= j < i ==> #[trigger] r@[j] == (PricePoint {
                    outcome_id: outcomes@[j].id,
                    price: outcomes@[j].price,
                }),
        decreases outcomes.len() - i,
    {
        r.push(PricePoint { outcome_id: outcomes[i].id, price: outcomes[i].price });
        i = i + 1;
    }
    r
}

/// A bet with the names it is shown under.
pub fn view_for(bet: Bet, market: &Market, outcome: &Outcome, username: String) -> (r: BetView)
    ensures
        r.bet == bet,
        r.market_title@ == market.title@,
        r.outcome_label@ == outcome.label@,
        r.username@ == username@,
{
    BetView {
        market_title: market.title.clone(),
        outcome_label: outcome.label.clone(),
        username,
        bet,
    }
}

/// `s` with repeats dropped, each kept where it first appears.
pub open spec fn distinct_in_order<A>(s: Seq<A>) -> Seq<A>
    decreases s.len(),
{
    if s.len() == 0 {
        s
    } else {
        let kept = distinct_in_order(s.drop_last());
        if kept.contains(s.last()) {
            kept
        } else {
            kept.push(s.last())
        }
    }
}

/// Dropping repeats keeps every value once and loses none: what comes out
/// holds no value twice, and holds exactly the values that went in.
pub proof fn distinct_in_order_is_each_once<A>(s: Seq<A>)
    ensures
        distinct_in_order(s).no_duplicates(),
        forall|x: A| distinct_in_order(s).contains(x) <==> s.contains(x),
    decreases s.len(),
{
    if s.len() > 0 {
        let rest = s.drop_last();
        distinct_in_order_is_each_once(rest);
        let kept = distinct_in_order(rest);
        assert forall|x: A| s.contains(x) <==> (rest.contains(x) || x == s.last()) by {
            if s.contains(x) {
                let k = choose|k: int| 0 <= k < s.len() && s[k] == x;
                if k < s.len() - 1 {
                    assert(rest[k] == x);
                }
            }
            if rest.contains(x) {
                let k = choose|k: int| 0 <= k < rest.len() && rest[k] == x;
                assert(s[k] == x);
            }
            if x == s.last() {
                assert(s[s.len() - 1] == x);
            }
        }
        if !kept.contains(s.last()) {
            let out = kept.push(s.last());
            assert forall|x: A| out.contains(x) <==> (kept.contains(x) || x == s.last()) by {
                if out.contains(x) {
                    let k = choose|k: int| 0 <= k < out.len() && out[k] == x;
                    if k < kept.len() {
                        assert(kept[k] == x);
                    }
                }
                if kept.contains(x) {
                    let k = choose|k: int| 0 <= k < kept.len() && kept[k] == x;
                    assert(out[k] == x);
                }
                if x == s.last() {
                    assert(out[out.len() - 1] == x);
                }
            }
            assert forall|i: int, j: int| 0 <= i < out.len() && 0 <= j < out.len() && i != j implies out[i]
                != out[j] by {
                if i == out.len() - 1 {
                    assert(kept[j] == out[j]);
                } else if j == out.len() - 1 {
                    assert(kept[i] == out[i]);
                }
            }
        }
    }
}

pub open spec fn markets_of(bets: Seq<Bet>) -> Seq<MarketId> {
    bets.map_values(|b: Bet| b.market_id)
}

pub open spec fn bettors_of(bets: Seq<Bet>) -> Seq<UserId> {
    bets.map_values(|b: Bet| b.user_id)
}

fn holds_market(v: &Vec<MarketId>, id: MarketId) -> (r: bool)
    ensures
        r == v@.contains(id),
{
    let mut i: usize = 0;
    while i < v.len()
        invariant
            i <= v@.len(),
            forall|j: int| 0 <= j < i ==> v@[j] != id,
        decreases v.len() - i,
    {
        if v[i] == id {
            return true;
        }
        i = i + 1;
    }
    false
}

fn holds_user(v: &Vec<UserId>, id: UserId) -> (r: bool)
    ensures
        r == v@.contains(id),
{
    let mut i: usize = 0;
    while i < v.len()
        invariant
            i <= v@.len(),
            forall|j: int| 0 <= j < i ==> v@[j] != id,
        decreases v.len() - i,
    {
        if v[i] == id {
            return true;
        }
        i = i + 1;
    }
    false
}

/// The markets `bets` are placed on, each once.
pub fn distinct_markets(bets: &Vec<Bet>) -> (r: Vec<MarketId>)
    ensures
        r@ == distinct_in_order(markets_of(bets@)),
        r@.no_duplicates(),
        forall|id: MarketId| r@.contains(id) <==> exists|k: int| 0 <= k < bets@.len() && #[trigger] bets@[k].market_id == id,
{
    let mut r: Vec<MarketId> = Vec::new();
    let mut i: usize = 0;
    while i < bets.len()
        invariant
            i <= bets@.len(),
            r@ == distinct_in_order(markets_of(bets@.subrange(0, i as int))),
        decreases bets.len() - i,
    {
        assert(markets_of(bets@.subrange(0, i + 1)).drop_last() =~= markets_of(
            bets@.subrange(0, i as int),
        ));
        let id = bets[i].market_id;
        if !holds_market(&r, id) {
            r.push(id);
        }
        i = i + 1;
    }
    assert(bets@.subrange(0, bets@.len() as int) =~= bets@);
    proof {
        distinct_in_order_is_each_once(markets_of(bets@));
        assert forall|id: MarketId| markets_of(bets@).contains(id) <==> exists|k: int| 0 <= k < bets@.len() && #[trigger] bets@[k].market_id == id by {
            if markets_of(bets@).contains(id) {
                let k = choose|k: int| 0 <= k < markets_of(bets@).len() && markets_of(bets@)[k] == id;
                assert(bets@[k].market_id == id);
            }
            if exists|k: int| 0 <= k < bets@.len() && #[trigger] bets@[k].market_id == id {
                let k = choose|k: int| 0 <= k < bets@.len() && #[trigger] bets@[k].market_id == id;
                assert(markets_of(bets@)[k] == id);
            }
        }
        assert forall|id: MarketId| r@.contains(id) <==> exists|k: int| 0 <= k < bets@.len() && #[trigger] bets@[k].market_id == id by {
            assert(distinct_in_order(markets_of(bets@)).contains(id) <==> markets_of(bets@).contains(id));
        }
    }
    r
}

/// The bettors whose names a listing needs, each once, in the order they are
/// first met: the order their profiles are looked up in.
pub fn bettors_to_resolve(bets: &Vec<Bet>) -> (r: Vec<UserId>)
    ensures
        r@ == distinct_in_order(bettors_of(bets@)),
        r@.no_duplicates(),
        forall|id: UserId| r@.contains(id) <==> exists|k: int| 0 <= k < bets@.len() && #[trigger] bets@[k].user_id == id,
{
    let mut r: Vec<UserId> = Vec::new();
    let mut i: usize = 0;
    while i < bets.len()
        invariant
            i <= bets@.len(),
            r@ == distinct_in_order(bettors_of(bets@.subrange(0, i as int))),
        decreases bets.len() - i,
    {
        assert(bettors_of(bets@.subrange(0, i + 1)).drop_last() =~= bettors_of(
            bets@.subrange(0, i as int),
        ));
        let id = bets[i].user_id;
        if !holds_user(&r, id) {
            r.push(id);
        }
        i = i + 1;
    }
    assert(bets@.subrange(0, bets@.len() as int) =~= bets@);
    proof {
        distinct_in_order_is_each_once(bettors_of(bets@));
        assert forall|id: UserId| bettors_of(bets@).contains(id) <==> exists|k: int| 0 <= k < bets@.len() && #[trigger] bets@[k].user_id == id by {
            if bettors_of(bets@).contains(id) {
                let k = choose|k: int| 0 <= k < bettors_of(bets@).len() && bettors_of(bets@)[k] == id;
                assert(bets@[k].user_id == id);
            }
            if exists|k: int| 0 <= k < bets@.len() && #[trigger] bets@[k].user_id == id {
                let k = choose|k: int| 0 <= k < bets@.len() && #[trigger] bets@[k].user_id == id;
                assert(bettors_of(bets@)[k] == id);
            }
        }
        assert forall|id: UserId| r@.contains(id) <==> exists|k: int| 0 <= k < bets@.len() && #[trigger] bets@[k].user_id == id by {
            assert(distinct_in_order(bettors_of(bets@)).contains(id) <==> bettors_of(bets@).contains(id));
        }
    }
    r
}

/// Some bet in `bets` was placed by `u`.
pub open spec fn has_bettor(bets: Seq<Bet>, u: UserId) -> bool {
    exists|b: int| 0 <= b < bets.len() && #[trigger] bets[b].user_id == u
}

/// One lookup that joining bets with their names makes.
#[derive(Debug, Clone)]
pub enum EnrichLookup {
    /// The markets with these ids, in one batch.
    Markets(Vec<MarketId>),
    /// Every outcome of the markets with these ids, in one batch.
    Outcomes(Vec<MarketId>),
    /// One bettor's account.
    User(UserId),
}

/// The lookups that joining `bets` with their market titles, outcome labels
/// and usernames makes, in the order they are made: the markets in one batch,
/// their outcomes in one batch, both over the bets' market ids with no repeat,
/// then each bettor's account once, in the order the bettors first appear.
/// The caller makes them in this order and stops at the first that fails, so
/// each batch is asked for at most once and no account twice.
pub fn enrich_lookups(bets: &Vec<Bet>) -> (r: Vec<EnrichLookup>)
    ensures
        r@.len() == 2 + distinct_in_order(bettors_of(bets@)).len(),
        r@[0] matches EnrichLookup::Markets(ids) && ids@ == distinct_in_order(markets_of(bets@)),
        r@[1] matches EnrichLookup::Outcomes(ids) && ids@ == distinct_in_order(markets_of(bets@)),
        forall|k: int|
            2 <= k < r@.len() ==> #[trigger] r@[k] == EnrichLookup::User(
                distinct_in_order(bettors_of(bets@))[k - 2],
            ),
        forall|k: int| 0 <= k < r@.len() ==> ((#[trigger] r@[k] is Markets) <==> k == 0),
        forall|k: int| 0 <= k < r@.len() ==> ((#[trigger] r@[k] is Outcomes) <==> k == 1),
        r@[0] matches EnrichLookup::Markets(ids) && ids@.no_duplicates() && forall|id: MarketId|
            ids@.contains(id) <==> exists|b: int| 0 <= b < bets@.len() && #[trigger] bets@[b].market_id == id,
        forall|k1: int, k2: int|
            0 <= k1 < r@.len() && 0 <= k2 < r@.len() && #[trigger] r@[k1] is User && #[trigger] r@[k2]
                == r@[k1] ==> k1 == k2,
        forall|u: UserId|
            #[trigger] has_bettor(bets@, u) <==> exists|k: int|
                0 <= k < r@.len() && #[trigger] r@[k] == EnrichLookup::User(u),
{
    let bettors = bettors_to_resolve(bets);
    let mut r: Vec<EnrichLookup> = Vec::new();
    r.push(EnrichLookup::Markets(distinct_markets(bets)));
    r.push(EnrichLookup::Outcomes(distinct_markets(bets)));
    let mut i: usize = 0;
    while i < bettors.len()
        invariant
            bettors@ == distinct_in_order(bettors_of(bets@)),
            i <= bettors@.len(),
            r@.len() == 2 + i,
            r@[0] matches EnrichLookup::Markets(ids) && ids@ == distinct_in_order(markets_of(bets@)),
            r@[1] matches EnrichLookup::Outcomes(ids) && ids@ == distinct_in_order(markets_of(bets@)),
            forall|k: int| 2 <= k < r@.len() ==> #[trigger] r@[k] == EnrichLookup::User(bettors@[k - 2]),
        decreases bettors.len() - i,
    {
        r.push(EnrichLookup::User(bettors[i]));
        i = i + 1;
    }
    proof {
        let d = distinct_in_order(bettors_of(bets@));
        distinct_in_order_is_each_once(bettors_of(bets@));
        distinct_in_order_is_each_once(markets_of(bets@));
        assert(bettors_of(bets@).len() == bets@.len());
        assert(markets_of(bets@).len() == bets@.len());
        assert forall|k1: int, k2: int|
            0 <= k1 < r@.len() && 0 <= k2 < r@.len() && #[trigger] r@[k1] is User && #[trigger] r@[k2]
                == r@[k1] implies k1 == k2 by {
            if k1 < 2 {
                assert(r@[0] is Markets);
                assert(r@[1] is Outcomes);
            }
            if k2 < 2 {
                assert(r@[0] is Markets);
                assert(r@[1] is Outcomes);
            }
            assert(r@[k1] == EnrichLookup::User(d[k1 - 2]));
            assert(r@[k2] == EnrichLookup::User(d[k2 - 2]));
        }
        assert forall|u: UserId|
            #[trigger] has_bettor(bets@, u) <==> exists|k: int|
                0 <= k < r@.len() && #[trigger] r@[k] == EnrichLookup::User(u) by {
            if exists|k: int| 0 <= k < r@.len() && #[trigger] r@[k] == EnrichLookup::User(u) {
                let k = choose|k: int| 0 <= k < r@.len() && #[trigger] r@[k] == EnrichLookup::User(u);
                assert(r@[0] is Markets);
                assert(r@[1] is Outcomes);
                assert(r@[k] == EnrichLookup::User(d[k - 2]));
                assert(d.contains(u));
                assert(bettors_of(bets@).contains(u));
                let b = choose|b: int| 0 <= b < bettors_of(bets@).len() && bettors_of(bets@)[b] == u;
                assert(bets@[b].user_id == u);
            }
            if exists|b: int| 0 <= b < bets@.len() && #[trigger] bets@[b].user_id == u {
                let b = choose|b: int| 0 <= b < bets@.len() && #[trigger] bets@[b].user_id == u;
                assert(bettors_of(bets@)[b] == u);
                assert(bettors_of(bets@).contains(u));
                assert(d.contains(u));
                let j = choose|j: int| 0 <= j < d.len() && d[j] == u;
                assert(r@[j + 2] == EnrichLookup::User(u));
            }
        }
        assert(r@[0] matches EnrichLookup::Markets(ids) && ids@ == distinct_in_order(markets_of(bets@)));
        let ghost mids = distinct_in_order(markets_of(bets@));
        assert forall|id: MarketId|
            mids.contains(id) <==> exists|b: int| 0 <= b < bets@.len() && #[trigger] bets@[b].market_id == id by {
            if markets_of(bets@).contains(id) {
                let b = choose|b: int| 0 <= b < markets_of(bets@).len() && markets_of(bets@)[b] == id;
                assert(bets@[b].market_id == id);
            }
            if exists|b: int| 0 <= b < bets@.len() && #[trigger] bets@[b].market_id == id {
                let b = choose|b: int| 0 <= b < bets@.len() && #[trigger] bets@[b].market_id == id;
                assert(markets_of(bets@)[b] == id);
            }
        }
    }
    r
}

pub open spec fn missing_user_text(id: UserId) -> Seq<char> {
    "bet references missing "@ + ("user "@ + user_id_text(id))
}

/// A bet's author is a row the bet points at: their absence is a broken link,
/// not a user error.
pub fn require_bettor<T>(found: Option<T>, id: UserId) -> (r: Result<T, ApplicationError>)
    ensures
        match found {
            Some(v) => r == Ok::<T, ApplicationError>(v),
            None => r matches Err(ApplicationError::Internal(m)) && m@ == missing_user_text(id),
        },
{
    if let Some(v) = found {
        return Ok(v);
    }
    let mut what = String::from_str("user ");
    what.append(id.to_text().as_str());
    Err(broken_link(what.as_str()))
}

/// The last index below `n` of the market with id `id`: a later row of the
/// same id replaces an earlier one, as in a map built from the rows.
pub open spec fn last_market_below(ms: Seq<Market>, id: MarketId, n: int) -> Option<int>
    decreases n,
{
    if n <= 0 || n > ms.len() {
        None
    } else if ms[n - 1].id == id {
        Some(n - 1)
    } else {
        last_market_below(ms, id, n - 1)
    }
}

pub open spec fn last_outcome_below(os: Seq<Outcome>, id: OutcomeId, n: int) -> Option<int>
    decreases n,
{
    if n <= 0 || n > os.len() {
        None
    } else if os[n - 1].id == id {
        Some(n - 1)
    } else {
        last_outcome_below(os, id, n - 1)
    }
}

pub open spec fn market_row(ms: Seq<Market>, id: MarketId) -> Option<int> {
    last_market_below(ms, id, ms.len() as int)
}

pub open spec fn outcome_row(os: Seq<Outcome>, id: OutcomeId) -> Option<int> {
    last_outcome_below(os, id, os.len() as int)
}

/// The first name listed for `id`.
pub open spec fn name_row_from(names: Seq<(UserId, String)>, id: UserId, i: int) -> Option<int>
    decreases names.len() - i,
{
    if i < 0 || i >= names.len() {
        None
    } else if names[i].0 == id {
        Some(i)
    } else {
        name_row_from(names, id, i + 1)
    }
}

pub open spec fn bet_is_linked(b: Bet, ms: Seq<Market>, os: Seq<Outcome>) -> bool {
    market_row(ms, b.market_id) is Some && outcome_row(os, b.outcome_id) is Some
}

/// The first bet at or after `i` whose market or outcome is missing.
pub open spec fn first_unlinked_from(bets: Seq<Bet>, ms: Seq<Market>, os: Seq<Outcome>, i: int) -> Option<int>
    decreases bets.len() - i,
{
    if i < 0 || i >= bets.len() {
        None
    } else if !bet_is_linked(bets[i], ms, os) {
        Some(i)
    } else {
        first_unlinked_from(bets, ms, os, i + 1)
    }
}

/// What a bet with a missing market or outcome is reported as.
pub open spec fn unlinked_text(b: Bet, ms: Seq<Market>) -> Seq<char> {
    if market_row(ms, b.market_id) is None {
        "bet references missing "@ + ("market "@ + market_id_text(b.market_id))
    } else {
        "bet references missing "@ + ("outcome "@ + outcome_id_text(b.outcome_id))
    }
}

/// `v` shows `b` under its market's title, its outcome's label and its
/// bettor's name.
pub open spec fn shows_bet(
    v: BetView,
    b: Bet,
    ms: Seq<Market>,
    os: Seq<Outcome>,
    names: Seq<(UserId, String)>,
) -> bool {
    &&& v.bet == b
    &&& v.market_title@ == ms[market_row(ms, b.market_id)->0].title@
    &&& v.outcome_label@ == os[outcome_row(os, b.outcome_id)->0].label@
    &&& v.username@ == names[name_row_from(names, b.user_id, 0)->0].1@
}

fn market_row_exec(ms: &Vec<Market>, id: MarketId) -> (r: Option<usize>)
    ensures
        match r {
            Some(i) => market_row(ms@, id) == Some(i as int) && i < ms@.len(),
            None => market_row(ms@, id) is None,
        },
{
    let mut n = ms.len();
    while n > 0
        invariant
            n <= ms@.len(),
            market_row(ms@, id) == last_market_below(ms@, id, n as int),
        decreases n,
    {
        if ms[n - 1].id == id {
            return Some(n - 1);
        }
        n = n - 1;
    }
    None
}

fn outcome_row_exec(os: &Vec<Outcome>, id: OutcomeId) -> (r: Option<usize>)
    ensures
        match r {
            Some(i) => outcome_row(os@, id) == Some(i as int) && i < os@.len(),
            None => outcome_row(os@, id) is None,
        },
{
    let mut n = os.len();
    while n > 0
        invariant
            n <= os@.len(),
            outcome_row(os@, id) == last_outcome_below(os@, id, n as int),
        decreases n,
    {
        if os[n - 1].id == id {
            return Some(n - 1);
        }
        n = n - 1;
    }
    None
}

fn name_row_exec(names: &Vec<(UserId, String)>, id: UserId) -> (r: Option<usize>)
    ensures
        match r {
            Some(i) => name_row_from(names@, id, 0) == Some(i as int) && i < names@.len(),
            None => name_row_from(names@, id, 0) is None,
        },
{
    let mut i: usize = 0;
    while i < names.len()
        invariant
            i <= names@.len(),
            name_row_from(names@, id, 0) == name_row_from(names@, id, i as int),
        decreases names.len() - i,
    {
        if names[i].0 == id {
            return Some(i);
        }
        i = i + 1;
    }
    None
}

/// Joins `bets` with their market titles, outcome labels and bettors' names,
/// in the bets' order. `markets` and `outcomes` are the rows found for the
/// bets' markets (a later row of an id wins); `names` holds a name for every
/// bettor. A bet whose market or outcome is missing is a broken link, and
/// the first such bet is what is reported.
pub fn assemble_bet_views(
    bets: &Vec<Bet>,
    markets: &Vec<Market>,
    outcomes: &Vec<Outcome>,
    names: &Vec<(UserId, String)>,
) -> (r: Result<Vec<BetView>, ApplicationError>)
    requires
        forall|i: int|
            0 <= i < bets@.len() ==> (#[trigger] name_row_from(names@, bets@[i].user_id, 0)) is Some,
    ensures
        match first_unlinked_from(bets@, markets@, outcomes@, 0) {
            None => r matches Ok(views) && views@.len() == bets@.len() && forall|i: int|
                0 <= i < bets@.len() ==> shows_bet(
                    #[trigger] views@[i],
                    bets@[i],
                    markets@,
                    outcomes@,
                    names@,
                ),
            Some(i) => r matches Err(ApplicationError::Internal(m)) && m@ == unlinked_text(
                bets@[i],
                markets@,
            ),
        },
{
    let mut views: Vec<BetView> = Vec::new();
    let mut i: usize = 0;
    while i < bets.len()
        invariant
            i <= bets@.len(),
            views@.len() == i,
            forall|k: int|
                0 <= k < bets@.len() ==> (#[trigger] name_row_from(names@, bets@[k].user_id, 0)) is Some,
            first_unlinked_from(bets@, markets@, outcomes@, 0) == first_unlinked_from(
                bets@,
                markets@,
                outcomes@,
                i as int,
            ),
            forall|k: int|
                0 <= k < i ==> shows_bet(
                    #[trigger] views@[k],
                    bets@[k],
                    markets@,
                    outcomes@,
                    names@,
                ),
        decreases bets.len() - i,
    {
        let bet = bets[i];
        let m = match market_row_exec(markets, bet.market_id) {
            Some(m) => m,
            None => {
                let mut what = String::from_str("market ");
                what.append(bet.market_id.to_text().as_str());
                return Err(broken_link(what.as_str()));
            },
        };
        let o = match outcome_row_exec(outcomes, bet.outcome_id) {
            Some(o) => o,
            None => {
                let mut what = String::from_str("outcome ");
                what.append(bet.outcome_id.to_text().as_str());
                return Err(broken_link(what.as_str()));
            },
        };
        let n = match name_row_exec(names, bet.user_id) {
            Some(n) => n,
            None => {
                assert(name_row_from(names@, bets@[i as int].user_id, 0) is Some);
                return Err(broken_link("user"));
            },
        };
        let view = view_for(bet, &markets[m], &outcomes[o], names[n].1.clone());
        views.push(view);
        i = i + 1;
    }
    Ok(views)
}

/// How far placing a bet has got. Each stage waits for one answer from the
/// stores, asked for by the action that entered it.
#[derive(Debug, Clone, Copy, PartialEq, Eq, Structural)]
pub enum PlaceBetStage {
    /// Waiting for the outcome the bet names.
    Outcome,
    /// Waiting for the market that outcome belongs to.
    Market { market_id: MarketId },
    /// Waiting to hear whether that market takes bets now.
    Verdict { market_id: MarketId },
    /// Waiting for every outcome of the market.
    Outcomes { market_id: MarketId },
    /// Waiting for the bettor, with the outcome chosen and the price fixed.
    Bettor { market_id: MarketId, chosen: usize, price: u32 },
    /// Committed or refused: nothing more is asked.
    Over,
}

/// An answer from the stores, handed to [`place_bet_step`].
pub enum PlaceBetEvent {
    /// The outcome the bet names, if there is one.
    Outcome(Option<Outcome>),
    /// The market, if it is still there.
    Market(Option<Market>),
    /// Whether the market takes bets now.
    Verdict(bool),
    /// The market's outcomes, in their stored order.
    Outcomes(Vec<Outcome>),
    /// The bettor, if there is one.
    Bettor(Option<User>),
}

/// Why a bet is refused.
#[derive(Debug, Clone, Copy, PartialEq, Eq, Structural)]
pub enum PlaceBetRefusal {
    UnknownOutcome(OutcomeId),
    UnknownMarket(MarketId),
    NotAccepting,
    NotInMarket(OutcomeId, MarketId),
    UnknownBettor(UserId),
    ShortOfFunds,
}

/// What placing a bet does next.
#[derive(Debug, Clone, Copy, PartialEq, Eq, Structural)]
pub enum PlaceBetAction {
    LoadOutcome(OutcomeId),
    LoadMarket(MarketId),
    /// Ask the market just loaded whether it takes bets now.
    AskVerdict(MarketId),
    LoadOutcomes(MarketId),
    LoadBettor(UserId),
    /// Place the bet on the `chosen` one of the outcomes loaded, at `price`
    /// (ten-thousandths), and commit it with the recalculated prices.
    Commit { market_id: MarketId, chosen: usize, price: u32 },
    Refuse(PlaceBetRefusal),
}

/// Whether `stage` is waiting for an answer of `event`'s kind.
pub open spec fn awaits(stage: PlaceBetStage, event: PlaceBetEvent) -> bool {
    match (stage, event) {
        (PlaceBetStage::Outcome, PlaceBetEvent::Outcome(_)) => true,
        (PlaceBetStage::Market { .. }, PlaceBetEvent::Market(_)) => true,
        (PlaceBetStage::Verdict { .. }, PlaceBetEvent::Verdict(_)) => true,
        (PlaceBetStage::Outcomes { .. }, PlaceBetEvent::Outcomes(_)) => true,
        (PlaceBetStage::Bettor { .. }, PlaceBetEvent::Bettor(_)) => true,
        _ => false,
    }
}

/// The price a bet buys at, as a spec: the board's, but at least a tick.
pub open spec fn clamped_price(board_price: u32) -> u32 {
    if board_price < MIN_TICK {
        MIN_TICK
    } else {
        board_price
    }
}

/// Where placing a bet goes on `event`: the checks in order, each refusing
/// on the first answer that fails it.
pub open spec fn place_bet_next(stage: PlaceBetStage, actor: Actor, input: NewBet, event: PlaceBetEvent) -> (PlaceBetStage, PlaceBetAction) {
    match stage {
        PlaceBetStage::Outcome => match event {
            PlaceBetEvent::Outcome(None) => (
                PlaceBetStage::Over,
                PlaceBetAction::Refuse(PlaceBetRefusal::UnknownOutcome(input.outcome_id)),
            ),
            PlaceBetEvent::Outcome(Some(o)) => (
                PlaceBetStage::Market { market_id: o.market_id },
                PlaceBetAction::LoadMarket(o.market_id),
            ),
            _ => vstd::pervasive::arbitrary(),
        },
        PlaceBetStage::Market { market_id } => match event {
            PlaceBetEvent::Market(None) => (
                PlaceBetStage::Over,
                PlaceBetAction::Refuse(PlaceBetRefusal::UnknownMarket(market_id)),
            ),
            PlaceBetEvent::Market(Some(m)) => (
                PlaceBetStage::Verdict { market_id: m.id },
                PlaceBetAction::AskVerdict(m.id),
            ),
            _ => vstd::pervasive::arbitrary(),
        },
        PlaceBetStage::Verdict { market_id } => match event {
            PlaceBetEvent::Verdict(true) => (
                PlaceBetStage::Outcomes { market_id },
                PlaceBetAction::LoadOutcomes(market_id),
            ),
            PlaceBetEvent::Verdict(false) => (
                PlaceBetStage::Over,
                PlaceBetAction::Refuse(PlaceBetRefusal::NotAccepting),
            ),
            _ => vstd::pervasive::arbitrary(),
        },
        PlaceBetStage::Outcomes { market_id } => match event {
            PlaceBetEvent::Outcomes(os) => match first_outcome_from(os@, input.outcome_id, 0) {
                None => (
                    PlaceBetStage::Over,
                    PlaceBetAction::Refuse(PlaceBetRefusal::NotInMarket(input.outcome_id, market_id)),
                ),
                Some(i) => (
                    PlaceBetStage::Bettor {
                        market_id,
                        chosen: i as usize,
                        price: clamped_price(os@[i].price),
                    },
                    PlaceBetAction::LoadBettor(actor.user_id),
                ),
            },
            _ => vstd::pervasive::arbitrary(),
        },
        PlaceBetStage::Bettor { market_id, chosen, price } => match event {
            PlaceBetEvent::Bettor(None) => (
                PlaceBetStage::Over,
                PlaceBetAction::Refuse(PlaceBetRefusal::UnknownBettor(actor.user_id)),
            ),
            PlaceBetEvent::Bettor(Some(u)) => if u.balance < input.amount {
                (PlaceBetStage::Over, PlaceBetAction::Refuse(PlaceBetRefusal::ShortOfFunds))
            } else {
                (PlaceBetStage::Over, PlaceBetAction::Commit { market_id, chosen, price })
            },
            _ => vstd::pervasive::arbitrary(),
        },
        PlaceBetStage::Over => vstd::pervasive::arbitrary(),
    }
}

/// Where placing a bet starts: by loading the outcome it names.
pub fn place_bet_start(input: &NewBet) -> (r: (PlaceBetStage, PlaceBetAction))
    ensures
        r == (PlaceBetStage::Outcome, PlaceBetAction::LoadOutcome(input.outcome_id)),
{
    (PlaceBetStage::Outcome, PlaceBetAction::LoadOutcome(input.outcome_id))
}

/// One step of placing a bet: what the answer to the last action means, and
/// what to do next. The stake is checked against the balance as a friendly
/// pre-check; the store re-checks it when it debits.
pub fn place_bet_step(stage: PlaceBetStage, actor: &Actor, input: &NewBet, event: &PlaceBetEvent) -> (r: (PlaceBetStage, PlaceBetAction))
    requires
        awaits(stage, *event),
    ensures
        r == place_bet_next(stage, *actor, *input, *event),
{
    let unexpected = (PlaceBetStage::Over, PlaceBetAction::Refuse(PlaceBetRefusal::NotAccepting));
    match stage {
        PlaceBetStage::Outcome => match event {
            PlaceBetEvent::Outcome(None) => (
                PlaceBetStage::Over,
                PlaceBetAction::Refuse(PlaceBetRefusal::UnknownOutcome(input.outcome_id)),
            ),
            PlaceBetEvent::Outcome(Some(o)) => (
                PlaceBetStage::Market { market_id: o.market_id },
                PlaceBetAction::LoadMarket(o.market_id),
            ),
            _ => unexpected,
        },
        PlaceBetStage::Market { market_id } => match event {
            PlaceBetEvent::Market(None) => (
                PlaceBetStage::Over,
                PlaceBetAction::Refuse(PlaceBetRefusal::UnknownMarket(market_id)),
            ),
            PlaceBetEvent::Market(Some(m)) => (
                PlaceBetStage::Verdict { market_id: m.id },
                PlaceBetAction::AskVerdict(m.id),
            ),
            _ => unexpected,
        },
        PlaceBetStage::Verdict { market_id } => match event {
            PlaceBetEvent::Verdict(accepts) => if *accepts {
                (PlaceBetStage::Outcomes { market_id }, PlaceBetAction::LoadOutcomes(market_id))
            } else {
                (PlaceBetStage::Over, PlaceBetAction::Refuse(PlaceBetRefusal::NotAccepting))
            },
            _ => unexpected,
        },
        PlaceBetStage::Outcomes { market_id } => match event {
            PlaceBetEvent::Outcomes(os) => match first_outcome_index(os, input.outcome_id) {
                None => (
                    PlaceBetStage::Over,
                    PlaceBetAction::Refuse(PlaceBetRefusal::NotInMarket(input.outcome_id, market_id)),
                ),
                Some(i) => (
                    PlaceBetStage::Bettor { market_id, chosen: i, price: bet_price(os[i].price) },
                    PlaceBetAction::LoadBettor(actor.user_id),
                ),
            },
            _ => unexpected,
        },
        PlaceBetStage::Bettor { market_id, chosen, price } => match event {
            PlaceBetEvent::Bettor(None) => (
                PlaceBetStage::Over,
                PlaceBetAction::Refuse(PlaceBetRefusal::UnknownBettor(actor.user_id)),
            ),
            PlaceBetEvent::Bettor(Some(u)) => if u.balance < input.amount {
                (PlaceBetStage::Over, PlaceBetAction::Refuse(PlaceBetRefusal::ShortOfFunds))
            } else {
                (PlaceBetStage::Over, PlaceBetAction::Commit { market_id, chosen, price })
            },
            _ => unexpected,
        },
        PlaceBetStage::Over => unexpected,
    }
}

/// The first index of the outcome with id `id`.
fn first_outcome_index(outcomes: &Vec<Outcome>, id: OutcomeId) -> (r: Option<usize>)
    ensures
        match r {
            Some(j) => first_outcome_from(outcomes@, id, 0) == Some(j as int) && j < outcomes@.len(),
            None => first_outcome_from(outcomes@, id, 0) is None,
        },
{
    let mut i: usize = 0;
    while i < outcomes.len()
        invariant
            i <= outcomes@.len(),
            first_outcome_from(outcomes@, id, 0) == first_outcome_from(outcomes@, id, i as int),
        decreases outcomes.len() - i,
    {
        if outcomes[i].id == id {
            return Some(i);
        }
        i = i + 1;
    }
    None
}

/// How a refusal reads: the same answers, in the same words, as the checks
/// they come from.
pub fn refusal_error(refusal: PlaceBetRefusal) -> (r: ApplicationError)
    ensures
        match refusal {
            PlaceBetRefusal::UnknownOutcome(id) => r matches ApplicationError::NotFound(m) && m@
                == "outcome "@ + outcome_id_text(id),
            PlaceBetRefusal::UnknownMarket(id) => r matches ApplicationError::NotFound(m) && m@
                == "market "@ + market_id_text(id),
            PlaceBetRefusal::NotAccepting => r matches ApplicationError::Domain(
                DomainError::RuleViolation(m),
            ) && m@ == "market is not accepting bets"@,
            PlaceBetRefusal::NotInMarket(outcome, market) => r matches ApplicationError::Domain(
                DomainError::RuleViolation(m),
            ) && m@ == not_in_market_text(outcome, market),
            PlaceBetRefusal::UnknownBettor(id) => r matches ApplicationError::NotFound(m) && m@
                == "user "@ + user_id_text(id),
            PlaceBetRefusal::ShortOfFunds => r matches ApplicationError::Domain(
                DomainError::RuleViolation(m),
            ) && m@ == "insufficient balance"@,
        },
{
    proof {
        reveal_strlit("outcome");
        reveal_strlit("outcome ");
        reveal_strlit("market");
        reveal_strlit("market ");
        reveal_strlit("user");
        reveal_strlit("user ");
        reveal_strlit(" ");
    }
    match refusal {
        PlaceBetRefusal::UnknownOutcome(id) => ApplicationError::NotFound(
            described("outcome", id.to_text().as_str()),
        ),
        PlaceBetRefusal::UnknownMarket(id) => ApplicationError::NotFound(
            described("market", id.to_text().as_str()),
        ),
        PlaceBetRefusal::NotAccepting => ApplicationError::Domain(
            DomainError::RuleViolation(String::from_str("market is not accepting bets")),
        ),
        PlaceBetRefusal::NotInMarket(outcome, market) => {
            let mut m = String::from_str("outcome ");
            m.append(outcome.to_text().as_str());
            m.append(" does not belong to market ");
            m.append(market.to_text().as_str());
            ApplicationError::Domain(DomainError::RuleViolation(m))
        },
        PlaceBetRefusal::UnknownBettor(id) => ApplicationError::NotFound(
            described("user", id.to_text().as_str()),
        ),
        PlaceBetRefusal::ShortOfFunds => ApplicationError::Domain(
            DomainError::RuleViolation(String::from_str("insufficient balance")),
        ),
    }
}

/// Where placing a bet stands after `events`, answered in order from the
/// start.
pub open spec fn placement(actor: Actor, input: NewBet, events: Seq<PlaceBetEvent>) -> (PlaceBetStage, PlaceBetAction)
    decreases events.len(),
{
    if events.len() == 0 {
        (PlaceBetStage::Outcome, PlaceBetAction::LoadOutcome(input.outcome_id))
    } else {
        place_bet_next(placement(actor, input, events.drop_last()).0, actor, input, events.last())
    }
}

/// Every answer in `events` is of the kind the stage before it waits for.
pub open spec fn answered_in_turn(actor: Actor, input: NewBet, events: Seq<PlaceBetEvent>) -> bool
    decreases events.len(),
{
    events.len() == 0 || (answered_in_turn(actor, input, events.drop_last()) && awaits(
        placement(actor, input, events.drop_last()).0,
        events.last(),
    ))
}

/// How many answers a stage has had.
pub open spec fn answers_before(stage: PlaceBetStage) -> int {
    match stage {
        PlaceBetStage::Outcome => 0,
        PlaceBetStage::Market { .. } => 1,
        PlaceBetStage::Verdict { .. } => 2,
        PlaceBetStage::Outcomes { .. } => 3,
        PlaceBetStage::Bettor { .. } => 4,
        PlaceBetStage::Over => -1,
    }
}

proof fn lemma_stage_counts_answers(actor: Actor, input: NewBet, events: Seq<PlaceBetEvent>)
    requires
        answered_in_turn(actor, input, events),
        placement(actor, input, events).0 != PlaceBetStage::Over,
    ensures
        answers_before(placement(actor, input, events).0) == events.len(),
    decreases events.len(),
{
    if events.len() > 0 {
        let prev = placement(actor, input, events.drop_last()).0;
        assert(awaits(prev, events.last()));
        assert(prev != PlaceBetStage::Over);
        lemma_stage_counts_answers(actor, input, events.drop_last());
    }
}

/// Every check of placing a bet passed on `events`, for a commit on the
/// `chosen` outcome of `market_id` at `price`: the outcome the bet names was
/// found; the market was found, is the one committed on, and takes bets;
/// among its outcomes the bet's is the first with its id, the one chosen,
/// priced at the board but at least a tick; and the bettor was found with a
/// balance covering the stake.
pub open spec fn every_check_passed(
    input: NewBet,
    events: Seq<PlaceBetEvent>,
    market_id: MarketId,
    chosen: usize,
    price: u32,
) -> bool {
    &&& events.len() == 5
    &&& events[0] matches PlaceBetEvent::Outcome(Some(o))
    &&& events[1] matches PlaceBetEvent::Market(Some(m)) && m.id == market_id
    &&& events[2] == PlaceBetEvent::Verdict(true)
    &&& events[3] matches PlaceBetEvent::Outcomes(os) && first_outcome_from(
        os@,
        input.outcome_id,
        0,
    ) matches Some(i) && chosen == i as usize && os@[i].id == input.outcome_id && price
        == clamped_price(os@[i].price)
    &&& events[4] matches PlaceBetEvent::Bettor(Some(u)) && u.balance >= input.amount
}

/// A bet is committed only when every check passed, in order (see
/// [`every_check_passed`]), and committing ends the placement.
pub proof fn a_bet_is_committed_only_when_every_check_passed(
    actor: Actor,
    input: NewBet,
    events: Seq<PlaceBetEvent>,
)
    requires
        answered_in_turn(actor, input, events),
        (placement(actor, input, events).1 is Commit),
    ensures
        every_check_passed(
            input,
            events,
            placement(actor, input, events).1->market_id,
            placement(actor, input, events).1->chosen,
            placement(actor, input, events).1->price,
        ),
        placement(actor, input, events).0 == PlaceBetStage::Over,
{
    let n = events.len();
    assert(n > 0);
    let prev = placement(actor, input, events.drop_last()).0;
    assert(awaits(prev, events.last()));
    assert(prev is Bettor);
    lemma_stage_counts_answers(actor, input, events.drop_last());
    assert(n == 5);
    let e4 = events.drop_last();
    let e3 = e4.drop_last();
    let e2 = e3.drop_last();
    let e1 = e2.drop_last();
    let e0 = e1.drop_last();
    assert(e0.len() == 0);
    assert(events.take(4) =~= e4);
    assert(e4.last() == events[3]);
    assert(e3.last() == events[2]);
    assert(e2.last() == events[1]);
    assert(e1.last() == events[0]);
    assert(answered_in_turn(actor, input, e4));
    assert(answered_in_turn(actor, input, e3));
    assert(answered_in_turn(actor, input, e2));
    assert(answered_in_turn(actor, input, e1));
    assert(placement(actor, input, e0).0 == PlaceBetStage::Outcome);
    assert(placement(actor, input, e1).0 is Market);
    assert(placement(actor, input, e2).0 is Verdict);
    assert(placement(actor, input, e3).0 is Outcomes);
    assert(placement(actor, input, e4).0 is Bettor);
    let i = first_outcome_from(events[3]->Outcomes_0@, input.outcome_id, 0);
    assert(i is Some);
    lemma_first_outcome_found(events[3]->Outcomes_0@, input.outcome_id, 0);
}

proof fn lemma_first_outcome_found(os: Seq<Outcome>, id: OutcomeId, i: int)
    requires
        0 <= i,
    ensures
        first_outcome_from(os, id, i) matches Some(k) ==> i <= k < os.len() && os[k].id == id,
    decreases os.len() - i,
{
    if 0 <= i < os.len() && os[i].id != id {
        lemma_first_outcome_found(os, id, i + 1);
    }
}

/// Placing a bet goes exactly as the answers say. An outcome that is not
/// found, a market that is gone, a market that takes no bets, a bet whose
/// outcome is not among its market's, a bettor who is not found and a balance
/// short of the stake are each refused, with their own refusal. When all of
/// them pass, the bet is committed on the market found, on the first of its
/// outcomes with the bet's id (whatever its position, the first included), at
/// that outcome's board price raised to at least a tick.
pub proof fn a_bet_that_passes_every_check_is_committed(
    actor: Actor,
    input: NewBet,
    outcome: Option<Outcome>,
    market: Option<Market>,
    accepts: bool,
    os: Vec<Outcome>,
    bettor: Option<User>,
)
    ensures
        placement(actor, input, Seq::empty()) == (PlaceBetStage::Outcome, PlaceBetAction::LoadOutcome(input.outcome_id)),
        placement(actor, input, seq![PlaceBetEvent::Outcome(outcome)]) == match outcome {
            None => (PlaceBetStage::Over, PlaceBetAction::Refuse(PlaceBetRefusal::UnknownOutcome(input.outcome_id))),
            Some(o) => (PlaceBetStage::Market { market_id: o.market_id }, PlaceBetAction::LoadMarket(o.market_id)),
        },
        outcome matches Some(o) ==> placement(
            actor,
            input,
            seq![PlaceBetEvent::Outcome(outcome), PlaceBetEvent::Market(market)],
        ) == match market {
            None => (PlaceBetStage::Over, PlaceBetAction::Refuse(PlaceBetRefusal::UnknownMarket(o.market_id))),
            Some(m) => (PlaceBetStage::Verdict { market_id: m.id }, PlaceBetAction::AskVerdict(m.id)),
        },
        outcome is Some && market is Some ==> placement(
            actor,
            input,
            seq![PlaceBetEvent::Outcome(outcome), PlaceBetEvent::Market(market), PlaceBetEvent::Verdict(accepts)],
        ) == if accepts {
            (
                PlaceBetStage::Outcomes { market_id: market->Some_0.id },
                PlaceBetAction::LoadOutcomes(market->Some_0.id),
            )
        } else {
            (PlaceBetStage::Over, PlaceBetAction::Refuse(PlaceBetRefusal::NotAccepting))
        },
        outcome is Some && market is Some && (forall|k: int|
            0 <= k < os@.len() ==> (#[trigger] os@[k]).id != input.outcome_id) ==> placement(
            actor,
            input,
            seq![
                PlaceBetEvent::Outcome(outcome),
                PlaceBetEvent::Market(market),
                PlaceBetEvent::Verdict(true),
                PlaceBetEvent::Outcomes(os),
            ],
        ) == (PlaceBetStage::Over, PlaceBetAction::Refuse(PlaceBetRefusal::NotInMarket(input.outcome_id, market->Some_0.id))),
        forall|i: int|
            #![trigger os@[i]]
            outcome is Some && market is Some && 0 <= i < os@.len() && os@[i].id == input.outcome_id && (forall|k: int|
                0 <= k < i ==> (#[trigger] os@[k]).id != input.outcome_id) ==> ({
                let m = market->Some_0;
                let price = if os@[i].price < MIN_TICK { MIN_TICK } else { os@[i].price };
                let upto = seq![
                    PlaceBetEvent::Outcome(outcome),
                    PlaceBetEvent::Market(market),
                    PlaceBetEvent::Verdict(true),
                    PlaceBetEvent::Outcomes(os),
                ];
                &&& placement(actor, input, upto) == (
                    PlaceBetStage::Bettor { market_id: m.id, chosen: i as usize, price },
                    PlaceBetAction::LoadBettor(actor.user_id),
                )
                &&& placement(actor, input, upto.push(PlaceBetEvent::Bettor(bettor))) == match bettor {
                    None => (PlaceBetStage::Over, PlaceBetAction::Refuse(PlaceBetRefusal::UnknownBettor(actor.user_id))),
                    Some(u) => if u.balance >= input.amount {
                        (PlaceBetStage::Over, PlaceBetAction::Commit { market_id: m.id, chosen: i as usize, price })
                    } else {
                        (PlaceBetStage::Over, PlaceBetAction::Refuse(PlaceBetRefusal::ShortOfFunds))
                    },
                }
            }),
{
    let e0: Seq<PlaceBetEvent> = Seq::empty();
    let e1 = seq![PlaceBetEvent::Outcome(outcome)];
    let e2 = seq![PlaceBetEvent::Outcome(outcome), PlaceBetEvent::Market(market)];
    let e3 = seq![PlaceBetEvent::Outcome(outcome), PlaceBetEvent::Market(market), PlaceBetEvent::Verdict(accepts)];
    let e3t = seq![PlaceBetEvent::Outcome(outcome), PlaceBetEvent::Market(market), PlaceBetEvent::Verdict(true)];
    let e4 = seq![
        PlaceBetEvent::Outcome(outcome),
        PlaceBetEvent::Market(market),
        PlaceBetEvent::Verdict(true),
        PlaceBetEvent::Outcomes(os),
    ];
    let e5 = e4.push(PlaceBetEvent::Bettor(bettor));
    assert(e1.drop_last() =~= e0);
    assert(e2.drop_last() =~= e1);
    assert(e3.drop_last() =~= e2);
    assert(e3t.drop_last() =~= e2);
    assert(e4.drop_last() =~= e3t);
    assert(e5.drop_last() =~= e4);
    assert(e1.last() == PlaceBetEvent::Outcome(outcome));
    assert(e2.last() == PlaceBetEvent::Market(market));
    assert(e3.last() == PlaceBetEvent::Verdict(accepts));
    assert(e3t.last() == PlaceBetEvent::Verdict(true));
    assert(e4.last() == PlaceBetEvent::Outcomes(os));
    assert(e5.last() == PlaceBetEvent::Bettor(bettor));
    assert(placement(actor, input, e0) == (PlaceBetStage::Outcome, PlaceBetAction::LoadOutcome(input.outcome_id)));
    if outcome is Some {
        assert(placement(actor, input, e1).0 == PlaceBetStage::Market { market_id: outcome->Some_0.market_id });
        if market is Some {
            let m = market->Some_0;
            assert(placement(actor, input, e2).0 == PlaceBetStage::Verdict { market_id: m.id });
            assert(placement(actor, input, e3t).0 == PlaceBetStage::Outcomes { market_id: m.id });
            if forall|k: int| 0 <= k < os@.len() ==> (#[trigger] os@[k]).id != input.outcome_id {
                lemma_no_outcome_from(os@, input.outcome_id, 0);
            }
            assert forall|i: int|
                #![trigger os@[i]]
                0 <= i < os@.len() && os@[i].id == input.outcome_id && (forall|k: int|
                    0 <= k < i ==> (#[trigger] os@[k]).id != input.outcome_id) implies ({
                    let price = if os@[i].price < MIN_TICK { MIN_TICK } else { os@[i].price };
                    &&& placement(actor, input, e4) == (
                        PlaceBetStage::Bettor { market_id: m.id, chosen: i as usize, price },
                        PlaceBetAction::LoadBettor(actor.user_id),
                    )
                    &&& placement(actor, input, e5) == match bettor {
                        None => (PlaceBetStage::Over, PlaceBetAction::Refuse(PlaceBetRefusal::UnknownBettor(actor.user_id))),
                        Some(u) => if u.balance >= input.amount {
                            (PlaceBetStage::Over, PlaceBetAction::Commit { market_id: m.id, chosen: i as usize, price })
                        } else {
                            (PlaceBetStage::Over, PlaceBetAction::Refuse(PlaceBetRefusal::ShortOfFunds))
                        },
                    }
                }) by {
                lemma_first_outcome_at(os@, input.outcome_id, 0, i);
                assert(placement(actor, input, e4).0 == PlaceBetStage::Bettor {
                    market_id: m.id,
                    chosen: i as usize,
                    price: clamped_price(os@[i].price),
                });
            }
        }
    }
}

proof fn lemma_no_outcome_from(os: Seq<Outcome>, id: OutcomeId, start: int)
    requires
        0 <= start <= os.len(),
        forall|k: int| 0 <= k < os.len() ==> (#[trigger] os[k]).id != id,
    ensures
        first_outcome_from(os, id, start) is None,
    decreases os.len() - start,
{
    if start < os.len() {
        assert(os[start].id != id);
        lemma_no_outcome_from(os, id, start + 1);
    }
}

proof fn lemma_first_outcome_at(os: Seq<Outcome>, id: OutcomeId, start: int, i: int)
    requires
        0 <= start <= i < os.len(),
        os[i].id == id,
        forall|k: int| 0 <= k < i ==> (#[trigger] os[k]).id != id,
    ensures
        first_outcome_from(os, id, start) == Some(i),
    decreases i - start,
{
    if start < i {
        assert(os[start].id != id);
        lemma_first_outcome_at(os, id, start + 1, i);
    }
}

} // verus!
