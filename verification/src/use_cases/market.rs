//! Creating, listing, resolving and illustrating markets.

use vstd::prelude::*;

use crate::actor::Actor;
use crate::error::{described, ApplicationError, DomainError};
use crate::ids::{market_id_text, outcome_id_text};
use crate::model::{Market, MarketId, Outcome, OutcomeId, Role, Timestamp};
use crate::use_cases::bet::{chosen_outcome, first_outcome_from, not_in_market_text};

verus! {

/// Maximum thumbnail size in bytes.
pub const MAX_THUMBNAIL_BYTES: usize = 2 * 1024 * 1024;

/// Storage folder market thumbnails live in.
pub const THUMBNAIL_FOLDER: &'static str = "thumbnails";

/// Storage folder outcome thumbnails live in.
pub const OUTCOME_THUMBNAIL_FOLDER: &'static str = "outcome-thumbnails";

/// A market paired with its outcomes, in creation order.
pub struct MarketView {
    pub market: Market,
    pub outcomes: Vec<Outcome>,
}

/// Validated inputs for creating a market. At least two outcome labels.
pub struct NewMarket {
    pub title: String,
    pub description: Option<String>,
    pub category: Option<String>,
    pub closes_at: Option<Timestamp>,
    pub outcomes: Vec<String>,
}

/// Creates a market with its outcomes at even starting prices.
pub struct CreateMarket<M> {
    pub markets: M,
}

impl<M> CreateMarket<M> {
    pub fn new(markets: M) -> (r: Self)
        ensures
            r.markets == markets,
    {
        CreateMarket { markets }
    }
}

/// Loads the single most popular market for the homepage.
pub struct GetFeaturedMarket<M> {
    pub markets: M,
}

impl<M> GetFeaturedMarket<M> {
    pub fn new(markets: M) -> (r: Self)
        ensures
            r.markets == markets,
    {
        GetFeaturedMarket { markets }
    }
}

/// Loads one market with its outcomes.
pub struct GetMarket<M> {
    pub markets: M,
}

impl<M> GetMarket<M> {
    pub fn new(markets: M) -> (r: Self)
        ensures
            r.markets == markets,
    {
        GetMarket { markets }
    }
}

/// Loads the price history of a market's outcomes.
pub struct GetPriceHistory<M> {
    pub markets: M,
}

impl<M> GetPriceHistory<M> {
    pub fn new(markets: M) -> (r: Self)
        ensures
            r.markets == markets,
    {
        GetPriceHistory { markets }
    }
}

/// Lists markets matching a filter, each with its outcomes.
pub struct ListMarkets<M> {
    pub markets: M,
}

impl<M> ListMarkets<M> {
    pub fn new(markets: M) -> (r: Self)
        ensures
            r.markets == markets,
    {
        ListMarkets { markets }
    }
}

/// Settles a market on a winning outcome.
pub struct ResolveMarket<M> {
    pub markets: M,
}

impl<M> ResolveMarket<M> {
    pub fn new(markets: M) -> (r: Self)
        ensures
            r.markets == markets,
    {
        ResolveMarket { markets }
    }
}

/// Stores an outcome's image and points its thumbnail at it.
pub struct UploadOutcomeThumbnail<M, S> {
    pub markets: M,
    pub storage: S,
}

impl<M, S> UploadOutcomeThumbnail<M, S> {
    pub fn new(markets: M, storage: S) -> (r: Self)
        ensures
            r.markets == markets,
            r.storage == storage,
    {
        UploadOutcomeThumbnail { markets, storage }
    }
}

/// Stores a market's cover image and points its thumbnail at it.
pub struct UploadMarketThumbnail<M, S> {
    pub markets: M,
    pub storage: S,
}

impl<M, S> UploadMarketThumbnail<M, S> {
    pub fn new(markets: M, storage: S) -> (r: Self)
        ensures
            r.markets == markets,
            r.storage == storage,
    {
        UploadMarketThumbnail { markets, storage }
    }
}

/// Who may open, resolve and illustrate markets: accounts with the admin role.
pub open spec fn manages_markets(role: Role) -> bool {
    role == Role::Admin
}

pub fn can_manage_markets(role: Role) -> (r: bool)
    ensures
        r == manages_markets(role),
{
    role == Role::Admin
}

/// The market-management use cases refuse anyone but an admin.
pub fn require_market_manager(actor: &Actor) -> (r: Result<(), ApplicationError>)
    ensures
        manages_markets(actor.role) <==> r is Ok,
        !manages_markets(actor.role) ==> (r matches Err(ApplicationError::Forbidden(m)) && m@
            == "admin role required"@),
{
    if can_manage_markets(actor.role) {
        Ok(())
    } else {
        Err(ApplicationError::Forbidden(String::from_str("admin role required")))
    }
}

/// What creating a market checks before anything is built: the actor's role,
/// then that there are at least two outcomes.
pub fn check_new_market(actor: &Actor, input: &NewMarket) -> (r: Result<(), ApplicationError>)
    ensures
        r is Ok <==> manages_markets(actor.role) && input.outcomes@.len() >= 2,
        !manages_markets(actor.role) ==> (r matches Err(ApplicationError::Forbidden(m)) && m@
            == "admin role required"@),
        manages_markets(actor.role) && input.outcomes@.len() < 2 ==> (r matches Err(
            ApplicationError::Domain(DomainError::Validation(m)),
        ) && m@ == "a market needs at least two outcomes"@),
{
    require_market_manager(actor)?;
    if input.outcomes.len() < 2 {
        return Err(
            ApplicationError::Domain(
                DomainError::Validation(String::from_str("a market needs at least two outcomes")),
            ),
        );
    }
    Ok(())
}

/// A market can only be settled on one of its own outcomes.
pub fn require_winner_of(outcomes: &Vec<Outcome>, winning: OutcomeId, market_id: MarketId) -> (r:
    Result<(), ApplicationError>)
    ensures
        r is Ok <==> exists|i: int| 0 <= i < outcomes@.len() && (#[trigger] outcomes@[i]).id == winning,
        r is Err ==> (r matches Err(ApplicationError::Domain(DomainError::RuleViolation(m))) && m@
            == not_in_market_text(winning, market_id)),
{
    proof {
        lemma_first_outcome_exists(outcomes@, winning, 0);
    }
    match chosen_outcome(outcomes, winning, market_id) {
        Ok(_) => Ok(()),
        Err(e) => Err(e),
    }
}

proof fn lemma_first_outcome_exists(os: Seq<Outcome>, id: OutcomeId, i: int)
    requires
        0 <= i <= os.len(),
    ensures
        first_outcome_from(os, id, i) is Some <==> exists|k: int|
            i <= k < os.len() && (#[trigger] os[k]).id == id,
        first_outcome_from(os, id, i) matches Some(k) ==> i <= k < os.len() && os[k].id == id,
    decreases os.len() - i,
{
    if i < os.len() {
        lemma_first_outcome_exists(os, id, i + 1);
        if os[i].id != id {
            assert forall|k: int| i <= k < os.len() && (#[trigger] os[k]).id == id implies i + 1
                <= k by {}
        }
    }
}

pub open spec fn outcome_not_in_market_text(outcome: OutcomeId, market: MarketId) -> Seq<char> {
    "outcome "@ + outcome_id_text(outcome) + " of market "@ + market_id_text(market)
}

/// Where among its market's outcomes an uploaded thumbnail goes: the first
/// outcome with the id, or `NotFound` — an outcome of another market is as
/// good as absent.
pub fn outcome_slot(outcomes: &Vec<Outcome>, outcome_id: OutcomeId, market_id: MarketId) -> (r:
    Result<usize, ApplicationError>)
    ensures
        match first_outcome_from(outcomes@, outcome_id, 0) {
            Some(i) => r == Ok::<usize, ApplicationError>(i as usize),
            None => r matches Err(ApplicationError::NotFound(m)) && m@
                == outcome_not_in_market_text(outcome_id, market_id),
        },
{
    match chosen_outcome(outcomes, outcome_id, market_id) {
        Ok(i) => Ok(i),
        Err(_) => {
            let mut m = String::from_str("outcome ");
            m.append(outcome_id.to_text().as_str());
            m.append(" of market ");
            m.append(market_id.to_text().as_str());
            Err(ApplicationError::NotFound(m))
        },
    }
}

/// Points outcome `i`'s thumbnail at `url`, leaving everything else as it was.
pub fn set_outcome_thumbnail(outcomes: &mut Vec<Outcome>, i: usize, url: String)
    requires
        i < old(outcomes)@.len(),
    ensures
        final(outcomes)@ == old(outcomes)@.update(
            i as int,
            Outcome { thumbnail_url: Some(url), ..old(outcomes)@[i as int] },
        ),
{
    let o = &outcomes[i];
    let updated = Outcome {
        id: o.id,
        market_id: o.market_id,
        label: o.label.clone(),
        price: o.price,
        thumbnail_url: Some(url),
    };
    outcomes.set(i, updated);
}

/// `market` with its thumbnail at `url`.
pub fn with_thumbnail(market: Market, url: String) -> (r: Market)
    ensures
        r == (Market { thumbnail_url: Some(url), ..market }),
{
    let mut market = market;
    market.thumbnail_url = Some(url);
    market
}

/// The outcomes of market `id` in `os`, in order.
pub open spec fn outcomes_of(os: Seq<Outcome>, id: MarketId) -> Seq<Outcome>
    decreases os.len(),
{
    if os.len() == 0 {
        os
    } else if os.last().market_id == id {
        outcomes_of(os.drop_last(), id).push(os.last())
    } else {
        outcomes_of(os.drop_last(), id)
    }
}

/// Market `i` of `ms` repeats an earlier market's id.
pub open spec fn repeats_earlier(ms: Seq<Market>, i: int) -> bool {
    exists|j: int| 0 <= j < i && (#[trigger] ms[j]).id == ms[i].id
}

/// The outcomes shown with market `i` of a listing: its own, in the order the
/// store returned them; a repeat of an earlier market gets none, the outcomes
/// having gone with the first.
pub open spec fn listed_outcomes(ms: Seq<Market>, i: int, os: Seq<Outcome>) -> Seq<Outcome> {
    if repeats_earlier(ms, i) {
        Seq::empty()
    } else {
        outcomes_of(os, ms[i].id)
    }
}

fn outcomes_for_market(os: &Vec<Outcome>, id: MarketId) -> (r: Vec<Outcome>)
    ensures
        r@ == outcomes_of(os@, id),
{
    let mut r: Vec<Outcome> = Vec::new();
    let mut i: usize = 0;
    while i < os.len()
        invariant
            i <= os@.len(),
            r@ == outcomes_of(os@.subrange(0, i as int), id),
        decreases os.len() - i,
    {
        assert(os@.subrange(0, i + 1).drop_last() =~= os@.subrange(0, i as int));
        if os[i].market_id == id {
            r.push(os[i].copied());
        }
        i = i + 1;
    }
    assert(os@.subrange(0, os@.len() as int) =~= os@);
    r
}

fn holds_market_id(v: &Vec<MarketId>, id: MarketId) -> (r: bool)
    ensures
        r == v@.contains(id),
{
    let mut i: usize = 0;
    while i < v.len()
        invariant
            i <= v@.len(),
            forall|j: int| 0 <= j < i ==> v@[j] != id,
        decreases v.len() - i,
    {
        if v[i] == id {
            return true;
        }
        i = i + 1;
    }
    false
}

/// Pairs each listed market with its outcomes, out of one batch of outcomes
/// for all of them.
pub fn group_outcomes(markets: Vec<Market>, outcomes: &Vec<Outcome>) -> (r: Vec<MarketView>)
    ensures
        r@.len() == markets@.len(),
        forall|i: int|
            0 <= i < markets@.len() ==> (#[trigger] r@[i]).market == markets@[i] && r@[i].outcomes@
                == listed_outcomes(markets@, i, outcomes@),
{
    let mut views: Vec<MarketView> = Vec::new();
    let mut seen: Vec<MarketId> = Vec::new();
    let mut i: usize = 0;
    while i < markets.len()
        invariant
            i <= markets@.len(),
            views@.len() == i,
            seen@ == markets@.subrange(0, i as int).map_values(|m: Market| m.id),
            forall|k: int|
                0 <= k < i ==> (#[trigger] views@[k]).market == markets@[k] && views@[k].outcomes@
                    == listed_outcomes(markets@, k, outcomes@),
        decreases markets.len() - i,
    {
        let m = markets[i].copied();
        let repeated = holds_market_id(&seen, m.id);
        proof {
            if repeated {
                let w = choose|w: int| 0 <= w < seen@.len() && seen@[w] == m.id;
                assert(markets@[w].id == markets@[i as int].id);
                assert(repeats_earlier(markets@, i as int));
            } else {
                assert forall|j: int| 0 <= j < i implies (#[trigger] markets@[j]).id
                    != markets@[i as int].id by {
                    assert(seen@[j] == markets@[j].id);
                }
            }
        }
        let own = if repeated {
            Vec::new()
        } else {
            outcomes_for_market(outcomes, m.id)
        };
        let id = m.id;
        views.push(MarketView { market: m, outcomes: own });
        seen.push(id);
        assert(seen@ =~= markets@.subrange(0, i + 1).map_values(|m: Market| m.id));
        i = i + 1;
    }
    views
}

/// How far settling a market has got.
#[derive(Debug, Clone, Copy, PartialEq, Eq, Structural)]
pub enum ResolveStage {
    /// Waiting for the market.
    Market,
    /// Waiting for the market's outcomes.
    Outcomes,
    /// Settled or refused: nothing more is asked.
    Over,
}

/// An answer handed to [`resolve_step`].
pub enum ResolveEvent {
    /// Whether the market was found.
    Market(bool),
    /// The market's outcomes.
    Outcomes(Vec<Outcome>),
}

/// Why a market is not settled.
#[derive(Debug, Clone, Copy, PartialEq, Eq, Structural)]
pub enum ResolveRefusal {
    NotManager,
    UnknownMarket(MarketId),
    /// The winner named is not one of the market's outcomes.
    NotItsOutcome(OutcomeId, MarketId),
}

/// What settling a market does next.
#[derive(Debug, Clone, Copy, PartialEq, Eq, Structural)]
pub enum ResolveAction {
    LoadMarket(MarketId),
    LoadOutcomes(MarketId),
    /// Settle the market on the winner (the domain refuses a second time).
    Resolve,
    Refuse(ResolveRefusal),
}

pub open spec fn resolve_awaits(stage: ResolveStage, event: ResolveEvent) -> bool {
    match (stage, event) {
        (ResolveStage::Market, ResolveEvent::Market(_)) => true,
        (ResolveStage::Outcomes, ResolveEvent::Outcomes(_)) => true,
        _ => false,
    }
}

/// Whether one of `outcomes` has the id `winning`.
pub open spec fn has_outcome(outcomes: Seq<Outcome>, winning: OutcomeId) -> bool {
    exists|i: int| 0 <= i < outcomes.len() && (#[trigger] outcomes[i]).id == winning
}

pub open spec fn resolve_begin(actor: Actor, market_id: MarketId) -> (ResolveStage, ResolveAction) {
    if manages_markets(actor.role) {
        (ResolveStage::Market, ResolveAction::LoadMarket(market_id))
    } else {
        (ResolveStage::Over, ResolveAction::Refuse(ResolveRefusal::NotManager))
    }
}

pub open spec fn resolve_next(stage: ResolveStage, market_id: MarketId, winning: OutcomeId, event: ResolveEvent) -> (ResolveStage, ResolveAction) {
    match (stage, event) {
        (ResolveStage::Market, ResolveEvent::Market(found)) => if found {
            (ResolveStage::Outcomes, ResolveAction::LoadOutcomes(market_id))
        } else {
            (ResolveStage::Over, ResolveAction::Refuse(ResolveRefusal::UnknownMarket(market_id)))
        },
        (ResolveStage::Outcomes, ResolveEvent::Outcomes(os)) => if has_outcome(os@, winning) {
            (ResolveStage::Over, ResolveAction::Resolve)
        } else {
            (ResolveStage::Over, ResolveAction::Refuse(ResolveRefusal::NotItsOutcome(winning, market_id)))
        },
        _ => vstd::pervasive::arbitrary(),
    }
}

/// Where settling starts: only a market manager may settle.
pub fn resolve_start(actor: &Actor, market_id: MarketId) -> (r: (ResolveStage, ResolveAction))
    ensures
        r == resolve_begin(*actor, market_id),
{
    if can_manage_markets(actor.role) {
        (ResolveStage::Market, ResolveAction::LoadMarket(market_id))
    } else {
        (ResolveStage::Over, ResolveAction::Refuse(ResolveRefusal::NotManager))
    }
}

/// One step of settling: the market, then its outcomes, among which the
/// winner must be.
pub fn resolve_step(stage: ResolveStage, market_id: MarketId, winning: OutcomeId, event: &ResolveEvent) -> (r: (ResolveStage, ResolveAction))
    requires
        resolve_awaits(stage, *event),
    ensures
        r == resolve_next(stage, market_id, winning, *event),
{
    let unexpected = (ResolveStage::Over, ResolveAction::Refuse(ResolveRefusal::NotManager));
    match stage {
        ResolveStage::Market => match event {
            ResolveEvent::Market(found) => if *found {
                (ResolveStage::Outcomes, ResolveAction::LoadOutcomes(market_id))
            } else {
                (ResolveStage::Over, ResolveAction::Refuse(ResolveRefusal::UnknownMarket(market_id)))
            },
            _ => unexpected,
        },
        ResolveStage::Outcomes => match event {
            ResolveEvent::Outcomes(os) => match require_winner_of(os, winning, market_id) {
                Ok(()) => (ResolveStage::Over, ResolveAction::Resolve),
                Err(_) => (ResolveStage::Over, ResolveAction::Refuse(ResolveRefusal::NotItsOutcome(winning, market_id))),
            },
            _ => unexpected,
        },
        ResolveStage::Over => unexpected,
    }
}

/// How a refusal to settle reads.
pub fn resolve_refusal_error(refusal: ResolveRefusal) -> (r: ApplicationError)
    ensures
        match refusal {
            ResolveRefusal::NotManager => r matches ApplicationError::Forbidden(m) && m@
                == "admin role required"@,
            ResolveRefusal::UnknownMarket(id) => r matches ApplicationError::NotFound(m) && m@
                == "market "@ + market_id_text(id),
            ResolveRefusal::NotItsOutcome(outcome, market) => r matches ApplicationError::Domain(
                DomainError::RuleViolation(m),
            ) && m@ == not_in_market_text(outcome, market),
        },
{
    proof {
        reveal_strlit("market");
        reveal_strlit("market ");
        reveal_strlit(" ");
    }
    match refusal {
        ResolveRefusal::NotManager => ApplicationError::Forbidden(String::from_str("admin role required")),
        ResolveRefusal::UnknownMarket(id) => ApplicationError::NotFound(
            described("market", id.to_text().as_str()),
        ),
        ResolveRefusal::NotItsOutcome(outcome, market) => {
            let mut m = String::from_str("outcome ");
            m.append(outcome.to_text().as_str());
            m.append(" does not belong to market ");
            m.append(market.to_text().as_str());
            ApplicationError::Domain(DomainError::RuleViolation(m))
        },
    }
}

/// Where settling stands after `events`, answered in order.
pub open spec fn resolving(actor: Actor, market_id: MarketId, winning: OutcomeId, events: Seq<ResolveEvent>) -> (ResolveStage, ResolveAction)
    decreases events.len(),
{
    if events.len() == 0 {
        resolve_begin(actor, market_id)
    } else {
        resolve_next(resolving(actor, market_id, winning, events.drop_last()).0, market_id, winning, events.last())
    }
}

pub open spec fn resolve_answered_in_turn(actor: Actor, market_id: MarketId, winning: OutcomeId, events: Seq<ResolveEvent>) -> bool
    decreases events.len(),
{
    events.len() == 0 || (resolve_answered_in_turn(actor, market_id, winning, events.drop_last())
        && resolve_awaits(resolving(actor, market_id, winning, events.drop_last()).0, events.last()))
}

proof fn lemma_resolving_path(actor: Actor, market_id: MarketId, winning: OutcomeId, events: Seq<ResolveEvent>)
    requires
        resolve_answered_in_turn(actor, market_id, winning, events),
        resolving(actor, market_id, winning, events).0 != ResolveStage::Over,
    ensures
        manages_markets(actor.role),
        resolving(actor, market_id, winning, events).0 == ResolveStage::Market ==> events.len() == 0,
        resolving(actor, market_id, winning, events).0 == ResolveStage::Outcomes ==> events.len() == 1
            && events[0] == ResolveEvent::Market(true),
    decreases events.len(),
{
    if events.len() > 0 {
        lemma_resolving_path(actor, market_id, winning, events.drop_last());
    }
}

/// A market is settled only by a market manager, only once it was found,
/// and only on one of its own outcomes.
pub proof fn only_a_manager_settles_and_only_on_an_own_outcome(
    actor: Actor,
    market_id: MarketId,
    winning: OutcomeId,
    events: Seq<ResolveEvent>,
)
    requires
        resolve_answered_in_turn(actor, market_id, winning, events),
        resolving(actor, market_id, winning, events).1 == ResolveAction::Resolve,
    ensures
        manages_markets(actor.role),
        events.len() == 2,
        events[0] == ResolveEvent::Market(true),
        events[1] matches ResolveEvent::Outcomes(os) && has_outcome(os@, winning),
{
    assert(events.len() > 0);
    let before = events.drop_last();
    assert(resolve_awaits(resolving(actor, market_id, winning, before).0, events.last()));
    lemma_resolving_path(actor, market_id, winning, before);
    assert forall|k: int| 0 <= k < before.len() implies events[k] == before[k] by {}
}

/// Settling goes exactly as the answers say: only an admin gets past the
/// start; a market that is not found is refused as unknown; a found market is
/// settled exactly when one of its outcomes, whichever position it holds,
/// has the winner's id, and otherwise refused as not its outcome.
pub proof fn a_manager_settles_a_found_market_on_any_of_its_outcomes(
    actor: Actor,
    market_id: MarketId,
    winning: OutcomeId,
    os: Vec<Outcome>,
)
    ensures
        actor.role == Role::Admin ==> resolving(actor, market_id, winning, Seq::empty()) == (
            ResolveStage::Market,
            ResolveAction::LoadMarket(market_id),
        ),
        actor.role != Role::Admin ==> resolving(actor, market_id, winning, Seq::empty()) == (
            ResolveStage::Over,
            ResolveAction::Refuse(ResolveRefusal::NotManager),
        ),
        actor.role == Role::Admin ==> resolving(actor, market_id, winning, seq![ResolveEvent::Market(false)])
            == (ResolveStage::Over, ResolveAction::Refuse(ResolveRefusal::UnknownMarket(market_id))),
        actor.role == Role::Admin ==> resolving(actor, market_id, winning, seq![ResolveEvent::Market(true)])
            == (ResolveStage::Outcomes, ResolveAction::LoadOutcomes(market_id)),
        actor.role == Role::Admin && (exists|k: int| 0 <= k < os@.len() && (#[trigger] os@[k]).id == winning)
            ==> resolving(actor, market_id, winning, seq![ResolveEvent::Market(true), ResolveEvent::Outcomes(os)])
            == (ResolveStage::Over, ResolveAction::Resolve),
        actor.role == Role::Admin && (forall|k: int| 0 <= k < os@.len() ==> (#[trigger] os@[k]).id != winning)
            ==> resolving(actor, market_id, winning, seq![ResolveEvent::Market(true), ResolveEvent::Outcomes(os)])
            == (ResolveStage::Over, ResolveAction::Refuse(ResolveRefusal::NotItsOutcome(winning, market_id))),
{
    let one_f = seq![ResolveEvent::Market(false)];
    let one = seq![ResolveEvent::Market(true)];
    let two = seq![ResolveEvent::Market(true), ResolveEvent::Outcomes(os)];
    assert(one_f.drop_last() =~= Seq::<ResolveEvent>::empty());
    assert(one.drop_last() =~= Seq::<ResolveEvent>::empty());
    assert(two.drop_last() =~= one);
    assert(two.last() == ResolveEvent::Outcomes(os));
    assert(one.last() == ResolveEvent::Market(true));
    assert(one_f.last() == ResolveEvent::Market(false));
    assert(resolving(actor, market_id, winning, Seq::empty()) == resolve_begin(actor, market_id));
    if actor.role == Role::Admin {
        assert(resolving(actor, market_id, winning, one).0 == ResolveStage::Outcomes);
        if exists|k: int| 0 <= k < os@.len() && (#[trigger] os@[k]).id == winning {
            let k = choose|k: int| 0 <= k < os@.len() && (#[trigger] os@[k]).id == winning;
            assert(has_outcome(os@, winning));
        }
        if forall|k: int| 0 <= k < os@.len() ==> (#[trigger] os@[k]).id != winning {
            assert(!has_outcome(os@, winning));
        }
    }
}

} // verus!
