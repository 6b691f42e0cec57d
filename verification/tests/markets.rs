use betsphere::actor::Actor;
use betsphere::error::{ApplicationError, DomainError};
use betsphere::model::{Market, MarketId, Outcome, OutcomeId, Role, UserId};
use betsphere::use_cases::market::{
    can_manage_markets, check_new_market, group_outcomes, outcome_slot, require_winner_of,
    resolve_refusal_error, resolve_start, resolve_step, set_outcome_thumbnail, with_thumbnail,
    NewMarket, ResolveAction, ResolveEvent, ResolveRefusal, ResolveStage, MAX_THUMBNAIL_BYTES,
};

fn outcome(id: u128, market: u128, price: u32) -> Outcome {
    Outcome {
        id: OutcomeId(id),
        market_id: MarketId(market),
        label: format!("o{id}"),
        price,
        thumbnail_url: None,
    }
}

fn market(id: u128) -> Market {
    Market { id: MarketId(id), title: format!("m{id}"), thumbnail_url: None }
}

fn new_market(n: usize) -> NewMarket {
    NewMarket {
        title: "Will it rain?".into(),
        description: None,
        category: None,
        closes_at: None,
        outcomes: (0..n).map(|i| format!("o{i}")).collect(),
    }
}

#[test]
fn only_admins_manage_markets() {
    assert!(can_manage_markets(Role::Admin));
    assert!(!can_manage_markets(Role::User));
    let admin = Actor { user_id: UserId(1), role: Role::Admin };
    let user = Actor { user_id: UserId(2), role: Role::User };
    match check_new_market(&user, &new_market(2)) {
        Err(ApplicationError::Forbidden(m)) => assert_eq!(m, "admin role required"),
        other => panic!("unexpected {other:?}"),
    }
    match check_new_market(&admin, &new_market(1)) {
        Err(ApplicationError::Domain(DomainError::Validation(m))) => {
            assert_eq!(m, "a market needs at least two outcomes")
        }
        other => panic!("unexpected {other:?}"),
    }
    assert!(check_new_market(&admin, &new_market(2)).is_ok());
    assert_eq!(MAX_THUMBNAIL_BYTES, 2 * 1024 * 1024);
}

#[test]
fn a_market_settles_on_its_own_outcomes_only() {
    let outcomes = vec![outcome(10, 1, 5_000), outcome(11, 1, 5_000)];
    assert!(require_winner_of(&outcomes, OutcomeId(11), MarketId(1)).is_ok());
    assert!(matches!(
        require_winner_of(&outcomes, OutcomeId(12), MarketId(1)),
        Err(ApplicationError::Domain(DomainError::RuleViolation(_)))
    ));
}

#[test]
fn a_thumbnail_goes_to_the_named_outcome() {
    let mut outcomes = vec![outcome(10, 1, 5_000), outcome(11, 1, 5_000)];
    let i = outcome_slot(&outcomes, OutcomeId(11), MarketId(1)).unwrap();
    set_outcome_thumbnail(&mut outcomes, i, "u".into());
    assert_eq!(outcomes[1].thumbnail_url.as_deref(), Some("u"));
    assert_eq!(outcomes[0].thumbnail_url, None);
    match outcome_slot(&outcomes, OutcomeId(12), MarketId(1)) {
        Err(ApplicationError::NotFound(m)) => assert_eq!(
            m,
            "outcome 00000000-0000-0000-0000-00000000000c of market 00000000-0000-0000-0000-000000000001"
        ),
        other => panic!("unexpected {other:?}"),
    }
    let m = with_thumbnail(market(1), "t".into());
    assert_eq!(m.thumbnail_url.as_deref(), Some("t"));
}

#[test]
fn each_listed_market_gets_its_outcomes_in_order() {
    let markets = vec![market(1), market(2), market(1)];
    let outcomes = vec![outcome(20, 2, 1), outcome(10, 1, 2), outcome(11, 1, 3), outcome(30, 3, 4)];
    let views = group_outcomes(markets, &outcomes);
    assert_eq!(views.len(), 3);
    let ids = |v: &Vec<Outcome>| v.iter().map(|o| o.id).collect::<Vec<_>>();
    assert_eq!(ids(&views[0].outcomes), vec![OutcomeId(10), OutcomeId(11)]);
    assert_eq!(ids(&views[1].outcomes), vec![OutcomeId(20)]);
    // A repeated market's outcomes went with its first appearance.
    assert!(views[2].outcomes.is_empty());
}

#[test]
fn only_a_manager_settles_and_only_on_an_own_outcome() {
    let admin = Actor { user_id: UserId(1), role: Role::Admin };
    let user = Actor { user_id: UserId(2), role: Role::User };
    let (_, action) = resolve_start(&user, MarketId(1));
    assert_eq!(action, ResolveAction::Refuse(ResolveRefusal::NotManager));
    match resolve_refusal_error(ResolveRefusal::NotManager) {
        ApplicationError::Forbidden(m) => assert_eq!(m, "admin role required"),
        other => panic!("unexpected {other:?}"),
    }
    let (stage, action) = resolve_start(&admin, MarketId(1));
    assert_eq!(action, ResolveAction::LoadMarket(MarketId(1)));
    let (stage, action) = resolve_step(stage, MarketId(1), OutcomeId(11), &ResolveEvent::Market(true));
    assert_eq!(action, ResolveAction::LoadOutcomes(MarketId(1)));
    let own = vec![outcome(10, 1, 5_000), outcome(11, 1, 5_000)];
    let (done, action) = resolve_step(stage, MarketId(1), OutcomeId(11), &ResolveEvent::Outcomes(own));
    assert_eq!((done, action), (ResolveStage::Over, ResolveAction::Resolve));
    let other = vec![outcome(10, 1, 5_000)];
    let (_, action) = resolve_step(stage, MarketId(1), OutcomeId(11), &ResolveEvent::Outcomes(other));
    assert_eq!(action, ResolveAction::Refuse(ResolveRefusal::NotItsOutcome(OutcomeId(11), MarketId(1))));
    let (_, action) =
        resolve_step(ResolveStage::Market, MarketId(1), OutcomeId(11), &ResolveEvent::Market(false));
    assert_eq!(action, ResolveAction::Refuse(ResolveRefusal::UnknownMarket(MarketId(1))));
    match resolve_refusal_error(ResolveRefusal::UnknownMarket(MarketId(1))) {
        ApplicationError::NotFound(m) => {
            assert_eq!(m, "market 00000000-0000-0000-0000-000000000001")
        }
        other => panic!("unexpected {other:?}"),
    }
}
