use betsphere::error::{ApplicationError, DomainError};
use betsphere::actor::Actor;
use betsphere::model::{
    Bet, BetId, Market, MarketId, Outcome, OutcomeId, PricePoint, Role, Timestamp, User, UserId,
};
use betsphere::use_cases::bet::{
    assemble_bet_views, bet_price, bettors_to_resolve, chosen_outcome, distinct_markets,
    enrich_lookups, EnrichLookup, place_bet_start, place_bet_step, price_points, refusal_error, require_bettor, NewBet,
    PlaceBet, PlaceBetAction, PlaceBetEvent, PlaceBetRefusal, PlaceBetStage,
};

fn ts() -> Timestamp {
    Timestamp { secs: 1_700_000_000, nanos: 0 }
}

fn outcome(id: u128, market: u128, label: &str, price: u32) -> Outcome {
    Outcome {
        id: OutcomeId(id),
        market_id: MarketId(market),
        label: label.to_string(),
        price,
        thumbnail_url: None,
    }
}

fn market(id: u128, title: &str) -> Market {
    Market { id: MarketId(id), title: title.to_string(), thumbnail_url: None }
}

fn bet(id: u128, user: u128, market: u128, outcome: u128) -> Bet {
    Bet {
        id: BetId(id),
        user_id: UserId(user),
        market_id: MarketId(market),
        outcome_id: OutcomeId(outcome),
        amount: 100,
        price: 2_500,
        created_at: ts(),
    }
}

fn id_text(v: u128) -> String {
    format!("{:08x}-{:04x}-{:04x}-{:04x}-{:012x}", v >> 96, (v >> 80) & 0xffff, (v >> 64) & 0xffff, (v >> 48) & 0xffff, v & 0xffff_ffff_ffff)
}

#[test]
fn place_bet_holds_its_stores() {
    let p = PlaceBet::new(1u8, 2u16, 3u32);
    assert_eq!((p.markets, p.bets, p.users), (1, 2, 3));
}

#[test]
fn the_chosen_outcome_is_found_among_its_market() {
    let outcomes = vec![outcome(10, 1, "Yes", 2_500), outcome(11, 1, "No", 7_500)];
    assert_eq!(chosen_outcome(&outcomes, OutcomeId(11), MarketId(1)).unwrap(), 1);
    match chosen_outcome(&outcomes, OutcomeId(12), MarketId(1)) {
        Err(ApplicationError::Domain(DomainError::RuleViolation(m))) => assert_eq!(
            m,
            format!("outcome {} does not belong to market {}", id_text(12), id_text(1))
        ),
        other => panic!("unexpected {other:?}"),
    }
}

fn user(id: u128, balance: i64) -> User {
    User {
        id: UserId(id),
        username: format!("u{id}"),
        email: format!("u{id}@example.com"),
        role: Role::User,
        balance,
        avatar_url: None,
    }
}

fn placing(amount: i64) -> (Actor, NewBet) {
    (Actor { user_id: UserId(7), role: Role::User }, NewBet { outcome_id: OutcomeId(11), amount })
}

fn step(stage: PlaceBetStage, amount: i64, event: PlaceBetEvent) -> (PlaceBetStage, PlaceBetAction) {
    let (actor, input) = placing(amount);
    place_bet_step(stage, &actor, &input, &event)
}

#[test]
fn a_bet_walks_through_every_check_to_its_commit() {
    let (_, input) = placing(100);
    let (stage, action) = place_bet_start(&input);
    assert_eq!(action, PlaceBetAction::LoadOutcome(OutcomeId(11)));
    let (stage, action) = step(stage, 100, PlaceBetEvent::Outcome(Some(outcome(11, 1, "No", 0))));
    assert_eq!(action, PlaceBetAction::LoadMarket(MarketId(1)));
    let (stage, action) = step(stage, 100, PlaceBetEvent::Market(Some(market(1, "Rain?"))));
    assert_eq!(action, PlaceBetAction::AskVerdict(MarketId(1)));
    let (stage, action) = step(stage, 100, PlaceBetEvent::Verdict(true));
    assert_eq!(action, PlaceBetAction::LoadOutcomes(MarketId(1)));
    let outcomes = vec![outcome(10, 1, "Yes", 10_000), outcome(11, 1, "No", 0)];
    let (stage, action) = step(stage, 100, PlaceBetEvent::Outcomes(outcomes));
    assert_eq!(action, PlaceBetAction::LoadBettor(UserId(7)));
    let (stage, action) = step(stage, 100, PlaceBetEvent::Bettor(Some(user(7, 100))));
    // An outcome nobody has backed sells at one tick.
    assert_eq!(action, PlaceBetAction::Commit { market_id: MarketId(1), chosen: 1, price: 1 });
    assert_eq!(stage, PlaceBetStage::Over);
}

#[test]
fn a_closed_market_and_a_short_balance_are_refused() {
    let (_, action) = step(PlaceBetStage::Verdict { market_id: MarketId(1) }, 100, PlaceBetEvent::Verdict(false));
    assert_eq!(action, PlaceBetAction::Refuse(PlaceBetRefusal::NotAccepting));
    match refusal_error(PlaceBetRefusal::NotAccepting) {
        ApplicationError::Domain(DomainError::RuleViolation(m)) => {
            assert_eq!(m, "market is not accepting bets")
        }
        other => panic!("unexpected {other:?}"),
    }
    let waiting = PlaceBetStage::Bettor { market_id: MarketId(1), chosen: 0, price: 2_500 };
    let (stage, action) = step(waiting, 100, PlaceBetEvent::Bettor(Some(user(7, 99))));
    assert_eq!(action, PlaceBetAction::Refuse(PlaceBetRefusal::ShortOfFunds));
    assert_eq!(stage, PlaceBetStage::Over);
    match refusal_error(PlaceBetRefusal::ShortOfFunds) {
        ApplicationError::Domain(DomainError::RuleViolation(m)) => {
            assert_eq!(m, "insufficient balance")
        }
        other => panic!("unexpected {other:?}"),
    }
    let (_, action) = step(waiting, 100, PlaceBetEvent::Bettor(Some(user(7, 100))));
    assert!(matches!(action, PlaceBetAction::Commit { chosen: 0, price: 2_500, .. }));
}

#[test]
fn missing_rows_are_refused_by_name() {
    let (_, action) = step(PlaceBetStage::Outcome, 100, PlaceBetEvent::Outcome(None));
    assert_eq!(action, PlaceBetAction::Refuse(PlaceBetRefusal::UnknownOutcome(OutcomeId(11))));
    match refusal_error(PlaceBetRefusal::UnknownOutcome(OutcomeId(11))) {
        ApplicationError::NotFound(m) => assert_eq!(m, format!("outcome {}", id_text(11))),
        other => panic!("unexpected {other:?}"),
    }
    let (_, action) =
        step(PlaceBetStage::Market { market_id: MarketId(1) }, 100, PlaceBetEvent::Market(None));
    assert_eq!(action, PlaceBetAction::Refuse(PlaceBetRefusal::UnknownMarket(MarketId(1))));
    let (_, action) = step(
        PlaceBetStage::Outcomes { market_id: MarketId(1) },
        100,
        PlaceBetEvent::Outcomes(vec![outcome(10, 1, "Yes", 5_000)]),
    );
    assert_eq!(action, PlaceBetAction::Refuse(PlaceBetRefusal::NotInMarket(OutcomeId(11), MarketId(1))));
    match refusal_error(PlaceBetRefusal::NotInMarket(OutcomeId(11), MarketId(1))) {
        ApplicationError::Domain(DomainError::RuleViolation(m)) => assert_eq!(
            m,
            format!("outcome {} does not belong to market {}", id_text(11), id_text(1))
        ),
        other => panic!("unexpected {other:?}"),
    }
    let waiting = PlaceBetStage::Bettor { market_id: MarketId(1), chosen: 0, price: 2_500 };
    let (_, action) = step(waiting, 100, PlaceBetEvent::Bettor(None));
    assert_eq!(action, PlaceBetAction::Refuse(PlaceBetRefusal::UnknownBettor(UserId(7))));
    match refusal_error(PlaceBetRefusal::UnknownBettor(UserId(7))) {
        ApplicationError::NotFound(m) => assert_eq!(m, format!("user {}", id_text(7))),
        other => panic!("unexpected {other:?}"),
    }
}

#[test]
fn an_unbacked_outcome_sells_at_one_tick() {
    assert_eq!(bet_price(0), 1);
    assert_eq!(bet_price(1), 1);
    assert_eq!(bet_price(6_200), 6_200);
}

#[test]
fn price_points_follow_the_outcomes() {
    let outcomes = vec![outcome(10, 1, "Yes", 2_500), outcome(11, 1, "No", 7_500)];
    assert_eq!(
        price_points(&outcomes),
        vec![
            PricePoint { outcome_id: OutcomeId(10), price: 2_500 },
            PricePoint { outcome_id: OutcomeId(11), price: 7_500 },
        ]
    );
}

#[test]
fn listings_resolve_each_market_and_bettor_once() {
    let bets = vec![bet(1, 7, 1, 10), bet(2, 8, 2, 20), bet(3, 7, 1, 11)];
    assert_eq!(distinct_markets(&bets), vec![MarketId(1), MarketId(2)]);
    assert_eq!(bettors_to_resolve(&bets), vec![UserId(7), UserId(8)]);
}

#[test]
fn bets_are_shown_with_their_names() {
    let bets = vec![bet(1, 7, 1, 10), bet(2, 8, 2, 20)];
    let markets = vec![market(1, "Rain?"), market(2, "Snow?")];
    let outcomes = vec![outcome(10, 1, "Yes", 5_000), outcome(20, 2, "No", 5_000)];
    let names = vec![(UserId(7), "alice".to_string()), (UserId(8), "bob".to_string())];
    let views = assemble_bet_views(&bets, &markets, &outcomes, &names).unwrap();
    assert_eq!(views.len(), 2);
    assert_eq!(views[0].market_title, "Rain?");
    assert_eq!(views[0].outcome_label, "Yes");
    assert_eq!(views[0].username, "alice");
    assert_eq!(views[1].market_title, "Snow?");
    assert_eq!(views[1].outcome_label, "No");
    assert_eq!(views[1].username, "bob");
    assert_eq!(views[1].bet, bets[1]);
}

#[test]
fn a_bet_pointing_at_nothing_is_a_broken_link() {
    let bets = vec![bet(1, 7, 1, 10), bet(2, 7, 3, 30)];
    let markets = vec![market(1, "Rain?")];
    let outcomes = vec![outcome(10, 1, "Yes", 5_000)];
    let names = vec![(UserId(7), "alice".to_string())];
    match assemble_bet_views(&bets, &markets, &outcomes, &names) {
        Err(ApplicationError::Internal(m)) => {
            assert_eq!(m, format!("bet references missing market {}", id_text(3)))
        }
        other => panic!("unexpected {:?}", other.err()),
    }
    let markets = vec![market(1, "Rain?"), market(3, "Hail?")];
    match assemble_bet_views(&bets, &markets, &outcomes, &names) {
        Err(ApplicationError::Internal(m)) => {
            assert_eq!(m, format!("bet references missing outcome {}", id_text(30)))
        }
        other => panic!("unexpected {:?}", other.err()),
    }
    match require_bettor::<u8>(None, UserId(7)) {
        Err(ApplicationError::Internal(m)) => {
            assert_eq!(m, format!("bet references missing user {}", id_text(7)))
        }
        other => panic!("unexpected {other:?}"),
    }
}

#[test]
fn a_later_row_of_a_market_wins() {
    let bets = vec![bet(1, 7, 1, 10)];
    let markets = vec![market(1, "old"), market(1, "new")];
    let outcomes = vec![outcome(10, 1, "Yes", 5_000)];
    let names = vec![(UserId(7), "alice".to_string())];
    let views = assemble_bet_views(&bets, &markets, &outcomes, &names).unwrap();
    assert_eq!(views[0].market_title, "new");
}

#[test]
fn enriching_asks_for_each_batch_once_and_each_bettor_once() {
    let bets = vec![bet(1, 7, 1, 10), bet(2, 8, 2, 20), bet(3, 7, 1, 11), bet(4, 8, 1, 10)];
    let plan = enrich_lookups(&bets);
    assert_eq!(plan.len(), 4);
    assert!(matches!(&plan[0], EnrichLookup::Markets(ids) if ids == &vec![MarketId(1), MarketId(2)]));
    assert!(matches!(&plan[1], EnrichLookup::Outcomes(ids) if ids == &vec![MarketId(1), MarketId(2)]));
    assert!(matches!(plan[2], EnrichLookup::User(UserId(7))));
    assert!(matches!(plan[3], EnrichLookup::User(UserId(8))));

    let none = enrich_lookups(&Vec::new());
    assert_eq!(none.len(), 2);
    assert!(matches!(&none[0], EnrichLookup::Markets(ids) if ids.is_empty()));
    assert!(matches!(&none[1], EnrichLookup::Outcomes(ids) if ids.is_empty()));
}
