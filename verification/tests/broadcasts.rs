use betsphere::broadcasters::{
    bet_broadcast, bet_deliveries, bet_feeds, chat_message_broadcast, message_delivery,
    price_update, quote_to_carry, quoted_message, reaction_count, reaction_delivery,
    BetPlacedBroadcaster,
};
use betsphere::model::{
    Bet, BetId, ChatChannel, ChatMessage, MarketId, MessageId, Outcome, OutcomeId,
    ReactionTally, Role, Timestamp, User, UserId,
};
use betsphere::realtime::BetFeed;

fn ts(secs: i64) -> Timestamp {
    Timestamp { secs, nanos: 0 }
}

fn user(id: u128, name: &str) -> User {
    User {
        id: UserId(id),
        username: name.to_string(),
        email: format!("{name}@example.com"),
        role: Role::User,
        balance: 1_000,
        avatar_url: Some(format!("/files/avatars/{name}.png")),
    }
}

fn message(id: u128, author: u128, body: &str, reply_to: Option<u128>) -> ChatMessage {
    ChatMessage {
        id: MessageId(id),
        author_id: UserId(author),
        channel: ChatChannel::Market(MarketId(4)),
        body: body.to_string(),
        reply_to: reply_to.map(MessageId),
        created_at: ts(1_700_000_123),
    }
}

fn outcome(id: u128, price: u32) -> Outcome {
    Outcome {
        id: OutcomeId(id),
        market_id: MarketId(4),
        label: format!("o{id}"),
        price,
        thumbnail_url: None,
    }
}

#[test]
fn a_bet_goes_out_on_its_market_feed_then_the_global_one() {
    let bet = Bet {
        id: BetId(9),
        user_id: UserId(2),
        market_id: MarketId(4),
        outcome_id: OutcomeId(40),
        amount: 250,
        price: 6_200,
        created_at: ts(1_700_000_000),
    };
    assert_eq!(bet_feeds(&bet), vec![BetFeed::Market(MarketId(4)), BetFeed::Global]);
    let b = bet_broadcast(&bet);
    assert_eq!(b.id, BetId(9));
    assert_eq!(b.user_id, UserId(2));
    assert_eq!(b.market_id, MarketId(4));
    assert_eq!(b.outcome_id, OutcomeId(40));
    assert_eq!(b.amount, 250);
    assert_eq!(b.price, 6_200);
    assert_eq!(b.created_at, ts(1_700_000_000));
    let holder = BetPlacedBroadcaster::new("bets", "broker");
    assert_eq!((holder.bets, holder.broker), ("bets", "broker"));
}

#[test]
fn a_reply_is_broadcast_with_its_quote_and_public_profiles() {
    let alice = user(7, "alice");
    let bob = user(8, "bob");
    let parent = message(10, 8, "yes is a lock", None);
    let reply = message(11, 7, "no chance", Some(10));
    let quote = quoted_message(&parent, &bob);
    let b = chat_message_broadcast(&reply, &alice, Some(quote));
    assert_eq!(b.id, MessageId(11));
    assert_eq!(b.author.id, UserId(7));
    assert_eq!(b.author.username, "alice");
    assert_eq!(b.author.avatar_url.as_deref(), Some("/files/avatars/alice.png"));
    assert_eq!(b.body, "no chance");
    assert_eq!(b.created_at, ts(1_700_000_123));
    let q = b.reply_to.expect("the quote travels with the reply");
    assert_eq!(q.id, MessageId(10));
    assert_eq!(q.author.username, "bob");
    assert_eq!(q.body, "yes is a lock");

    let plain = chat_message_broadcast(&parent, &bob, None);
    assert!(plain.reply_to.is_none());
}

#[test]
fn a_reaction_broadcast_carries_the_count_as_it_now_stands() {
    let added = vec![(
        MessageId(1),
        vec![
            ReactionTally { emoji: "🔥".into(), count: 1, reacted: true },
            ReactionTally { emoji: "🚀".into(), count: 3, reacted: false },
        ],
    )];
    assert_eq!(reaction_count(&added, MessageId(1), "🔥"), 1);
    assert_eq!(reaction_count(&added, MessageId(1), "🚀"), 3);
    // Once the only reaction is taken back the tally is gone: the count reads 0.
    let removed = vec![(
        MessageId(1),
        vec![ReactionTally { emoji: "🚀".into(), count: 3, reacted: false }],
    )];
    assert_eq!(reaction_count(&removed, MessageId(1), "🔥"), 0);
    assert_eq!(reaction_count(&removed, MessageId(2), "🚀"), 0);
    assert_eq!(reaction_count(&Vec::new(), MessageId(1), "🔥"), 0);
}

#[test]
fn a_price_update_has_one_tick_per_outcome() {
    let outcomes = vec![outcome(40, 6_200), outcome(41, 3_800)];
    let at = ts(1_700_000_500);
    let update = price_update(&outcomes, at).expect("a market with outcomes");
    assert_eq!(update.ticks.len(), 2);
    assert_eq!(update.ticks[0].outcome_id, OutcomeId(40));
    assert_eq!(update.ticks[0].price, 6_200);
    assert_eq!(update.ticks[1].outcome_id, OutcomeId(41));
    assert_eq!(update.ticks[1].price, 3_800);
    assert!(update.ticks.iter().all(|t| t.recorded_at == at));
    assert!(price_update(&Vec::new(), at).is_none());
}

const MARKET_4: &str = "00000000-0000-0000-0000-000000000004";

#[test]
fn a_found_bet_is_delivered_on_both_feeds_and_a_vanished_one_on_none() {
    let bet = Bet {
        id: BetId(9),
        user_id: UserId(2),
        market_id: MarketId(4),
        outcome_id: OutcomeId(40),
        amount: 250,
        price: 6_200,
        created_at: ts(1_700_000_000),
    };
    let out = bet_deliveries(Some(bet));
    assert_eq!(out.len(), 2);
    assert_eq!(out[0].0, format!("market_bets:{MARKET_4}"));
    assert_eq!(out[1].0, "global_bets");
    assert_eq!(out[0].1.id, BetId(9));
    assert_eq!(out[1].1.amount, 250);
    assert_eq!(out[1].1.price, 6_200);
    assert!(bet_deliveries(None).is_empty());
}

#[test]
fn a_reply_loses_its_quote_when_the_quote_or_its_author_is_gone() {
    let bob = user(8, "bob");
    let parent = message(10, 8, "yes is a lock", None);
    let q = quote_to_carry(Some(parent.clone()), Some(bob.clone())).expect("both found");
    assert_eq!(q.id, MessageId(10));
    assert_eq!(q.author.username, "bob");
    assert_eq!(q.body, "yes is a lock");
    assert!(quote_to_carry(Some(parent), None).is_none());
    assert!(quote_to_carry(None, Some(bob)).is_none());
}

#[test]
fn a_message_is_delivered_on_its_room_only_while_it_and_its_author_exist() {
    let alice = user(7, "alice");
    let reply = message(11, 7, "no chance", Some(10));
    let (channel, b) =
        message_delivery(Some(reply.clone()), Some(alice.clone()), None).expect("both found");
    assert_eq!(channel, format!("chat:market:{MARKET_4}"));
    assert_eq!(b.id, MessageId(11));
    assert_eq!(b.author.username, "alice");
    assert_eq!(b.body, "no chance");
    assert!(b.reply_to.is_none());
    assert!(message_delivery(Some(reply), None, None).is_none());
    assert!(message_delivery(None, Some(alice), None).is_none());
}

#[test]
fn a_reaction_is_delivered_with_the_current_count_while_its_message_exists() {
    let tallies = vec![(
        MessageId(11),
        vec![ReactionTally { emoji: "🔥".into(), count: 2, reacted: true }],
    )];
    let reply = message(11, 7, "no chance", None);
    let (channel, b) =
        reaction_delivery(Some(reply), &tallies, "🔥".to_string(), "🔥", UserId(7), true)
            .expect("message found");
    assert_eq!(channel, format!("chat_reactions:market:{MARKET_4}"));
    assert_eq!(b.message_id, MessageId(11));
    assert_eq!(b.emoji, "🔥");
    assert_eq!(b.count, 2);
    assert_eq!(b.user_id, UserId(7));
    assert!(b.added);
    assert!(reaction_delivery(None, &tallies, "🔥".to_string(), "🔥", UserId(7), false).is_none());
}
