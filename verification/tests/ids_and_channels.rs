use betsphere::model::{ChatChannel, MarketId, MessageId, OutcomeId, UserId};
use betsphere::realtime::{
    BetFeed, BetPlacedBroadcast, ChatMessageBroadcast, ChatReactionBroadcast,
    PriceUpdateBroadcast,
};

const RAW: u128 = 0xa1a2a3a4b1b2c1c2d1d2d3d4d5d6d7d8;
const TEXT: &str = "a1a2a3a4-b1b2-c1c2-d1d2-d3d4d5d6d7d8";

#[test]
fn ids_read_as_hyphenated_uuids() {
    assert_eq!(MarketId(RAW).to_text(), TEXT);
    assert_eq!(UserId(RAW).to_text(), TEXT);
    assert_eq!(OutcomeId(RAW).to_text(), TEXT);
    assert_eq!(MessageId(0).to_text(), "00000000-0000-0000-0000-000000000000");
}

#[test]
fn each_payload_has_its_own_channel() {
    let m = MarketId(RAW);
    assert_eq!(BetPlacedBroadcast::channel(&BetFeed::Global), "global_bets");
    assert_eq!(
        BetPlacedBroadcast::channel(&BetFeed::Market(m)),
        format!("market_bets:{TEXT}")
    );
    assert_eq!(ChatMessageBroadcast::channel(&ChatChannel::Global), "chat:global");
    assert_eq!(
        ChatMessageBroadcast::channel(&ChatChannel::Market(m)),
        format!("chat:market:{TEXT}")
    );
    assert_eq!(
        ChatReactionBroadcast::channel(&ChatChannel::Global),
        "chat_reactions:global"
    );
    assert_eq!(
        ChatReactionBroadcast::channel(&ChatChannel::Market(m)),
        format!("chat_reactions:market:{TEXT}")
    );
    assert_eq!(PriceUpdateBroadcast::channel(&m), format!("market:{TEXT}"));
}

#[test]
fn two_markets_never_share_a_feed() {
    assert_ne!(
        PriceUpdateBroadcast::channel(&MarketId(1)),
        PriceUpdateBroadcast::channel(&MarketId(2))
    );
}
