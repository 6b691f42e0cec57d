//! The payloads real-time broadcasts carry over the message broker, and the
//! broker channel each one travels on. A payload type's `channel` is the only
//! way to name its channel, so a channel never carries a second shape.

use vstd::prelude::*;

use crate::ids::{distinct_ids_read_differently, joined, market_id_text, uuid_text};
use crate::model::{BetId, ChatChannel, MarketId, MessageId, OutcomeId, Timestamp, UserId};

verus! {

/// Which live bet feed a [`BetPlacedBroadcast`] is destined for. Every bet goes
/// out on both: its own market's feed and the cross-market one.
#[derive(Debug, Clone, Copy, PartialEq, Eq, Structural)]
pub enum BetFeed {
    /// Every market's bets, in commit order.
    Global,
    /// One market's bets.
    Market(MarketId),
}

/// A bet committed on a market, broadcast to the live bet feeds.
#[derive(Debug, Clone)]
pub struct BetPlacedBroadcast {
    pub id: BetId,
    pub user_id: UserId,
    pub market_id: MarketId,
    pub outcome_id: OutcomeId,
    pub amount: i64,
    /// Ten-thousandths.
    pub price: u32,
    pub created_at: Timestamp,
}

/// The author fields carried by a [`ChatMessageBroadcast`] (public profile
/// only).
#[derive(Debug, Clone)]
pub struct ChatAuthor {
    pub id: UserId,
    pub username: String,
    pub avatar_url: Option<String>,
}

/// The message a reply quotes, carried along with it.
#[derive(Debug, Clone)]
pub struct QuotedMessage {
    pub id: MessageId,
    pub author: ChatAuthor,
    pub body: String,
}

/// A chat message enriched with its author's profile, broadcast when posted.
#[derive(Debug, Clone)]
pub struct ChatMessageBroadcast {
    pub id: MessageId,
    pub author: ChatAuthor,
    pub body: String,
    /// Set when the message is a reply whose quoted message is still there.
    pub reply_to: Option<QuotedMessage>,
    pub created_at: Timestamp,
}

/// A reaction added to, or taken back from, a message in a chat room. Carries
/// the resulting count rather than a delta, so a redelivery is harmless.
#[derive(Debug, Clone)]
pub struct ChatReactionBroadcast {
    pub message_id: MessageId,
    pub emoji: String,
    /// How many users hold this emoji on the message now.
    pub count: i64,
    /// Whose reaction moved, and which way.
    pub user_id: UserId,
    pub added: bool,
}

/// One outcome's price at a moment in time.
#[derive(Debug, Clone, Copy)]
pub struct PriceTick {
    pub outcome_id: OutcomeId,
    /// Ten-thousandths.
    pub price: u32,
    pub recorded_at: Timestamp,
}

/// One market's recalculated prices.
#[derive(Debug, Clone)]
pub struct PriceUpdateBroadcast {
    pub ticks: Vec<PriceTick>,
}

/// The channel of one bet feed.
pub open spec fn bet_feed_channel(feed: BetFeed) -> Seq<char> {
    match feed {
        BetFeed::Global => "global_bets"@,
        BetFeed::Market(id) => "market_bets:"@ + market_id_text(id),
    }
}

/// The channel of one chat room's messages.
pub open spec fn chat_message_channel(channel: ChatChannel) -> Seq<char> {
    match channel {
        ChatChannel::Global => "chat:global"@,
        ChatChannel::Market(id) => "chat:market:"@ + market_id_text(id),
    }
}

/// The channel of one chat room's reaction changes.
pub open spec fn chat_reaction_channel(channel: ChatChannel) -> Seq<char> {
    match channel {
        ChatChannel::Global => "chat_reactions:global"@,
        ChatChannel::Market(id) => "chat_reactions:market:"@ + market_id_text(id),
    }
}

/// The channel of one market's live prices.
pub open spec fn price_update_channel(id: MarketId) -> Seq<char> {
    "market:"@ + market_id_text(id)
}

impl BetPlacedBroadcast {
    /// One bet feed; the same name WS clients subscribe with.
    pub fn channel(feed: &BetFeed) -> (r: String)
        ensures
            r@ == bet_feed_channel(*feed),
    {
        match feed {
            BetFeed::Global => String::from_str("global_bets"),
            BetFeed::Market(id) => joined("market_bets:", id.to_text().as_str()),
        }
    }
}

impl ChatMessageBroadcast {
    /// One chat room's live messages.
    pub fn channel(channel: &ChatChannel) -> (r: String)
        ensures
            r@ == chat_message_channel(*channel),
    {
        match channel {
            ChatChannel::Global => String::from_str("chat:global"),
            ChatChannel::Market(id) => joined("chat:market:", id.to_text().as_str()),
        }
    }
}

impl ChatReactionBroadcast {
    /// One chat room's live reaction changes, on a channel of their own.
    pub fn channel(channel: &ChatChannel) -> (r: String)
        ensures
            r@ == chat_reaction_channel(*channel),
    {
        match channel {
            ChatChannel::Global => String::from_str("chat_reactions:global"),
            ChatChannel::Market(id) => joined("chat_reactions:market:", id.to_text().as_str()),
        }
    }
}

impl PriceUpdateBroadcast {
    /// One market's live feed; the same name WS clients subscribe with.
    pub fn channel(market_id: &MarketId) -> (r: String)
        ensures
            r@ == price_update_channel(*market_id),
    {
        joined("market:", market_id.to_text().as_str())
    }
}

proof fn lemma_prefixed_differ(p: Seq<char>, a: MarketId, b: MarketId)
    requires
        a != b,
    ensures
        p + market_id_text(a) != p + market_id_text(b),
{
    distinct_ids_read_differently(a.0, b.0);
    if p + market_id_text(a) == p + market_id_text(b) {
        assert(market_id_text(a) =~= (p + market_id_text(a)).subrange(
            p.len() as int,
            (p + market_id_text(a)).len() as int,
        ));
        assert(market_id_text(b) =~= (p + market_id_text(b)).subrange(
            p.len() as int,
            (p + market_id_text(b)).len() as int,
        ));
    }
}

/// Distinct markets and rooms get distinct channels of each kind: no feed
/// mixes two markets, no room hears another room.
pub proof fn channels_name_one_room_each(a: MarketId, b: MarketId)
    requires
        a != b,
    ensures
        price_update_channel(a) != price_update_channel(b),
        bet_feed_channel(BetFeed::Market(a)) != bet_feed_channel(BetFeed::Market(b)),
        chat_message_channel(ChatChannel::Market(a)) != chat_message_channel(ChatChannel::Market(b)),
        chat_reaction_channel(ChatChannel::Market(a)) != chat_reaction_channel(
            ChatChannel::Market(b),
        ),
        bet_feed_channel(BetFeed::Global) != bet_feed_channel(BetFeed::Market(a)),
        chat_message_channel(ChatChannel::Global) != chat_message_channel(ChatChannel::Market(a)),
        chat_reaction_channel(ChatChannel::Global) != chat_reaction_channel(ChatChannel::Market(a)),
{
    lemma_prefixed_differ("market:"@, a, b);
    lemma_prefixed_differ("market_bets:"@, a, b);
    lemma_prefixed_differ("chat:market:"@, a, b);
    lemma_prefixed_differ("chat_reactions:market:"@, a, b);
    reveal_strlit("global_bets");
    reveal_strlit("market_bets:");
    reveal_strlit("chat:global");
    reveal_strlit("chat:market:");
    reveal_strlit("chat_reactions:global");
    reveal_strlit("chat_reactions:market:");
    assert(uuid_text(a.0).len() == 36);
    assert(bet_feed_channel(BetFeed::Global).len() == 11);
    assert(bet_feed_channel(BetFeed::Market(a)).len() == 48);
    assert(chat_message_channel(ChatChannel::Global).len() == 11);
    assert(chat_message_channel(ChatChannel::Market(a)).len() == 48);
    assert(chat_reaction_channel(ChatChannel::Global).len() == 21);
    assert(chat_reaction_channel(ChatChannel::Market(a)).len() == 58);
}

/// Where `s` and `t` differ at `i`, they differ.
proof fn lemma_differ_at(s: Seq<char>, t: Seq<char>, i: int)
    requires
        0 <= i < s.len(),
        0 <= i < t.len(),
        s[i] != t[i],
    ensures
        s != t,
{
}

/// No channel of one payload kind is ever the channel of another, so a
/// subscriber to one kind never receives another kind's payload.
pub proof fn channel_kinds_never_meet(feed: BetFeed, room: ChatChannel, other_room: ChatChannel, market: MarketId)
    ensures
        bet_feed_channel(feed) != chat_message_channel(room),
        bet_feed_channel(feed) != chat_reaction_channel(room),
        bet_feed_channel(feed) != price_update_channel(market),
        chat_message_channel(room) != chat_reaction_channel(other_room),
        chat_message_channel(room) != price_update_channel(market),
        chat_reaction_channel(room) != price_update_channel(market),
{
    reveal_strlit("global_bets");
    reveal_strlit("market_bets:");
    reveal_strlit("chat:global");
    reveal_strlit("chat:market:");
    reveal_strlit("chat_reactions:global");
    reveal_strlit("chat_reactions:market:");
    reveal_strlit("market:");
    let b = bet_feed_channel(feed);
    let m = chat_message_channel(room);
    let r = chat_reaction_channel(room);
    let r2 = chat_reaction_channel(other_room);
    let p = price_update_channel(market);
    assert(b[0] == 'g' || b[0] == 'm');
    assert(m[0] == 'c');
    assert(r[0] == 'c');
    assert(p[0] == 'm');
    lemma_differ_at(b, m, 0);
    lemma_differ_at(b, r, 0);
    match feed {
        BetFeed::Global => {
            lemma_differ_at(b, p, 0);
        },
        BetFeed::Market(_) => {
            assert(b[6] == '_');
            assert(p[6] == ':');
            lemma_differ_at(b, p, 6);
        },
    }
    assert(m[4] == ':');
    assert(r2[4] == '_');
    lemma_differ_at(m, r2, 4);
    lemma_differ_at(m, p, 0);
    lemma_differ_at(r, p, 0);
}

} // verus!
