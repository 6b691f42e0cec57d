//! Handlers that fan committed changes out to live subscribers. Each event
//! names only what changed; the state it points at is re-read when the event
//! is delivered, and the payloads below are built from that state alone, so
//! a redelivered event publishes the state as it stands.

use vstd::prelude::*;

use crate::model::{Bet, ChatMessage, MessageId, Outcome, ReactionTally, Timestamp, User, UserId};
use crate::realtime::{
    bet_feed_channel, chat_message_channel, chat_reaction_channel, BetFeed, BetPlacedBroadcast,
    ChatAuthor, ChatMessageBroadcast, ChatReactionBroadcast, PriceTick, PriceUpdateBroadcast,
    QuotedMessage,
};
use crate::text::same_text;
use crate::use_cases::chat::tally_row_from;

verus! {

/// Fans a newly placed bet out on its market's feed and the cross-market one.
pub struct BetPlacedBroadcaster<B, K> {
    pub bets: B,
    pub broker: K,
}

impl<B, K> BetPlacedBroadcaster<B, K> {
    pub fn new(bets: B, broker: K) -> (r: Self)
        ensures
            r.bets == bets,
            r.broker == broker,
    {
        BetPlacedBroadcaster { bets, broker }
    }
}

/// Fans a posted chat message out to its room with its author's profile.
pub struct ChatMessageBroadcaster<MS, US, K> {
    pub messages: MS,
    pub users: US,
    pub broker: K,
}

impl<MS, US, K> ChatMessageBroadcaster<MS, US, K> {
    pub fn new(messages: MS, users: US, broker: K) -> (r: Self)
        ensures
            r.messages == messages,
            r.users == users,
            r.broker == broker,
    {
        ChatMessageBroadcaster { messages, users, broker }
    }
}

/// Fans a reaction change out to the room of the reacted-to message.
pub struct ChatReactionBroadcaster<MS, K> {
    pub messages: MS,
    pub broker: K,
}

impl<MS, K> ChatReactionBroadcaster<MS, K> {
    pub fn new(messages: MS, broker: K) -> (r: Self)
        ensures
            r.messages == messages,
            r.broker == broker,
    {
        ChatReactionBroadcaster { messages, broker }
    }
}

/// Fans a market's price change out to its live feed.
pub struct MarketPriceUpdateBroadcaster<M, K> {
    pub markets: M,
    pub broker: K,
}

impl<M, K> MarketPriceUpdateBroadcaster<M, K> {
    pub fn new(markets: M, broker: K) -> (r: Self)
        ensures
            r.markets == markets,
            r.broker == broker,
    {
        MarketPriceUpdateBroadcaster { markets, broker }
    }
}

/// A placed bet as broadcast.
pub fn bet_broadcast(bet: &Bet) -> (r: BetPlacedBroadcast)
    ensures
        r.id == bet.id,
        r.user_id == bet.user_id,
        r.market_id == bet.market_id,
        r.outcome_id == bet.outcome_id,
        r.amount == bet.amount,
        r.price == bet.price,
        r.created_at == bet.created_at,
{
    BetPlacedBroadcast {
        id: bet.id,
        user_id: bet.user_id,
        market_id: bet.market_id,
        outcome_id: bet.outcome_id,
        amount: bet.amount,
        price: bet.price,
        created_at: bet.created_at,
    }
}

/// The feeds a bet goes out on, in order: its market's first, so a subscriber
/// watching one market never learns of its bets later than the global ticker.
pub fn bet_feeds(bet: &Bet) -> (r: Vec<BetFeed>)
    ensures
        r@ == seq![BetFeed::Market(bet.market_id), BetFeed::Global],
{
    let mut r: Vec<BetFeed> = Vec::new();
    r.push(BetFeed::Market(bet.market_id));
    r.push(BetFeed::Global);
    r
}

/// The public profile fields a chat broadcast carries.
pub fn chat_author(author: &User) -> (r: ChatAuthor)
    ensures
        r.id == author.id,
        r.username@ == author.username@,
        r.avatar_url == author.avatar_url,
{
    ChatAuthor {
        id: author.id,
        username: author.username.clone(),
        avatar_url: crate::model::copy_text_opt(&author.avatar_url),
    }
}

/// The quote carried with a reply.
pub fn quoted_message(quoted: &ChatMessage, author: &User) -> (r: QuotedMessage)
    ensures
        r.id == quoted.id,
        r.author.id == author.id,
        r.author.username@ == author.username@,
        r.author.avatar_url == author.avatar_url,
        r.body@ == quoted.body@,
{
    QuotedMessage { id: quoted.id, author: chat_author(author), body: quoted.body.clone() }
}

/// A posted message as broadcast to its room.
pub fn chat_message_broadcast(
    message: &ChatMessage,
    author: &User,
    reply_to: Option<QuotedMessage>,
) -> (r: ChatMessageBroadcast)
    ensures
        r.id == message.id,
        r.author.id == author.id,
        r.author.username@ == author.username@,
        r.author.avatar_url == author.avatar_url,
        r.body@ == message.body@,
        r.reply_to == reply_to,
        r.created_at == message.created_at,
{
    ChatMessageBroadcast {
        id: message.id,
        author: chat_author(author),
        body: message.body.clone(),
        reply_to,
        created_at: message.created_at,
    }
}

/// The first tally of `emoji` in `tallies` at or after `i`.
pub open spec fn emoji_row_from(tallies: Seq<ReactionTally>, emoji: Seq<char>, i: int) -> Option<int>
    decreases tallies.len() - i,
{
    if i < 0 || i >= tallies.len() {
        None
    } else if tallies[i].emoji@ == emoji {
        Some(i)
    } else {
        emoji_row_from(tallies, emoji, i + 1)
    }
}

/// How many hold `emoji` on message `id` according to `tallies`: zero when
/// the message or the emoji has no tally.
pub open spec fn count_of(
    tallies: Seq<(MessageId, Vec<ReactionTally>)>,
    id: MessageId,
    emoji: Seq<char>,
) -> i64 {
    match tally_row_from(tallies, id, 0) {
        None => 0,
        Some(t) => match emoji_row_from(tallies[t].1@, emoji, 0) {
            None => 0,
            Some(k) => tallies[t].1@[k].count,
        },
    }
}

/// The count a reaction broadcast carries, read from the tallies as they stand.
pub fn reaction_count(tallies: &Vec<(MessageId, Vec<ReactionTally>)>, id: MessageId, emoji: &str) -> (r: i64)
    ensures
        r == count_of(tallies@, id, emoji@),
{
    let mut t: usize = 0;
    while t < tallies.len()
        invariant
            t <= tallies@.len(),
            tally_row_from(tallies@, id, 0) == tally_row_from(tallies@, id, t as int),
        decreases tallies.len() - t,
    {
        if tallies[t].0 == id {
            let list = &tallies[t].1;
            let mut k: usize = 0;
            while k < list.len()
                invariant
                    k <= list@.len(),
                    t < tallies@.len(),
                    tally_row_from(tallies@, id, 0) == Some(t as int),
                    *list == tallies@[t as int].1,
                    emoji_row_from(list@, emoji@, 0) == emoji_row_from(list@, emoji@, k as int),
                decreases list.len() - k,
            {
                if same_text(list[k].emoji.as_str(), emoji) {
                    return list[k].count;
                }
                k = k + 1;
            }
            return 0;
        }
        t = t + 1;
    }
    0
}

/// A market's current prices as broadcast, one tick per outcome stamped
/// `recorded_at`; nothing when the market has no outcomes (it is gone).
pub fn price_update(outcomes: &Vec<Outcome>, recorded_at: Timestamp) -> (r: Option<PriceUpdateBroadcast>)
    ensures
        outcomes@.len() == 0 <==> r is None,
        r matches Some(b) ==> b.ticks@.len() == outcomes@.len() && forall|i: int|
            0 <= i < outcomes@.len() ==> (#[trigger] b.ticks@[i]).outcome_id == outcomes@[i].id
                && b.ticks@[i].price == outcomes@[i].price && b.ticks@[i].recorded_at
                == recorded_at,
{
    if outcomes.len() == 0 {
        return None;
    }
    let mut ticks: Vec<PriceTick> = Vec::new();
    let mut i: usize = 0;
    while i < outcomes.len()
        invariant
            i <= outcomes@.len(),
            ticks@.len() == i,
            forall|k: int|
                0 <= k < i ==> (#[trigger] ticks@[k]).outcome_id == outcomes@[k].id
                    && ticks@[k].price == outcomes@[k].price && ticks@[k].recorded_at == recorded_at,
        decreases outcomes.len() - i,
    {
        ticks.push(PriceTick { outcome_id: outcomes[i].id, price: outcomes[i].price, recorded_at });
        i = i + 1;
    }
    Some(PriceUpdateBroadcast { ticks })
}

/// What a placed bet is published as: its payload on its market's feed, then
/// on the cross-market one; nothing when the bet has vanished since.
pub fn bet_deliveries(found: Option<Bet>) -> (r: Vec<(String, BetPlacedBroadcast)>)
    ensures
        match found {
            None => r@.len() == 0,
            Some(bet) => r@.len() == 2 && r@[0].0@ == bet_feed_channel(BetFeed::Market(bet.market_id))
                && r@[1].0@ == bet_feed_channel(BetFeed::Global) && r@[0].1 == r@[1].1
                && r@[0].1.id == bet.id && r@[0].1.user_id == bet.user_id && r@[0].1.market_id
                == bet.market_id && r@[0].1.outcome_id == bet.outcome_id && r@[0].1.amount
                == bet.amount && r@[0].1.price == bet.price && r@[0].1.created_at == bet.created_at,
        },
{
    let mut r: Vec<(String, BetPlacedBroadcast)> = Vec::new();
    if let Some(bet) = found {
        let payload = bet_broadcast(&bet);
        r.push((BetPlacedBroadcast::channel(&BetFeed::Market(bet.market_id)), payload));
        r.push((BetPlacedBroadcast::channel(&BetFeed::Global), bet_broadcast(&bet)));
    }
    r
}

/// The quote a reply carries: the quoted message with its author, or none
/// when either is gone, so the reply is still delivered, unquoted.
pub fn quote_to_carry(quoted: Option<ChatMessage>, author: Option<User>) -> (r: Option<QuotedMessage>)
    ensures
        r is Some <==> quoted is Some && author is Some,
        r matches Some(q) ==> q.id == quoted->Some_0.id && q.author.id == author->Some_0.id
            && q.author.username@ == author->Some_0.username@ && q.author.avatar_url
            == author->Some_0.avatar_url && q.body@ == quoted->Some_0.body@,
{
    match (quoted, author) {
        (Some(m), Some(a)) => Some(quoted_message(&m, &a)),
        _ => None,
    }
}

/// What a posted message is published as: its room's channel and the
/// payload with its author's profile and the quote; nothing when the message
/// or its author has vanished since.
pub fn message_delivery(
    found: Option<ChatMessage>,
    author: Option<User>,
    reply_to: Option<QuotedMessage>,
) -> (r: Option<(String, ChatMessageBroadcast)>)
    ensures
        r is Some <==> found is Some && author is Some,
        r matches Some(d) ==> ({
            let m = found->Some_0;
            let a = author->Some_0;
            &&& d.0@ == chat_message_channel(m.channel)
            &&& d.1.id == m.id
            &&& d.1.author.id == a.id
            &&& d.1.author.username@ == a.username@
            &&& d.1.author.avatar_url == a.avatar_url
            &&& d.1.body@ == m.body@
            &&& d.1.reply_to == reply_to
            &&& d.1.created_at == m.created_at
        }),
{
    match (found, author) {
        (Some(m), Some(a)) => Some(
            (ChatMessageBroadcast::channel(&m.channel), chat_message_broadcast(&m, &a, reply_to)),
        ),
        _ => None,
    }
}

/// What a reaction change is published as: the room's reaction channel and
/// the emoji's count as the tallies now stand (zero when gone), with whose
/// reaction moved and which way; nothing when the message has vanished.
/// `counted_as` is the emoji as tallies hold it; `emoji` as the event names it.
pub fn reaction_delivery(
    found: Option<ChatMessage>,
    tallies: &Vec<(MessageId, Vec<ReactionTally>)>,
    emoji: String,
    counted_as: &str,
    user_id: UserId,
    added: bool,
) -> (r: Option<(String, ChatReactionBroadcast)>)
    ensures
        r is Some <==> found is Some,
        r matches Some(d) ==> ({
            let m = found->Some_0;
            &&& d.0@ == chat_reaction_channel(m.channel)
            &&& d.1.message_id == m.id
            &&& d.1.emoji@ == emoji@
            &&& d.1.count == count_of(tallies@, m.id, counted_as@)
            &&& d.1.user_id == user_id
            &&& d.1.added == added
        }),
{
    match found {
        Some(m) => Some(
            (
                ChatReactionBroadcast::channel(&m.channel),
                ChatReactionBroadcast {
                    message_id: m.id,
                    emoji,
                    count: reaction_count(tallies, m.id, counted_as),
                    user_id,
                    added,
                },
            ),
        ),
        None => None,
    }
}

} // verus!
