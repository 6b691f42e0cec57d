//! The records the use cases read and write, held as plain values: ids are
//! the 128-bit values of their UUIDs, prices are in ten-thousandths, amounts
//! in minimal currency units.

use vstd::prelude::*;

verus! {

/// A moment in UTC: whole seconds since the Unix epoch and the nanoseconds
/// past that second.
#[derive(Clone, Copy, Debug, PartialEq, Eq, Structural)]
pub struct Timestamp {
    pub secs: i64,
    pub nanos: u32,
}

#[derive(Clone, Copy, Debug, PartialEq, Eq, Structural, Hash)]
pub struct UserId(pub u128);

#[derive(Clone, Copy, Debug, PartialEq, Eq, Structural, Hash)]
pub struct MarketId(pub u128);

#[derive(Clone, Copy, Debug, PartialEq, Eq, Structural, Hash)]
pub struct OutcomeId(pub u128);

#[derive(Clone, Copy, Debug, PartialEq, Eq, Structural, Hash)]
pub struct BetId(pub u128);

#[derive(Clone, Copy, Debug, PartialEq, Eq, Structural, Hash)]
pub struct MessageId(pub u128);

/// What an account may do.
#[derive(Clone, Copy, Debug, PartialEq, Eq, Structural)]
pub enum Role {
    User,
    Admin,
}

/// One chat room: the global one, or the room of one market.
#[derive(Clone, Copy, Debug, PartialEq, Eq, Structural)]
pub enum ChatChannel {
    Global,
    Market(MarketId),
}

/// An account.
#[derive(Clone, Debug)]
pub struct User {
    pub id: UserId,
    pub username: String,
    pub email: String,
    pub role: Role,
    pub balance: i64,
    pub avatar_url: Option<String>,
}

/// A question people bet on.
#[derive(Clone, Debug)]
pub struct Market {
    pub id: MarketId,
    pub title: String,
    pub thumbnail_url: Option<String>,
}

/// One way a market can resolve, at its current price.
#[derive(Clone, Debug)]
pub struct Outcome {
    pub id: OutcomeId,
    pub market_id: MarketId,
    pub label: String,
    /// Ten-thousandths: 10_000 is certainty.
    pub price: u32,
    pub thumbnail_url: Option<String>,
}

/// A stake on one outcome at the price it was bought at.
#[derive(Clone, Copy, Debug, PartialEq, Eq, Structural)]
pub struct Bet {
    pub id: BetId,
    pub user_id: UserId,
    pub market_id: MarketId,
    pub outcome_id: OutcomeId,
    pub amount: i64,
    pub price: u32,
    pub created_at: Timestamp,
}

/// A chat message in one room, possibly quoting another.
#[derive(Clone, Debug)]
pub struct ChatMessage {
    pub id: MessageId,
    pub author_id: UserId,
    pub channel: ChatChannel,
    pub body: String,
    pub reply_to: Option<MessageId>,
    pub created_at: Timestamp,
}

/// How many readers hold one emoji on a message, and whether the reader the
/// tally was made for is one of them.
#[derive(Clone, Debug)]
pub struct ReactionTally {
    pub emoji: String,
    pub count: i64,
    pub reacted: bool,
}

/// One outcome's price, as recorded after a bet moved it.
#[derive(Clone, Copy, Debug, PartialEq, Eq, Structural)]
pub struct PricePoint {
    pub outcome_id: OutcomeId,
    pub price: u32,
}

} // verus!

verus! {

/// A copy of `v`.
pub fn copy_text_opt(v: &Option<String>) -> (r: Option<String>)
    ensures
        r == *v,
{
    match v {
        Some(s) => Some(s.clone()),
        None => None,
    }
}

impl User {
    /// A copy of this record.
    pub fn copied(&self) -> (r: User)
        ensures
            r == *self,
    {
        User {
            id: self.id,
            username: self.username.clone(),
            email: self.email.clone(),
            role: self.role,
            balance: self.balance,
            avatar_url: copy_text_opt(&self.avatar_url),
        }
    }
}

impl Market {
    /// A copy of this record.
    pub fn copied(&self) -> (r: Market)
        ensures
            r == *self,
    {
        Market {
            id: self.id,
            title: self.title.clone(),
            thumbnail_url: copy_text_opt(&self.thumbnail_url),
        }
    }
}

impl Outcome {
    /// A copy of this record.
    pub fn copied(&self) -> (r: Outcome)
        ensures
            r == *self,
    {
        Outcome {
            id: self.id,
            market_id: self.market_id,
            label: self.label.clone(),
            price: self.price,
            thumbnail_url: copy_text_opt(&self.thumbnail_url),
        }
    }
}

impl ChatMessage {
    /// A copy of this record.
    pub fn copied(&self) -> (r: ChatMessage)
        ensures
            r == *self,
    {
        ChatMessage {
            id: self.id,
            author_id: self.author_id,
            channel: self.channel,
            body: self.body.clone(),
            reply_to: self.reply_to,
            created_at: self.created_at,
        }
    }
}

impl ReactionTally {
    /// A copy of this record.
    pub fn copied(&self) -> (r: ReactionTally)
        ensures
            r == *self,
    {
        ReactionTally { emoji: self.emoji.clone(), count: self.count, reacted: self.reacted }
    }
}

} // verus!
