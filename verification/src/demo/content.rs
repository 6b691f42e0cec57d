//! What the bots trade on and talk about: the questions the market maker
//! opens and the pools of chat lines and reactions the others draw from.

use vstd::prelude::*;

verus! {

/// A market the maker bot can open: the question, how it can resolve, and how
/// long it stays open for.
pub struct MarketTemplate {
    pub title: &'static str,
    pub description: &'static str,
    pub category: &'static str,
    /// At least two, in the order they appear on the board.
    pub outcomes: Vec<&'static str>,
    /// Hours from creation to the market's deadline.
    pub open_for_hours: i64,
}

/// The questions the market maker can open.
pub fn market_templates() -> (r: Vec<MarketTemplate>)
    ensures
        r@.len() == 13,
        r@[0].title@ == "Will Bitcoin close above $150,000 this year?"@,
        r@[0].description@ == "Resolves on the closing price of the last trading day of the year."@,
        r@[0].category@ == "crypto"@,
        r@[0].outcomes@.len() == 2,
        r@[0].outcomes@[0]@ == "Yes"@,
        r@[0].outcomes@[1]@ == "No"@,
        r@[0].open_for_hours == 720,
        r@[1].title@ == "Which team lifts the Champions League trophy?"@,
        r@[1].description@ == "Resolves to the winner of the final. Anyone not listed resolves to Field."@,
        r@[1].category@ == "sports"@,
        r@[1].outcomes@.len() == 4,
        r@[1].outcomes@[0]@ == "Real Madrid"@,
        r@[1].outcomes@[1]@ == "Manchester City"@,
        r@[1].outcomes@[2]@ == "Bayern Munich"@,
        r@[1].outcomes@[3]@ == "Field"@,
        r@[1].open_for_hours == 480,
        r@[2].title@ == "What does the central bank do at the next meeting?"@,
        r@[2].description@ == "Resolves on the published rate decision."@,
        r@[2].category@ == "economics"@,
        r@[2].outcomes@.len() == 3,
        r@[2].outcomes@[0]@ == "Cut"@,
        r@[2].outcomes@[1]@ == "Hold"@,
        r@[2].outcomes@[2]@ == "Hike"@,
        r@[2].open_for_hours == 336,
        r@[3].title@ == "Will a crewed mission leave for Mars before 2030?"@,
        r@[3].description@ == "Resolves Yes on a crewed launch on a Mars trajectory before Jan 1, 2030."@,
        r@[3].category@ == "space"@,
        r@[3].outcomes@.len() == 2,
        r@[3].outcomes@[0]@ == "Yes"@,
        r@[3].outcomes@[1]@ == "No"@,
        r@[3].open_for_hours == 2160,
        r@[4].title@ == "How many goals in Sunday's derby?"@,
        r@[4].description@ == "Combined goals, extra time excluded."@,
        r@[4].category@ == "sports"@,
        r@[4].outcomes@.len() == 3,
        r@[4].outcomes@[0]@ == "0-1"@,
        r@[4].outcomes@[1]@ == "2-3"@,
        r@[4].outcomes@[2]@ == "4 or more"@,
        r@[4].open_for_hours == 20,
        r@[5].title@ == "Will it snow in Kyiv on New Year's Eve?"@,
        r@[5].description@ == "Resolves on the official observation for Dec 31."@,
        r@[5].category@ == "weather"@,
        r@[5].outcomes@.len() == 2,
        r@[5].outcomes@[0]@ == "Yes"@,
        r@[5].outcomes@[1]@ == "No"@,
        r@[5].open_for_hours == 168,
        r@[6].title@ == "Will the sequel open above $200M domestically?"@,
        r@[6].description@ == "Resolves on reported opening-weekend domestic box office."@,
        r@[6].category@ == "movies"@,
        r@[6].outcomes@.len() == 2,
        r@[6].outcomes@[0]@ == "Yes"@,
        r@[6].outcomes@[1]@ == "No"@,
        r@[6].open_for_hours == 240,
        r@[7].title@ == "Which party forms the next coalition?"@,
        r@[7].description@ == "Resolves to the party leading the government after talks conclude."@,
        r@[7].category@ == "politics"@,
        r@[7].outcomes@.len() == 4,
        r@[7].outcomes@[0]@ == "Left bloc"@,
        r@[7].outcomes@[1]@ == "Right bloc"@,
        r@[7].outcomes@[2]@ == "Grand coalition"@,
        r@[7].outcomes@[3]@ == "Snap election"@,
        r@[7].open_for_hours == 600,
        r@[8].title@ == "Will ETH flip BTC in market cap this cycle?"@,
        r@[8].description@ == "Resolves Yes if ETH market cap exceeds BTC's for a full trading day."@,
        r@[8].category@ == "crypto"@,
        r@[8].outcomes@.len() == 2,
        r@[8].outcomes@[0]@ == "Yes"@,
        r@[8].outcomes@[1]@ == "No"@,
        r@[8].open_for_hours == 1440,
        r@[9].title@ == "Which console sells the most units this quarter?"@,
        r@[9].description@ == "Resolves on reported quarterly hardware sales."@,
        r@[9].category@ == "gaming"@,
        r@[9].outcomes@.len() == 3,
        r@[9].outcomes@[0]@ == "Switch"@,
        r@[9].outcomes@[1]@ == "PlayStation"@,
        r@[9].outcomes@[2]@ == "Xbox"@,
        r@[9].open_for_hours == 900,
        r@[10].title@ == "Will remote roles pass 30% of new postings by year end?"@,
        r@[10].description@ == "Resolves on the December share of postings advertised as remote."@,
        r@[10].category@ == "work"@,
        r@[10].outcomes@.len() == 2,
        r@[10].outcomes@[0]@ == "Yes"@,
        r@[10].outcomes@[1]@ == "No"@,
        r@[10].open_for_hours == 1000,
        r@[11].title@ == "Will this feed pass 10,000 bets this month?"@,
        r@[11].description@ == "Settles on the platform's own counter. Yes, we bet on ourselves."@,
        r@[11].category@ == "meta"@,
        r@[11].outcomes@.len() == 2,
        r@[11].outcomes@[0]@ == "Yes"@,
        r@[11].outcomes@[1]@ == "No"@,
        r@[11].open_for_hours == 72,
        r@[12].title@ == "Coffee or tea: what does the office run out of first?"@,
        r@[12].description@ == "Deadly serious. Resolves on the empty tin."@,
        r@[12].category@ == "meta"@,
        r@[12].outcomes@.len() == 3,
        r@[12].outcomes@[0]@ == "Coffee"@,
        r@[12].outcomes@[1]@ == "Tea"@,
        r@[12].outcomes@[2]@ == "Neither, someone restocked"@,
        r@[12].open_for_hours == 48,
{
    vec![
        MarketTemplate {
            title: "Will Bitcoin close above $150,000 this year?",
            description: "Resolves on the closing price of the last trading day of the year.",
            category: "crypto",
            outcomes: vec!["Yes", "No"],
            open_for_hours: 720,
        },
        MarketTemplate {
            title: "Which team lifts the Champions League trophy?",
            description: "Resolves to the winner of the final. Anyone not listed resolves to Field.",
            category: "sports",
            outcomes: vec!["Real Madrid", "Manchester City", "Bayern Munich", "Field"],
            open_for_hours: 480,
        },
        MarketTemplate {
            title: "What does the central bank do at the next meeting?",
            description: "Resolves on the published rate decision.",
            category: "economics",
            outcomes: vec!["Cut", "Hold", "Hike"],
            open_for_hours: 336,
        },
        MarketTemplate {
            title: "Will a crewed mission leave for Mars before 2030?",
            description: "Resolves Yes on a crewed launch on a Mars trajectory before Jan 1, 2030.",
            category: "space",
            outcomes: vec!["Yes", "No"],
            open_for_hours: 2160,
        },
        MarketTemplate {
            title: "How many goals in Sunday's derby?",
            description: "Combined goals, extra time excluded.",
            category: "sports",
            outcomes: vec!["0-1", "2-3", "4 or more"],
            open_for_hours: 20,
        },
        MarketTemplate {
            title: "Will it snow in Kyiv on New Year's Eve?",
            description: "Resolves on the official observation for Dec 31.",
            category: "weather",
            outcomes: vec!["Yes", "No"],
            open_for_hours: 168,
        },
        MarketTemplate {
            title: "Will the sequel open above $200M domestically?",
            description: "Resolves on reported opening-weekend domestic box office.",
            category: "movies",
            outcomes: vec!["Yes", "No"],
            open_for_hours: 240,
        },
        MarketTemplate {
            title: "Which party forms the next coalition?",
            description: "Resolves to the party leading the government after talks conclude.",
            category: "politics",
            outcomes: vec!["Left bloc", "Right bloc", "Grand coalition", "Snap election"],
            open_for_hours: 600,
        },
        MarketTemplate {
            title: "Will ETH flip BTC in market cap this cycle?",
            description: "Resolves Yes if ETH market cap exceeds BTC's for a full trading day.",
            category: "crypto",
            outcomes: vec!["Yes", "No"],
            open_for_hours: 1440,
        },
        MarketTemplate {
            title: "Which console sells the most units this quarter?",
            description: "Resolves on reported quarterly hardware sales.",
            category: "gaming",
            outcomes: vec!["Switch", "PlayStation", "Xbox"],
            open_for_hours: 900,
        },
        MarketTemplate {
            title: "Will remote roles pass 30% of new postings by year end?",
            description: "Resolves on the December share of postings advertised as remote.",
            category: "work",
            outcomes: vec!["Yes", "No"],
            open_for_hours: 1000,
        },
        MarketTemplate {
            title: "Will this feed pass 10,000 bets this month?",
            description: "Settles on the platform's own counter. Yes, we bet on ourselves.",
            category: "meta",
            outcomes: vec!["Yes", "No"],
            open_for_hours: 72,
        },
        MarketTemplate {
            title: "Coffee or tea: what does the office run out of first?",
            description: "Deadly serious. Resolves on the empty tin.",
            category: "meta",
            outcomes: vec!["Coffee", "Tea", "Neither, someone restocked"],
            open_for_hours: 48,
        },
    ]
}

/// Small talk for the global room, where there is no market to react to.
pub const GLOBAL_LINES: [&'static str; 16] = [
    "gm ☕",
    "this feed moves fast today",
    "anyone else up three markets in a row?",
    "my portfolio is 90% vibes at this point",
    "just topped up, feeling reckless",
    "who's fading the favourite today?",
    "new here — what's everyone trading?",
    "liquidity looks healthy this morning",
    "screenshot this, I called it first",
    "brb making coffee, nobody move the odds",
    "someone explain why I keep buying the top",
    "back to break even, I'll take it",
    "the charts on the new markets are wild",
    "I only bet on things I can't influence, keeps it honest",
    "reading the board like tea leaves",
    "quiet in here, someone open a market",
];

/// Lines for a market room. `{outcome}` is filled in with one of that
/// market's outcomes, `{price}` with its current price, `{title}` with the
/// question itself.
pub const MARKET_LINES: [&'static str; 15] = [
    "{outcome} at {price} is a steal",
    "no way {outcome} stays this cheap",
    "loaded up on {outcome}, see you at resolution",
    "{outcome} is overpriced, I'm fading it",
    "who keeps pumping {outcome}?",
    "this resolves {outcome}, mark it",
    "{price} on {outcome}? free money",
    "I'd take the other side of {outcome} all day",
    "waiting for {outcome} to dip before I add",
    "the whole board is mispricing {outcome}",
    "still can't believe {outcome} is the favourite",
    "\"{title}\" is the only question that matters today",
    "in on {outcome}, small size, big conviction",
    "moved my stake off {outcome}, the news changed",
    "{outcome} at {price} and nobody's talking about it",
];

/// Replies, which quote whatever was said last rather than starting a thought.
pub const REPLY_LINES: [&'static str; 12] = [
    "this",
    "^ exactly my read",
    "bold",
    "you'll regret that 😄",
    "hard disagree",
    "screenshotting this for later",
    "sir, this is a prediction market",
    "let's see how that ages",
    "finally someone said it",
    "the odds disagree with you",
    "same trade, different reasoning",
    "respectfully, no",
];

/// Reactions the bots hand out. Kept to ones that render everywhere.
pub const REACTIONS: [&'static str; 15] = [
    "🔥",
    "👍",
    "😂",
    "🚀",
    "💀",
    "🤔",
    "💰",
    "👀",
    "🎯",
    "😭",
    "🙌",
    "📈",
    "📉",
    "🧠",
    "🍿",
];

} // verus!
