//! How busy the simulation is and who it runs as.

use vstd::prelude::*;

use std::time::Duration;

verus! {

/// How busy the simulation is and who it runs as. The defaults are what
/// turning the demo on without further tuning gives.
#[derive(Debug, Clone)]
pub struct DemoConfig {
    /// Number of bot accounts, the market-making one included. Clamped to the
    /// size of the name cast when it is larger.
    pub bots: usize,
    /// Password every bot account is created with.
    pub bot_password: String,
    /// How often some bot posts, replies, or reacts in a chat room.
    pub chat_every: Duration,
    /// How often some bot stakes on an outcome.
    pub bet_every: Duration,
    /// How often the market maker opens a new market and settles one past
    /// its deadline.
    pub market_every: Duration,
    /// A local model to write the chat with; `None` draws every line from the
    /// canned pools.
    pub llm: Option<LlmConfig>,
}

/// `<Duration as Clone>::clone`. `Duration` is `Copy`, and std's `Clone`
/// documentation says a clone of a `Copy` value is the same as copying it.
pub assume_specification[<std::time::Duration as std::clone::Clone>::clone](d: &std::time::Duration) -> (r: std::time::Duration)
    ensures
        r == *d,
;

/// Seconds between two chat turns by default.
pub const DEFAULT_CHAT_EVERY_SECS: u64 = 15;

/// Seconds between two stakes by default.
pub const DEFAULT_BET_EVERY_SECS: u64 = 25;

/// Seconds between two market-maker rounds by default.
pub const DEFAULT_MARKET_EVERY_SECS: u64 = 300;

/// `std::time::Duration::from_secs`.
#[verifier::external_body]
fn secs(n: u64) -> Duration {
    Duration::from_secs(n)
}

impl Default for DemoConfig {
    fn default() -> (r: Self)
        ensures
            r.bots == 12,
            r.bot_password@ == "demo-password"@,
            r.llm is None,
    {
        DemoConfig {
            bots: 12,
            bot_password: String::from_str("demo-password"),
            chat_every: secs(DEFAULT_CHAT_EVERY_SECS),
            bet_every: secs(DEFAULT_BET_EVERY_SECS),
            market_every: secs(DEFAULT_MARKET_EVERY_SECS),
            llm: None,
        }
    }
}

/// A local model server the bots write their chat with.
#[derive(Debug, Clone)]
pub struct LlmConfig {
    /// Full chat-completions endpoint.
    pub url: String,
    /// Model name as that server knows it.
    pub model: String,
    /// How long a bot waits for a line before giving up on it.
    pub timeout: Duration,
}

/// Small, quick on a CPU, and coherent enough for one line of chat.
pub const DEFAULT_MODEL: &'static str = "qwen2.5:0.5b";

/// Seconds a bot waits for a model's line by default.
pub const DEFAULT_TIMEOUT_SECS: u64 = 10;

} // verus!
