//! The demo simulation's bots: who they are, what they bet, what they say.

pub mod bettor;
pub mod cast;
pub mod chatter;
pub mod config;
pub mod content;
pub mod llm;
pub mod market_maker;
pub mod random;
