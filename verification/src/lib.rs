//! The application layer of a play-money prediction market: what each
//! request checks and decides, the real-time broadcasts and their channels,
//! and the bots of the demo simulation, as functions on plain values whose
//! contracts are proved. Reading and writing the stores is left to whoever
//! runs the use cases; every decision between those reads and writes is made
//! here.

pub mod actor;
pub mod broadcasters;
pub mod demo;
pub mod error;
pub mod ids;
pub mod model;
pub mod ports;
pub mod realtime;
pub mod text;
pub mod use_cases;

pub use actor::Actor;
pub use error::ApplicationError;
