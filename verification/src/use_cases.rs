//! The use cases, one module per feature.

pub mod bet;
pub mod chat;
pub mod image;
pub mod market;
pub mod user;
pub mod auth;
pub mod file;
