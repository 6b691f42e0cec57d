//! The values that cross the ports to the technical services the use cases
//! need: token claims, stored files, and the errors of each service.

use vstd::prelude::*;

use crate::model::{Role, UserId};

verus! {

#[derive(Debug)]
pub enum AuthPortError {
    InvalidToken,
    Internal(String),
}

/// Claims carried by a verified access token.
#[derive(Debug, Clone, Copy)]
pub struct AccessClaims {
    pub user_id: UserId,
    pub role: Role,
}

#[derive(Debug)]
pub enum StoragePortError {
    InvalidKey,
    Internal(String),
}

/// A file read back from storage.
#[derive(Debug, Clone)]
pub struct StoredFile {
    pub content_type: String,
    pub bytes: Vec<u8>,
}

#[derive(Debug)]
pub enum MessageBrokerError {
    Backend(String),
    Encode(String),
}

} // verus!
