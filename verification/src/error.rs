//! What a use case can fail with.

use vstd::prelude::*;

use crate::ports::{AuthPortError, StoragePortError};

verus! {

/// A rule of the domain refused the request.
#[derive(Debug)]
pub enum DomainError {
    /// The input is malformed.
    Validation(String),
    /// The input is well-formed but breaks a business rule.
    RuleViolation(String),
}

/// What a repository can fail with.
#[derive(Debug)]
pub enum RepositoryError {
    /// A uniqueness or integrity constraint refused the write.
    Conflict(String),
    /// The store itself failed.
    Storage(String),
}

#[derive(Debug)]
pub enum ApplicationError {
    Domain(DomainError),
    NotFound(String),
    Conflict(String),
    Unauthorized(String),
    Forbidden(String),
    Internal(String),
}

impl From<RepositoryError> for ApplicationError {
    fn from(err: RepositoryError) -> (r: Self) {
        match err {
            RepositoryError::Conflict(msg) => ApplicationError::Conflict(msg),
            RepositoryError::Storage(msg) => ApplicationError::Internal(msg),
        }
    }
}

impl vstd::std_specs::convert::FromSpecImpl<RepositoryError> for ApplicationError {
    open spec fn obeys_from_spec() -> bool {
        true
    }

    open spec fn from_spec(err: RepositoryError) -> Self {
        match err {
            RepositoryError::Conflict(msg) => ApplicationError::Conflict(msg),
            RepositoryError::Storage(msg) => ApplicationError::Internal(msg),
        }
    }
}

impl From<DomainError> for ApplicationError {
    fn from(err: DomainError) -> (r: Self) {
        ApplicationError::Domain(err)
    }
}

impl vstd::std_specs::convert::FromSpecImpl<DomainError> for ApplicationError {
    open spec fn obeys_from_spec() -> bool {
        true
    }

    open spec fn from_spec(err: DomainError) -> Self {
        ApplicationError::Domain(err)
    }
}

/// `what` with `id` after it: how a missing row is named.
pub fn described(what: &str, id: &str) -> (r: String)
    ensures
        r@ == what@ + " "@ + id@,
{
    let mut s = String::from_str(what);
    s.append(" ");
    s.append(id);
    s
}

/// The row a lookup found, or `NotFound` naming `what` when there was none.
pub fn found_or_not_found<T>(found: Option<T>, what: String) -> (r: Result<T, ApplicationError>)
    ensures
        match found {
            Some(v) => r == Ok::<T, ApplicationError>(v),
            None => r matches Err(ApplicationError::NotFound(m)) && m@ == what@,
        },
{
    match found {
        Some(v) => Ok(v),
        None => Err(ApplicationError::NotFound(what)),
    }
}

/// A data-integrity failure: something refers to a row that is gone.
pub fn broken_link(what: &str) -> (r: ApplicationError)
    ensures
        r matches ApplicationError::Internal(m) && m@ == "bet references missing "@ + what@,
{
    let mut s = String::from_str("bet references missing ");
    s.append(what);
    ApplicationError::Internal(s)
}

/// The text of an authentication port's error.
pub open spec fn auth_port_error_text(err: AuthPortError) -> Seq<char> {
    match err {
        AuthPortError::InvalidToken => "invalid token"@,
        AuthPortError::Internal(msg) => msg@,
    }
}

/// The text of a storage port's error.
pub open spec fn storage_port_error_text(err: StoragePortError) -> Seq<char> {
    match err {
        StoragePortError::InvalidKey => "invalid storage key"@,
        StoragePortError::Internal(msg) => msg@,
    }
}

/// A failing crypto or token service is the server's fault, reported with
/// the service's own text.
pub fn from_auth_port(err: AuthPortError) -> (r: ApplicationError)
    ensures
        r matches ApplicationError::Internal(msg) && msg@ == auth_port_error_text(err),
{
    match err {
        AuthPortError::InvalidToken => ApplicationError::Internal(String::from_str("invalid token")),
        AuthPortError::Internal(msg) => ApplicationError::Internal(msg),
    }
}

/// A failing file store is the server's fault, reported with the store's
/// own text.
pub fn from_storage_port(err: StoragePortError) -> (r: ApplicationError)
    ensures
        r matches ApplicationError::Internal(msg) && msg@ == storage_port_error_text(err),
{
    match err {
        StoragePortError::InvalidKey => ApplicationError::Internal(
            String::from_str("invalid storage key"),
        ),
        StoragePortError::Internal(msg) => ApplicationError::Internal(msg),
    }
}

} // verus!
