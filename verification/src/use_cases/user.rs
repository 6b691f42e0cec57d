//! Reading and editing user profiles.

use vstd::prelude::*;

use crate::error::{ApplicationError, DomainError};
use crate::model::{Role, User};

verus! {

/// Maximum avatar size in bytes.
pub const MAX_AVATAR_BYTES: usize = 2 * 1024 * 1024;

/// Storage folder avatars live in.
pub const AVATAR_FOLDER: &'static str = "avatars";

pub struct CreateUserInput {
    pub username: String,
    pub email: String,
}

/// Creates an account without credentials.
pub struct CreateUser<U> {
    pub users: U,
}

impl<U> CreateUser<U> {
    pub fn new(users: U) -> (r: Self)
        ensures
            r.users == users,
    {
        CreateUser { users }
    }
}

/// Loads one user.
pub struct GetUser<U> {
    pub users: U,
}

impl<U> GetUser<U> {
    pub fn new(users: U) -> (r: Self)
        ensures
            r.users == users,
    {
        GetUser { users }
    }
}

/// Aggregated betting stats for a profile.
pub struct GetUserStats<B> {
    pub bets: B,
}

impl<B> GetUserStats<B> {
    pub fn new(bets: B) -> (r: Self)
        ensures
            r.bets == bets,
    {
        GetUserStats { bets }
    }
}

/// Lists every user.
pub struct ListUsers<U> {
    pub users: U,
}

impl<U> ListUsers<U> {
    pub fn new(users: U) -> (r: Self)
        ensures
            r.users == users,
    {
        ListUsers { users }
    }
}

/// Privileged edit of a user's mutable fields. A `None` leaves that field
/// untouched.
#[derive(Debug, Clone, Copy)]
pub struct UpdateUserInput {
    pub role: Option<Role>,
}

impl Default for UpdateUserInput {
    fn default() -> (r: Self)
        ensures
            r.role is None,
    {
        UpdateUserInput { role: None }
    }
}

impl UpdateUserInput {
    /// Whether the patch would change nothing at all.
    pub fn is_empty(&self) -> (r: bool)
        ensures
            r == self.role is None,
    {
        self.role.is_none()
    }
}

/// Applies an administrative patch to a user.
pub struct UpdateUser<U> {
    pub users: U,
}

impl<U> UpdateUser<U> {
    pub fn new(users: U) -> (r: Self)
        ensures
            r.users == users,
    {
        UpdateUser { users }
    }
}

/// Stores an avatar and points the user's avatar at it.
pub struct UploadAvatar<U, S> {
    pub users: U,
    pub storage: S,
}

impl<U, S> UploadAvatar<U, S> {
    pub fn new(users: U, storage: S) -> (r: Self)
        ensures
            r.users == users,
            r.storage == storage,
    {
        UploadAvatar { users, storage }
    }
}

pub open spec fn email_taken_text(email: Seq<char>) -> Seq<char> {
    "user with email "@ + email + " already exists"@
}

/// An address can belong to one account only.
pub fn email_taken(email: &str) -> (r: ApplicationError)
    ensures
        r matches ApplicationError::Conflict(m) && m@ == email_taken_text(email@),
{
    let mut m = String::from_str("user with email ");
    m.append(email);
    m.append(" already exists");
    ApplicationError::Conflict(m)
}

/// A patch that changes nothing is refused rather than written.
pub fn require_changes(input: &UpdateUserInput) -> (r: Result<(), ApplicationError>)
    ensures
        input.role is Some <==> r is Ok,
        input.role is None ==> (r matches Err(ApplicationError::Domain(DomainError::Validation(m)))
            && m@ == "no fields to update"@),
{
    if input.is_empty() {
        Err(
            ApplicationError::Domain(
                DomainError::Validation(String::from_str("no fields to update")),
            ),
        )
    } else {
        Ok(())
    }
}

/// `user` with the patch's fields applied and everything else kept.
pub fn apply_patch(user: User, input: &UpdateUserInput) -> (r: User)
    ensures
        r == match input.role {
            Some(role) => User { role, ..user },
            None => user,
        },
{
    let mut user = user;
    if let Some(role) = input.role {
        user.role = role;
    }
    user
}

/// `user` with its avatar at `url`.
pub fn with_avatar(user: User, url: String) -> (r: User)
    ensures
        r == (User { avatar_url: Some(url), ..user }),
{
    let mut user = user;
    user.avatar_url = Some(url);
    user
}

} // verus!
