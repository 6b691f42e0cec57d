//! Registering, logging in, refreshing and ending sessions: the access and
//! refresh token pairs, and what is refused with which answer.

use vstd::prelude::*;

use crate::error::ApplicationError;
use crate::ids::{is_lower_hex_digit, lower_hex, lower_hex_shape, simple_uuid_shape, uuid_simple_text};
use crate::model::{Timestamp, User};
use sha2::Digest;
use vstd::string::*;

verus! {

pub struct LoginInput {
    pub email: String,
    pub password: String,
}

pub struct RegisterInput {
    pub username: String,
    pub email: String,
    pub password: String,
}

/// The result of a successful register/login/refresh: the user plus a fresh
/// token pair. `refresh_token` is the raw value handed to the client; the
/// store only ever sees its hash.
pub struct AuthSession {
    pub user: User,
    pub access_token: String,
    pub refresh_token: String,
    pub refresh_expires_at: Timestamp,
}

/// Issues access and refresh token pairs, shared by the auth use cases.
pub struct SessionIssuer<A, D> {
    pub access_tokens: A,
    pub refresh_ttl: D,
}

impl<A, D> SessionIssuer<A, D> {
    pub fn new(access_tokens: A, refresh_ttl: D) -> (r: Self)
        ensures
            r.access_tokens == access_tokens,
            r.refresh_ttl == refresh_ttl,
    {
        SessionIssuer { access_tokens, refresh_ttl }
    }
}

/// Logs in with an email and a password.
pub struct Login<U, R, H, S> {
    pub users: U,
    pub refresh_tokens: R,
    pub hasher: H,
    pub sessions: S,
}

impl<U, R, H, S> Login<U, R, H, S> {
    pub fn new(users: U, refresh_tokens: R, hasher: H, sessions: S) -> (r: Self)
        ensures
            r.users == users,
            r.refresh_tokens == refresh_tokens,
            r.hasher == hasher,
            r.sessions == sessions,
    {
        Login { users, refresh_tokens, hasher, sessions }
    }
}

/// Invalidates the presented refresh token; idempotent.
pub struct Logout<R> {
    pub refresh_tokens: R,
}

impl<R> Logout<R> {
    pub fn new(refresh_tokens: R) -> (r: Self)
        ensures
            r.refresh_tokens == refresh_tokens,
    {
        Logout { refresh_tokens }
    }
}

/// Exchanges a valid refresh token for a new token pair; the old one is used
/// up in the same transaction.
pub struct RefreshSession<W, S> {
    pub uow: W,
    pub sessions: S,
}

impl<W, S> RefreshSession<W, S> {
    pub fn new(uow: W, sessions: S) -> (r: Self)
        ensures
            r.uow == uow,
            r.sessions == sessions,
    {
        RefreshSession { uow, sessions }
    }
}

/// Creates an account and its first session.
pub struct Register<W, H, S> {
    pub uow: W,
    pub hasher: H,
    pub sessions: S,
}

impl<W, H, S> Register<W, H, S> {
    pub fn new(uow: W, hasher: H, sessions: S) -> (r: Self)
        ensures
            r.uow == uow,
            r.hasher == hasher,
            r.sessions == sessions,
    {
        Register { uow, hasher, sessions }
    }
}

/// The one answer to every failed login: malformed credentials read the same
/// as wrong ones, so the endpoint does not tell which accounts exist.
pub fn invalid_credentials() -> (r: ApplicationError)
    ensures
        r matches ApplicationError::Unauthorized(m) && m@ == "invalid credentials"@,
{
    ApplicationError::Unauthorized(String::from_str("invalid credentials"))
}

/// The one answer to every failed refresh.
pub fn invalid_refresh_token() -> (r: ApplicationError)
    ensures
        r matches ApplicationError::Unauthorized(m) && m@ == "invalid refresh token"@,
{
    ApplicationError::Unauthorized(String::from_str("invalid refresh token"))
}

pub open spec fn username_taken_text(username: Seq<char>) -> Seq<char> {
    "username "@ + username + " is already taken"@
}

/// A username can belong to one account only.
pub fn username_taken(username: &str) -> (r: ApplicationError)
    ensures
        r matches ApplicationError::Conflict(m) && m@ == username_taken_text(username@),
{
    let mut m = String::from_str("username ");
    m.append(username);
    m.append(" is already taken");
    ApplicationError::Conflict(m)
}

/// The SHA-256 digest of `data`.
pub uninterp spec fn sha256_digest(data: Seq<u8>) -> Seq<u8>;

/// `sha2::Sha256::digest(data)`: the 32-byte SHA-256 digest.
#[verifier::external_body]
fn sha256(data: &[u8]) -> (r: Vec<u8>)
    ensures
        r@ == sha256_digest(data@),
        r@.len() == 32,
{
    sha2::Sha256::digest(data).to_vec()
}

/// `hex::encode(bytes)`: each byte as two lowercase hexadecimal digits.
#[verifier::external_body]
fn hex_encode(bytes: &[u8]) -> (r: String)
    ensures
        r@ == lower_hex(bytes@),
{
    hex::encode(bytes)
}

/// Whether `c` is a hexadecimal digit whose top two bits are `10`: the
/// variant digit of a standard UUID.
pub open spec fn is_variant_digit(c: char) -> bool {
    c == '8' || c == '9' || c == 'a' || c == 'b'
}

/// `uuid::Uuid::new_v4().simple().to_string()`: a random UUID as 32
/// lowercase hexadecimal digits, with the version digit `4` at index 12 and
/// the variant digit (`8`, `9`, `a` or `b`) at index 16, which `new_v4` sets
/// over the random bits.
#[verifier::external_body]
fn random_simple_uuid() -> (r: String)
    ensures
        exists|v: u128| r@ == uuid_simple_text(v),
        r@[12] == '4',
        is_variant_digit(r@[16]),
{
    uuid::Uuid::new_v4().simple().to_string()
}

/// A fresh raw refresh token: two random UUIDs' digits, 64 in all.
pub fn generate_refresh_token() -> (r: String)
    ensures
        exists|a: u128, b: u128| r@ == uuid_simple_text(a) + uuid_simple_text(b),
        r@.len() == 64,
        forall|i: int| 0 <= i < r@.len() ==> is_lower_hex_digit(#[trigger] r@[i]),
        r@[12] == '4' && r@[44] == '4',
        is_variant_digit(r@[16]) && is_variant_digit(r@[48]),
{
    let mut t = random_simple_uuid();
    let second = random_simple_uuid();
    let ghost a = choose|v: u128| t@ == uuid_simple_text(v);
    let ghost b = choose|v: u128| second@ == uuid_simple_text(v);
    let ghost first_text = t@;
    t.append(second.as_str());
    assert(t@ == uuid_simple_text(a) + uuid_simple_text(b));
    proof {
        simple_uuid_shape(a);
        simple_uuid_shape(b);
        assert(t@[12] == first_text[12]);
        assert(t@[16] == first_text[16]);
        assert(t@[44] == second@[12]);
        assert(t@[48] == second@[16]);
        assert forall|i: int| 0 <= i < t@.len() implies is_lower_hex_digit(#[trigger] t@[i]) by {
            if i < 32 {
                assert(t@[i] == uuid_simple_text(a)[i]);
            } else {
                assert(t@[i] == uuid_simple_text(b)[i - 32]);
            }
        }
    }
    t
}

/// The refresh token's storage key: the hexadecimal SHA-256 of its UTF-8
/// bytes. Deterministic, so a presented token finds its record.
pub fn hash_refresh_token(raw: &str) -> (r: String)
    ensures
        r@ == lower_hex(sha256_digest(raw.spec_bytes())),
        r@.len() == 64,
        forall|i: int| 0 <= i < r@.len() ==> is_lower_hex_digit(#[trigger] r@[i]),
{
    let digest = sha256(raw.as_bytes());
    proof {
        lower_hex_shape(digest@);
    }
    hex_encode(digest.as_slice())
}

/// How far a refresh has got. Each stage waits for one answer from the store
/// or the clock, asked for by the action that entered it.
#[derive(Debug, Clone, Copy, PartialEq, Eq, Structural)]
pub enum RefreshStage {
    /// Waiting to hear whether a record has the presented token's hash.
    Lookup,
    /// Waiting to hear whether this refresh deleted that record.
    Consume,
    /// Waiting to hear whether the record had expired.
    Expiry,
    /// Waiting to hear whether the record's user is still there.
    Owner,
    /// Issued or refused: nothing more is asked.
    Over,
}

/// An answer handed to [`refresh_step`].
#[derive(Debug, Clone, Copy, PartialEq, Eq, Structural)]
pub enum RefreshEvent {
    /// Whether a record has the token's hash.
    Found(bool),
    /// Whether deleting that record removed a row: under concurrent
    /// refreshes of one token, only one of them does.
    Consumed(bool),
    /// Whether the record had expired.
    Expired(bool),
    /// Whether the record's user was found.
    OwnerFound(bool),
}

/// What a refresh does next.
#[derive(Debug, Clone, Copy, PartialEq, Eq, Structural)]
pub enum RefreshAction {
    /// Look the record up by the presented token's hash.
    LookUp,
    /// Delete the record found.
    Consume,
    /// Ask whether the record has expired.
    CheckExpiry,
    /// Load the record's user.
    LoadOwner,
    /// Issue a new session for that user and commit.
    Issue,
    /// Answer "invalid refresh token"; commit first when `keep_consumption`
    /// (an expired token stays deleted), otherwise roll back.
    Refuse { keep_consumption: bool },
}

/// Whether `stage` is waiting for an answer of `event`'s kind.
pub open spec fn refresh_awaits(stage: RefreshStage, event: RefreshEvent) -> bool {
    match (stage, event) {
        (RefreshStage::Lookup, RefreshEvent::Found(_)) => true,
        (RefreshStage::Consume, RefreshEvent::Consumed(_)) => true,
        (RefreshStage::Expiry, RefreshEvent::Expired(_)) => true,
        (RefreshStage::Owner, RefreshEvent::OwnerFound(_)) => true,
        _ => false,
    }
}

/// Where a refresh goes on `event`.
pub open spec fn refresh_next(stage: RefreshStage, event: RefreshEvent) -> (RefreshStage, RefreshAction) {
    let refuse = (RefreshStage::Over, RefreshAction::Refuse { keep_consumption: false });
    match (stage, event) {
        (RefreshStage::Lookup, RefreshEvent::Found(found)) => if found {
            (RefreshStage::Consume, RefreshAction::Consume)
        } else {
            refuse
        },
        (RefreshStage::Consume, RefreshEvent::Consumed(consumed)) => if consumed {
            (RefreshStage::Expiry, RefreshAction::CheckExpiry)
        } else {
            refuse
        },
        (RefreshStage::Expiry, RefreshEvent::Expired(expired)) => if expired {
            (RefreshStage::Over, RefreshAction::Refuse { keep_consumption: true })
        } else {
            (RefreshStage::Owner, RefreshAction::LoadOwner)
        },
        (RefreshStage::Owner, RefreshEvent::OwnerFound(found)) => if found {
            (RefreshStage::Over, RefreshAction::Issue)
        } else {
            refuse
        },
        _ => vstd::pervasive::arbitrary(),
    }
}

/// Where a refresh starts: by looking the presented token up.
pub fn refresh_start() -> (r: (RefreshStage, RefreshAction))
    ensures
        r == (RefreshStage::Lookup, RefreshAction::LookUp),
{
    (RefreshStage::Lookup, RefreshAction::LookUp)
}

/// One step of a refresh: what the answer to the last action means, and
/// what to do next.
pub fn refresh_step(stage: RefreshStage, event: RefreshEvent) -> (r: (RefreshStage, RefreshAction))
    requires
        refresh_awaits(stage, event),
    ensures
        r == refresh_next(stage, event),
{
    let refuse = (RefreshStage::Over, RefreshAction::Refuse { keep_consumption: false });
    match (stage, event) {
        (RefreshStage::Lookup, RefreshEvent::Found(found)) => if found {
            (RefreshStage::Consume, RefreshAction::Consume)
        } else {
            refuse
        },
        (RefreshStage::Consume, RefreshEvent::Consumed(consumed)) => if consumed {
            (RefreshStage::Expiry, RefreshAction::CheckExpiry)
        } else {
            refuse
        },
        (RefreshStage::Expiry, RefreshEvent::Expired(expired)) => if expired {
            (RefreshStage::Over, RefreshAction::Refuse { keep_consumption: true })
        } else {
            (RefreshStage::Owner, RefreshAction::LoadOwner)
        },
        (RefreshStage::Owner, RefreshEvent::OwnerFound(found)) => if found {
            (RefreshStage::Over, RefreshAction::Issue)
        } else {
            refuse
        },
        _ => refuse,
    }
}

/// Where a refresh stands after `events`, answered in order from the start.
pub open spec fn refreshing(events: Seq<RefreshEvent>) -> (RefreshStage, RefreshAction)
    decreases events.len(),
{
    if events.len() == 0 {
        (RefreshStage::Lookup, RefreshAction::LookUp)
    } else {
        refresh_next(refreshing(events.drop_last()).0, events.last())
    }
}

/// Every answer in `events` is of the kind the stage before it waits for.
pub open spec fn refresh_answered_in_turn(events: Seq<RefreshEvent>) -> bool
    decreases events.len(),
{
    events.len() == 0 || (refresh_answered_in_turn(events.drop_last()) && refresh_awaits(
        refreshing(events.drop_last()).0,
        events.last(),
    ))
}

pub open spec fn refresh_answers_before(stage: RefreshStage) -> int {
    match stage {
        RefreshStage::Lookup => 0,
        RefreshStage::Consume => 1,
        RefreshStage::Expiry => 2,
        RefreshStage::Owner => 3,
        RefreshStage::Over => -1,
    }
}

proof fn lemma_refresh_stage_counts_answers(events: Seq<RefreshEvent>)
    requires
        refresh_answered_in_turn(events),
        refreshing(events).0 != RefreshStage::Over,
    ensures
        refresh_answers_before(refreshing(events).0) == events.len(),
    decreases events.len(),
{
    if events.len() > 0 {
        lemma_refresh_stage_counts_answers(events.drop_last());
    }
}

/// A refresh token is good for one session: a new session is issued only
/// when a record had the token's hash, this very refresh deleted it (so a
/// concurrent refresh of the same token, or a replay, is refused), it had not
/// expired, and its user is still there. The one refusal that keeps the
/// deletion is the expired token's.
pub proof fn a_refresh_token_is_good_for_one_session(events: Seq<RefreshEvent>)
    requires
        refresh_answered_in_turn(events),
        refreshing(events).0 == RefreshStage::Over,
    ensures
        refreshing(events).1 == RefreshAction::Issue <==> events == seq![
            RefreshEvent::Found(true),
            RefreshEvent::Consumed(true),
            RefreshEvent::Expired(false),
            RefreshEvent::OwnerFound(true),
        ],
        refreshing(events).1 == (RefreshAction::Refuse { keep_consumption: true }) <==> events
            == seq![RefreshEvent::Found(true), RefreshEvent::Consumed(true), RefreshEvent::Expired(true)],
        refreshing(events).1 is Issue || refreshing(events).1 is Refuse,
{
    let n = events.len();
    assert(n > 0);
    let prev = refreshing(events.drop_last()).0;
    assert(refresh_awaits(prev, events.last()));
    lemma_refresh_stage_counts_answers(events.drop_last());
    let e3 = events.drop_last();
    assert(refresh_answered_in_turn(e3));
    if n >= 2 {
        let e2 = e3.drop_last();
        assert(refresh_answered_in_turn(e2));
        assert(refreshing(e2).0 != RefreshStage::Over);
        lemma_refresh_stage_counts_answers(e2);
        if n >= 3 {
            let e1 = e2.drop_last();
            assert(refresh_answered_in_turn(e1));
            assert(refreshing(e1).0 != RefreshStage::Over);
            lemma_refresh_stage_counts_answers(e1);
            if n >= 4 {
                let e0 = e1.drop_last();
                assert(refreshing(e0).0 != RefreshStage::Over);
                lemma_refresh_stage_counts_answers(e0);
            }
        }
    }
    if n == 4 {
        assert(events =~= seq![events[0], events[1], events[2], events[3]]);
    } else if n == 3 {
        assert(events =~= seq![events[0], events[1], events[2]]);
    } else if n == 2 {
        assert(events =~= seq![events[0], events[1]]);
    } else {
        assert(events =~= seq![events[0]]);
    }
}

/// How far a login has got.
#[derive(Debug, Clone, Copy, PartialEq, Eq, Structural)]
pub enum LoginStage {
    /// Waiting to hear whether the email and password are well-formed.
    Credentials,
    /// Waiting to hear whether an account has the email.
    Account,
    /// Waiting to hear whether the password matches the account's hash.
    Password,
    /// Issued or refused: nothing more is asked.
    Over,
}

/// An answer handed to [`login_step`].
#[derive(Debug, Clone, Copy, PartialEq, Eq, Structural)]
pub enum LoginEvent {
    /// Whether both the email and the password are well-formed.
    WellFormed(bool),
    /// Whether an account has the email.
    AccountFound(bool),
    /// Whether the password matches that account's hash.
    PasswordMatches(bool),
}

/// What a login does next.
#[derive(Debug, Clone, Copy, PartialEq, Eq, Structural)]
pub enum LoginAction {
    CheckCredentials,
    LookUpAccount,
    VerifyPassword,
    /// Issue a session for the account.
    Issue,
    /// Answer "invalid credentials", whatever the reason.
    Refuse,
}

pub open spec fn login_awaits(stage: LoginStage, event: LoginEvent) -> bool {
    match (stage, event) {
        (LoginStage::Credentials, LoginEvent::WellFormed(_)) => true,
        (LoginStage::Account, LoginEvent::AccountFound(_)) => true,
        (LoginStage::Password, LoginEvent::PasswordMatches(_)) => true,
        _ => false,
    }
}

/// Where a login goes on `event`: on to the next question while the answers
/// are yes, refused at the first no.
pub open spec fn login_next(stage: LoginStage, event: LoginEvent) -> (LoginStage, LoginAction) {
    match (stage, event) {
        (LoginStage::Credentials, LoginEvent::WellFormed(ok)) => if ok {
            (LoginStage::Account, LoginAction::LookUpAccount)
        } else {
            (LoginStage::Over, LoginAction::Refuse)
        },
        (LoginStage::Account, LoginEvent::AccountFound(ok)) => if ok {
            (LoginStage::Password, LoginAction::VerifyPassword)
        } else {
            (LoginStage::Over, LoginAction::Refuse)
        },
        (LoginStage::Password, LoginEvent::PasswordMatches(ok)) => if ok {
            (LoginStage::Over, LoginAction::Issue)
        } else {
            (LoginStage::Over, LoginAction::Refuse)
        },
        _ => vstd::pervasive::arbitrary(),
    }
}

/// Where a login starts: by checking that the credentials are well-formed.
pub fn login_start() -> (r: (LoginStage, LoginAction))
    ensures
        r == (LoginStage::Credentials, LoginAction::CheckCredentials),
{
    (LoginStage::Credentials, LoginAction::CheckCredentials)
}

/// One step of a login.
pub fn login_step(stage: LoginStage, event: LoginEvent) -> (r: (LoginStage, LoginAction))
    requires
        login_awaits(stage, event),
    ensures
        r == login_next(stage, event),
{
    match (stage, event) {
        (LoginStage::Credentials, LoginEvent::WellFormed(ok)) => if ok {
            (LoginStage::Account, LoginAction::LookUpAccount)
        } else {
            (LoginStage::Over, LoginAction::Refuse)
        },
        (LoginStage::Account, LoginEvent::AccountFound(ok)) => if ok {
            (LoginStage::Password, LoginAction::VerifyPassword)
        } else {
            (LoginStage::Over, LoginAction::Refuse)
        },
        (LoginStage::Password, LoginEvent::PasswordMatches(ok)) => if ok {
            (LoginStage::Over, LoginAction::Issue)
        } else {
            (LoginStage::Over, LoginAction::Refuse)
        },
        _ => (LoginStage::Over, LoginAction::Refuse),
    }
}

/// Where a login stands after `events`, answered in order from the start.
pub open spec fn logging_in(events: Seq<LoginEvent>) -> (LoginStage, LoginAction)
    decreases events.len(),
{
    if events.len() == 0 {
        (LoginStage::Credentials, LoginAction::CheckCredentials)
    } else {
        login_next(logging_in(events.drop_last()).0, events.last())
    }
}

pub open spec fn login_answered_in_turn(events: Seq<LoginEvent>) -> bool
    decreases events.len(),
{
    events.len() == 0 || (login_answered_in_turn(events.drop_last()) && login_awaits(
        logging_in(events.drop_last()).0,
        events.last(),
    ))
}

pub open spec fn login_answers_before(stage: LoginStage) -> int {
    match stage {
        LoginStage::Credentials => 0,
        LoginStage::Account => 1,
        LoginStage::Password => 2,
        LoginStage::Over => -1,
    }
}

proof fn lemma_login_stage_counts_answers(events: Seq<LoginEvent>)
    requires
        login_answered_in_turn(events),
        logging_in(events).0 != LoginStage::Over,
    ensures
        login_answers_before(logging_in(events).0) == events.len(),
        forall|k: int| 0 <= k < events.len() ==> events[k] == #[trigger] login_yes(k),
    decreases events.len(),
{
    if events.len() > 0 {
        lemma_login_stage_counts_answers(events.drop_last());
        assert forall|k: int| 0 <= k < events.len() implies events[k] == #[trigger] login_yes(k) by {
            if k < events.len() - 1 {
                assert(events[k] == events.drop_last()[k]);
            }
        }
    }
}

/// The yes answer a login needs at step `k`.
pub open spec fn login_yes(k: int) -> LoginEvent {
    if k == 0 {
        LoginEvent::WellFormed(true)
    } else if k == 1 {
        LoginEvent::AccountFound(true)
    } else {
        LoginEvent::PasswordMatches(true)
    }
}

/// A login issues a session only for well-formed credentials of an existing
/// account whose password matches; any other login ends in the one refusal,
/// so the answer never tells which accounts exist.
pub proof fn a_login_succeeds_only_with_the_right_password(events: Seq<LoginEvent>)
    requires
        login_answered_in_turn(events),
        logging_in(events).0 == LoginStage::Over,
    ensures
        logging_in(events).1 == LoginAction::Issue <==> events == seq![
            LoginEvent::WellFormed(true),
            LoginEvent::AccountFound(true),
            LoginEvent::PasswordMatches(true),
        ],
        logging_in(events).1 != LoginAction::Issue ==> logging_in(events).1 == LoginAction::Refuse,
{
    let n = events.len();
    assert(n > 0);
    let before = events.drop_last();
    assert(login_awaits(logging_in(before).0, events.last()));
    lemma_login_stage_counts_answers(before);
    if n == 3 {
        assert(before[0] == login_yes(0));
        assert(before[1] == login_yes(1));
        if logging_in(events).1 == LoginAction::Issue {
            assert(events =~= seq![
                LoginEvent::WellFormed(true),
                LoginEvent::AccountFound(true),
                LoginEvent::PasswordMatches(true),
            ]);
        }
    }
}

/// How far registering has got.
#[derive(Debug, Clone, Copy, PartialEq, Eq, Structural)]
pub enum RegisterStage {
    /// Waiting to hear whether username, email and password are well-formed.
    Input,
    /// Waiting for the password to be hashed (before any transaction opens:
    /// hashing is slow on purpose).
    Hash,
    /// Waiting to hear whether an account has the email.
    Email,
    /// Waiting to hear whether an account has the username.
    Username,
    /// Created or refused: nothing more is asked.
    Over,
}

/// An answer handed to [`register_step`].
#[derive(Debug, Clone, Copy, PartialEq, Eq, Structural)]
pub enum RegisterEvent {
    /// Whether the domain accepts the username, the email and the password.
    InputChecked(bool),
    /// The password is hashed.
    Hashed,
    /// Whether an account already has the email.
    EmailTaken(bool),
    /// Whether an account already has the username.
    UsernameTaken(bool),
}

/// Why an account is not created.
#[derive(Debug, Clone, Copy, PartialEq, Eq, Structural)]
pub enum RegisterRefusal {
    /// The domain refused part of the input, with its own error.
    InvalidInput,
    EmailTaken,
    UsernameTaken,
}

/// What registering does next.
#[derive(Debug, Clone, Copy, PartialEq, Eq, Structural)]
pub enum RegisterAction {
    CheckInput,
    HashPassword,
    LookUpEmail,
    LookUpUsername,
    /// Save the account, issue its first session, commit.
    Create,
    Refuse(RegisterRefusal),
}

pub open spec fn register_awaits(stage: RegisterStage, event: RegisterEvent) -> bool {
    match (stage, event) {
        (RegisterStage::Input, RegisterEvent::InputChecked(_)) => true,
        (RegisterStage::Hash, RegisterEvent::Hashed) => true,
        (RegisterStage::Email, RegisterEvent::EmailTaken(_)) => true,
        (RegisterStage::Username, RegisterEvent::UsernameTaken(_)) => true,
        _ => false,
    }
}

pub open spec fn register_next(stage: RegisterStage, event: RegisterEvent) -> (RegisterStage, RegisterAction) {
    match (stage, event) {
        (RegisterStage::Input, RegisterEvent::InputChecked(ok)) => if ok {
            (RegisterStage::Hash, RegisterAction::HashPassword)
        } else {
            (RegisterStage::Over, RegisterAction::Refuse(RegisterRefusal::InvalidInput))
        },
        (RegisterStage::Hash, RegisterEvent::Hashed) => (RegisterStage::Email, RegisterAction::LookUpEmail),
        (RegisterStage::Email, RegisterEvent::EmailTaken(taken)) => if taken {
            (RegisterStage::Over, RegisterAction::Refuse(RegisterRefusal::EmailTaken))
        } else {
            (RegisterStage::Username, RegisterAction::LookUpUsername)
        },
        (RegisterStage::Username, RegisterEvent::UsernameTaken(taken)) => if taken {
            (RegisterStage::Over, RegisterAction::Refuse(RegisterRefusal::UsernameTaken))
        } else {
            (RegisterStage::Over, RegisterAction::Create)
        },
        _ => vstd::pervasive::arbitrary(),
    }
}

/// Where registering starts: by checking the input.
pub fn register_start() -> (r: (RegisterStage, RegisterAction))
    ensures
        r == (RegisterStage::Input, RegisterAction::CheckInput),
{
    (RegisterStage::Input, RegisterAction::CheckInput)
}

/// One step of registering: the input, the hash, then the email and the
/// username must both be free.
pub fn register_step(stage: RegisterStage, event: RegisterEvent) -> (r: (RegisterStage, RegisterAction))
    requires
        register_awaits(stage, event),
    ensures
        r == register_next(stage, event),
{
    match (stage, event) {
        (RegisterStage::Input, RegisterEvent::InputChecked(ok)) => if ok {
            (RegisterStage::Hash, RegisterAction::HashPassword)
        } else {
            (RegisterStage::Over, RegisterAction::Refuse(RegisterRefusal::InvalidInput))
        },
        (RegisterStage::Hash, RegisterEvent::Hashed) => (RegisterStage::Email, RegisterAction::LookUpEmail),
        (RegisterStage::Email, RegisterEvent::EmailTaken(taken)) => if taken {
            (RegisterStage::Over, RegisterAction::Refuse(RegisterRefusal::EmailTaken))
        } else {
            (RegisterStage::Username, RegisterAction::LookUpUsername)
        },
        (RegisterStage::Username, RegisterEvent::UsernameTaken(taken)) => if taken {
            (RegisterStage::Over, RegisterAction::Refuse(RegisterRefusal::UsernameTaken))
        } else {
            (RegisterStage::Over, RegisterAction::Create)
        },
        _ => (RegisterStage::Over, RegisterAction::Refuse(RegisterRefusal::InvalidInput)),
    }
}

/// Where registering stands after `events`, answered in order.
pub open spec fn registering(events: Seq<RegisterEvent>) -> (RegisterStage, RegisterAction)
    decreases events.len(),
{
    if events.len() == 0 {
        (RegisterStage::Input, RegisterAction::CheckInput)
    } else {
        register_next(registering(events.drop_last()).0, events.last())
    }
}

pub open spec fn register_answered_in_turn(events: Seq<RegisterEvent>) -> bool
    decreases events.len(),
{
    events.len() == 0 || (register_answered_in_turn(events.drop_last()) && register_awaits(
        registering(events.drop_last()).0,
        events.last(),
    ))
}

/// The answer registering needs at step `k` to go on.
pub open spec fn register_yes(k: int) -> RegisterEvent {
    if k == 0 {
        RegisterEvent::InputChecked(true)
    } else if k == 1 {
        RegisterEvent::Hashed
    } else if k == 2 {
        RegisterEvent::EmailTaken(false)
    } else {
        RegisterEvent::UsernameTaken(false)
    }
}

pub open spec fn register_answers_before(stage: RegisterStage) -> int {
    match stage {
        RegisterStage::Input => 0,
        RegisterStage::Hash => 1,
        RegisterStage::Email => 2,
        RegisterStage::Username => 3,
        RegisterStage::Over => -1,
    }
}

proof fn lemma_register_path(events: Seq<RegisterEvent>)
    requires
        register_answered_in_turn(events),
        registering(events).0 != RegisterStage::Over,
    ensures
        register_answers_before(registering(events).0) == events.len(),
        forall|k: int| 0 <= k < events.len() ==> events[k] == #[trigger] register_yes(k),
    decreases events.len(),
{
    if events.len() > 0 {
        lemma_register_path(events.drop_last());
        assert forall|k: int| 0 <= k < events.len() implies events[k] == #[trigger] register_yes(k) by {
            if k < events.len() - 1 {
                assert(events[k] == events.drop_last()[k]);
            }
        }
    }
}

/// An account is created only when the input is well-formed and neither its
/// email nor its username belongs to an account; a taken email is reported
/// before a taken username, and the password is hashed before either is
/// looked up.
pub proof fn an_account_is_created_only_with_a_free_email_and_username(events: Seq<RegisterEvent>)
    requires
        register_answered_in_turn(events),
        registering(events).0 == RegisterStage::Over,
    ensures
        registering(events).1 == RegisterAction::Create <==> events == seq![
            RegisterEvent::InputChecked(true),
            RegisterEvent::Hashed,
            RegisterEvent::EmailTaken(false),
            RegisterEvent::UsernameTaken(false),
        ],
        registering(events).1 == RegisterAction::Refuse(RegisterRefusal::UsernameTaken) ==> events[2]
            == RegisterEvent::EmailTaken(false),
{
    let n = events.len();
    assert(n > 0);
    let before = events.drop_last();
    assert(register_awaits(registering(before).0, events.last()));
    lemma_register_path(before);
    assert forall|k: int| 0 <= k < before.len() implies events[k] == before[k] by {}
    if n == 4 && registering(events).1 == RegisterAction::Create {
        assert(before[0] == register_yes(0));
        assert(before[1] == register_yes(1));
        assert(before[2] == register_yes(2));
        assert(events =~= seq![
            RegisterEvent::InputChecked(true),
            RegisterEvent::Hashed,
            RegisterEvent::EmailTaken(false),
            RegisterEvent::UsernameTaken(false),
        ]);
    }
    if registering(events).1 == RegisterAction::Refuse(RegisterRefusal::UsernameTaken) {
        assert(before[2] == register_yes(2));
    }
}

} // verus!
