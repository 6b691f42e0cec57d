use betsphere::error::ApplicationError;
use betsphere::use_cases::auth::{
    generate_refresh_token, hash_refresh_token, invalid_credentials, invalid_refresh_token,
    login_start, login_step, refresh_start, refresh_step, register_start, register_step,
    username_taken, LoginAction, LoginEvent, LoginStage, RefreshAction, RefreshEvent,
    RefreshStage, RegisterAction, RegisterEvent, RegisterRefusal, RegisterStage, SessionIssuer,
};

#[test]
fn refresh_tokens_are_stored_by_their_sha256() {
    assert_eq!(
        hash_refresh_token("abc"),
        "ba7816bf8f01cfea414140de5dae2223b00361a396177a9cb410ff61f20015ad"
    );
    assert_eq!(hash_refresh_token("abc"), hash_refresh_token("abc"));
    assert_ne!(hash_refresh_token("abc"), hash_refresh_token("abd"));
}

#[test]
fn a_fresh_refresh_token_is_64_hex_digits() {
    let t = generate_refresh_token();
    assert_eq!(t.len(), 64);
    assert!(t.chars().all(|c| c.is_ascii_hexdigit() && !c.is_ascii_uppercase()));
    assert_ne!(t, generate_refresh_token());
}

#[test]
fn auth_failures_all_read_the_same() {
    assert!(matches!(invalid_credentials(), ApplicationError::Unauthorized(m) if m == "invalid credentials"));
    assert!(matches!(invalid_refresh_token(), ApplicationError::Unauthorized(m) if m == "invalid refresh token"));
    assert!(matches!(username_taken("alice"), ApplicationError::Conflict(m) if m == "username alice is already taken"));
    let s = SessionIssuer::new("tokens", 30u32);
    assert_eq!(s.refresh_ttl, 30);
}

fn refresh_after(events: &[RefreshEvent]) -> (RefreshStage, RefreshAction) {
    let (mut stage, mut action) = refresh_start();
    for event in events {
        let (s, a) = refresh_step(stage, *event);
        stage = s;
        action = a;
    }
    (stage, action)
}

#[test]
fn a_refresh_issues_only_for_a_live_token_it_consumed() {
    assert_eq!(refresh_start(), (RefreshStage::Lookup, RefreshAction::LookUp));
    let all = [
        RefreshEvent::Found(true),
        RefreshEvent::Consumed(true),
        RefreshEvent::Expired(false),
        RefreshEvent::OwnerFound(true),
    ];
    assert_eq!(refresh_after(&all[..1]).1, RefreshAction::Consume);
    assert_eq!(refresh_after(&all[..2]).1, RefreshAction::CheckExpiry);
    assert_eq!(refresh_after(&all[..3]).1, RefreshAction::LoadOwner);
    assert_eq!(refresh_after(&all), (RefreshStage::Over, RefreshAction::Issue));
}

#[test]
fn a_replayed_or_stale_token_is_refused() {
    let refused = RefreshAction::Refuse { keep_consumption: false };
    assert_eq!(refresh_after(&[RefreshEvent::Found(false)]).1, refused);
    // A concurrent refresh deleted the record first.
    assert_eq!(
        refresh_after(&[RefreshEvent::Found(true), RefreshEvent::Consumed(false)]).1,
        refused
    );
    // An expired token is refused, and stays deleted.
    assert_eq!(
        refresh_after(&[
            RefreshEvent::Found(true),
            RefreshEvent::Consumed(true),
            RefreshEvent::Expired(true)
        ]),
        (RefreshStage::Over, RefreshAction::Refuse { keep_consumption: true })
    );
    // A token whose user is gone is refused, and the deletion rolled back.
    assert_eq!(
        refresh_after(&[
            RefreshEvent::Found(true),
            RefreshEvent::Consumed(true),
            RefreshEvent::Expired(false),
            RefreshEvent::OwnerFound(false)
        ])
        .1,
        refused
    );
}

fn login_after(events: &[LoginEvent]) -> (LoginStage, LoginAction) {
    let (mut stage, mut action) = login_start();
    for event in events {
        let (s, a) = login_step(stage, *event);
        stage = s;
        action = a;
    }
    (stage, action)
}

#[test]
fn a_login_needs_well_formed_credentials_an_account_and_its_password() {
    assert_eq!(login_start(), (LoginStage::Credentials, LoginAction::CheckCredentials));
    let yes = [
        LoginEvent::WellFormed(true),
        LoginEvent::AccountFound(true),
        LoginEvent::PasswordMatches(true),
    ];
    assert_eq!(login_after(&yes[..1]).1, LoginAction::LookUpAccount);
    assert_eq!(login_after(&yes[..2]).1, LoginAction::VerifyPassword);
    assert_eq!(login_after(&yes), (LoginStage::Over, LoginAction::Issue));
    // Malformed, unknown and wrong all get the one refusal.
    assert_eq!(login_after(&[LoginEvent::WellFormed(false)]), (LoginStage::Over, LoginAction::Refuse));
    assert_eq!(
        login_after(&[LoginEvent::WellFormed(true), LoginEvent::AccountFound(false)]).1,
        LoginAction::Refuse
    );
    assert_eq!(
        login_after(&[
            LoginEvent::WellFormed(true),
            LoginEvent::AccountFound(true),
            LoginEvent::PasswordMatches(false)
        ])
        .1,
        LoginAction::Refuse
    );
}

fn register_after(events: &[RegisterEvent]) -> (RegisterStage, RegisterAction) {
    let (mut stage, mut action) = register_start();
    for event in events {
        let (s, a) = register_step(stage, *event);
        stage = s;
        action = a;
    }
    (stage, action)
}

#[test]
fn an_account_needs_a_free_email_and_a_free_username() {
    assert_eq!(register_start(), (RegisterStage::Input, RegisterAction::CheckInput));
    let ok = [
        RegisterEvent::InputChecked(true),
        RegisterEvent::Hashed,
        RegisterEvent::EmailTaken(false),
        RegisterEvent::UsernameTaken(false),
    ];
    assert_eq!(register_after(&ok[..1]).1, RegisterAction::HashPassword);
    assert_eq!(register_after(&ok[..2]).1, RegisterAction::LookUpEmail);
    assert_eq!(register_after(&ok[..3]).1, RegisterAction::LookUpUsername);
    assert_eq!(register_after(&ok), (RegisterStage::Over, RegisterAction::Create));
    assert_eq!(
        register_after(&[RegisterEvent::InputChecked(false)]).1,
        RegisterAction::Refuse(RegisterRefusal::InvalidInput)
    );
    assert_eq!(
        register_after(&[
            RegisterEvent::InputChecked(true),
            RegisterEvent::Hashed,
            RegisterEvent::EmailTaken(true)
        ])
        .1,
        RegisterAction::Refuse(RegisterRefusal::EmailTaken)
    );
    assert_eq!(
        register_after(&[
            RegisterEvent::InputChecked(true),
            RegisterEvent::Hashed,
            RegisterEvent::EmailTaken(false),
            RegisterEvent::UsernameTaken(true)
        ])
        .1,
        RegisterAction::Refuse(RegisterRefusal::UsernameTaken)
    );
}

#[test]
fn refresh_tokens_carry_the_version_and_variant_digits_of_both_uuids() {
    let t: Vec<char> = generate_refresh_token().chars().collect();
    assert_eq!(t[12], '4');
    assert_eq!(t[44], '4');
    assert!(matches!(t[16], '8' | '9' | 'a' | 'b'));
    assert!(matches!(t[48], '8' | '9' | 'a' | 'b'));
}
