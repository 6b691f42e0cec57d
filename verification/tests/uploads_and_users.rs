use betsphere::error::{
    from_auth_port, from_storage_port, ApplicationError, DomainError, RepositoryError,
};
use betsphere::model::{Role, User, UserId};
use betsphere::ports::{AccessClaims, AuthPortError, StoragePortError, StoredFile};
use betsphere::use_cases::file::{file_or_not_found, GetFile};
use betsphere::use_cases::image::{stale_keys, storage_key, validate, versioned_url};
use betsphere::use_cases::user::{
    apply_patch, email_taken, require_changes, with_avatar, UpdateUserInput, MAX_AVATAR_BYTES,
};
use betsphere::Actor;

fn user() -> User {
    User {
        id: UserId(1),
        username: "alice".into(),
        email: "alice@example.com".into(),
        role: Role::User,
        balance: 10_000,
        avatar_url: None,
    }
}

#[test]
fn uploads_are_checked_for_type_then_emptiness_then_size() {
    assert_eq!(validate("avatar", "image/png", &[1], 10).unwrap(), "png");
    assert_eq!(validate("avatar", "image/jpeg", &[1], 10).unwrap(), "jpg");
    assert_eq!(validate("avatar", "image/webp", &[1], 10).unwrap(), "webp");
    match validate("avatar", "image/gif", &[], 10) {
        Err(DomainError::Validation(m)) => assert_eq!(
            m,
            "unsupported avatar content type: \"image/gif\" (allowed: png, jpeg, webp)"
        ),
        other => panic!("unexpected {other:?}"),
    }
    match validate("thumbnail", "image/png", &[], 10) {
        Err(DomainError::Validation(m)) => assert_eq!(m, "thumbnail file is empty"),
        other => panic!("unexpected {other:?}"),
    }
    match validate("thumbnail", "image/png", &[0; 11], 10) {
        Err(DomainError::Validation(m)) => assert_eq!(m, "thumbnail exceeds 10 bytes"),
        other => panic!("unexpected {other:?}"),
    }
    match validate("avatar", "image/png", &vec![0; MAX_AVATAR_BYTES + 1], MAX_AVATAR_BYTES) {
        Err(DomainError::Validation(m)) => assert_eq!(m, "avatar exceeds 2097152 bytes"),
        other => panic!("unexpected {other:?}"),
    }
}

#[test]
fn an_upload_replaces_the_owners_other_variants() {
    assert_eq!(storage_key("avatars", "u1", "png"), "avatars/u1.png");
    assert_eq!(stale_keys("avatars", "u1", "png"), vec!["avatars/u1.jpg", "avatars/u1.webp"]);
    assert_eq!(stale_keys("avatars", "u1", "webp"), vec!["avatars/u1.png", "avatars/u1.jpg"]);
    assert_eq!(versioned_url("/files/avatars/u1.png", 1_700_000_000), "/files/avatars/u1.png?v=1700000000");
    assert_eq!(versioned_url("u", -5), "u?v=-5");
    assert_eq!(versioned_url("u", i64::MIN), "u?v=-9223372036854775808");
}

#[test]
fn profile_edits() {
    match email_taken("alice@example.com") {
        ApplicationError::Conflict(m) => {
            assert_eq!(m, "user with email alice@example.com already exists")
        }
        other => panic!("unexpected {other:?}"),
    }
    let empty = UpdateUserInput::default();
    assert!(empty.is_empty());
    match require_changes(&empty) {
        Err(ApplicationError::Domain(DomainError::Validation(m))) => {
            assert_eq!(m, "no fields to update")
        }
        other => panic!("unexpected {other:?}"),
    }
    let promote = UpdateUserInput { role: Some(Role::Admin) };
    assert!(require_changes(&promote).is_ok());
    let u = apply_patch(user(), &promote);
    assert_eq!(u.role, Role::Admin);
    assert_eq!(u.balance, 10_000);
    let u = apply_patch(u, &empty);
    assert_eq!(u.role, Role::Admin);
    let u = with_avatar(u, "a.png?v=1".into());
    assert_eq!(u.avatar_url.as_deref(), Some("a.png?v=1"));
}

#[test]
fn a_missing_file_is_not_found() {
    let g = GetFile::new("store");
    assert_eq!(g.storage, "store");
    match file_or_not_found("avatars/x.png", None) {
        Err(ApplicationError::NotFound(m)) => assert_eq!(m, "file avatars/x.png"),
        other => panic!("unexpected {other:?}"),
    }
    let f = StoredFile { content_type: "image/png".into(), bytes: vec![1] };
    assert_eq!(file_or_not_found("k", Some(f)).unwrap().bytes, vec![1]);
}

#[test]
fn errors_convert_as_the_service_reports_them() {
    assert!(matches!(
        ApplicationError::from(RepositoryError::Conflict("dup".into())),
        ApplicationError::Conflict(m) if m == "dup"
    ));
    assert!(matches!(
        ApplicationError::from(RepositoryError::Storage("down".into())),
        ApplicationError::Internal(m) if m == "down"
    ));
    assert!(matches!(
        ApplicationError::from(DomainError::Validation("bad".into())),
        ApplicationError::Domain(DomainError::Validation(m)) if m == "bad"
    ));
    assert!(matches!(
        from_auth_port(AuthPortError::InvalidToken),
        ApplicationError::Internal(m) if m == "invalid token"
    ));
    assert!(matches!(
        from_storage_port(StoragePortError::InvalidKey),
        ApplicationError::Internal(m) if m == "invalid storage key"
    ));
    let actor = Actor::from(AccessClaims { user_id: UserId(9), role: Role::Admin });
    assert_eq!(actor.user_id, UserId(9));
    assert_eq!(actor.role, Role::Admin);
}
