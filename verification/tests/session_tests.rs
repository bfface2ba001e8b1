use legitima::error::Error;
use legitima::sessions::{
    accept_stored, after_write, create, create_session, session_id_char, validate_session, Authentication,
    Routing, Session, SessionStorage, User,
};
use legitima::token::sign;

fn steps(names: &[&str]) -> Vec<String> {
    names.iter().map(|s| s.to_string()).collect()
}

fn session_with(completed: &[&str], missing: &[&str]) -> Session {
    Session::assemble(
        "A1b2C3d4E5f6G7h8I9j0K1l2M3n4O5p6".to_string(),
        "2024-01-01T00:00:00+00:00".to_string(),
        "alice".to_string(),
        steps(completed),
        steps(missing),
    )
}

#[test]
fn new_session_has_a_fresh_id_of_32_letters_and_digits() {
    let a = Session::new("alice".to_string(), steps(&["password"]), steps(&["webauthn"]));
    let b = Session::new("alice".to_string(), steps(&["password"]), steps(&["webauthn"]));
    assert_eq!(a.id.chars().count(), 32);
    assert!(a.id.chars().all(|c| c.is_ascii_alphanumeric()));
    assert_ne!(a.id, b.id);
    assert_eq!(a.username, "alice");
    assert_eq!(a.completed_auth_steps, steps(&["password"]));
    assert_eq!(a.missing_auth_steps, steps(&["webauthn"]));
    assert!(!a.fully_authenticated);
}

#[test]
fn new_session_carries_an_rfc3339_timestamp() {
    let a = Session::new("alice".to_string(), steps(&["password"]), steps(&[]));
    assert!(chrono::DateTime::parse_from_rfc3339(&a.auth_timestamp).is_ok());
}

#[test]
fn session_without_missing_steps_is_fully_authenticated() {
    let a = Session::new("alice".to_string(), steps(&["password"]), steps(&[]));
    assert!(a.fully_authenticated);
    assert!(a.missing_auth_steps.is_empty());
}

#[test]
fn complete_step_moves_the_step() {
    let s = session_with(&["password"], &["webauthn", "totp"]).complete_step("webauthn");
    assert_eq!(s.completed_auth_steps, steps(&["password", "webauthn"]));
    assert_eq!(s.missing_auth_steps, steps(&["totp"]));
    assert!(!s.fully_authenticated);
    assert_eq!(s.id, "A1b2C3d4E5f6G7h8I9j0K1l2M3n4O5p6");
    assert_eq!(s.username, "alice");
    assert_eq!(s.auth_timestamp, "2024-01-01T00:00:00+00:00");
}

#[test]
fn complete_step_twice_is_complete_step_once() {
    let once = session_with(&["password"], &["webauthn", "totp"]).complete_step("webauthn");
    let twice = session_with(&["password"], &["webauthn", "totp"])
        .complete_step("webauthn")
        .complete_step("webauthn");
    assert_eq!(once.completed_auth_steps, twice.completed_auth_steps);
    assert_eq!(once.missing_auth_steps, twice.missing_auth_steps);
    assert_eq!(once.fully_authenticated, twice.fully_authenticated);
}

#[test]
fn last_missing_step_authenticates_whatever_the_order_before() {
    let a = session_with(&["password", "webauthn"], &["totp"]).complete_step("totp");
    let b = session_with(&["webauthn", "password"], &["totp"]).complete_step("totp");
    assert!(a.fully_authenticated);
    assert!(b.fully_authenticated);
    assert!(a.missing_auth_steps.is_empty());
    assert!(b.missing_auth_steps.is_empty());
    assert_eq!(a.completed_auth_steps, steps(&["password", "webauthn", "totp"]));
    assert_eq!(b.completed_auth_steps, steps(&["webauthn", "password", "totp"]));
}

#[test]
fn a_session_with_one_missing_step_is_not_yet_authenticated() {
    assert!(!session_with(&["password"], &["totp"]).fully_authenticated);
}

#[test]
fn completing_a_step_that_was_neither_missing_nor_completed_lists_it() {
    let s = session_with(&["password"], &["webauthn"]).complete_step("totp");
    assert_eq!(s.completed_auth_steps, steps(&["password", "totp"]));
    assert_eq!(s.missing_auth_steps, steps(&["webauthn"]));
    assert!(!s.fully_authenticated);
}

#[test]
fn created_session_resolves_from_its_cookie() {
    let mut storage = SessionStorage::new();
    let session = session_with(&["password"], &["webauthn"]);
    let cookie = create_session(&mut storage, &session, b"secret");
    assert_eq!(cookie, sign(b"secret", &session.id));
    let found = validate_session(&storage, b"secret", &cookie).unwrap();
    assert_eq!(found.id, session.id);
    assert_eq!(found.username, "alice");
    assert_eq!(found.completed_auth_steps, steps(&["password"]));
    assert_eq!(found.missing_auth_steps, steps(&["webauthn"]));
    assert!(!found.fully_authenticated);
}

#[test]
fn tampered_cookie_resolves_to_nothing() {
    let mut storage = SessionStorage::new();
    let session = session_with(&["password"], &[]);
    let cookie = create_session(&mut storage, &session, b"secret");
    let mut chars: Vec<char> = cookie.chars().collect();
    let last = chars.len() - 1;
    chars[last] = if chars[last] == '0' { '1' } else { '0' };
    let tampered: String = chars.into_iter().collect();
    assert!(validate_session(&storage, b"secret", &tampered).is_none());
    let mut chars: Vec<char> = cookie.chars().collect();
    chars[0] = if chars[0] == 'B' { 'C' } else { 'B' };
    let tampered: String = chars.into_iter().collect();
    assert!(validate_session(&storage, b"secret", &tampered).is_none());
}

#[test]
fn signed_cookie_of_an_unknown_session_resolves_to_nothing() {
    let storage = SessionStorage::new();
    let cookie = sign(b"secret", "A1b2C3d4E5f6G7h8I9j0K1l2M3n4O5p6");
    assert!(validate_session(&storage, b"secret", &cookie).is_none());
}

#[test]
fn stored_session_that_is_not_well_formed_resolves_to_nothing() {
    let mut storage = SessionStorage::new();
    let mut session = session_with(&["password"], &["webauthn"]);
    session.fully_authenticated = true;
    let cookie = create_session(&mut storage, &session, b"secret");
    assert!(validate_session(&storage, b"secret", &cookie).is_none());
}

#[test]
fn deleted_session_resolves_to_nothing() {
    let mut storage = SessionStorage::new();
    let session = session_with(&["password"], &[]);
    let cookie = create_session(&mut storage, &session, b"secret");
    assert!(storage.delete(&session.id));
    assert!(!storage.delete(&session.id));
    assert!(validate_session(&storage, b"secret", &cookie).is_none());
}

#[test]
fn set_overwrites_the_session_under_the_same_id() {
    let mut storage = SessionStorage::new();
    let session = session_with(&["password"], &["webauthn"]);
    storage.set(&session);
    let other = Session::assemble(
        "Z1b2C3d4E5f6G7h8I9j0K1l2M3n4O5p6".to_string(),
        "t".to_string(),
        "bob".to_string(),
        steps(&["password"]),
        steps(&[]),
    );
    storage.set(&other);
    let updated = session.duplicate().complete_step("webauthn");
    storage.set(&updated);
    let found = storage.get(&session.id).unwrap();
    assert!(found.fully_authenticated);
    assert_eq!(found.completed_auth_steps, steps(&["password", "webauthn"]));
    assert_eq!(storage.get(&other.id).unwrap().username, "bob");
    assert!(storage.get("unknown").is_none());
}

#[test]
fn finish_step_keeps_the_updated_session() {
    let mut storage = SessionStorage::new();
    let session = session_with(&["password"], &["webauthn"]);
    let cookie = create_session(&mut storage, &session, b"secret");
    let updated = session.finish_step("webauthn", &mut storage);
    assert!(updated.fully_authenticated);
    let found = validate_session(&storage, b"secret", &cookie).unwrap();
    assert!(found.fully_authenticated);
    assert_eq!(found.completed_auth_steps, steps(&["password", "webauthn"]));
    assert!(found.missing_auth_steps.is_empty());
}

#[test]
fn user_guard_needs_full_authentication() {
    let partial = session_with(&["password"], &["webauthn"]);
    assert!(User::from_session(&partial).is_none());
    let full = session_with(&["password"], &[]);
    let user = User::from_session(&full).unwrap();
    assert_eq!(user.get_username(), "alice");
}

#[test]
fn create_opens_and_keeps_a_session() {
    let mut storage = SessionStorage::new();
    let (session, cookie) =
        create(&mut storage, b"secret", "alice".to_string(), steps(&["password"]), steps(&[]));
    assert!(session.fully_authenticated);
    assert_eq!(cookie, sign(b"secret", &session.id));
    assert_eq!(validate_session(&storage, b"secret", &cookie).unwrap().id, session.id);
    let (partial, _) = create(
        &mut storage,
        b"secret",
        "bob".to_string(),
        steps(&["password"]),
        steps(&["webauthn"]),
    );
    assert!(!partial.fully_authenticated);
    assert_eq!(storage.get(&partial.id).unwrap().username, "bob");
}

#[test]
fn stored_session_is_accepted_only_under_its_own_id_and_well_formed() {
    let id = "A1b2C3d4E5f6G7h8I9j0K1l2M3n4O5p6";
    assert!(accept_stored(id, None).is_none());
    assert!(accept_stored(id, Some(session_with(&["password"], &[]))).is_some());
    assert!(accept_stored("another", Some(session_with(&["password"], &[]))).is_none());
    let mut broken = session_with(&["password"], &[]);
    broken.fully_authenticated = false;
    assert!(accept_stored(id, Some(broken)).is_none());
}

#[test]
fn guards_serve_forward_or_fail() {
    let id = "A1b2C3d4E5f6G7h8I9j0K1l2M3n4O5p6";
    let full = Authentication::classify(id, Ok(Some(session_with(&["password"], &[]))));
    assert_eq!(full.partially_authenticated(), Routing::Serve);
    assert_eq!(full.fully_authenticated(), Routing::Serve);
    let partial = Authentication::classify(id, Ok(Some(session_with(&["password"], &["totp"]))));
    assert_eq!(partial.partially_authenticated(), Routing::Serve);
    assert_eq!(partial.fully_authenticated(), Routing::NextRank);
    let anonymous = Authentication::classify(id, Ok(None));
    assert!(matches!(anonymous, Authentication::Anonymous));
    assert_eq!(anonymous.partially_authenticated(), Routing::NextRank);
    assert_eq!(anonymous.fully_authenticated(), Routing::NextRank);
    let other = Authentication::classify("another", Ok(Some(session_with(&["password"], &[]))));
    assert!(matches!(other, Authentication::Anonymous));
    let failed = Authentication::classify(id, Err(Error::Redis));
    assert!(matches!(failed, Authentication::Error(Error::Redis)));
    assert_eq!(failed.partially_authenticated(), Routing::Fail);
    assert_eq!(failed.fully_authenticated(), Routing::Fail);
}

#[test]
fn session_id_characters_are_numbered_letters_first() {
    assert_eq!(session_id_char(0), "A");
    assert_eq!(session_id_char(25), "Z");
    assert_eq!(session_id_char(26), "a");
    assert_eq!(session_id_char(51), "z");
    assert_eq!(session_id_char(52), "0");
    assert_eq!(session_id_char(61), "9");
}

#[test]
fn cookie_with_a_trailing_part_resolves_to_nothing() {
    let mut storage = SessionStorage::new();
    let session = session_with(&["password"], &[]);
    let cookie = create_session(&mut storage, &session, b"secret");
    assert!(validate_session(&storage, b"secret", &cookie).is_some());
    assert!(validate_session(&storage, b"secret", &format!("{}.x", cookie)).is_none());
    assert!(validate_session(&storage, b"secret", &format!("{}.", cookie)).is_none());
    assert!(validate_session(&storage, b"secret", &format!("{}.{}", cookie, cookie)).is_none());
}

#[test]
fn a_failed_write_is_reported_in_place_of_the_session() {
    let updated = session_with(&["password"], &["webauthn"]).complete_step("webauthn");
    let kept = after_write(updated, Ok::<(), Error>(())).unwrap();
    assert!(kept.fully_authenticated);
    assert_eq!(kept.completed_auth_steps, steps(&["password", "webauthn"]));
    let updated = session_with(&["password"], &["webauthn"]).complete_step("webauthn");
    assert!(matches!(after_write(updated, Err(Error::Redis)), Err(Error::Redis)));
    let created = session_with(&["password"], &[]);
    assert!(matches!(after_write(created, Err("store is down")), Err("store is down")));
}
