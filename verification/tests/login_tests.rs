use legitima::auth::CookieUser;
use legitima::challenge::{begin_webauthn_authentication, VerifyError};
use legitima::config::AppConfig;
use legitima::consent::DirectoryEntry;
use legitima::db::{
    CredentialData, CredentialStore, DBUserCredential, DBUserCredentialTypes, StorageError,
};
use legitima::error::{Error, HydraError};
use legitima::ldap::{
    attribute_values, format_user_dn, get_ldap_user, group_membership_filter, is_admin,
};
use legitima::local_login::{auth_login, login, webauthn_2fa, webauthn_2fa_login, LoginOutcome};
use legitima::login::{auth_index, handle_login, Login, LoginStep};
use legitima::oidc::LoginRequest;
use legitima::sessions::{validate_session, Session, SessionStorage};

fn app_config() -> AppConfig {
    AppConfig {
        name: "Legitima".to_string(),
        ldap_user_base_dn: "ou=users,dc=example,dc=org".to_string(),
        ldap_groups_base_dn: "ou=groups,dc=example,dc=org".to_string(),
        ldap_admin_group_dn: "cn=admins,ou=groups,dc=example,dc=org".to_string(),
        ldap_root_dn: "cn=admin,dc=example,dc=org".to_string(),
    }
}

fn form(username: &str, password: &str) -> Login {
    Login { username: username.to_string(), password: password.to_string() }
}

fn store_with_webauthn_credential(username: &str) -> CredentialStore {
    let mut store = CredentialStore::new();
    let row = DBUserCredential {
        id: None,
        username: username.to_string(),
        label: Some("key".to_string()),
        credential_type: DBUserCredentialTypes::WebauthnCredential,
        credential_data: CredentialData::WebauthnCredential {
            cred_id: vec![1],
            credential: "c".to_string(),
        },
        temporary: false,
    };
    DBUserCredential::create_one(row, &mut store).unwrap();
    store
}

fn no_challenge() -> LoginRequest {
    LoginRequest { skip: false, subject: String::new() }
}

#[test]
fn password_login_without_second_factor_is_fully_authenticated_at_once() {
    let credentials = CredentialStore::new();
    let mut sessions = SessionStorage::new();
    let outcome = legitima::local_login::submit(
        &form("alice", "pw"),
        true,
        &credentials,
        &mut sessions,
        b"secret",
        Some("/selfservice/security".to_string()),
        &app_config(),
    );
    match outcome {
        LoginOutcome::Redirect { to, cookie_value, session } => {
            assert_eq!(to, "/selfservice/security");
            assert_eq!(session.username, "alice");
            assert_eq!(session.completed_auth_steps, vec!["password".to_string()]);
            assert!(session.missing_auth_steps.is_empty());
            assert!(session.fully_authenticated);
            let found = validate_session(&sessions, b"secret", &cookie_value).unwrap();
            assert_eq!(found.id, session.id);
            assert!(found.fully_authenticated);
        }
        LoginOutcome::Page(_) => panic!("the password was good"),
    }
}

#[test]
fn password_login_with_webauthn_credential_asks_for_the_second_factor() {
    let credentials = store_with_webauthn_credential("alice");
    let mut sessions = SessionStorage::new();
    let outcome = legitima::local_login::submit(
        &form("alice", "pw"),
        true,
        &credentials,
        &mut sessions,
        b"secret",
        None,
        &app_config(),
    );
    match outcome {
        LoginOutcome::Redirect { to, cookie_value, session } => {
            assert_eq!(to, "/auth/webauthn_2fa");
            assert_eq!(session.completed_auth_steps, vec!["password".to_string()]);
            assert_eq!(session.missing_auth_steps, vec!["webauthn".to_string()]);
            assert!(!session.fully_authenticated);
            assert!(validate_session(&sessions, b"secret", &cookie_value).is_some());
        }
        LoginOutcome::Page(_) => panic!("the password was good"),
    }
    let other = legitima::local_login::submit(
        &form("bob", "pw"),
        true,
        &credentials,
        &mut sessions,
        b"secret",
        None,
        &app_config(),
    );
    match other {
        LoginOutcome::Redirect { to, session, .. } => {
            assert_eq!(to, "/");
            assert!(session.fully_authenticated);
        }
        LoginOutcome::Page(_) => panic!("the password was good"),
    }
}

#[test]
fn local_login_page_messages() {
    let credentials = CredentialStore::new();
    let mut sessions = SessionStorage::new();
    for blank in [form("", "pw"), form("alice", ""), form("", "")] {
        match legitima::local_login::submit(
            &blank,
            true,
            &credentials,
            &mut sessions,
            b"secret",
            None,
            &app_config(),
        ) {
            LoginOutcome::Page(context) => {
                assert_eq!(context.app_name, "Legitima");
                assert_eq!(
                    context.message,
                    Some("Username and password cannot be empty".to_string())
                );
            }
            LoginOutcome::Redirect { .. } => panic!("the form has an empty field"),
        }
    }
    match legitima::local_login::submit(
        &form("alice", "bad"),
        false,
        &credentials,
        &mut sessions,
        b"secret",
        None,
        &app_config(),
    ) {
        LoginOutcome::Page(context) => {
            assert_eq!(context.message, Some("Username and/or password is wrong.".to_string()));
        }
        LoginOutcome::Redirect { .. } => panic!("the password was wrong"),
    }
    let page = login(&app_config());
    assert_eq!(page.app_name, "Legitima");
    assert_eq!(page.message, None);
}

#[test]
fn redirect_target_defaults_to_the_start_page() {
    assert_eq!(auth_login(None), "/");
    assert_eq!(auth_login(Some("/oidc/login?login_challenge=x".to_string())), "/oidc/login?login_challenge=x");
}

#[test]
fn second_factor_page_is_only_for_sessions_that_miss_it() {
    let waiting = Session::assemble(
        "A1b2C3d4E5f6G7h8I9j0K1l2M3n4O5p6".to_string(),
        "t".to_string(),
        "alice".to_string(),
        vec!["password".to_string()],
        vec!["webauthn".to_string()],
    );
    assert_eq!(webauthn_2fa(&waiting), Ok(()));
    let done = waiting.complete_step("webauthn");
    assert_eq!(webauthn_2fa(&done), Err(Error::Http(404)));
}

#[test]
fn webauthn_second_factor_completes_the_session() {
    let mut credentials = store_with_webauthn_credential("alice");
    let mut sessions = SessionStorage::new();
    let (session, cookie) = match legitima::local_login::submit(
        &form("alice", "pw"),
        true,
        &credentials,
        &mut sessions,
        b"secret",
        None,
        &app_config(),
    ) {
        LoginOutcome::Redirect { session, cookie_value, .. } => (session, cookie_value),
        LoginOutcome::Page(_) => panic!("the password was good"),
    };
    let challenge =
        begin_webauthn_authentication(&mut credentials, "alice", "state".to_string()).unwrap();
    let rejected = webauthn_2fa_login(
        session.duplicate(),
        challenge,
        |_: &str| false,
        &mut credentials,
        &mut sessions,
        None,
    );
    assert_eq!(rejected, Err(Error::Http(500)));
    assert!(!validate_session(&sessions, b"secret", &cookie).unwrap().fully_authenticated);
    let replayed = webauthn_2fa_login(
        session.duplicate(),
        challenge,
        |_: &str| true,
        &mut credentials,
        &mut sessions,
        None,
    );
    assert_eq!(replayed, Err(Error::Http(404)));
    let challenge =
        begin_webauthn_authentication(&mut credentials, "alice", "state".to_string()).unwrap();
    let accepted = webauthn_2fa_login(
        session,
        challenge,
        |state: &str| state == "state",
        &mut credentials,
        &mut sessions,
        Some("/back".to_string()),
    );
    assert_eq!(accepted, Ok("/back".to_string()));
    let found = validate_session(&sessions, b"secret", &cookie).unwrap();
    assert!(found.fully_authenticated);
    assert_eq!(
        found.completed_auth_steps,
        vec!["password".to_string(), "webauthn".to_string()]
    );
}

#[test]
fn challenge_login_page_accepts_a_known_user() {
    let step = handle_login(
        Some(CookieUser("alice".to_string())),
        &no_challenge(),
        "challenge",
        &app_config(),
    );
    match step {
        LoginStep::Accept { body, remember_username } => {
            assert_eq!(body.subject, "alice");
            assert_eq!(body.remember, None);
            assert_eq!(remember_username, None);
        }
        LoginStep::Page(_) => panic!("the user is known"),
    }
    let step = auth_index(
        CookieUser("bob".to_string()),
        &no_challenge(),
        "challenge",
        &app_config(),
    );
    assert!(matches!(step, LoginStep::Accept { body, .. } if body.subject == "bob"));
}

#[test]
fn challenge_login_page_is_shown_to_an_unknown_user() {
    match legitima::login::index(&no_challenge(), "challenge", &app_config()) {
        LoginStep::Page(context) => {
            assert_eq!(context.app_name, "Legitima");
            assert_eq!(context.message, None);
            assert_eq!(context.login_challenge, "challenge");
        }
        LoginStep::Accept { .. } => panic!("nobody is known"),
    }
    let skip = LoginRequest { skip: true, subject: "carol".to_string() };
    assert!(matches!(
        legitima::login::index(&skip, "challenge", &app_config()),
        LoginStep::Accept { body, .. } if body.subject == "carol"
    ));
}

#[test]
fn challenge_login_form_is_answered() {
    let config = app_config();
    match legitima::login::submit(&form("alice", ""), true, "c", &config) {
        LoginStep::Page(context) => {
            assert_eq!(context.message, Some("Username and password cannot be empty".to_string()));
            assert_eq!(context.login_challenge, "c");
        }
        LoginStep::Accept { .. } => panic!("the form has an empty field"),
    }
    match legitima::login::submit(&form("alice", "bad"), false, "c", &config) {
        LoginStep::Page(context) => {
            assert_eq!(context.message, Some("Username and/or password is wrong.".to_string()));
        }
        LoginStep::Accept { .. } => panic!("the password was wrong"),
    }
    match legitima::login::submit(&form("alice", "pw"), true, "c", &config) {
        LoginStep::Accept { body, remember_username } => {
            assert_eq!(body.subject, "alice");
            assert_eq!(remember_username, Some("alice".to_string()));
        }
        LoginStep::Page(_) => panic!("the password was good"),
    }
    assert!(form("", "x").is_blank());
    assert!(!form("a", "x").is_blank());
}

#[test]
fn cookie_user_comes_from_the_cookie() {
    assert!(CookieUser::from_cookie(None).is_none());
    let user = CookieUser::from_cookie(Some("alice".to_string())).unwrap();
    let groups = vec!["cn=admins,ou=groups,dc=example,dc=org".to_string()];
    assert!(user.is_admin(&app_config(), &groups));
    assert!(!user.is_admin(&app_config(), &Vec::new()));
    assert_eq!(user.get_username(), "alice");
}

#[test]
fn user_dn_is_uid_and_base() {
    assert_eq!(format_user_dn(&app_config(), "alice"), "uid=alice,ou=users,dc=example,dc=org");
    assert_eq!(format_user_dn(&app_config(), ""), "uid=,ou=users,dc=example,dc=org");
    assert_eq!(
        group_membership_filter("uid=alice,ou=users,dc=example,dc=org"),
        "(&(objectClass=groupOfNames)(member=uid=alice,ou=users,dc=example,dc=org))"
    );
}

#[test]
fn admin_group_membership() {
    let config = app_config();
    let groups = vec![
        "cn=staff,ou=groups,dc=example,dc=org".to_string(),
        "cn=admins,ou=groups,dc=example,dc=org".to_string(),
    ];
    assert!(is_admin(&config, &groups));
    assert!(!is_admin(&config, &groups[..1].to_vec()));
}

#[test]
fn ldap_user_is_read_from_the_entry() {
    let entry = DirectoryEntry {
        attrs: vec![
            ("displayName".to_string(), vec!["Alice A.".to_string()]),
            ("cn".to_string(), vec!["Alice".to_string()]),
            ("mail".to_string(), vec![]),
            ("member".to_string(), vec!["a".to_string(), "b".to_string()]),
        ],
    };
    let user = get_ldap_user("alice", &entry);
    assert_eq!(user.username, "alice");
    assert_eq!(user.name, "Alice A.");
    assert_eq!(user.first_name, "Alice");
    assert_eq!(user.last_name, "");
    assert_eq!(user.email, "");
    assert_eq!(attribute_values(&entry, "member"), vec!["a".to_string(), "b".to_string()]);
    assert!(attribute_values(&entry, "owner").is_empty());
}

#[test]
fn errors_are_answered_with_their_status() {
    assert_eq!(Error::from(HydraError::ResponseError { status: 500 }), Error::Hydra { status: 503 });
    assert_eq!(Error::from(HydraError::ResponseError { status: 599 }), Error::Hydra { status: 503 });
    assert_eq!(Error::from(HydraError::ResponseError { status: 400 }), Error::Hydra { status: 400 });
    assert_eq!(Error::from(HydraError::ResponseError { status: 404 }), Error::Hydra { status: 400 });
    assert_eq!(Error::from(HydraError::ResponseError { status: 499 }), Error::Hydra { status: 400 });
    assert_eq!(Error::from(HydraError::ResponseError { status: 600 }), Error::Hydra { status: 500 });
    assert_eq!(Error::from(HydraError::ResponseError { status: 399 }), Error::Hydra { status: 500 });
    assert_eq!(Error::from(HydraError::ResponseError { status: 302 }), Error::Hydra { status: 500 });
    assert_eq!(Error::from(HydraError::ResponseError { status: 0 }), Error::Hydra { status: 500 });
    assert_eq!(Error::from(HydraError::Other), Error::Hydra { status: 500 });
    assert_eq!(Error::from(VerifyError::NotFound), Error::Http(404));
    assert_eq!(Error::from(VerifyError::Rejected), Error::Http(500));
    assert_eq!(Error::from(VerifyError::Internal), Error::Http(500));
    assert_eq!(Error::from(StorageError::RowNotFound), Error::DB);
    assert_eq!(Error::Http(403).respond_to(), 403);
    assert_eq!(Error::Hydra { status: 503 }.respond_to(), 503);
    assert_eq!(Error::Ldap.respond_to(), 500);
    assert_eq!(Error::DB.respond_to(), 500);
    assert_eq!(Error::SerdeJSON.respond_to(), 500);
    assert_eq!(Error::Redis.respond_to(), 500);
    assert_eq!(Error::DB.message(), "SQL DB error");
    assert_eq!(Error::Redis.message(), "Redis error");
}
