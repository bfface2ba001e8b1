use legitima::challenge::{
    begin_totp, begin_totp_with_secret, totp_check_for, begin_webauthn_authentication,
    begin_webauthn_registration, confirm_totp, finish_webauthn_authentication,
    finish_webauthn_registration, is_known_credential, known_credential_ids, known_credentials,
    security_overview, settle_totp, take_webauthn_authentication, webauthn_registration_state,
    Attestation, VerifyError,
};
use legitima::db::{
    CredentialData, CredentialStore, DBTotpCredential, DBUserCredential, DBUserCredentialTypes,
    StorageError, TotpAlgorithm,
};
use legitima::totp::TotpFailure;

fn webauthn_credential_row(username: &str, cred_id: &[u8], label: &str) -> DBUserCredential {
    DBUserCredential {
        id: None,
        username: username.to_string(),
        label: Some(label.to_string()),
        credential_type: DBUserCredentialTypes::WebauthnCredential,
        credential_data: CredentialData::WebauthnCredential {
            cred_id: cred_id.to_vec(),
            credential: format!("credential of {}", label),
        },
        temporary: false,
    }
}

fn current_code(secret: &str, issuer: &str, username: &str, offset: i64) -> String {
    let totp = totp_rs::TOTP::new(
        totp_rs::Algorithm::SHA256,
        6,
        1,
        30,
        totp_rs::Secret::Encoded(secret.to_string()).to_bytes().unwrap(),
        Some(issuer.to_string()),
        username.to_string(),
    )
    .unwrap();
    let now = std::time::SystemTime::now()
        .duration_since(std::time::UNIX_EPOCH)
        .unwrap()
        .as_secs() as i64;
    totp.generate((now + offset) as u64)
}

fn wrong_code(secret: &str, issuer: &str, username: &str) -> String {
    let near: Vec<String> = [-60, -30, 0, 30, 60]
        .iter()
        .map(|o| current_code(secret, issuer, username, *o))
        .collect();
    for n in 0..10 {
        let candidate = format!("{:06}", n);
        if !near.contains(&candidate) {
            return candidate;
        }
    }
    unreachable!()
}

#[test]
fn create_one_hands_out_distinct_ids() {
    let mut store = CredentialStore::new();
    let a = DBUserCredential::create_one(webauthn_credential_row("alice", &[1], "a"), &mut store)
        .unwrap();
    let b = DBUserCredential::create_one(webauthn_credential_row("alice", &[2], "b"), &mut store)
        .unwrap();
    assert_ne!(a, b);
    assert_eq!(store.len(), 2);
}

#[test]
fn find_filters_by_id_user_and_kind() {
    let mut store = CredentialStore::new();
    let id = begin_webauthn_authentication(&mut store, "alice", "state".to_string()).unwrap();
    let found =
        DBUserCredential::find_webauthn_authentication_by_id_and_username(id, "alice", &store)
            .unwrap();
    assert_eq!(found.id, Some(id));
    assert_eq!(found.username, "alice");
    assert!(found.temporary);
    assert!(found.label.is_none());
    assert!(matches!(
        DBUserCredential::find_webauthn_authentication_by_id_and_username(id, "bob", &store),
        Err(StorageError::RowNotFound)
    ));
    assert!(matches!(
        DBUserCredential::find_webauthn_registration_by_id_and_username(id, "alice", &store),
        Err(StorageError::RowNotFound)
    ));
    assert!(matches!(
        DBUserCredential::find_webauthn_authentication_by_id_and_username(id + 1, "alice", &store),
        Err(StorageError::RowNotFound)
    ));
}

#[test]
fn find_reports_a_row_whose_kind_and_data_disagree() {
    let mut store = CredentialStore::new();
    let row = DBUserCredential {
        id: None,
        username: "alice".to_string(),
        label: None,
        credential_type: DBUserCredentialTypes::WebauthnAuthentication,
        credential_data: CredentialData::Totp(DBTotpCredential {
            algorithm: TotpAlgorithm::SHA256,
            secret: "x".to_string(),
        }),
        temporary: true,
    };
    let id = DBUserCredential::create_one(row, &mut store).unwrap();
    assert!(matches!(
        DBUserCredential::find_webauthn_authentication_by_id_and_username(id, "alice", &store),
        Err(StorageError::Malformed)
    ));
    assert_eq!(
        take_webauthn_authentication(&mut store, id, "alice"),
        Err(VerifyError::Internal)
    );
    assert_eq!(store.len(), 1);
}

#[test]
fn find_reports_a_durable_kind_that_is_marked_temporary() {
    let mut store = CredentialStore::new();
    let mut row = webauthn_credential_row("alice", &[1], "key");
    row.credential_type = DBUserCredentialTypes::TotpCredential;
    row.credential_data = CredentialData::Totp(DBTotpCredential {
        algorithm: TotpAlgorithm::SHA1,
        secret: "x".to_string(),
    });
    row.temporary = true;
    let id = DBUserCredential::create_one(row, &mut store).unwrap();
    assert!(matches!(
        DBUserCredential::find_totp_credentials_by_id_and_username(id, "alice", &store),
        Err(StorageError::Malformed)
    ));
}

#[test]
fn lists_are_filtered_by_user_and_kind_in_order() {
    let mut store = CredentialStore::new();
    DBUserCredential::create_one(webauthn_credential_row("alice", &[1], "first"), &mut store)
        .unwrap();
    DBUserCredential::create_one(webauthn_credential_row("bob", &[2], "other"), &mut store)
        .unwrap();
    begin_webauthn_authentication(&mut store, "alice", "state".to_string()).unwrap();
    DBUserCredential::create_one(webauthn_credential_row("alice", &[3], "second"), &mut store)
        .unwrap();
    let rows = DBUserCredential::find_webauthn_credentials_by_username("alice", &store);
    let labels: Vec<String> = rows.iter().map(|r| r.label.clone().unwrap()).collect();
    assert_eq!(labels, vec!["first".to_string(), "second".to_string()]);
    assert!(DBUserCredential::find_totp_credentials_by_username("alice", &store).is_empty());
    assert_eq!(known_credential_ids(&store, "alice"), vec![vec![1u8], vec![3u8]]);
    assert_eq!(
        known_credentials(&store, "alice"),
        vec!["credential of first".to_string(), "credential of second".to_string()]
    );
}

#[test]
fn update_and_delete_report_whether_a_row_was_there() {
    let mut store = CredentialStore::new();
    let id = DBUserCredential::create_one(webauthn_credential_row("alice", &[1], "a"), &mut store)
        .unwrap();
    assert!(DBUserCredential::update_temporary(id, true, &mut store));
    assert!(!DBUserCredential::update_temporary(id + 7, true, &mut store));
    assert!(DBUserCredential::find_permanent_credentials_by_username("alice", &store).is_empty());
    assert!(DBUserCredential::update_temporary(id, false, &mut store));
    assert!(!DBUserCredential::delete_credential(id, "bob", &mut store));
    assert_eq!(store.len(), 1);
    assert!(DBUserCredential::delete_credential(id, "alice", &mut store));
    assert!(!DBUserCredential::delete_credential(id, "alice", &mut store));
    assert_eq!(store.len(), 0);
    assert!(!DBUserCredential::update_type_data(
        id,
        DBUserCredentialTypes::WebauthnCredential,
        CredentialData::WebauthnState("s".to_string()),
        false,
        &mut store
    ));
}

#[test]
fn permanent_kinds_are_listed_once() {
    let mut store = CredentialStore::new();
    DBUserCredential::create_one(webauthn_credential_row("alice", &[1], "a"), &mut store).unwrap();
    DBUserCredential::create_one(webauthn_credential_row("alice", &[2], "b"), &mut store).unwrap();
    begin_webauthn_registration(&mut store, "alice", "c", "state".to_string()).unwrap();
    DBUserCredential::create_one(webauthn_credential_row("bob", &[3], "c"), &mut store).unwrap();
    let kinds = DBUserCredential::find_permanent_credentials_by_username("alice", &store);
    assert_eq!(kinds, vec![DBUserCredentialTypes::WebauthnCredential]);
    assert!(DBUserCredential::find_permanent_credentials_by_username("carol", &store).is_empty());
}

#[test]
fn registration_promotes_the_challenge_row() {
    let mut store = CredentialStore::new();
    let id = begin_webauthn_registration(&mut store, "alice", "my key", "reg state".to_string())
        .unwrap();
    assert_eq!(webauthn_registration_state(&store, id, "alice"), Ok("reg state".to_string()));
    assert_eq!(webauthn_registration_state(&store, id, "bob"), Err(VerifyError::NotFound));
    let outcome = finish_webauthn_registration(
        &mut store,
        id,
        "alice",
        Attestation::Verified { cred_id: vec![9, 9], credential: "the credential".to_string() },
    );
    assert_eq!(outcome, Ok(()));
    assert_eq!(store.len(), 1);
    let rows = DBUserCredential::find_webauthn_credentials_by_username("alice", &store);
    assert_eq!(rows.len(), 1);
    assert_eq!(rows[0].id, Some(id));
    assert_eq!(rows[0].label, Some("my key".to_string()));
    assert!(!rows[0].temporary);
    assert!(matches!(
        &rows[0].credential_data,
        CredentialData::WebauthnCredential { cred_id, credential }
            if cred_id == &vec![9u8, 9u8] && credential == "the credential"
    ));
    assert_eq!(
        finish_webauthn_registration(
            &mut store,
            id,
            "alice",
            Attestation::Verified { cred_id: vec![8], credential: "again".to_string() },
        ),
        Err(VerifyError::NotFound)
    );
}

#[test]
fn failed_registration_leaves_the_challenge_for_a_retry() {
    let mut store = CredentialStore::new();
    let id = begin_webauthn_registration(&mut store, "alice", "my key", "reg state".to_string())
        .unwrap();
    assert_eq!(
        finish_webauthn_registration(&mut store, id, "alice", Attestation::Failed),
        Err(VerifyError::Rejected)
    );
    assert_eq!(webauthn_registration_state(&store, id, "alice"), Ok("reg state".to_string()));
    assert_eq!(
        finish_webauthn_registration(
            &mut store,
            id,
            "alice",
            Attestation::Verified { cred_id: vec![1], credential: "c".to_string() },
        ),
        Ok(())
    );
}

#[test]
fn registration_rejects_a_credential_that_is_already_registered() {
    let mut store = CredentialStore::new();
    DBUserCredential::create_one(webauthn_credential_row("alice", &[1, 2, 3], "old"), &mut store)
        .unwrap();
    let id = begin_webauthn_registration(&mut store, "alice", "new", "reg state".to_string())
        .unwrap();
    assert_eq!(
        finish_webauthn_registration(
            &mut store,
            id,
            "alice",
            Attestation::Verified { cred_id: vec![1, 2, 3], credential: "c".to_string() },
        ),
        Err(VerifyError::Rejected)
    );
    assert_eq!(DBUserCredential::find_webauthn_credentials_by_username("alice", &store).len(), 1);
    assert_eq!(webauthn_registration_state(&store, id, "alice"), Ok("reg state".to_string()));
}

#[test]
fn registration_of_another_user_or_kind_is_not_found() {
    let mut store = CredentialStore::new();
    let id = begin_webauthn_authentication(&mut store, "alice", "auth state".to_string()).unwrap();
    let attestation = || Attestation::Verified { cred_id: vec![1], credential: "c".to_string() };
    assert_eq!(
        finish_webauthn_registration(&mut store, id, "alice", attestation()),
        Err(VerifyError::NotFound)
    );
    let reg = begin_webauthn_registration(&mut store, "alice", "k", "reg".to_string()).unwrap();
    assert_eq!(
        finish_webauthn_registration(&mut store, reg, "mallory", attestation()),
        Err(VerifyError::NotFound)
    );
    assert_eq!(store.len(), 2);
}

#[test]
fn known_credential_ids_are_compared_byte_by_byte() {
    let ids = vec![vec![1u8, 2, 3], vec![], vec![4]];
    assert!(is_known_credential(&ids, &[1, 2, 3]));
    assert!(is_known_credential(&ids, &[]));
    assert!(is_known_credential(&ids, &[4]));
    assert!(!is_known_credential(&ids, &[1, 2]));
    assert!(!is_known_credential(&ids, &[1, 2, 4]));
    assert!(!is_known_credential(&Vec::new(), &[1]));
}

#[test]
fn consumed_authentication_challenge_is_not_found_again() {
    let mut store = CredentialStore::new();
    let id = begin_webauthn_authentication(&mut store, "alice", "auth state".to_string()).unwrap();
    let mut seen = String::new();
    let first = finish_webauthn_authentication(&mut store, id, "alice", |state: &str| {
        seen = state.to_string();
        true
    });
    assert_eq!(first, Ok(()));
    assert_eq!(seen, "auth state");
    let mut asked = false;
    let second = finish_webauthn_authentication(&mut store, id, "alice", |_state: &str| {
        asked = true;
        true
    });
    assert_eq!(second, Err(VerifyError::NotFound));
    assert!(!asked);
    assert_eq!(store.len(), 0);
}

#[test]
fn failed_authentication_consumes_the_challenge_too() {
    let mut store = CredentialStore::new();
    let id = begin_webauthn_authentication(&mut store, "alice", "auth state".to_string()).unwrap();
    assert_eq!(
        finish_webauthn_authentication(&mut store, id, "alice", |_: &str| false),
        Err(VerifyError::Rejected)
    );
    assert_eq!(
        finish_webauthn_authentication(&mut store, id, "alice", |_: &str| true),
        Err(VerifyError::NotFound)
    );
}

#[test]
fn authentication_challenge_of_another_user_is_not_found_and_stays() {
    let mut store = CredentialStore::new();
    let id = begin_webauthn_authentication(&mut store, "alice", "auth state".to_string()).unwrap();
    assert_eq!(
        finish_webauthn_authentication(&mut store, id, "mallory", |_: &str| true),
        Err(VerifyError::NotFound)
    );
    assert_eq!(take_webauthn_authentication(&mut store, id, "alice"), Ok("auth state".to_string()));
    assert_eq!(take_webauthn_authentication(&mut store, id, "alice"), Err(VerifyError::NotFound));
}

#[test]
fn begin_totp_stores_a_pending_secret() {
    let mut store = CredentialStore::new();
    let enrollment = begin_totp(&mut store, "alice", "phone", "Legitima").unwrap();
    assert_eq!(enrollment.secret.len(), 32);
    assert_eq!(
        totp_rs::Secret::Encoded(enrollment.secret.clone()).to_bytes().unwrap().len(),
        20
    );
    assert!(enrollment.qr.starts_with("iVBORw0KGgo"));
    let row = store
        .find_by_id_and_username(enrollment.record_id, "alice", DBUserCredentialTypes::TotpPending)
        .unwrap();
    assert!(row.temporary);
    assert_eq!(row.label, Some("phone".to_string()));
    assert!(matches!(
        &row.credential_data,
        CredentialData::Totp(totp)
            if totp.secret == enrollment.secret && totp.algorithm == TotpAlgorithm::SHA256
    ));
    assert!(DBUserCredential::find_totp_credentials_by_username("alice", &store).is_empty());
    let other = begin_totp(&mut store, "alice", "phone", "Legitima").unwrap();
    assert_ne!(other.secret, enrollment.secret);
}

#[test]
fn begin_totp_with_secret_writes_the_secret_in_base32() {
    let mut store = CredentialStore::new();
    let enrollment = begin_totp_with_secret(
        &mut store,
        "alice",
        "phone",
        "Legitima",
        b"TestSecretSuperSecret".to_vec(),
    )
    .unwrap();
    assert_eq!(enrollment.secret, "KRSXG5CTMVRXEZLUKN2XAZLSKNSWG4TFOQ");
    assert_eq!(enrollment.record_id, 0);
    let again = begin_totp_with_secret(
        &mut store,
        "alice",
        "phone",
        "Legitima",
        b"TestSecretSuperSecret".to_vec(),
    )
    .unwrap();
    assert_eq!(again.qr, enrollment.qr);
    assert_eq!(again.record_id, 1);
    let other = begin_totp_with_secret(
        &mut store,
        "bob",
        "phone",
        "Legitima",
        b"TestSecretSuperSecret".to_vec(),
    )
    .unwrap();
    assert_ne!(other.qr, enrollment.qr);
}

#[test]
fn begin_totp_refuses_a_colon_and_a_short_secret() {
    let mut store = CredentialStore::new();
    assert!(matches!(
        begin_totp(&mut store, "al:ice", "phone", "Legitima"),
        Err(VerifyError::Internal)
    ));
    assert!(matches!(
        begin_totp(&mut store, "alice", "phone", "Legi:tima"),
        Err(VerifyError::Internal)
    ));
    assert!(matches!(
        begin_totp_with_secret(&mut store, "alice", "phone", "Legitima", b"short".to_vec()),
        Err(VerifyError::Internal)
    ));
    assert_eq!(store.len(), 0);
}

#[test]
fn wrong_totp_code_leaves_the_secret_and_the_right_code_confirms_it() {
    let mut store = CredentialStore::new();
    let enrollment = begin_totp(&mut store, "alice", "phone", "Legitima").unwrap();
    let id = enrollment.record_id;
    let wrong = wrong_code(&enrollment.secret, "Legitima", "alice");
    assert_eq!(confirm_totp(&mut store, id, "alice", "Legitima", &wrong), Err(VerifyError::Rejected));
    let row = store.find_by_id_and_username(id, "alice", DBUserCredentialTypes::TotpPending).unwrap();
    assert!(row.temporary);
    assert!(matches!(
        &row.credential_data,
        CredentialData::Totp(totp) if totp.secret == enrollment.secret
    ));
    let right = current_code(&enrollment.secret, "Legitima", "alice", 0);
    assert_eq!(confirm_totp(&mut store, id, "alice", "Legitima", &right), Ok(()));
    let row =
        DBUserCredential::find_totp_credentials_by_id_and_username(id, "alice", &store).unwrap();
    assert!(!row.temporary);
    assert!(matches!(
        &row.credential_data,
        CredentialData::Totp(totp) if totp.secret == enrollment.secret
    ));
    assert_eq!(
        confirm_totp(&mut store, id, "alice", "Legitima", &right),
        Err(VerifyError::NotFound)
    );
}

#[test]
fn confirm_totp_of_another_user_is_not_found() {
    let mut store = CredentialStore::new();
    let enrollment = begin_totp(&mut store, "alice", "phone", "Legitima").unwrap();
    let right = current_code(&enrollment.secret, "Legitima", "alice", 0);
    assert_eq!(
        confirm_totp(&mut store, enrollment.record_id, "bob", "Legitima", &right),
        Err(VerifyError::NotFound)
    );
    assert_eq!(
        confirm_totp(&mut store, enrollment.record_id + 1, "alice", "Legitima", &right),
        Err(VerifyError::NotFound)
    );
}

#[test]
fn confirm_totp_reports_a_secret_that_is_no_base32() {
    let mut store = CredentialStore::new();
    let row = DBUserCredential {
        id: None,
        username: "alice".to_string(),
        label: None,
        credential_type: DBUserCredentialTypes::TotpPending,
        credential_data: CredentialData::Totp(DBTotpCredential {
            algorithm: TotpAlgorithm::SHA256,
            secret: "not base32 !".to_string(),
        }),
        temporary: true,
    };
    let id = DBUserCredential::create_one(row, &mut store).unwrap();
    assert_eq!(
        confirm_totp(&mut store, id, "alice", "Legitima", "123456"),
        Err(VerifyError::Internal)
    );
}

#[test]
fn settle_totp_follows_the_check() {
    let mut store = CredentialStore::new();
    let id = begin_totp(&mut store, "alice", "phone", "Legitima").unwrap().record_id;
    assert_eq!(settle_totp(&mut store, id, "alice", Ok(false)), Err(VerifyError::Rejected));
    assert_eq!(
        settle_totp(&mut store, id, "alice", Err(TotpFailure::Clock)),
        Err(VerifyError::Internal)
    );
    assert_eq!(
        settle_totp(&mut store, id, "alice", Err(TotpFailure::Parameters)),
        Err(VerifyError::Internal)
    );
    assert!(DBUserCredential::find_totp_credentials_by_username("alice", &store).is_empty());
    assert_eq!(settle_totp(&mut store, id, "alice", Ok(true)), Ok(()));
    assert_eq!(DBUserCredential::find_totp_credentials_by_username("alice", &store).len(), 1);
    assert_eq!(settle_totp(&mut store, id, "alice", Ok(true)), Err(VerifyError::NotFound));
}

#[test]
fn security_overview_lists_durable_credentials_with_labels() {
    let mut store = CredentialStore::new();
    let key = DBUserCredential::create_one(webauthn_credential_row("alice", &[1], "key"), &mut store)
        .unwrap();
    let mut unlabelled = webauthn_credential_row("alice", &[2], "x");
    unlabelled.label = None;
    let other = DBUserCredential::create_one(unlabelled, &mut store).unwrap();
    let totp = begin_totp(&mut store, "alice", "phone", "Legitima").unwrap().record_id;
    let context = security_overview(&store, "alice");
    assert_eq!(
        context.webauthn_credentials,
        vec![(key, "key".to_string()), (other, String::new())]
    );
    assert!(context.totp_credentials.is_empty());
    assert_eq!(settle_totp(&mut store, totp, "alice", Ok(true)), Ok(()));
    let context = security_overview(&store, "alice");
    assert_eq!(context.totp_credentials, vec![(totp, "phone".to_string())]);
    assert!(security_overview(&store, "bob").webauthn_credentials.is_empty());
}

#[test]
fn table_is_loaded_from_rows_with_distinct_ids() {
    let mut a = webauthn_credential_row("alice", &[1], "a");
    a.id = Some(7);
    let mut b = webauthn_credential_row("bob", &[2], "b");
    b.id = Some(3);
    let mut store = CredentialStore::from_rows(vec![a, b]).unwrap();
    assert_eq!(store.len(), 2);
    assert_eq!(store.row(7).unwrap().username, "alice");
    assert_eq!(store.row(3).unwrap().label, Some("b".to_string()));
    assert!(store.row(4).is_none());
    let next = begin_webauthn_authentication(&mut store, "alice", "s".to_string()).unwrap();
    assert_eq!(next, 8);
    assert!(CredentialStore::from_rows(Vec::new()).is_some());
}

#[test]
fn table_is_not_loaded_from_rows_without_or_with_shared_ids() {
    let mut a = webauthn_credential_row("alice", &[1], "a");
    a.id = Some(7);
    let mut b = webauthn_credential_row("bob", &[2], "b");
    b.id = Some(7);
    assert!(CredentialStore::from_rows(vec![a, b]).is_none());
    assert!(CredentialStore::from_rows(vec![webauthn_credential_row("alice", &[1], "a")]).is_none());
    let mut last = webauthn_credential_row("alice", &[1], "a");
    last.id = Some(u128::MAX);
    assert!(CredentialStore::from_rows(vec![last]).is_none());
}

#[test]
fn new_challenge_is_temporary_and_has_no_id() {
    let row = legitima::challenge::new_challenge(
        "alice",
        Some("key".to_string()),
        DBUserCredentialTypes::WebauthnRegistration,
        CredentialData::WebauthnState("state".to_string()),
    );
    assert_eq!(row.id, None);
    assert_eq!(row.username, "alice");
    assert_eq!(row.label, Some("key".to_string()));
    assert_eq!(row.credential_type, DBUserCredentialTypes::WebauthnRegistration);
    assert!(row.temporary);
    assert!(row.is_well_formed());
}

#[test]
fn a_full_table_takes_no_further_row() {
    let mut last = webauthn_credential_row("alice", &[1], "a");
    last.id = Some(u128::MAX - 1);
    let mut store = CredentialStore::from_rows(vec![last]).unwrap();
    assert!(matches!(
        DBUserCredential::create_one(webauthn_credential_row("alice", &[2], "b"), &mut store),
        Err(StorageError::Exhausted)
    ));
    assert_eq!(
        begin_webauthn_authentication(&mut store, "alice", "state".to_string()),
        Err(VerifyError::Internal)
    );
    assert_eq!(
        begin_webauthn_registration(&mut store, "alice", "key", "state".to_string()),
        Err(VerifyError::Internal)
    );
    assert!(matches!(
        begin_totp(&mut store, "alice", "phone", "Legitima"),
        Err(VerifyError::Internal)
    ));
    assert_eq!(store.len(), 1);
}

#[test]
fn totp_check_is_put_together_from_the_row_and_the_request() {
    let mut store = CredentialStore::new();
    let enrollment = begin_totp_with_secret(
        &mut store,
        "alice",
        "phone",
        "Legitima",
        b"TestSecretSuperSecret".to_vec(),
    )
    .unwrap();
    let mut row = store
        .find_by_id_and_username(enrollment.record_id, "alice", DBUserCredentialTypes::TotpPending)
        .unwrap();
    let check = totp_check_for(&row, "Legitima", "alice", "012345").unwrap();
    assert_eq!(check.algorithm, TotpAlgorithm::SHA256);
    assert_eq!(check.digits, 6);
    assert_eq!(check.skew, 1);
    assert_eq!(check.step, 30);
    assert_eq!(check.secret, b"TestSecretSuperSecret".to_vec());
    assert_eq!(check.issuer, "Legitima");
    assert_eq!(check.account_name, "alice");
    assert_eq!(check.code, "012345");
    row.credential_data = CredentialData::Totp(DBTotpCredential {
        algorithm: TotpAlgorithm::SHA512,
        secret: "KRSXG5CTMVRXEZLUKN2XAZLSKNSWG4TFOQ".to_string(),
    });
    let other = totp_check_for(&row, "Issuer", "bob", "999999").unwrap();
    assert_eq!(other.algorithm, TotpAlgorithm::SHA512);
    assert_eq!(other.secret, b"TestSecretSuperSecret".to_vec());
    assert_eq!(other.account_name, "bob");
    row.credential_data = CredentialData::Totp(DBTotpCredential {
        algorithm: TotpAlgorithm::SHA1,
        secret: "not base32 !".to_string(),
    });
    assert!(totp_check_for(&row, "Legitima", "alice", "012345").is_none());
    row.credential_data = CredentialData::WebauthnState("state".to_string());
    assert!(totp_check_for(&row, "Legitima", "alice", "012345").is_none());
}

#[test]
fn a_totp_code_with_a_leading_zero_is_checked_as_it_was_typed() {
    let mut store = CredentialStore::new();
    let enrollment = begin_totp(&mut store, "alice", "phone", "Legitima").unwrap();
    let right = current_code(&enrollment.secret, "Legitima", "alice", 0);
    let stripped = right.trim_start_matches('0').to_string();
    if stripped != right {
        assert_eq!(
            confirm_totp(&mut store, enrollment.record_id, "alice", "Legitima", &stripped),
            Err(VerifyError::Rejected)
        );
    }
    assert_eq!(
        confirm_totp(&mut store, enrollment.record_id, "alice", "Legitima", &right),
        Ok(())
    );
}

#[test]
fn begin_totp_stores_the_row_even_where_it_reports_the_next_id() {
    let mut store = CredentialStore::new();
    let first = begin_totp(&mut store, "alice", "phone", "Legitima").unwrap();
    let second = begin_totp(&mut store, "alice", "tablet", "Legitima").unwrap();
    assert_eq!((first.record_id, second.record_id), (0, 1));
    assert_eq!(store.len(), 2);
    let third = begin_webauthn_authentication(&mut store, "alice", "s".to_string()).unwrap();
    assert_eq!(third, 2);
}
