//! The life of a credential challenge: begun as a temporary row, and then
//! either consumed by the one attempt to answer it, or promoted to a durable
//! credential when the answer proves possession.

use vstd::prelude::*;
use vstd::string::*;
use crate::db::{bound_after_insert, copy_bytes, has_row, keyed, not_row_of, owned_of_kind, read_row, the_row,
    with_type_data, CredentialData, CredentialDataView, CredentialStore, DBTotpCredential,
    DBUserCredential, DBUserCredentialTypes, DBUserCredentialView, StorageError};
use crate::totp::{base32_secret, base32_text, qr_picture, totp_parameters_valid, TotpCheck,
    TotpFailure,
    TOTP_ALGORITHM, TOTP_DIGITS, TOTP_SECRET_LEN, TOTP_SKEW, TOTP_STEP};

verus! {

/// Why an attempt to answer a challenge did not succeed.
#[derive(Clone, Copy, Debug, PartialEq, Eq, Structural)]
pub enum VerifyError {
    /// There is no such challenge for this user.
    NotFound,
    /// The answer does not prove possession.
    Rejected,
    /// The stored challenge cannot be used, or the table or the clock failed.
    Internal,
}

/// The error that a failed read of the table is reported as.
pub open spec fn read_failure(error: StorageError) -> VerifyError {
    match error {
        StorageError::RowNotFound => VerifyError::NotFound,
        StorageError::Malformed => VerifyError::Internal,
        StorageError::Exhausted => VerifyError::Internal,
    }
}

/// Reports a failed read of the table.
pub fn report_read_failure(error: StorageError) -> (reported: VerifyError)
    ensures
        reported == read_failure(error),
{
    match error {
        StorageError::RowNotFound => VerifyError::NotFound,
        StorageError::Malformed => VerifyError::Internal,
        StorageError::Exhausted => VerifyError::Internal,
    }
}

/// The row of a challenge as it is stored when the challenge begins.
pub open spec fn challenge_row(
    id: u128,
    username: Seq<char>,
    label: Option<Seq<char>>,
    kind: DBUserCredentialTypes,
    data: CredentialDataView,
) -> DBUserCredentialView {
    DBUserCredentialView {
        id: Some(id),
        username,
        label,
        credential_type: kind,
        credential_data: data,
        temporary: true,
    }
}

/// Whether no row has the id `id`.
pub open spec fn unused_id(rows: Seq<DBUserCredentialView>, id: u128) -> bool {
    forall|i: int| 0 <= i < rows.len() ==> (#[trigger] rows[i]).id != Some(id)
}

/// A challenge row that is not stored yet: temporary, and without an id.
pub fn new_challenge(
    username: &str,
    label: Option<String>,
    kind: DBUserCredentialTypes,
    data: CredentialData,
) -> (row: DBUserCredential)
    ensures
        row@ == (DBUserCredentialView {
            id: None,
            ..challenge_row(
                0,
                username@,
                match label {
                    Some(l) => Some(l@),
                    None => None,
                },
                kind,
                data@,
            )
        }),
{
    DBUserCredential {
        id: None,
        username: username.to_owned(),
        label,
        credential_type: kind,
        credential_data: data,
        temporary: true,
    }
}

/// Stores a challenge row.
fn begin(
    store: &mut CredentialStore,
    username: &str,
    label: Option<String>,
    kind: DBUserCredentialTypes,
    data: CredentialData,
) -> (record_id: Result<u128, VerifyError>)
    requires
        old(store).wf(),
    ensures
        final(store).wf(),
        record_id is Ok <==> old(store).bound() < u128::MAX,
        final(store).bound() == bound_after_insert(old(store).bound()),
        match record_id {
            Ok(id) => id == old(store).bound() && unused_id(old(store)@, id) && final(store)@
                == old(store)@.push(
                challenge_row(
                    id,
                    username@,
                    match label {
                        Some(l) => Some(l@),
                        None => None,
                    },
                    kind,
                    data@,
                ),
            ),
            Err(e) => e == VerifyError::Internal && final(store)@ == old(store)@,
        },
{
    match store.insert(new_challenge(username, label, kind, data)) {
        Ok(id) => Ok(id),
        Err(_) => Err(VerifyError::Internal),
    }
}

/// Begins the registration of a WebAuthn authenticator: stores the state of
/// the ceremony, as the WebAuthn implementation produced it with the
/// challenge, as a temporary row with the given label, and returns the row's
/// id.
pub fn begin_webauthn_registration(
    store: &mut CredentialStore,
    username: &str,
    label: &str,
    state: String,
) -> (record_id: Result<u128, VerifyError>)
    requires
        old(store).wf(),
    ensures
        final(store).wf(),
        record_id is Ok <==> old(store).bound() < u128::MAX,
        final(store).bound() == bound_after_insert(old(store).bound()),
        match record_id {
            Ok(id) => id == old(store).bound() && unused_id(old(store)@, id) && final(store)@
                == old(store)@.push(
                challenge_row(
                    id,
                    username@,
                    Some(label@),
                    DBUserCredentialTypes::WebauthnRegistration,
                    CredentialDataView::WebauthnState(state@),
                ),
            ),
            Err(e) => e == VerifyError::Internal && final(store)@ == old(store)@,
        },
{
    begin(
        store,
        username,
        Some(label.to_owned()),
        DBUserCredentialTypes::WebauthnRegistration,
        CredentialData::WebauthnState(state),
    )
}

/// Begins a WebAuthn authentication: stores the state of the ceremony as a
/// temporary row without a label, and returns the row's id.
pub fn begin_webauthn_authentication(store: &mut CredentialStore, username: &str, state: String) -> (
    record_id: Result<u128, VerifyError>)
    requires
        old(store).wf(),
    ensures
        final(store).wf(),
        record_id is Ok <==> old(store).bound() < u128::MAX,
        final(store).bound() == bound_after_insert(old(store).bound()),
        match record_id {
            Ok(id) => id == old(store).bound() && unused_id(old(store)@, id) && final(store)@
                == old(store)@.push(
                challenge_row(
                    id,
                    username@,
                    None,
                    DBUserCredentialTypes::WebauthnAuthentication,
                    CredentialDataView::WebauthnState(state@),
                ),
            ),
            Err(e) => e == VerifyError::Internal && final(store)@ == old(store)@,
        },
{
    begin(
        store,
        username,
        None,
        DBUserCredentialTypes::WebauthnAuthentication,
        CredentialData::WebauthnState(state),
    )
}

/// The identifier of a WebAuthn credential row (empty for a row of another
/// shape).
pub open spec fn credential_id_of(row: DBUserCredentialView) -> Seq<u8> {
    match row.credential_data {
        CredentialDataView::WebauthnCredential { cred_id, credential } => cred_id,
        _ => Seq::empty(),
    }
}

/// The stored text of a WebAuthn row: the state of a challenge or the
/// credential (empty for a TOTP row).
pub open spec fn webauthn_text_of(row: DBUserCredentialView) -> Seq<char> {
    match row.credential_data {
        CredentialDataView::WebauthnState(state) => state,
        CredentialDataView::WebauthnCredential { cred_id, credential } => credential,
        CredentialDataView::Totp { algorithm, secret } => Seq::empty(),
    }
}

/// The identifiers of the WebAuthn credentials that `username` has
/// registered, in the order of registration.
pub open spec fn registered_ids(rows: Seq<DBUserCredentialView>, username: Seq<char>) -> Seq<
    Seq<u8>,
> {
    rows.filter(owned_of_kind(username, DBUserCredentialTypes::WebauthnCredential)).map_values(
        |row: DBUserCredentialView| credential_id_of(row),
    )
}

/// The WebAuthn credentials that `username` has registered, each as the
/// WebAuthn implementation wrote it, in the order of registration.
pub open spec fn registered_credentials(rows: Seq<DBUserCredentialView>, username: Seq<char>) -> Seq<
    Seq<char>,
> {
    rows.filter(owned_of_kind(username, DBUserCredentialTypes::WebauthnCredential)).map_values(
        |row: DBUserCredentialView| webauthn_text_of(row),
    )
}

/// The byte sequences of a list of byte strings.
pub open spec fn byte_lists(items: Seq<Vec<u8>>) -> Seq<Seq<u8>> {
    items.map_values(|item: Vec<u8>| item@)
}

/// The identifiers of the WebAuthn credentials that `username` has
/// registered: a registration must not bring one of them again.
pub fn known_credential_ids(store: &CredentialStore, username: &str) -> (ids: Vec<Vec<u8>>)
    ensures
        byte_lists(ids@) == registered_ids(store@, username@),
{
    let rows = store.find_by_username(username, DBUserCredentialTypes::WebauthnCredential);
    let mut ids: Vec<Vec<u8>> = Vec::new();
    let mut i: usize = 0;
    while i < rows.len()
        invariant
            i <= rows.len(),
            ids.len() == i,
            forall|j: int| 0 <= j < i ==> ids@[j]@ == credential_id_of(rows@[j]@),
        decreases rows.len() - i,
    {
        let id = match &rows[i].credential_data {
            CredentialData::WebauthnCredential { cred_id, credential } => copy_bytes(cred_id),
            _ => Vec::new(),
        };
        ids.push(id);
        i = i + 1;
    }
    assert(byte_lists(ids@) =~= registered_ids(store@, username@));
    ids
}

/// The WebAuthn credentials that `username` has registered: an
/// authentication challenge is built from them.
pub fn known_credentials(store: &CredentialStore, username: &str) -> (credentials: Vec<String>)
    ensures
        crate::text::texts(credentials@) == registered_credentials(store@, username@),
{
    let rows = store.find_by_username(username, DBUserCredentialTypes::WebauthnCredential);
    let mut credentials: Vec<String> = Vec::new();
    let mut i: usize = 0;
    while i < rows.len()
        invariant
            i <= rows.len(),
            credentials.len() == i,
            forall|j: int| 0 <= j < i ==> credentials@[j]@ == webauthn_text_of(rows@[j]@),
        decreases rows.len() - i,
    {
        let text = match &rows[i].credential_data {
            CredentialData::WebauthnState(state) => state.clone(),
            CredentialData::WebauthnCredential { cred_id, credential } => credential.clone(),
            CredentialData::Totp(_) => String::new(),
        };
        credentials.push(text);
        i = i + 1;
    }
    assert(crate::text::texts(credentials@) =~= registered_credentials(store@, username@));
    credentials
}

/// Whether `cred_id` is among `ids`.
pub fn is_known_credential(ids: &Vec<Vec<u8>>, cred_id: &[u8]) -> (known: bool)
    ensures
        known == byte_lists(ids@).contains(cred_id@),
{
    let mut i: usize = 0;
    while i < ids.len()
        invariant
            i <= ids.len(),
            forall|j: int| 0 <= j < i ==> byte_lists(ids@)[j] != cred_id@,
        decreases ids.len() - i,
    {
        if same_bytes(ids[i].as_slice(), cred_id) {
            assert(byte_lists(ids@)[i as int] == cred_id@);
            return true;
        }
        i = i + 1;
    }
    false
}

/// Whether two byte strings are the same.
pub fn same_bytes(a: &[u8], b: &[u8]) -> (same: bool)
    ensures
        same == (a@ == b@),
{
    if a.len() != b.len() {
        return false;
    }
    let mut i: usize = 0;
    while i < a.len()
        invariant
            i <= a.len(),
            a.len() == b.len(),
            forall|j: int| 0 <= j < i ==> a@[j] == b@[j],
        decreases a.len() - i,
    {
        if a[i] != b[i] {
            return false;
        }
        i = i + 1;
    }
    assert(a@ =~= b@);
    true
}

/// What the WebAuthn implementation found of a registration response.
pub enum Attestation {
    /// The response proves possession of the credential with this
    /// identifier; `credential` is the credential as the implementation
    /// wrote it.
    Verified { cred_id: Vec<u8>, credential: String },
    /// The response proves nothing.
    Failed,
}

/// The state of the challenge with this id, of this user and of this kind,
/// as a read gives it.
pub open spec fn challenge_state(
    rows: Seq<DBUserCredentialView>,
    record_id: u128,
    username: Seq<char>,
    kind: DBUserCredentialTypes,
) -> Result<Seq<char>, VerifyError> {
    match read_row(rows, record_id, username, kind) {
        Ok(row) => Ok(webauthn_text_of(row)),
        Err(e) => Err(read_failure(e)),
    }
}

/// A text or a failure, with the text as its characters.
pub open spec fn text_view(text: Result<String, VerifyError>) -> Result<Seq<char>, VerifyError> {
    match text {
        Ok(t) => Ok(t@),
        Err(e) => Err(e),
    }
}

/// What `Attestation` holds, over sequences.
pub enum AttestationView {
    Verified { cred_id: Seq<u8>, credential: Seq<char> },
    Failed,
}

impl View for Attestation {
    type V = AttestationView;

    open spec fn view(&self) -> AttestationView {
        match self {
            Attestation::Verified { cred_id, credential } => AttestationView::Verified {
                cred_id: cred_id@,
                credential: credential@,
            },
            Attestation::Failed => AttestationView::Failed,
        }
    }
}

/// What finishing a registration returns: the challenge must be found by
/// id, user and kind, the response must have been verified, and the
/// credential must not be one that the user has already registered.
pub open spec fn registration_outcome(
    rows: Seq<DBUserCredentialView>,
    record_id: u128,
    username: Seq<char>,
    attestation: AttestationView,
) -> Result<(), VerifyError> {
    match read_row(rows, record_id, username, DBUserCredentialTypes::WebauthnRegistration) {
        Err(e) => Err(read_failure(e)),
        Ok(_) => match attestation {
            AttestationView::Failed => Err(VerifyError::Rejected),
            AttestationView::Verified { cred_id, credential } => if registered_ids(
                rows,
                username,
            ).contains(cred_id) {
                Err(VerifyError::Rejected)
            } else {
                Ok(())
            },
        },
    }
}

/// The rows after finishing a registration: on success the challenge row
/// has become the credential, and otherwise nothing has changed.
pub open spec fn registration_rows(
    rows: Seq<DBUserCredentialView>,
    record_id: u128,
    username: Seq<char>,
    attestation: AttestationView,
) -> Seq<DBUserCredentialView> {
    match attestation {
        AttestationView::Verified { cred_id, credential } => if registration_outcome(
            rows,
            record_id,
            username,
            attestation,
        ) is Ok {
            with_type_data(
                rows,
                record_id,
                DBUserCredentialTypes::WebauthnCredential,
                CredentialDataView::WebauthnCredential { cred_id, credential },
                false,
            )
        } else {
            rows
        },
        AttestationView::Failed => rows,
    }
}

/// Reads the state of a registration challenge, which the WebAuthn
/// implementation needs to verify the response.
pub fn webauthn_registration_state(store: &CredentialStore, record_id: u128, username: &str) -> (state:
    Result<String, VerifyError>)
    requires
        store.wf(),
    ensures
        text_view(state) == challenge_state(
            store@,
            record_id,
            username@,
            DBUserCredentialTypes::WebauthnRegistration,
        ),
{
    match store.find_by_id_and_username(
        record_id,
        username,
        DBUserCredentialTypes::WebauthnRegistration,
    ) {
        Err(e) => Err(report_read_failure(e)),
        Ok(row) => match row.credential_data {
            CredentialData::WebauthnState(state) => Ok(state),
            _ => Err(VerifyError::Internal),
        },
    }
}

/// Finishes the registration of a WebAuthn authenticator with what the
/// WebAuthn implementation found of the response. On success the challenge
/// row becomes the credential row; on any failure the table is left as it
/// was, so that the same challenge can be answered again.
pub fn finish_webauthn_registration(
    store: &mut CredentialStore,
    record_id: u128,
    username: &str,
    attestation: Attestation,
) -> (outcome: Result<(), VerifyError>)
    requires
        old(store).wf(),
    ensures
        final(store).wf(),
        final(store).bound() == old(store).bound(),
        outcome == registration_outcome(old(store)@, record_id, username@, attestation@),
        final(store)@ == registration_rows(old(store)@, record_id, username@, attestation@),
{
    match store.find_by_id_and_username(
        record_id,
        username,
        DBUserCredentialTypes::WebauthnRegistration,
    ) {
        Err(e) => Err(report_read_failure(e)),
        Ok(_) => match attestation {
            Attestation::Failed => Err(VerifyError::Rejected),
            Attestation::Verified { cred_id, credential } => {
                let known = known_credential_ids(store, username);
                if is_known_credential(&known, cred_id.as_slice()) {
                    Err(VerifyError::Rejected)
                } else {
                    store.replace_type_data(
                        record_id,
                        DBUserCredentialTypes::WebauthnCredential,
                        CredentialData::WebauthnCredential { cred_id, credential },
                        false,
                    );
                    Ok(())
                }
            },
        },
    }
}

/// The rows after an authentication challenge was answered: a challenge
/// that was found is gone, whatever the answer was worth.
pub open spec fn authentication_rows(
    rows: Seq<DBUserCredentialView>,
    record_id: u128,
    username: Seq<char>,
) -> Seq<DBUserCredentialView> {
    if read_row(rows, record_id, username, DBUserCredentialTypes::WebauthnAuthentication) is Ok {
        rows.filter(not_row_of(record_id, username))
    } else {
        rows
    }
}

/// Takes an authentication challenge out of the table and returns its
/// state. The challenge is gone before anything is verified against it.
pub fn take_webauthn_authentication(store: &mut CredentialStore, record_id: u128, username: &str) -> (
    state: Result<String, VerifyError>)
    requires
        old(store).wf(),
    ensures
        final(store).wf(),
        final(store).bound() == old(store).bound(),
        final(store)@ == authentication_rows(old(store)@, record_id, username@),
        text_view(state) == challenge_state(
            old(store)@,
            record_id,
            username@,
            DBUserCredentialTypes::WebauthnAuthentication,
        ),
{
    match store.find_by_id_and_username(
        record_id,
        username,
        DBUserCredentialTypes::WebauthnAuthentication,
    ) {
        Err(e) => Err(report_read_failure(e)),
        Ok(row) => {
            store.remove(record_id, username);
            match row.credential_data {
                CredentialData::WebauthnState(state) => Ok(state),
                _ => {
                    assert(false);
                    Err(VerifyError::Internal)
                },
            }
        },
    }
}

/// Whether `verify`, asked about a challenge state with the text `state`,
/// may have answered `accepted`.
pub open spec fn answered<F: FnOnce(&str) -> bool>(verify: F, state: Seq<char>, accepted: bool) -> bool {
    exists|asked: &str| asked@ == state && #[trigger] verify.ensures((asked,), accepted)
}

/// Answers an authentication challenge. The challenge is looked up by id,
/// user and kind and removed; only then is `verify` asked whether the
/// response proves possession against the challenge's state. A second answer
/// to the same challenge finds nothing.
pub fn finish_webauthn_authentication<F: FnOnce(&str) -> bool>(
    store: &mut CredentialStore,
    record_id: u128,
    username: &str,
    verify: F,
) -> (outcome: Result<(), VerifyError>)
    requires
        old(store).wf(),
        forall|state: &str| verify.requires((state,)),
    ensures
        final(store).wf(),
        final(store).bound() == old(store).bound(),
        final(store)@ == authentication_rows(old(store)@, record_id, username@),
        match read_row(
            old(store)@,
            record_id,
            username@,
            DBUserCredentialTypes::WebauthnAuthentication,
        ) {
            Err(e) => outcome == Err::<(), _>(read_failure(e)),
            Ok(row) => {
                &&& outcome is Ok || outcome == Err::<(), _>(VerifyError::Rejected)
                &&& outcome is Ok ==> answered(verify, webauthn_text_of(row), true)
                &&& outcome is Err ==> answered(verify, webauthn_text_of(row), false)
            },
        },
{
    match take_webauthn_authentication(store, record_id, username) {
        Err(e) => Err(e),
        Ok(state) => {
            let text = state.as_str();
            let accepted = verify(text);
            proof {
                let row = the_row(
                    old(store)@,
                    record_id,
                    username@,
                    DBUserCredentialTypes::WebauthnAuthentication,
                );
                assert(text@ == webauthn_text_of(row));
                assert(verify.ensures((text,), accepted));
                assert(answered(verify, webauthn_text_of(row), accepted));
            }
            if accepted {
                Ok(())
            } else {
                Err(VerifyError::Rejected)
            }
        },
    }
}

/// What `begin_totp` hands back: the secret in base32, the picture of the QR
/// code that enrolls it, and the id of the pending row.
pub struct TotpEnrollment {
    pub secret: String,
    pub qr: String,
    pub record_id: u128,
}

/// The data of a TOTP row with a fresh secret.
pub open spec fn fresh_totp_data(secret: Seq<u8>) -> CredentialDataView {
    CredentialDataView::Totp { algorithm: TOTP_ALGORITHM, secret: base32_text(secret) }
}

/// What `TotpEnrollment` holds, over sequences.
pub struct TotpEnrollmentView {
    pub secret: Seq<char>,
    pub qr: Seq<char>,
    pub record_id: u128,
}

impl View for TotpEnrollment {
    type V = TotpEnrollmentView;

    open spec fn view(&self) -> TotpEnrollmentView {
        TotpEnrollmentView { secret: self.secret@, qr: self.qr@, record_id: self.record_id }
    }
}

/// An enrollment or a failure, with the enrollment as its view.
pub open spec fn enrollment_view(enrollment: Result<TotpEnrollment, VerifyError>) -> Result<
    TotpEnrollmentView,
    VerifyError,
> {
    match enrollment {
        Ok(e) => Ok(e@),
        Err(e) => Err(e),
    }
}

/// Whether an enrollment of `secret` for `username` under `issuer` can be
/// begun: six digits, this secret, this issuer and this user name must be
/// valid parameters.
pub open spec fn totp_can_begin(secret: Seq<u8>, issuer: Seq<char>, username: Seq<char>) -> bool {
    totp_parameters_valid(TOTP_DIGITS, secret, issuer, username)
}

/// Whether beginning an enrollment stores the pending row: the enrollment
/// can be begun, and a table whose bound is `bound` can take a row.
pub open spec fn totp_row_is_stored(
    bound: u128,
    secret: Seq<u8>,
    issuer: Seq<char>,
    username: Seq<char>,
) -> bool {
    totp_can_begin(secret, issuer, username) && bound < u128::MAX
}

/// The rows after an enrollment of `secret` was begun: the pending row is
/// added where it is stored, under the id `bound`.
pub open spec fn totp_begun_rows(
    rows: Seq<DBUserCredentialView>,
    bound: u128,
    secret: Seq<u8>,
    username: Seq<char>,
    label: Seq<char>,
    issuer: Seq<char>,
) -> Seq<DBUserCredentialView> {
    if totp_row_is_stored(bound, secret, issuer, username) {
        rows.push(
            challenge_row(
                bound,
                username,
                Some(label),
                DBUserCredentialTypes::TotpPending,
                fresh_totp_data(secret),
            ),
        )
    } else {
        rows
    }
}

/// The table's bound after an enrollment of `secret` was begun.
pub open spec fn totp_begun_bound(
    bound: u128,
    secret: Seq<u8>,
    issuer: Seq<char>,
    username: Seq<char>,
) -> int {
    if totp_row_is_stored(bound, secret, issuer, username) {
        bound + 1
    } else {
        bound as int
    }
}

/// What beginning an enrollment of `secret` hands back: where the pending
/// row is stored and the QR code can be drawn, the secret in base32, the QR
/// code and the row's id; otherwise a failure.
pub open spec fn totp_enrollment(
    bound: u128,
    secret: Seq<u8>,
    issuer: Seq<char>,
    username: Seq<char>,
) -> Result<TotpEnrollmentView, VerifyError> {
    if totp_row_is_stored(bound, secret, issuer, username) {
        match qr_picture(TOTP_ALGORITHM, TOTP_DIGITS, TOTP_STEP, secret, issuer, username) {
            Some(qr) => Ok(
                TotpEnrollmentView { secret: base32_text(secret), qr, record_id: bound },
            ),
            None => Err(VerifyError::Internal),
        }
    } else {
        Err(VerifyError::Internal)
    }
}

/// Begins a TOTP enrollment with the given secret. Invalid parameters are
/// refused before anything is stored. Otherwise the secret is stored as a
/// pending, temporary row, and the QR code is drawn; where it cannot be
/// drawn the row stays and the enrollment fails.
pub fn begin_totp_with_secret(
    store: &mut CredentialStore,
    username: &str,
    label: &str,
    issuer: &str,
    secret: Vec<u8>,
) -> (enrollment: Result<TotpEnrollment, VerifyError>)
    requires
        old(store).wf(),
    ensures
        final(store).wf(),
        final(store)@ == totp_begun_rows(
            old(store)@,
            old(store).bound(),
            secret@,
            username@,
            label@,
            issuer@,
        ),
        final(store).bound() == totp_begun_bound(old(store).bound(), secret@, issuer@, username@),
        enrollment_view(enrollment) == totp_enrollment(
            old(store).bound(),
            secret@,
            issuer@,
            username@,
        ),
{
    if secret.len() < 16 || crate::text::has_char(issuer, ':') || crate::text::has_char(
        username,
        ':',
    ) {
        return Err(VerifyError::Internal);
    }
    let encoded = crate::totp::encode_secret(secret.as_slice());
    let data = CredentialData::Totp(
        DBTotpCredential { algorithm: TOTP_ALGORITHM, secret: encoded.clone() },
    );
    let record_id = match begin(
        store,
        username,
        Some(label.to_owned()),
        DBUserCredentialTypes::TotpPending,
        data,
    ) {
        Ok(id) => id,
        Err(e) => {
            return Err(e);
        },
    };
    match crate::totp::draw_qr(
        TOTP_ALGORITHM,
        TOTP_DIGITS,
        TOTP_SKEW,
        TOTP_STEP,
        secret,
        issuer.to_owned(),
        username.to_owned(),
    ) {
        Ok(qr) => Ok(TotpEnrollment { secret: encoded, qr, record_id }),
        Err(_) => Err(VerifyError::Internal),
    }
}

/// Begins a TOTP enrollment for `username`: draws a random secret of 20
/// bytes and begins the enrollment with it, as `begin_totp_with_secret`
/// does. A colon in the issuer or in the user name, and a full table, are
/// refused before anything is stored. Otherwise the pending, temporary row is
/// stored with the given label, whatever secret was drawn, and the enrollment
/// succeeds exactly when the QR code of that secret can be drawn.
pub fn begin_totp(store: &mut CredentialStore, username: &str, label: &str, issuer: &str) -> (enrollment:
    Result<TotpEnrollment, VerifyError>)
    requires
        old(store).wf(),
    ensures
        final(store).wf(),
        exists|secret: Seq<u8>|
            {
                &&& secret.len() == TOTP_SECRET_LEN
                &&& final(store)@ == #[trigger] totp_begun_rows(
                    old(store)@,
                    old(store).bound(),
                    secret,
                    username@,
                    label@,
                    issuer@,
                )
                &&& final(store).bound() == totp_begun_bound(
                    old(store).bound(),
                    secret,
                    issuer@,
                    username@,
                )
                &&& enrollment_view(enrollment) == totp_enrollment(
                    old(store).bound(),
                    secret,
                    issuer@,
                    username@,
                )
            },
        issuer@.contains(':') || username@.contains(':') || old(store).bound() == u128::MAX ==> {
            &&& enrollment == Err::<TotpEnrollment, _>(VerifyError::Internal)
            &&& final(store)@ == old(store)@
            &&& final(store).bound() == old(store).bound()
        },
        !issuer@.contains(':') && !username@.contains(':') && old(store).bound() < u128::MAX ==> {
            &&& final(store).bound() == old(store).bound() + 1
            &&& final(store)@.len() == old(store)@.len() + 1
            &&& final(store)@.drop_last() == old(store)@
            &&& final(store)@.last().is_row(
                old(store).bound(),
                username@,
                DBUserCredentialTypes::TotpPending,
            )
            &&& final(store)@.last().label == Some(label@)
            &&& final(store)@.last().temporary
        },
{
    let secret = crate::totp::generate_secret();
    let ghost drawn = secret@;
    let enrollment = begin_totp_with_secret(store, username, label, issuer, secret);
    proof {
        assert(drawn.len() == TOTP_SECRET_LEN);
        assert(store@ == totp_begun_rows(
            old(store)@,
            old(store).bound(),
            drawn,
            username@,
            label@,
            issuer@,
        ));
        if totp_row_is_stored(old(store).bound(), drawn, issuer@, username@) {
            assert(store@.drop_last() =~= old(store)@);
        }
    }
    enrollment
}

/// What settling a TOTP confirmation returns: the pending secret must be
/// found by id, user and kind, and the code must have matched.
pub open spec fn totp_outcome(
    rows: Seq<DBUserCredentialView>,
    record_id: u128,
    username: Seq<char>,
    checked: Result<bool, TotpFailure>,
) -> Result<(), VerifyError> {
    match read_row(rows, record_id, username, DBUserCredentialTypes::TotpPending) {
        Err(e) => Err(read_failure(e)),
        Ok(_) => match checked {
            Ok(matched) => if matched {
                Ok(())
            } else {
                Err(VerifyError::Rejected)
            },
            Err(_) => Err(VerifyError::Internal),
        },
    }
}

/// The rows after a pending TOTP secret was confirmed: the row has become a
/// durable credential and keeps its secret.
pub open spec fn totp_confirmed_rows(
    rows: Seq<DBUserCredentialView>,
    record_id: u128,
    username: Seq<char>,
) -> Seq<DBUserCredentialView> {
    with_type_data(
        rows,
        record_id,
        DBUserCredentialTypes::TotpCredential,
        the_row(rows, record_id, username, DBUserCredentialTypes::TotpPending).credential_data,
        false,
    )
}

/// Settles the confirmation of a pending TOTP secret with what the check of
/// the code gave. A matching code makes the row a durable credential; a
/// wrong code, or a check that failed, leaves the row as it was, secret
/// included, so that the user may try again.
pub fn settle_totp(
    store: &mut CredentialStore,
    record_id: u128,
    username: &str,
    checked: Result<bool, TotpFailure>,
) -> (outcome: Result<(), VerifyError>)
    requires
        old(store).wf(),
    ensures
        final(store).wf(),
        final(store).bound() == old(store).bound(),
        outcome == totp_outcome(old(store)@, record_id, username@, checked),
        final(store)@ == (if outcome is Ok {
            totp_confirmed_rows(old(store)@, record_id, username@)
        } else {
            old(store)@
        }),
{
    match store.find_by_id_and_username(record_id, username, DBUserCredentialTypes::TotpPending) {
        Err(e) => Err(report_read_failure(e)),
        Ok(row) => match checked {
            Ok(true) => {
                store.replace_type_data(
                    record_id,
                    DBUserCredentialTypes::TotpCredential,
                    row.credential_data,
                    false,
                );
                Ok(())
            },
            Ok(false) => Err(VerifyError::Rejected),
            Err(_) => Err(VerifyError::Internal),
        },
    }
}

/// Puts together what the check of a code reads: the algorithm and the
/// decoded secret of the row, six digits, a skew of one step of 30 seconds,
/// the issuer, the user name as the account name, and the code. There is
/// nothing to check where the row holds no TOTP secret or its secret is no
/// base32.
pub fn totp_check_for(row: &DBUserCredential, issuer: &str, username: &str, code: &str) -> (check:
    Option<TotpCheck>)
    ensures
        match row@.credential_data {
            CredentialDataView::Totp { algorithm, secret } => match check {
                Some(c) => {
                    &&& base32_secret(secret) == Some(c.secret@)
                    &&& c.algorithm == algorithm
                    &&& c.digits == TOTP_DIGITS
                    &&& c.skew == TOTP_SKEW
                    &&& c.step == TOTP_STEP
                    &&& c.issuer@ == issuer@
                    &&& c.account_name@ == username@
                    &&& c.code@ == code@
                },
                None => base32_secret(secret) is None,
            },
            _ => check is None,
        },
{
    match &row.credential_data {
        CredentialData::Totp(totp) => match crate::totp::decode_secret(totp.secret.as_str()) {
            Some(secret) => Some(
                TotpCheck {
                    algorithm: totp.algorithm,
                    digits: TOTP_DIGITS,
                    skew: TOTP_SKEW,
                    step: TOTP_STEP,
                    secret,
                    issuer: issuer.to_owned(),
                    account_name: username.to_owned(),
                    code: code.to_owned(),
                },
            ),
            None => None,
        },
        _ => None,
    }
}

/// Confirms a pending TOTP secret with a code from the user's authenticator
/// app. The pending row is looked up by id, user and kind; what
/// `totp_check_for` puts together of it is checked against the clock, and
/// `settle_totp` settles the confirmation with what the check gave. On a
/// match the row becomes a durable credential; otherwise it is left as it
/// was.
pub fn confirm_totp(
    store: &mut CredentialStore,
    record_id: u128,
    username: &str,
    issuer: &str,
    code: &str,
) -> (outcome: Result<(), VerifyError>)
    requires
        old(store).wf(),
    ensures
        final(store).wf(),
        final(store).bound() == old(store).bound(),
        final(store)@ == (if outcome is Ok {
            totp_confirmed_rows(old(store)@, record_id, username@)
        } else {
            old(store)@
        }),
        match read_row(old(store)@, record_id, username@, DBUserCredentialTypes::TotpPending) {
            Err(e) => outcome == Err::<(), _>(read_failure(e)),
            Ok(row) => {
                &&& outcome != Err::<(), _>(VerifyError::NotFound)
                &&& row.credential_data matches CredentialDataView::Totp { algorithm, secret }
                &&& match base32_secret(secret) {
                    None => outcome == Err::<(), _>(VerifyError::Internal),
                    Some(bytes) => !totp_parameters_valid(TOTP_DIGITS, bytes, issuer@, username@)
                        ==> outcome == Err::<(), _>(VerifyError::Internal),
                }
            },
        },
{
    let row = match store.find_by_id_and_username(
        record_id,
        username,
        DBUserCredentialTypes::TotpPending,
    ) {
        Err(e) => {
            return Err(report_read_failure(e));
        },
        Ok(row) => row,
    };
    let check = match totp_check_for(&row, issuer, username, code) {
        None => {
            return Err(VerifyError::Internal);
        },
        Some(check) => check,
    };
    let checked = crate::totp::check_current(check);
    settle_totp(store, record_id, username, checked)
}

/// A wrong code leaves a pending TOTP secret as it was, and a matching code
/// afterwards still confirms it: the row is then durable and holds the
/// secret it was begun with.
pub proof fn lemma_totp_retry(
    rows: Seq<DBUserCredentialView>,
    record_id: u128,
    username: Seq<char>,
)
    requires
        keyed(rows),
        read_row(rows, record_id, username, DBUserCredentialTypes::TotpPending) is Ok,
    ensures
        totp_outcome(rows, record_id, username, Ok(false)) == Err::<(), _>(VerifyError::Rejected),
        totp_outcome(rows, record_id, username, Ok(true)) == Ok::<_, VerifyError>(()),
        has_row(
            totp_confirmed_rows(rows, record_id, username),
            record_id,
            username,
            DBUserCredentialTypes::TotpCredential,
        ),
        ({
            let confirmed = the_row(
                totp_confirmed_rows(rows, record_id, username),
                record_id,
                username,
                DBUserCredentialTypes::TotpCredential,
            );
            let pending = the_row(rows, record_id, username, DBUserCredentialTypes::TotpPending);
            &&& !confirmed.temporary
            &&& confirmed.credential_data == pending.credential_data
            &&& confirmed.wf()
        }),
{
    let pending = the_row(rows, record_id, username, DBUserCredentialTypes::TotpPending);
    let after = totp_confirmed_rows(rows, record_id, username);
    let at = choose|i: int|
        0 <= i < rows.len() && (#[trigger] rows[i]).is_row(
            record_id,
            username,
            DBUserCredentialTypes::TotpPending,
        );
    assert(after[at].is_row(record_id, username, DBUserCredentialTypes::TotpCredential));
    let found = choose|i: int|
        0 <= i < after.len() && (#[trigger] after[i]).is_row(
            record_id,
            username,
            DBUserCredentialTypes::TotpCredential,
        );
    assert(after[found].id == Some(record_id));
    assert(rows[found].id == Some(record_id));
    assert(found == at);
}

/// A row in a list of credentials: its id and its label (empty where it has
/// none).
pub open spec fn listing_of(row: DBUserCredentialView) -> (u128, Seq<char>) {
    (
        match row.id {
            Some(id) => id,
            None => 0,
        },
        match row.label {
            Some(label) => label,
            None => Seq::empty(),
        },
    )
}

/// The views of a list of listings.
pub open spec fn listing_views(items: Seq<(u128, String)>) -> Seq<(u128, Seq<char>)> {
    items.map_values(|item: (u128, String)| (item.0, item.1@))
}

/// The durable credentials of a user, for display: id and label of each.
pub struct SecurityHomeContext {
    pub webauthn_credentials: Vec<(u128, String)>,
    pub totp_credentials: Vec<(u128, String)>,
}

/// Lists id and label of the rows of `username` of one kind.
pub fn list_credentials(store: &CredentialStore, username: &str, kind: DBUserCredentialTypes) -> (items:
    Vec<(u128, String)>)
    ensures
        listing_views(items@) == store@.filter(owned_of_kind(username@, kind)).map_values(
            |row: DBUserCredentialView| listing_of(row),
        ),
{
    let rows = store.find_by_username(username, kind);
    let mut items: Vec<(u128, String)> = Vec::new();
    let mut i: usize = 0;
    while i < rows.len()
        invariant
            i <= rows.len(),
            items.len() == i,
            forall|j: int| 0 <= j < i ==> (items@[j].0, items@[j].1@) == listing_of(rows@[j]@),
        decreases rows.len() - i,
    {
        let id = match rows[i].id {
            Some(id) => id,
            None => 0,
        };
        let label = match &rows[i].label {
            Some(label) => label.clone(),
            None => String::new(),
        };
        items.push((id, label));
        i = i + 1;
    }
    assert(listing_views(items@) =~= store@.filter(owned_of_kind(username@, kind)).map_values(
        |row: DBUserCredentialView| listing_of(row),
    ));
    items
}

/// Lists the durable credentials of `username`: the registered WebAuthn
/// credentials and the confirmed TOTP secrets.
pub fn security_overview(store: &CredentialStore, username: &str) -> (context: SecurityHomeContext)
    ensures
        listing_views(context.webauthn_credentials@) == store@.filter(
            owned_of_kind(username@, DBUserCredentialTypes::WebauthnCredential),
        ).map_values(|row: DBUserCredentialView| listing_of(row)),
        listing_views(context.totp_credentials@) == store@.filter(
            owned_of_kind(username@, DBUserCredentialTypes::TotpCredential),
        ).map_values(|row: DBUserCredentialView| listing_of(row)),
{
    SecurityHomeContext {
        webauthn_credentials: list_credentials(
            store,
            username,
            DBUserCredentialTypes::WebauthnCredential,
        ),
        totp_credentials: list_credentials(store, username, DBUserCredentialTypes::TotpCredential),
    }
}

/// Whether a row is left as it was or has moved forward: from a challenge
/// to the credential that it proves, which is no longer temporary. Id, owner
/// and label stay.
pub open spec fn kept_or_promoted(before: DBUserCredentialView, after: DBUserCredentialView) -> bool {
    after == before || {
        &&& before.credential_type.promotes_to(after.credential_type)
        &&& before.temporary
        &&& !after.temporary
        &&& after.id == before.id
        &&& after.username == before.username
        &&& after.label == before.label
    }
}

/// Finishing a registration and settling a TOTP confirmation never move a
/// row backward: every row is left as it was, or has moved from a challenge
/// to the credential it proves. No row is added or removed, and a row that
/// moved is well formed.
pub proof fn lemma_rows_only_move_forward(
    rows: Seq<DBUserCredentialView>,
    record_id: u128,
    username: Seq<char>,
    attestation: AttestationView,
    checked: Result<bool, TotpFailure>,
)
    requires
        keyed(rows),
    ensures
        registration_rows(rows, record_id, username, attestation).len() == rows.len(),
        forall|i: int|
            0 <= i < rows.len() ==> kept_or_promoted(
                rows[i],
                #[trigger] registration_rows(rows, record_id, username, attestation)[i],
            ) && (rows[i].wf() ==> registration_rows(rows, record_id, username, attestation)[i].wf()),
        totp_outcome(rows, record_id, username, checked) is Ok ==> totp_confirmed_rows(
            rows,
            record_id,
            username,
        ).len() == rows.len() && forall|i: int|
            0 <= i < rows.len() ==> kept_or_promoted(
                rows[i],
                #[trigger] totp_confirmed_rows(rows, record_id, username)[i],
            ) && (rows[i].wf() ==> totp_confirmed_rows(rows, record_id, username)[i].wf()),
{
    let registered = registration_rows(rows, record_id, username, attestation);
    if registration_outcome(rows, record_id, username, attestation) is Ok {
        let found = the_row(rows, record_id, username, DBUserCredentialTypes::WebauthnRegistration);
        assert forall|i: int| 0 <= i < rows.len() implies kept_or_promoted(
            rows[i],
            #[trigger] registered[i],
        ) && (rows[i].wf() ==> registered[i].wf()) by {
            if rows[i].id == Some(record_id) {
                assert(rows[i].id == found.id);
                assert(rows[i] == found);
            }
        }
    }
    if totp_outcome(rows, record_id, username, checked) is Ok {
        let confirmed = totp_confirmed_rows(rows, record_id, username);
        let found = the_row(rows, record_id, username, DBUserCredentialTypes::TotpPending);
        assert forall|i: int| 0 <= i < rows.len() implies kept_or_promoted(
            rows[i],
            #[trigger] confirmed[i],
        ) && (rows[i].wf() ==> confirmed[i].wf()) by {
            if rows[i].id == Some(record_id) {
                assert(rows[i].id == found.id);
                assert(rows[i] == found);
            }
        }
    }
}

/// Answering an authentication challenge removes nothing but that
/// challenge: every durable credential, and every row of another id, stays.
pub proof fn lemma_answer_removes_only_the_challenge(
    rows: Seq<DBUserCredentialView>,
    record_id: u128,
    username: Seq<char>,
    i: int,
)
    requires
        keyed(rows),
        0 <= i < rows.len(),
        !rows[i].credential_type.is_ephemeral() || rows[i].id != Some(record_id),
    ensures
        authentication_rows(rows, record_id, username).contains(rows[i]),
{
    let keep = not_row_of(record_id, username);
    if read_row(rows, record_id, username, DBUserCredentialTypes::WebauthnAuthentication) is Ok {
        let found = the_row(rows, record_id, username, DBUserCredentialTypes::WebauthnAuthentication);
        if rows[i].id == Some(record_id) {
            assert(rows[i].id == found.id);
            assert(rows[i] == found);
        }
        assert(keep(rows[i]));
        rows.lemma_filter_contains(keep, i);
    }
}

/// A challenge that was answered is gone: a second answer with the same id
/// fails because nothing is found, not because it is verified and rejected.
pub proof fn lemma_answered_challenge_is_gone(
    rows: Seq<DBUserCredentialView>,
    record_id: u128,
    username: Seq<char>,
)
    requires
        read_row(rows, record_id, username, DBUserCredentialTypes::WebauthnAuthentication) is Ok,
    ensures
        read_row(
            authentication_rows(rows, record_id, username),
            record_id,
            username,
            DBUserCredentialTypes::WebauthnAuthentication,
        ) == Err::<DBUserCredentialView, _>(StorageError::RowNotFound),
        authentication_rows(authentication_rows(rows, record_id, username), record_id, username)
            == authentication_rows(rows, record_id, username),
{
    let keep = not_row_of(record_id, username);
    let left = rows.filter(keep);
    assert forall|i: int| 0 <= i < left.len() implies !(#[trigger] left[i]).is_row(
        record_id,
        username,
        DBUserCredentialTypes::WebauthnAuthentication,
    ) by {
        rows.lemma_filter_pred(keep, i);
    }
}

} // verus!
