//! Credential records: short-lived challenges and durable second-factor
//! credentials, kept as rows of one table.
//!
//! A row is a challenge while it is temporary and a credential once it is
//! not. Its `credential_type` says which of the two it is and what its data
//! must look like; every read checks that the three agree.

use vstd::prelude::*;
use vstd::string::*;
use crate::text::same_text;

verus! {

/// The kind of a credential row.
#[derive(Clone, Copy, Debug, PartialEq, Eq, Structural)]
pub enum DBUserCredentialTypes {
    /// A pending WebAuthn authentication challenge.
    WebauthnAuthentication,
    /// A pending WebAuthn registration challenge.
    WebauthnRegistration,
    /// A registered WebAuthn credential.
    WebauthnCredential,
    /// A TOTP secret that was handed out and not yet confirmed.
    TotpPending,
    /// A confirmed TOTP secret.
    TotpCredential,
}

impl DBUserCredentialTypes {
    /// Whether rows of this kind are challenges, gone after one use, and not
    /// durable credentials.
    pub open spec fn is_ephemeral(self) -> bool {
        self == DBUserCredentialTypes::WebauthnAuthentication || self
            == DBUserCredentialTypes::WebauthnRegistration || self
            == DBUserCredentialTypes::TotpPending
    }

    /// The only step a row may take: from a challenge to the credential
    /// that it proves. Nothing leads back.
    pub open spec fn promotes_to(self, next: DBUserCredentialTypes) -> bool {
        (self == DBUserCredentialTypes::WebauthnRegistration && next
            == DBUserCredentialTypes::WebauthnCredential) || (self
            == DBUserCredentialTypes::TotpPending && next == DBUserCredentialTypes::TotpCredential)
    }
}

/// The hash that a TOTP secret is used with.
#[derive(Clone, Copy, Debug, PartialEq, Eq, Structural)]
pub enum TotpAlgorithm {
    SHA1,
    SHA256,
    SHA512,
}

/// What a TOTP row holds: the algorithm and the base32 text of the secret.
pub struct DBTotpCredential {
    pub algorithm: TotpAlgorithm,
    pub secret: String,
}

/// The data of a credential row.
pub enum CredentialData {
    /// The state of a WebAuthn ceremony in progress, as the WebAuthn
    /// implementation wrote it.
    WebauthnState(String),
    /// A registered WebAuthn credential: its identifier, and the whole
    /// credential as the WebAuthn implementation wrote it.
    WebauthnCredential { cred_id: Vec<u8>, credential: String },
    /// A TOTP secret.
    Totp(DBTotpCredential),
}

/// A credential row. `id` is `None` until the row is stored.
pub struct DBUserCredential {
    pub id: Option<u128>,
    pub username: String,
    pub label: Option<String>,
    pub credential_type: DBUserCredentialTypes,
    pub credential_data: CredentialData,
    pub temporary: bool,
}

/// What `CredentialData` holds, over sequences.
pub enum CredentialDataView {
    WebauthnState(Seq<char>),
    WebauthnCredential { cred_id: Seq<u8>, credential: Seq<char> },
    Totp { algorithm: TotpAlgorithm, secret: Seq<char> },
}

/// What a credential row holds, over sequences.
pub struct DBUserCredentialView {
    pub id: Option<u128>,
    pub username: Seq<char>,
    pub label: Option<Seq<char>>,
    pub credential_type: DBUserCredentialTypes,
    pub credential_data: CredentialDataView,
    pub temporary: bool,
}

impl View for CredentialData {
    type V = CredentialDataView;

    open spec fn view(&self) -> CredentialDataView {
        match self {
            CredentialData::WebauthnState(state) => CredentialDataView::WebauthnState(state@),
            CredentialData::WebauthnCredential { cred_id, credential } => {
                CredentialDataView::WebauthnCredential { cred_id: cred_id@, credential: credential@ }
            },
            CredentialData::Totp(totp) => CredentialDataView::Totp {
                algorithm: totp.algorithm,
                secret: totp.secret@,
            },
        }
    }
}

impl View for DBUserCredential {
    type V = DBUserCredentialView;

    open spec fn view(&self) -> DBUserCredentialView {
        DBUserCredentialView {
            id: self.id,
            username: self.username@,
            label: match self.label {
                Some(l) => Some(l@),
                None => None,
            },
            credential_type: self.credential_type,
            credential_data: self.credential_data@,
            temporary: self.temporary,
        }
    }
}

impl DBUserCredentialView {
    /// The row's kind, its data and its `temporary` flag agree: a challenge
    /// is temporary and a credential is not, WebAuthn challenges hold a
    /// ceremony state, a WebAuthn credential holds a credential, and both
    /// TOTP kinds hold a secret.
    pub open spec fn wf(self) -> bool {
        &&& self.temporary == self.credential_type.is_ephemeral()
        &&& match self.credential_type {
            DBUserCredentialTypes::WebauthnAuthentication
            | DBUserCredentialTypes::WebauthnRegistration => self.credential_data is WebauthnState,
            DBUserCredentialTypes::WebauthnCredential => self.credential_data is WebauthnCredential,
            DBUserCredentialTypes::TotpPending
            | DBUserCredentialTypes::TotpCredential => self.credential_data is Totp,
        }
    }

    /// Whether the row is the one with this id, of this user and of this
    /// kind.
    pub open spec fn is_row(self, id: u128, username: Seq<char>, kind: DBUserCredentialTypes)
        -> bool {
        self.id == Some(id) && self.username == username && self.credential_type == kind
    }
}

/// Why a read of the table gave no row.
#[derive(Clone, Copy, Debug, PartialEq, Eq, Structural)]
pub enum StorageError {
    /// No row matches.
    RowNotFound,
    /// A row matches, but its kind, data and `temporary` flag do not agree.
    Malformed,
    /// The table can take no further row.
    Exhausted,
}

/// Whether the rows hold one with this id, of this user and of this kind.
pub open spec fn has_row(
    rows: Seq<DBUserCredentialView>,
    id: u128,
    username: Seq<char>,
    kind: DBUserCredentialTypes,
) -> bool {
    exists|i: int| 0 <= i < rows.len() && (#[trigger] rows[i]).is_row(id, username, kind)
}

/// The row with this id, of this user and of this kind.
pub open spec fn the_row(
    rows: Seq<DBUserCredentialView>,
    id: u128,
    username: Seq<char>,
    kind: DBUserCredentialTypes,
) -> DBUserCredentialView {
    rows[choose|i: int| 0 <= i < rows.len() && (#[trigger] rows[i]).is_row(id, username, kind)]
}

/// What a read by id, user and kind gives.
pub open spec fn read_row(
    rows: Seq<DBUserCredentialView>,
    id: u128,
    username: Seq<char>,
    kind: DBUserCredentialTypes,
) -> Result<DBUserCredentialView, StorageError> {
    if !has_row(rows, id, username, kind) {
        Err(StorageError::RowNotFound)
    } else if !the_row(rows, id, username, kind).wf() {
        Err(StorageError::Malformed)
    } else {
        Ok(the_row(rows, id, username, kind))
    }
}

/// What a read gave, with the row as its view.
pub open spec fn read_view(row: Result<DBUserCredential, StorageError>) -> Result<
    DBUserCredentialView,
    StorageError,
> {
    match row {
        Ok(r) => Ok(r@),
        Err(e) => Err(e),
    }
}

/// The bound of a table after one more row was offered to it: one more
/// where the table could take the row, and the same where it was full.
pub open spec fn bound_after_insert(bound: u128) -> int {
    if bound < u128::MAX {
        bound + 1
    } else {
        bound as int
    }
}

/// The test that a row belongs to `username` and is of kind `kind`.
pub open spec fn owned_of_kind(username: Seq<char>, kind: DBUserCredentialTypes) -> spec_fn(
    DBUserCredentialView,
) -> bool {
    |row: DBUserCredentialView| row.username == username && row.credential_type == kind
}

/// The test that a row is not the one with this id and of this user.
pub open spec fn not_row_of(id: u128, username: Seq<char>) -> spec_fn(DBUserCredentialView) -> bool {
    |row: DBUserCredentialView| !(row.id == Some(id) && row.username == username)
}

/// The rows after kind, data and `temporary` flag of the row with the id
/// `id` were replaced.
pub open spec fn with_type_data(
    rows: Seq<DBUserCredentialView>,
    id: u128,
    credential_type: DBUserCredentialTypes,
    credential_data: CredentialDataView,
    temporary: bool,
) -> Seq<DBUserCredentialView> {
    rows.map_values(
        |row: DBUserCredentialView|
            if row.id == Some(id) {
                DBUserCredentialView { credential_type, credential_data, temporary, ..row }
            } else {
                row
            },
    )
}

/// The rows after the `temporary` flag of the row with the id `id` was set.
pub open spec fn with_temporary(rows: Seq<DBUserCredentialView>, id: u128, new_state: bool) -> Seq<
    DBUserCredentialView,
> {
    rows.map_values(
        |row: DBUserCredentialView|
            if row.id == Some(id) {
                DBUserCredentialView { temporary: new_state, ..row }
            } else {
                row
            },
    )
}

/// Whether the row belongs to `username`, is not temporary and is of kind
/// `kind`.
pub open spec fn is_permanent(
    row: DBUserCredentialView,
    username: Seq<char>,
    kind: DBUserCredentialTypes,
) -> bool {
    row.username == username && !row.temporary && row.credential_type == kind
}

/// Whether `username` has a row of kind `kind` that is not temporary.
pub open spec fn has_permanent(
    rows: Seq<DBUserCredentialView>,
    username: Seq<char>,
    kind: DBUserCredentialTypes,
) -> bool {
    exists|i: int| 0 <= i < rows.len() && is_permanent(#[trigger] rows[i], username, kind)
}

/// No two rows share an id, and every row has one.
pub open spec fn keyed(rows: Seq<DBUserCredentialView>) -> bool {
    &&& forall|i: int| 0 <= i < rows.len() ==> (#[trigger] rows[i]).id is Some
    &&& forall|i: int, j: int|
        0 <= i < rows.len() && 0 <= j < rows.len() && i != j ==> (#[trigger] rows[i]).id != (
        #[trigger] rows[j]).id
}

/// The views of a list of rows.
pub open spec fn row_views(rows: Seq<DBUserCredential>) -> Seq<DBUserCredentialView> {
    rows.map_values(|row: DBUserCredential| row@)
}

/// The table of credential rows.
pub struct CredentialStore {
    rows: Vec<DBUserCredential>,
    next_id: u128,
}

impl View for CredentialStore {
    type V = Seq<DBUserCredentialView>;

    closed spec fn view(&self) -> Seq<DBUserCredentialView> {
        row_views(self.rows@)
    }
}

impl CredentialData {
    /// A copy of the data.
    pub fn duplicate(&self) -> (copy: CredentialData)
        ensures
            copy@ == self@,
    {
        match self {
            CredentialData::WebauthnState(state) => CredentialData::WebauthnState(state.clone()),
            CredentialData::WebauthnCredential { cred_id, credential } => {
                CredentialData::WebauthnCredential {
                    cred_id: copy_bytes(cred_id),
                    credential: credential.clone(),
                }
            },
            CredentialData::Totp(totp) => CredentialData::Totp(
                DBTotpCredential { algorithm: totp.algorithm, secret: totp.secret.clone() },
            ),
        }
    }
}

/// Whether a list of kinds holds `kind`.
pub fn holds_kind(kinds: &Vec<DBUserCredentialTypes>, kind: DBUserCredentialTypes) -> (found: bool)
    ensures
        found == kinds@.contains(kind),
{
    let mut i: usize = 0;
    while i < kinds.len()
        invariant
            i <= kinds.len(),
            forall|j: int| 0 <= j < i ==> kinds@[j] != kind,
        decreases kinds.len() - i,
    {
        if kinds[i] == kind {
            return true;
        }
        i = i + 1;
    }
    false
}

/// Copies a list of bytes.
pub fn copy_bytes(bytes: &Vec<u8>) -> (copy: Vec<u8>)
    ensures
        copy@ == bytes@,
{
    let mut copy: Vec<u8> = Vec::new();
    let mut i: usize = 0;
    while i < bytes.len()
        invariant
            i <= bytes.len(),
            copy@ == bytes@.subrange(0, i as int),
        decreases bytes.len() - i,
    {
        copy.push(bytes[i]);
        assert(copy@ =~= bytes@.subrange(0, i as int + 1));
        i = i + 1;
    }
    assert(bytes@.subrange(0, i as int) =~= bytes@);
    copy
}

impl DBUserCredential {
    /// A copy of the row.
    pub fn duplicate(&self) -> (copy: DBUserCredential)
        ensures
            copy@ == self@,
    {
        DBUserCredential {
            id: self.id,
            username: self.username.clone(),
            label: match &self.label {
                Some(l) => Some(l.clone()),
                None => None,
            },
            credential_type: self.credential_type,
            credential_data: self.credential_data.duplicate(),
            temporary: self.temporary,
        }
    }

    /// Whether the row's kind, data and `temporary` flag agree.
    pub fn is_well_formed(&self) -> (ok: bool)
        ensures
            ok == self@.wf(),
    {
        let ephemeral = match self.credential_type {
            DBUserCredentialTypes::WebauthnAuthentication => true,
            DBUserCredentialTypes::WebauthnRegistration => true,
            DBUserCredentialTypes::WebauthnCredential => false,
            DBUserCredentialTypes::TotpPending => true,
            DBUserCredentialTypes::TotpCredential => false,
        };
        let shaped = match self.credential_type {
            DBUserCredentialTypes::WebauthnAuthentication
            | DBUserCredentialTypes::WebauthnRegistration => match &self.credential_data {
                CredentialData::WebauthnState(_) => true,
                _ => false,
            },
            DBUserCredentialTypes::WebauthnCredential => match &self.credential_data {
                CredentialData::WebauthnCredential { .. } => true,
                _ => false,
            },
            DBUserCredentialTypes::TotpPending
            | DBUserCredentialTypes::TotpCredential => match &self.credential_data {
                CredentialData::Totp(_) => true,
                _ => false,
            },
        };
        self.temporary == ephemeral && shaped
    }
}

impl CredentialStore {
    /// Below this bound lie the ids that the table has handed out.
    pub closed spec fn bound(&self) -> u128 {
        self.next_id
    }

    /// The table is well formed: every row has an id that the table handed
    /// out, and no two rows share one.
    pub open spec fn wf(&self) -> bool {
        &&& keyed(self@)
        &&& forall|i: int| 0 <= i < self@.len() ==> (#[trigger] self@[i]).id->0 < self.bound()
    }

    /// An empty table.
    pub fn new() -> (store: CredentialStore)
        ensures
            store.wf(),
            store.bound() == 0,
            store@ == Seq::<DBUserCredentialView>::empty(),
    {
        let store = CredentialStore { rows: Vec::new(), next_id: 0 };
        assert(store@ =~= Seq::<DBUserCredentialView>::empty());
        store
    }

    /// A table that holds the given rows, in their order. Every row must
    /// have an id below the largest number, and no two rows may share one;
    /// otherwise there is no such table.
    pub fn from_rows(rows: Vec<DBUserCredential>) -> (store: Option<CredentialStore>)
        ensures
            store is Some <==> keyed(row_views(rows@)) && forall|i: int|
                0 <= i < rows@.len() ==> (#[trigger] row_views(rows@)[i]).id != Some(u128::MAX),
            store matches Some(s) ==> s.wf() && s@ == row_views(rows@),
    {
        let ghost views = row_views(rows@);
        let mut next_id: u128 = 0;
        let mut i: usize = 0;
        while i < rows.len()
            invariant
                i <= rows.len(),
                views == row_views(rows@),
                forall|a: int| 0 <= a < i ==> (#[trigger] views[a]).id is Some && views[a].id->0 < next_id,
                forall|a: int, b: int|
                    0 <= a < i && 0 <= b < i && a != b ==> (#[trigger] views[a]).id != (
                    #[trigger] views[b]).id,
            decreases rows.len() - i,
        {
            assert(views[i as int] == rows@[i as int]@);
            let id = match rows[i].id {
                Some(id) => id,
                None => {
                    return None;
                },
            };
            if id == u128::MAX {
                return None;
            }
            let mut j: usize = 0;
            while j < i
                invariant
                    j <= i,
                    i < rows.len(),
                    views == row_views(rows@),
                    views[i as int].id == Some(id),
                    forall|b: int| 0 <= b < j ==> (#[trigger] views[b]).id != Some(id),
                decreases i - j,
            {
                assert(views[j as int] == rows@[j as int]@);
                let same = match rows[j].id {
                    Some(other) => other == id,
                    None => false,
                };
                if same {
                    assert(views[j as int].id == views[i as int].id);
                    return None;
                }
                j = j + 1;
            }
            if id >= next_id {
                next_id = id + 1;
            }
            i = i + 1;
        }
        let store = CredentialStore { rows, next_id };
        assert(store@ == views);
        Some(store)
    }

    /// The row with the id `id`, whoever owns it and whatever its kind.
    pub fn row(&self, id: u128) -> (row: Option<DBUserCredential>)
        ensures
            match row {
                Some(r) => self@.contains(r@) && r@.id == Some(id),
                None => forall|j: int| 0 <= j < self@.len() ==> (#[trigger] self@[j]).id != Some(id),
            },
    {
        match self.position(id) {
            Some(i) => {
                assert(self@[i as int] == self.rows@[i as int]@);
                Some(self.rows[i].duplicate())
            },
            None => None,
        }
    }

    /// The number of rows.
    pub fn len(&self) -> (n: usize)
        ensures
            n == self@.len(),
    {
        self.rows.len()
    }

    /// The place of the row with the id `id`.
    fn position(&self, id: u128) -> (at: Option<usize>)
        ensures
            match at {
                Some(i) => i < self@.len() && self@[i as int].id == Some(id),
                None => forall|j: int| 0 <= j < self@.len() ==> (#[trigger] self@[j]).id != Some(id),
            },
    {
        let mut i: usize = 0;
        while i < self.rows.len()
            invariant
                i <= self.rows@.len(),
                forall|j: int| 0 <= j < i ==> (#[trigger] self@[j]).id != Some(id),
            decreases self.rows@.len() - i,
        {
            let found = match self.rows[i].id {
                Some(k) => k == id,
                None => false,
            };
            assert(self@[i as int] == self.rows@[i as int]@);
            if found {
                return Some(i);
            }
            i = i + 1;
        }
        None
    }

    /// Reads the row with this id, of this user and of this kind.
    pub fn find_by_id_and_username(
        &self,
        id: u128,
        username: &str,
        kind: DBUserCredentialTypes,
    ) -> (row: Result<DBUserCredential, StorageError>)
        requires
            self.wf(),
        ensures
            read_view(row) == read_row(self@, id, username@, kind),
    {
        match self.position(id) {
            None => Err(StorageError::RowNotFound),
            Some(i) => {
                let row = &self.rows[i];
                assert(self@[i as int] == row@);
                if same_text(row.username.as_str(), username) && row.credential_type == kind {
                    assert(self@[i as int].is_row(id, username@, kind));
                    assert(the_row(self@, id, username@, kind) == row@);
                    if row.is_well_formed() {
                        Ok(row.duplicate())
                    } else {
                        Err(StorageError::Malformed)
                    }
                } else {
                    assert(!has_row(self@, id, username@, kind));
                    Err(StorageError::RowNotFound)
                }
            },
        }
    }

    /// Reads the rows of this user and of this kind, in the order in which
    /// they were stored.
    pub fn find_by_username(&self, username: &str, kind: DBUserCredentialTypes) -> (rows: Vec<
        DBUserCredential,
    >)
        ensures
            row_views(rows@) == self@.filter(owned_of_kind(username@, kind)),
    {
        let ghost keep = owned_of_kind(username@, kind);
        let mut found: Vec<DBUserCredential> = Vec::new();
        let mut i: usize = 0;
        proof {
            reveal(Seq::filter);
            assert(self@.subrange(0, 0) =~= Seq::<DBUserCredentialView>::empty());
            assert(row_views(found@) =~= Seq::<DBUserCredentialView>::empty());
        }
        while i < self.rows.len()
            invariant
                i <= self.rows@.len(),
                keep == owned_of_kind(username@, kind),
                row_views(found@) == self@.subrange(0, i as int).filter(keep),
            decreases self.rows@.len() - i,
        {
            let row = &self.rows[i];
            let ghost before = self@.subrange(0, i as int);
            let ghost found_before = row_views(found@);
            proof {
                assert(self@[i as int] == row@);
                before.lemma_filter_push(row@, keep);
                assert(self@.subrange(0, i as int + 1) =~= before.push(row@));
            }
            if same_text(row.username.as_str(), username) && row.credential_type == kind {
                found.push(row.duplicate());
                assert(row_views(found@) =~= found_before.push(row@));
            }
            i = i + 1;
        }
        assert(self@.subrange(0, i as int) =~= self@);
        found
    }

    /// Stores a row and returns the id it was given. The row's own `id` is
    /// not read.
    pub fn insert(&mut self, user_credential: DBUserCredential) -> (id: Result<u128, StorageError>)
        requires
            old(self).wf(),
        ensures
            final(self).wf(),
            id is Ok <==> old(self).bound() < u128::MAX,
            match id {
                Ok(k) => {
                    &&& k == old(self).bound()
                    &&& final(self).bound() == k + 1
                    &&& forall|i: int|
                        0 <= i < old(self)@.len() ==> (#[trigger] old(self)@[i]).id != Some(k)
                    &&& final(self)@ == old(self)@.push(
                        DBUserCredentialView { id: Some(k), ..user_credential@ },
                    )
                },
                Err(e) => {
                    &&& e == StorageError::Exhausted
                    &&& final(self)@ == old(self)@
                    &&& final(self).bound() == old(self).bound()
                },
            },
    {
        if self.next_id == u128::MAX {
            return Err(StorageError::Exhausted);
        }
        let k = self.next_id;
        let ghost before = self@;
        let row = DBUserCredential {
            id: Some(k),
            username: user_credential.username,
            label: user_credential.label,
            credential_type: user_credential.credential_type,
            credential_data: user_credential.credential_data,
            temporary: user_credential.temporary,
        };
        self.rows.push(row);
        self.next_id = k + 1;
        proof {
            assert(self@ =~= before.push(DBUserCredentialView { id: Some(k), ..user_credential@ }));
            assert forall|i: int, j: int|
                0 <= i < self@.len() && 0 <= j < self@.len() && i != j implies (
            #[trigger] self@[i]).id != (#[trigger] self@[j]).id by {
                if i < before.len() {
                    assert(self@[i] == before[i]);
                }
                if j < before.len() {
                    assert(self@[j] == before[j]);
                }
            }
            assert forall|i: int| 0 <= i < self@.len() implies (#[trigger] self@[i]).id is Some && (
            self@[i]).id->0 < self.bound() by {
                if i < before.len() {
                    assert(self@[i] == before[i]);
                }
            }
        }
        Ok(k)
    }

    /// Replaces kind, data and `temporary` flag of the row with the id `id`;
    /// says whether there was such a row.
    pub fn replace_type_data(
        &mut self,
        id: u128,
        credential_type: DBUserCredentialTypes,
        credential_data: CredentialData,
        temporary: bool,
    ) -> (changed: bool)
        requires
            old(self).wf(),
        ensures
            final(self).wf(),
            changed == (exists|i: int| 0 <= i < old(self)@.len() && (#[trigger] old(self)@[i]).id
                == Some(id)),
            final(self).bound() == old(self).bound(),
            final(self)@ == with_type_data(old(self)@, id, credential_type, credential_data@, temporary),
    {
        let ghost before = self@;
        let ghost data = credential_data@;
        let ghost change = |row: DBUserCredentialView|
            if row.id == Some(id) {
                DBUserCredentialView { credential_type, credential_data: data, temporary, ..row }
            } else {
                row
            };
        match self.position(id) {
            None => {
                assert(self@ =~= before.map_values(change));
                false
            },
            Some(i) => {
                let old_row = &self.rows[i];
                assert(before[i as int] == old_row@);
                let row = DBUserCredential {
                    id: old_row.id,
                    username: old_row.username.clone(),
                    label: match &old_row.label {
                        Some(l) => Some(l.clone()),
                        None => None,
                    },
                    credential_type,
                    credential_data,
                    temporary,
                };
                self.rows.set(i, row);
                proof {
                    assert forall|j: int| 0 <= j < before.len() implies self@[j] == change(
                        before[j],
                    ) by {
                        if j != i as int {
                            assert(self.rows@[j] == old(self).rows@[j]);
                            assert(before[j].id != before[i as int].id);
                        }
                    }
                    assert(self@ =~= before.map_values(change));
                    assert forall|a: int, b: int|
                        0 <= a < self@.len() && 0 <= b < self@.len() && a != b implies (
                    #[trigger] self@[a]).id != (#[trigger] self@[b]).id by {
                        assert(self@[a].id == before[a].id);
                        assert(self@[b].id == before[b].id);
                    }
                    assert forall|a: int| 0 <= a < self@.len() implies (#[trigger] self@[a]).id is Some
                        && (self@[a]).id->0 < self.bound() by {
                        assert(self@[a].id == before[a].id);
                    }
                }
                true
            },
        }
    }

    /// Sets the `temporary` flag of the row with the id `id`; says whether
    /// there was such a row.
    pub fn set_temporary(&mut self, id: u128, new_state: bool) -> (changed: bool)
        requires
            old(self).wf(),
        ensures
            final(self).wf(),
            changed == (exists|i: int| 0 <= i < old(self)@.len() && (#[trigger] old(self)@[i]).id
                == Some(id)),
            final(self).bound() == old(self).bound(),
            final(self)@ == with_temporary(old(self)@, id, new_state),
    {
        let ghost before = self@;
        let ghost change = |row: DBUserCredentialView|
            if row.id == Some(id) {
                DBUserCredentialView { temporary: new_state, ..row }
            } else {
                row
            };
        match self.position(id) {
            None => {
                assert(self@ =~= before.map_values(change));
                false
            },
            Some(i) => {
                let old_row = &self.rows[i];
                assert(before[i as int] == old_row@);
                let mut row = old_row.duplicate();
                row.temporary = new_state;
                self.rows.set(i, row);
                proof {
                    assert forall|j: int| 0 <= j < before.len() implies self@[j] == change(
                        before[j],
                    ) by {
                        if j != i as int {
                            assert(self.rows@[j] == old(self).rows@[j]);
                            assert(before[j].id != before[i as int].id);
                        }
                    }
                    assert(self@ =~= before.map_values(change));
                    assert forall|a: int, b: int|
                        0 <= a < self@.len() && 0 <= b < self@.len() && a != b implies (
                    #[trigger] self@[a]).id != (#[trigger] self@[b]).id by {
                        assert(self@[a].id == before[a].id);
                        assert(self@[b].id == before[b].id);
                    }
                    assert forall|a: int| 0 <= a < self@.len() implies (#[trigger] self@[a]).id is Some
                        && (self@[a]).id->0 < self.bound() by {
                        assert(self@[a].id == before[a].id);
                    }
                }
                true
            },
        }
    }

    /// The kinds of the rows of `username` that are not temporary, each kind
    /// once.
    pub fn permanent_kinds(&self, username: &str) -> (kinds: Vec<DBUserCredentialTypes>)
        ensures
            kinds@.no_duplicates(),
            forall|kind: DBUserCredentialTypes|
                kinds@.contains(kind) <==> has_permanent(self@, username@, kind),
    {
        let mut kinds: Vec<DBUserCredentialTypes> = Vec::new();
        let mut i: usize = 0;
        while i < self.rows.len()
            invariant
                i <= self.rows@.len(),
                kinds@.no_duplicates(),
                forall|kind: DBUserCredentialTypes|
                    kinds@.contains(kind) <==> has_permanent(
                        self@.subrange(0, i as int),
                        username@,
                        kind,
                    ),
            decreases self.rows@.len() - i,
        {
            let row = &self.rows[i];
            let ghost seen = self@.subrange(0, i as int);
            let ghost next = self@.subrange(0, i as int + 1);
            let ghost kinds_before = kinds@;
            assert(self@[i as int] == row@);
            let counts = same_text(row.username.as_str(), username) && !row.temporary;
            let mut listed = false;
            if counts {
                listed = holds_kind(&kinds, row.credential_type);
                if !listed {
                    kinds.push(row.credential_type);
                }
            }
            proof {
                assert(next.len() == seen.len() + 1);
                assert(forall|j: int| 0 <= j < seen.len() ==> next[j] == seen[j]);
                assert(next[i as int] == row@);
                assert forall|kind: DBUserCredentialTypes|
                    kinds@.contains(kind) <==> has_permanent(next, username@, kind) by {
                    if has_permanent(seen, username@, kind) {
                        let j = choose|j: int|
                            0 <= j < seen.len() && is_permanent(
                                #[trigger] seen[j],
                                username@,
                                kind,
                            );
                        assert(is_permanent(next[j], username@, kind));
                    }
                    if has_permanent(next, username@, kind) {
                        let j = choose|j: int|
                            0 <= j < next.len() && is_permanent(
                                #[trigger] next[j],
                                username@,
                                kind,
                            );
                        if j < seen.len() {
                            assert(is_permanent(seen[j], username@, kind));
                        }
                    }
                    if counts && kind == row.credential_type {
                        assert(is_permanent(next[i as int], username@, kind));
                    }
                    if counts && !listed {
                        assert(kinds@ == kinds_before.push(row.credential_type));
                        assert(kinds@[kinds@.len() - 1] == row.credential_type);
                        if kinds_before.contains(kind) {
                            let j = choose|j: int| 0 <= j < kinds_before.len() && kinds_before[j] == kind;
                            assert(kinds@[j] == kind);
                        }
                    }
                }
            }
            i = i + 1;
        }
        assert(self@.subrange(0, i as int) =~= self@);
        kinds
    }

    /// Removes the row with the id `id` if it belongs to `username`; says
    /// whether a row was removed.
    pub fn remove(&mut self, id: u128, username: &str) -> (removed: bool)
        requires
            old(self).wf(),
        ensures
            final(self).wf(),
            removed == (exists|i: int|
                0 <= i < old(self)@.len() && (#[trigger] old(self)@[i]).id == Some(id) && old(
                    self,
                )@[i].username == username@),
            final(self).bound() == old(self).bound(),
            final(self)@ == old(self)@.filter(not_row_of(id, username@)),
    {
        let ghost before = self@;
        let ghost keep = not_row_of(id, username@);
        match self.position(id) {
            None => {
                proof {
                    assert forall|j: int| 0 <= j < before.len() implies keep(#[trigger] before[j]) by {}
                    crate::text::lemma_filter_all(before, keep);
                }
                false
            },
            Some(i) => {
                assert(before[i as int] == self.rows@[i as int]@);
                if same_text(self.rows[i].username.as_str(), username) {
                    self.rows.remove(i);
                    proof {
                        let gone = i as int;
                        assert(self@ =~= before.subrange(0, gone) + before.subrange(
                            gone + 1,
                            before.len() as int,
                        ));
                        lemma_filter_one_out(before, keep, gone);
                        assert forall|a: int, b: int|
                            0 <= a < self@.len() && 0 <= b < self@.len() && a != b implies (
                        #[trigger] self@[a]).id != (#[trigger] self@[b]).id by {
                            let a0 = if a < gone { a } else { a + 1 };
                            let b0 = if b < gone { b } else { b + 1 };
                            assert(self@[a] == before[a0]);
                            assert(self@[b] == before[b0]);
                        }
                        assert forall|a: int| 0 <= a < self@.len() implies (
                        #[trigger] self@[a]).id is Some && (self@[a]).id->0 < self.bound() by {
                            let a0 = if a < gone { a } else { a + 1 };
                            assert(self@[a] == before[a0]);
                        }
                    }
                    true
                } else {
                    proof {
                        assert forall|j: int| 0 <= j < before.len() implies keep(
                            #[trigger] before[j],
                        ) by {
                            if j != i as int {
                                assert(before[j].id != before[i as int].id);
                            }
                        }
                        crate::text::lemma_filter_all(before, keep);
                    }
                    false
                }
            },
        }
    }
}

impl DBUserCredential {
    /// Reads the pending WebAuthn authentication challenge with this id of
    /// this user.
    pub fn find_webauthn_authentication_by_id_and_username(
        id: u128,
        username: &str,
        connection: &CredentialStore,
    ) -> (row: Result<DBUserCredential, StorageError>)
        requires
            connection.wf(),
        ensures
            read_view(row) == read_row(connection@, id, username@, DBUserCredentialTypes::WebauthnAuthentication),
    {
        connection.find_by_id_and_username(
            id,
            username,
            DBUserCredentialTypes::WebauthnAuthentication,
        )
    }

    /// Reads the pending WebAuthn registration challenge with this id of
    /// this user.
    pub fn find_webauthn_registration_by_id_and_username(
        id: u128,
        username: &str,
        connection: &CredentialStore,
    ) -> (row: Result<DBUserCredential, StorageError>)
        requires
            connection.wf(),
        ensures
            read_view(row) == read_row(connection@, id, username@, DBUserCredentialTypes::WebauthnRegistration),
    {
        connection.find_by_id_and_username(id, username, DBUserCredentialTypes::WebauthnRegistration)
    }

    /// Reads the registered WebAuthn credentials of this user.
    pub fn find_webauthn_credentials_by_username(
        username: &str,
        connection: &CredentialStore,
    ) -> (rows: Vec<DBUserCredential>)
        ensures
            row_views(rows@) == connection@.filter(
                owned_of_kind(username@, DBUserCredentialTypes::WebauthnCredential),
            ),
    {
        connection.find_by_username(username, DBUserCredentialTypes::WebauthnCredential)
    }

    /// Reads the confirmed TOTP credentials of this user.
    pub fn find_totp_credentials_by_username(username: &str, connection: &CredentialStore) -> (rows:
        Vec<DBUserCredential>)
        ensures
            row_views(rows@) == connection@.filter(
                owned_of_kind(username@, DBUserCredentialTypes::TotpCredential),
            ),
    {
        connection.find_by_username(username, DBUserCredentialTypes::TotpCredential)
    }

    /// Reads the confirmed TOTP credential with this id of this user.
    pub fn find_totp_credentials_by_id_and_username(
        id: u128,
        username: &str,
        connection: &CredentialStore,
    ) -> (row: Result<DBUserCredential, StorageError>)
        requires
            connection.wf(),
        ensures
            read_view(row) == read_row(connection@, id, username@, DBUserCredentialTypes::TotpCredential),
    {
        connection.find_by_id_and_username(id, username, DBUserCredentialTypes::TotpCredential)
    }

    /// Stores a row and returns the id it was given.
    pub fn create_one(user_credential: DBUserCredential, connection: &mut CredentialStore) -> (id:
        Result<u128, StorageError>)
        requires
            old(connection).wf(),
        ensures
            final(connection).wf(),
            id is Ok <==> old(connection).bound() < u128::MAX,
            match id {
                Ok(k) => {
                    &&& k == old(connection).bound()
                    &&& final(connection).bound() == k + 1
                    &&& forall|i: int|
                        0 <= i < old(connection)@.len() ==> (#[trigger] old(connection)@[i]).id
                            != Some(k)
                    &&& final(connection)@ == old(connection)@.push(
                        DBUserCredentialView { id: Some(k), ..user_credential@ },
                    )
                },
                Err(e) => {
                    &&& e == StorageError::Exhausted
                    &&& final(connection)@ == old(connection)@
                    &&& final(connection).bound() == old(connection).bound()
                },
            },
    {
        connection.insert(user_credential)
    }

    /// Replaces kind, data and `temporary` flag of the row with the id `id`;
    /// says whether there was such a row.
    pub fn update_type_data(
        id: u128,
        credential_type: DBUserCredentialTypes,
        credential_data: CredentialData,
        temporary: bool,
        connection: &mut CredentialStore,
    ) -> (changed: bool)
        requires
            old(connection).wf(),
        ensures
            final(connection).wf(),
            final(connection).bound() == old(connection).bound(),
            changed == (exists|i: int|
                0 <= i < old(connection)@.len() && (#[trigger] old(connection)@[i]).id == Some(id)),
            final(connection)@ == with_type_data(
                old(connection)@,
                id,
                credential_type,
                credential_data@,
                temporary,
            ),
    {
        connection.replace_type_data(id, credential_type, credential_data, temporary)
    }

    /// Removes the row with the id `id` if it belongs to `username`; says
    /// whether a row was removed.
    pub fn delete_credential(id: u128, username: &str, connection: &mut CredentialStore) -> (removed:
        bool)
        requires
            old(connection).wf(),
        ensures
            final(connection).wf(),
            final(connection).bound() == old(connection).bound(),
            removed == (exists|i: int|
                0 <= i < old(connection)@.len() && (#[trigger] old(connection)@[i]).id == Some(id)
                    && old(connection)@[i].username == username@),
            final(connection)@ == old(connection)@.filter(not_row_of(id, username@)),
    {
        connection.remove(id, username)
    }

    /// Sets the `temporary` flag of the row with the id `id`; says whether
    /// there was such a row.
    pub fn update_temporary(id: u128, new_state: bool, connection: &mut CredentialStore) -> (changed:
        bool)
        requires
            old(connection).wf(),
        ensures
            final(connection).wf(),
            final(connection).bound() == old(connection).bound(),
            changed == (exists|i: int|
                0 <= i < old(connection)@.len() && (#[trigger] old(connection)@[i]).id == Some(id)),
            final(connection)@ == with_temporary(old(connection)@, id, new_state),
    {
        connection.set_temporary(id, new_state)
    }

    /// The kinds of durable credentials that this user has, each kind once.
    pub fn find_permanent_credentials_by_username(
        username: &str,
        connection: &CredentialStore,
    ) -> (kinds: Vec<DBUserCredentialTypes>)
        ensures
            kinds@.no_duplicates(),
            forall|kind: DBUserCredentialTypes|
                kinds@.contains(kind) <==> has_permanent(connection@, username@, kind),
    {
        connection.permanent_kinds(username)
    }
}

/// Where exactly one item fails a filter, the filter takes that item out.
pub proof fn lemma_filter_one_out<A>(items: Seq<A>, keep: spec_fn(A) -> bool, at: int)
    requires
        0 <= at < items.len(),
        !keep(items[at]),
        forall|j: int| 0 <= j < items.len() && j != at ==> keep(#[trigger] items[j]),
    ensures
        items.filter(keep) == items.subrange(0, at) + items.subrange(at + 1, items.len() as int),
{
    let head = items.subrange(0, at);
    let tail = items.subrange(at + 1, items.len() as int);
    let one = seq![items[at]];
    assert(items =~= head + one + tail);
    Seq::filter_distributes_over_add(head + one, tail, keep);
    Seq::filter_distributes_over_add(head, one, keep);
    crate::text::lemma_filter_all(head, keep);
    crate::text::lemma_filter_all(tail, keep);
    reveal(Seq::filter);
    assert(one.drop_last() =~= Seq::<A>::empty());
    assert(one.drop_last().filter(keep) =~= Seq::<A>::empty());
    assert(one.last() == items[at]);
    assert(one.filter(keep) =~= Seq::<A>::empty());
    assert(head + Seq::<A>::empty() =~= head);
}

} // verus!
