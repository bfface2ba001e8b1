//! Sessions: the server-side record of an authenticated browser identity,
//! and the steps that lead a partially authenticated session to full
//! authentication.

use vstd::prelude::*;
use vstd::string::*;
use crate::hexcode::HEX_TAG_LEN;
use crate::text::first_position;
use crate::token::{dot_free, lemma_dot_in_id_rejected, lemma_signed_token_verifies,
    lemma_tampered_id_rejected, lemma_tampered_tag_rejected, lemma_trailing_part_rejected,
    signed_token, token_subject, token_tag_part};
use crate::mac::hmac_sha256;
use vstd::utf8::encode_utf8;
use crate::text::{contains_text, copy_texts, lemma_without_only, lemma_without_twice, texts,
    without, without_text};

verus! {

/// The number of characters in a session id.
pub const SESSION_ID_LEN: usize = 32;

/// A session as it is stored under its id.
///
/// `fully_authenticated` holds exactly when `missing_auth_steps` is empty; see
/// [`Session::wf`].
pub struct Session {
    pub id: String,
    pub username: String,
    pub auth_timestamp: String,
    pub fully_authenticated: bool,
    pub completed_auth_steps: Vec<String>,
    pub missing_auth_steps: Vec<String>,
}

/// What a session holds, with its strings as character sequences.
pub struct SessionView {
    pub id: Seq<char>,
    pub username: Seq<char>,
    pub auth_timestamp: Seq<char>,
    pub fully_authenticated: bool,
    pub completed_auth_steps: Seq<Seq<char>>,
    pub missing_auth_steps: Seq<Seq<char>>,
}

impl View for Session {
    type V = SessionView;

    open spec fn view(&self) -> SessionView {
        SessionView {
            id: self.id@,
            username: self.username@,
            auth_timestamp: self.auth_timestamp@,
            fully_authenticated: self.fully_authenticated,
            completed_auth_steps: texts(self.completed_auth_steps@),
            missing_auth_steps: texts(self.missing_auth_steps@),
        }
    }
}

impl SessionView {
    /// A session is fully authenticated exactly when no step is missing.
    pub open spec fn wf(self) -> bool {
        self.fully_authenticated <==> self.missing_auth_steps.len() == 0
    }

    /// The session after `step` was completed: the step is no longer
    /// missing, it is listed as completed once, and the session is fully
    /// authenticated if nothing else is missing.
    pub open spec fn finish_step(self, step: Seq<char>) -> SessionView {
        let missing = without(self.missing_auth_steps, step);
        SessionView {
            fully_authenticated: missing.len() == 0,
            completed_auth_steps: if self.completed_auth_steps.contains(step) {
                self.completed_auth_steps
            } else {
                self.completed_auth_steps.push(step)
            },
            missing_auth_steps: missing,
            ..self
        }
    }
}

/// Whether `c` may stand in a session id: an ASCII letter or digit.
pub open spec fn is_session_id_char(c: char) -> bool {
    'A' <= c <= 'Z' || 'a' <= c <= 'z' || '0' <= c <= '9'
}

/// Whether `id` has the shape of an issued session id.
pub open spec fn is_session_id(id: Seq<char>) -> bool {
    id.len() == SESSION_ID_LEN && forall|i: int| 0 <= i < id.len() ==> is_session_id_char(id[i])
}

/// Draws an index below `bound` from `rand::thread_rng()` with `gen_range`,
/// which panics on an empty range and otherwise returns a value inside it.
#[verifier::external_body]
fn random_below(bound: usize) -> (index: usize)
    requires
        bound > 0,
    ensures
        index < bound,
{
    rand::Rng::gen_range(&mut rand::thread_rng(), 0..bound)
}

/// Reads the clock with `chrono::Utc::now` and writes the instant with
/// `to_rfc3339`.
#[verifier::external_body]
pub(crate) fn current_timestamp() -> (stamp: String) {
    chrono::Utc::now().to_rfc3339()
}

/// The characters that a session id is drawn from, in the order in which
/// they are numbered.
pub open spec fn session_id_alphabet() -> Seq<char> {
    "ABCDEFGHIJKLMNOPQRSTUVWXYZabcdefghijklmnopqrstuvwxyz0123456789"@
}

/// The number of characters that a session id is drawn from.
pub const SESSION_ID_ALPHABET_LEN: usize = 62;

/// The alphabet has 62 characters, all of them ASCII letters or digits.
pub proof fn lemma_session_id_alphabet()
    ensures
        session_id_alphabet().len() == SESSION_ID_ALPHABET_LEN,
        forall|k: int|
            0 <= k < SESSION_ID_ALPHABET_LEN ==> is_session_id_char(
                #[trigger] session_id_alphabet()[k],
            ),
{
    reveal_strlit("ABCDEFGHIJKLMNOPQRSTUVWXYZabcdefghijklmnopqrstuvwxyz0123456789");
}

/// The character of the alphabet with the number `index`, as a string.
pub fn session_id_char(index: usize) -> (picked: &'static str)
    requires
        index < SESSION_ID_ALPHABET_LEN,
    ensures
        picked@ == seq![session_id_alphabet()[index as int]],
{
    let charset = "ABCDEFGHIJKLMNOPQRSTUVWXYZabcdefghijklmnopqrstuvwxyz0123456789";
    proof {
        lemma_session_id_alphabet();
    }
    let picked = charset.substring_char(index, index + 1);
    assert(picked@ =~= seq![session_id_alphabet()[index as int]]);
    picked
}

/// Draws a fresh session id: 32 characters, each picked at random from the
/// ASCII letters and digits.
pub fn fresh_session_id() -> (id: String)
    ensures
        is_session_id(id@),
{
    let mut id = String::new();
    let mut n: usize = 0;
    while n < SESSION_ID_LEN
        invariant
            n <= SESSION_ID_LEN,
            id@.len() == n,
            forall|i: int| 0 <= i < id@.len() ==> is_session_id_char(id@[i]),
        decreases SESSION_ID_LEN - n,
    {
        let picked = session_id_char(random_below(SESSION_ID_ALPHABET_LEN));
        proof {
            lemma_session_id_alphabet();
        }
        id.append(picked);
        n = n + 1;
    }
    id
}

impl Session {
    /// See [`SessionView::wf`].
    pub open spec fn wf(&self) -> bool {
        self@.wf()
    }

    /// Puts a session together from its parts. It is fully authenticated
    /// exactly when `missing_auth_steps` is empty.
    pub fn assemble(
        id: String,
        auth_timestamp: String,
        username: String,
        completed_auth_steps: Vec<String>,
        missing_auth_steps: Vec<String>,
    ) -> (session: Session)
        ensures
            session@ == (SessionView {
                id: id@,
                username: username@,
                auth_timestamp: auth_timestamp@,
                fully_authenticated: missing_auth_steps@.len() == 0,
                completed_auth_steps: texts(completed_auth_steps@),
                missing_auth_steps: texts(missing_auth_steps@),
            }),
            session.wf(),
    {
        let fully_authenticated = missing_auth_steps.len() == 0;
        Session {
            id,
            username,
            auth_timestamp,
            fully_authenticated,
            completed_auth_steps,
            missing_auth_steps,
        }
    }

    /// Opens a session for `username` after the primary factor was checked:
    /// a fresh random id, the current time, and the steps as given.
    pub fn new(
        username: String,
        completed_auth_steps: Vec<String>,
        missing_auth_steps: Vec<String>,
    ) -> (session: Session)
        ensures
            is_session_id(session@.id),
            session@.username == username@,
            session@.completed_auth_steps == texts(completed_auth_steps@),
            session@.missing_auth_steps == texts(missing_auth_steps@),
            session@.fully_authenticated == (missing_auth_steps@.len() == 0),
            session.wf(),
    {
        Session::assemble(
            fresh_session_id(),
            current_timestamp(),
            username,
            completed_auth_steps,
            missing_auth_steps,
        )
    }

    /// A copy of the session.
    pub fn duplicate(&self) -> (copy: Session)
        ensures
            copy@ == self@,
    {
        Session {
            id: self.id.clone(),
            username: self.username.clone(),
            auth_timestamp: self.auth_timestamp.clone(),
            fully_authenticated: self.fully_authenticated,
            completed_auth_steps: copy_texts(&self.completed_auth_steps),
            missing_auth_steps: copy_texts(&self.missing_auth_steps),
        }
    }

    /// Marks `step` as completed. Completing a step that is already
    /// completed changes nothing; id, user and timestamp stay.
    pub fn complete_step(self, step: &str) -> (session: Session)
        ensures
            session@ == self@.finish_step(step@),
            session.wf(),
    {
        let missing = without_text(&self.missing_auth_steps, step);
        let mut completed = self.completed_auth_steps;
        if !contains_text(&completed, step) {
            let ghost before = texts(completed@);
            completed.push(step.to_owned());
            assert(texts(completed@) =~= before.push(step@));
        }
        Session {
            id: self.id,
            username: self.username,
            auth_timestamp: self.auth_timestamp,
            fully_authenticated: missing.len() == 0,
            completed_auth_steps: completed,
            missing_auth_steps: missing,
        }
    }
}

/// Completing a step twice leaves the session as completing it once does.
pub proof fn lemma_finish_step_idempotent(session: SessionView, step: Seq<char>)
    ensures
        session.finish_step(step).finish_step(step) == session.finish_step(step),
{
    let once = session.finish_step(step);
    lemma_without_twice(session.missing_auth_steps, step);
    assert(once.completed_auth_steps.contains(step)) by {
        if !session.completed_auth_steps.contains(step) {
            let pushed = session.completed_auth_steps.push(step);
            assert(pushed[pushed.len() - 1] == step);
        }
    }
}

/// A session whose only missing step is `step` is fully authenticated after
/// that step is completed once, whatever steps were completed before and in
/// whatever order.
pub proof fn lemma_last_step_authenticates(session: SessionView, step: Seq<char>)
    requires
        session.wf(),
        session.missing_auth_steps == seq![step],
    ensures
        !session.fully_authenticated,
        session.finish_step(step).fully_authenticated,
        session.finish_step(step).missing_auth_steps.len() == 0,
{
    lemma_without_only(step);
}

/// The store of sessions, each kept under its id.
pub struct SessionStorage {
    entries: Vec<Session>,
}

impl View for SessionStorage {
    type V = Map<Seq<char>, SessionView>;

    closed spec fn view(&self) -> Map<Seq<char>, SessionView> {
        Map::new(
            |id: Seq<char>| holds(self.entries@, id),
            |id: Seq<char>| self.entries@[slot(self.entries@, id)]@,
        )
    }
}

/// Whether some entry has the id `id`.
spec fn holds(entries: Seq<Session>, id: Seq<char>) -> bool {
    exists|i: int| 0 <= i < entries.len() && #[trigger] entries[i].id@ == id
}

/// The place of an entry with the id `id`.
spec fn slot(entries: Seq<Session>, id: Seq<char>) -> int {
    choose|i: int| 0 <= i < entries.len() && #[trigger] entries[i].id@ == id
}

/// No two entries share an id.
spec fn distinct_ids(entries: Seq<Session>) -> bool {
    forall|i: int, j: int|
        0 <= i < entries.len() && 0 <= j < entries.len() && i != j ==> #[trigger] entries[i].id@
            != #[trigger] entries[j].id@
}

proof fn lemma_slot(entries: Seq<Session>, at: int)
    requires
        distinct_ids(entries),
        0 <= at < entries.len(),
    ensures
        holds(entries, entries[at].id@),
        slot(entries, entries[at].id@) == at,
{
    let id = entries[at].id@;
    assert(entries[at].id@ == id);
    let found = slot(entries, id);
    assert(0 <= found < entries.len() && entries[found].id@ == id);
}

impl SessionStorage {
    /// The store is well formed: no two of its entries share an id.
    pub closed spec fn wf(&self) -> bool {
        distinct_ids(self.entries@)
    }

    /// An empty store.
    pub fn new() -> (storage: SessionStorage)
        ensures
            storage.wf(),
            storage@ == Map::<Seq<char>, SessionView>::empty(),
    {
        let storage = SessionStorage { entries: Vec::new() };
        assert(storage@ =~= Map::<Seq<char>, SessionView>::empty());
        storage
    }

    fn find(&self, id: &str) -> (at: Option<usize>)
        ensures
            match at {
                Some(i) => i < self.entries@.len() && self.entries@[i as int].id@ == id@,
                None => !holds(self.entries@, id@),
            },
    {
        let mut i: usize = 0;
        while i < self.entries.len()
            invariant
                i <= self.entries@.len(),
                forall|j: int| 0 <= j < i ==> self.entries@[j].id@ != id@,
            decreases self.entries@.len() - i,
        {
            if crate::text::same_text(self.entries[i].id.as_str(), id) {
                return Some(i);
            }
            i = i + 1;
        }
        None
    }

    /// The session kept under `id`, if there is one.
    pub fn get(&self, id: &str) -> (session: Option<Session>)
        requires
            self.wf(),
        ensures
            match session {
                Some(s) => self@.contains_key(id@) && s@ == self@[id@],
                None => !self@.contains_key(id@),
            },
    {
        match self.find(id) {
            Some(i) => {
                proof {
                    lemma_slot(self.entries@, i as int);
                }
                Some(self.entries[i].duplicate())
            },
            None => None,
        }
    }

    /// Keeps `session` under its id, in place of what was kept there.
    pub fn set(&mut self, session: &Session)
        requires
            old(self).wf(),
        ensures
            final(self).wf(),
            final(self)@ == old(self)@.insert(session@.id, session@),
    {
        let ghost before = self.entries@;
        let copy = session.duplicate();
        match self.find(session.id.as_str()) {
            Some(i) => {
                self.entries.set(i, copy);
                let ghost after = self.entries@;
                assert(distinct_ids(after)) by {
                    assert forall|a: int, b: int|
                        0 <= a < after.len() && 0 <= b < after.len() && a != b implies #[trigger] after[a].id@
                        != #[trigger] after[b].id@ by {
                        assert(after[a].id@ == before[a].id@);
                        assert(after[b].id@ == before[b].id@);
                    }
                }
                assert(self@ =~= old(self)@.insert(session@.id, session@)) by {
                    assert forall|id: Seq<char>| holds(after, id) == (holds(before, id) || id
                        == session@.id) by {
                        if holds(before, id) {
                            let k = slot(before, id);
                            assert(after[k].id@ == id);
                        }
                        if holds(after, id) {
                            let k = slot(after, id);
                            assert(before[k].id@ == id);
                        }
                        if id == session@.id {
                            assert(after[i as int].id@ == id);
                        }
                    }
                    assert forall|id: Seq<char>| holds(after, id) && id != session@.id implies after[slot(
                        after,
                        id,
                    )]@ == before[slot(before, id)]@ by {
                        let k = slot(after, id);
                        assert(before[k].id@ == id);
                        lemma_slot(before, k);
                    }
                    lemma_slot(after, i as int);
                }
            },
            None => {
                self.entries.push(copy);
                let ghost after = self.entries@;
                assert(distinct_ids(after)) by {
                    assert forall|a: int, b: int|
                        0 <= a < after.len() && 0 <= b < after.len() && a != b implies #[trigger] after[a].id@
                        != #[trigger] after[b].id@ by {
                        if a < before.len() {
                            assert(before[a].id@ == after[a].id@);
                        }
                        if b < before.len() {
                            assert(before[b].id@ == after[b].id@);
                        }
                    }
                }
                assert(self@ =~= old(self)@.insert(session@.id, session@)) by {
                    let last = before.len() as int;
                    assert forall|id: Seq<char>| holds(after, id) == (holds(before, id) || id
                        == session@.id) by {
                        if holds(before, id) {
                            let k = slot(before, id);
                            assert(after[k].id@ == id);
                        }
                        if holds(after, id) {
                            let k = slot(after, id);
                            if k < last {
                                assert(before[k].id@ == id);
                            }
                        }
                        if id == session@.id {
                            assert(after[last].id@ == id);
                        }
                    }
                    assert forall|id: Seq<char>| holds(after, id) && id != session@.id implies after[slot(
                        after,
                        id,
                    )]@ == before[slot(before, id)]@ by {
                        let k = slot(after, id);
                        assert(before[k].id@ == id);
                        lemma_slot(before, k);
                    }
                    lemma_slot(after, last);
                }
            },
        }
    }

    /// Forgets the session kept under `id`; says whether there was one.
    pub fn delete(&mut self, id: &str) -> (existed: bool)
        requires
            old(self).wf(),
        ensures
            final(self).wf(),
            existed == old(self)@.contains_key(id@),
            final(self)@ == old(self)@.remove(id@),
    {
        let ghost before = self.entries@;
        match self.find(id) {
            Some(i) => {
                self.entries.remove(i);
                let ghost after = self.entries@;
                let ghost gone = i as int;
                assert(forall|k: int| 0 <= k < gone ==> after[k] == before[k]);
                assert(forall|k: int| gone <= k < after.len() ==> after[k] == before[k + 1]);
                assert(distinct_ids(after)) by {
                    assert forall|a: int, b: int|
                        0 <= a < after.len() && 0 <= b < after.len() && a != b implies #[trigger] after[a].id@
                        != #[trigger] after[b].id@ by {
                        let a0 = if a < gone { a } else { a + 1 };
                        let b0 = if b < gone { b } else { b + 1 };
                        assert(after[a].id@ == before[a0].id@);
                        assert(after[b].id@ == before[b0].id@);
                    }
                }
                assert(self@ =~= old(self)@.remove(id@)) by {
                    assert forall|other: Seq<char>| holds(after, other) == (holds(before, other)
                        && other != id@) by {
                        if holds(before, other) && other != id@ {
                            let k = slot(before, other);
                            let k1 = if k < gone { k } else { k - 1 };
                            assert(after[k1].id@ == other);
                        }
                        if holds(after, other) {
                            let k = slot(after, other);
                            let k0 = if k < gone { k } else { k + 1 };
                            assert(before[k0].id@ == other);
                            lemma_slot(before, k0);
                            lemma_slot(before, gone);
                        }
                    }
                    assert forall|other: Seq<char>| holds(after, other) implies after[slot(
                        after,
                        other,
                    )]@ == before[slot(before, other)]@ by {
                        let k = slot(after, other);
                        let k0 = if k < gone { k } else { k + 1 };
                        assert(before[k0].id@ == other);
                        lemma_slot(before, k0);
                    }
                }
                true
            },
            None => {
                assert(self@ =~= old(self)@.remove(id@));
                false
            },
        }
    }
}

/// The session that a cookie value resolves to: its token must prove an id,
/// a session must be kept under that id, and that session must be well
/// formed.
pub open spec fn resolved(
    storage: Map<Seq<char>, SessionView>,
    secret: Seq<u8>,
    cookie_value: Seq<char>,
) -> Option<SessionView> {
    match token_subject(secret, cookie_value) {
        Some(id) => if storage.contains_key(id) && storage[id].wf() {
            Some(storage[id])
        } else {
            None
        },
        None => None,
    }
}

/// Keeps `session` in the store and returns the signed token to place in
/// the session cookie.
pub fn create_session(
    session_storage: &mut SessionStorage,
    session: &Session,
    secret: &[u8],
) -> (cookie_value: String)
    requires
        old(session_storage).wf(),
    ensures
        final(session_storage).wf(),
        final(session_storage)@ == old(session_storage)@.insert(session@.id, session@),
        cookie_value@ == signed_token(secret@, session@.id),
{
    session_storage.set(session);
    crate::token::sign(secret, session.id.as_str())
}

/// What creating a session or completing a step reports once the store
/// was asked to keep the session: the session where the write succeeded, and
/// the store's failure, never the session, where it did not.
pub fn after_write<E>(session: Session, written: Result<(), E>) -> (outcome: Result<Session, E>)
    ensures
        match written {
            Ok(_) => outcome matches Ok(kept) && kept == session,
            Err(failure) => outcome matches Err(reported) && reported == failure,
        },
{
    match written {
        Ok(_) => Ok(session),
        Err(failure) => Err(failure),
    }
}

/// Opens a session for `username` after the primary factor was checked:
/// the session gets a fresh random id, is fully authenticated exactly when no
/// step is missing, and is kept in the store under its id. The result is the
/// session and the signed token to place in the session cookie.
pub fn create(
    session_storage: &mut SessionStorage,
    secret: &[u8],
    username: String,
    completed_auth_steps: Vec<String>,
    missing_auth_steps: Vec<String>,
) -> (created: (Session, String))
    requires
        old(session_storage).wf(),
    ensures
        final(session_storage).wf(),
        is_session_id(created.0@.id),
        created.0@.username == username@,
        created.0@.completed_auth_steps == texts(completed_auth_steps@),
        created.0@.missing_auth_steps == texts(missing_auth_steps@),
        created.0@.fully_authenticated == (missing_auth_steps@.len() == 0),
        final(session_storage)@ == old(session_storage)@.insert(created.0@.id, created.0@),
        created.1@ == signed_token(secret@, created.0@.id),
        resolved(final(session_storage)@, secret@, created.1@) == Some(created.0@),
{
    let session = Session::new(username, completed_auth_steps, missing_auth_steps);
    let cookie_value = create_session(session_storage, &session, secret);
    proof {
        lemma_session_id_dot_free(session@.id);
        lemma_created_session_resolves(old(session_storage)@, secret@, session@);
    }
    (session, cookie_value)
}

/// Resolves the value of the session cookie to a session. A malformed or
/// tampered token, an unknown id and a stored session that is not well formed
/// all give `None`: the request is anonymous. A value that resolves has a tag
/// part of 64 characters.
pub fn validate_session(
    session_storage: &SessionStorage,
    secret: &[u8],
    cookie_value: &str,
) -> (session: Option<Session>)
    requires
        session_storage.wf(),
    ensures
        match session {
            Some(s) => resolved(session_storage@, secret@, cookie_value@) == Some(s@),
            None => resolved(session_storage@, secret@, cookie_value@) is None,
        },
        session is Some ==> token_tag_part(cookie_value@).len() == HEX_TAG_LEN,
{
    match crate::token::verify(secret, cookie_value) {
        None => None,
        Some(id) => match session_storage.get(id.as_str()) {
            None => None,
            Some(session) => {
                if session.fully_authenticated == (session.missing_auth_steps.len() == 0) {
                    Some(session)
                } else {
                    None
                }
            },
        },
    }
}

impl Session {
    /// Marks `step` as completed and keeps the updated session in the store
    /// under the same id.
    pub fn finish_step(self, step: &str, session_storage: &mut SessionStorage) -> (session:
        Session)
        requires
            old(session_storage).wf(),
        ensures
            final(session_storage).wf(),
            session.wf(),
            session@ == self@.finish_step(step@),
            final(session_storage)@ == old(session_storage)@.insert(
                self@.id,
                self@.finish_step(step@),
            ),
    {
        let session = self.complete_step(step);
        session_storage.set(&session);
        session
    }
}

/// The cookie value that `create_session` returns resolves to the session it
/// stored, as long as the session is well formed and its id holds no dot.
pub proof fn lemma_created_session_resolves(
    storage: Map<Seq<char>, SessionView>,
    secret: Seq<u8>,
    session: SessionView,
)
    requires
        session.wf(),
        dot_free(session.id),
    ensures
        resolved(storage.insert(session.id, session), secret, signed_token(secret, session.id))
            == Some(session),
{
    lemma_signed_token_verifies(secret, session.id);
}

/// An issued session id holds no dot.
pub proof fn lemma_session_id_dot_free(id: Seq<char>)
    requires
        is_session_id(id),
    ensures
        dot_free(id),
{
}

/// A signed token in which one character of the tag, or the separating dot,
/// was changed resolves to no session, whatever the store holds.
pub proof fn lemma_tampered_tag_resolves_to_none(
    storage: Map<Seq<char>, SessionView>,
    secret: Seq<u8>,
    id: Seq<char>,
    at: int,
    c: char,
)
    requires
        dot_free(id),
        id.len() <= at < signed_token(secret, id).len(),
        c != signed_token(secret, id)[at],
    ensures
        resolved(storage, secret, signed_token(secret, id).update(at, c)) is None,
{
    lemma_tampered_tag_rejected(secret, id, at, c);
}

/// A signed token in which one character of the id was changed resolves to
/// no session, whatever the store holds: always where the new character is a
/// dot, and otherwise unless the secret gives the changed id the tag of the
/// unchanged one.
pub proof fn lemma_tampered_id_resolves_to_none(
    storage: Map<Seq<char>, SessionView>,
    secret: Seq<u8>,
    id: Seq<char>,
    at: int,
    c: char,
)
    requires
        dot_free(id),
        0 <= at < id.len(),
        c != id[at],
    ensures
        c == '.' || hmac_sha256(secret, encode_utf8(id.update(at, c))) != hmac_sha256(
            secret,
            encode_utf8(id),
        ) ==> resolved(storage, secret, signed_token(secret, id).update(at, c)) is None,
{
    if c == '.' {
        lemma_dot_in_id_rejected(secret, id, at);
    } else {
        lemma_tampered_id_rejected(secret, id, at, c);
    }
}

/// A cookie value that holds a token and, behind a further dot, anything
/// else resolves to no session, whatever the store holds.
pub proof fn lemma_trailing_part_resolves_to_none(
    storage: Map<Seq<char>, SessionView>,
    secret: Seq<u8>,
    id: Seq<char>,
    extra: Seq<char>,
)
    ensures
        resolved(storage, secret, signed_token(secret, id) + seq!['.'] + extra) is None,
{
    let token = signed_token(secret, id);
    crate::text::lemma_first_position(token, '.');
    if first_position(token, '.') == token.len() {
        assert(token[id.len() as int] == '.');
    }
    lemma_trailing_part_rejected(secret, token, extra);
}

/// What is accepted of a session that was read from a store under `id`:
/// the session itself if it carries that id and is well formed, and nothing
/// otherwise.
pub open spec fn accepted(id: Seq<char>, stored: Option<SessionView>) -> Option<SessionView> {
    match stored {
        Some(session) => if session.id == id && session.wf() {
            Some(session)
        } else {
            None
        },
        None => None,
    }
}

/// Checks a session that was read from a store under `id`. A session that
/// carries another id, or that is not well formed, counts as absent.
pub fn accept_stored(id: &str, stored: Option<Session>) -> (session: Option<Session>)
    ensures
        match session {
            Some(s) => accepted(
                id@,
                match stored {
                    Some(found) => Some(found@),
                    None => None,
                },
            ) == Some(s@),
            None => accepted(
                id@,
                match stored {
                    Some(found) => Some(found@),
                    None => None,
                },
            ) is None,
        },
{
    match stored {
        None => None,
        Some(session) => {
            if crate::text::same_text(session.id.as_str(), id) && session.fully_authenticated == (
            session.missing_auth_steps.len() == 0) {
                Some(session)
            } else {
                None
            }
        },
    }
}

/// What a request is, as far as authentication goes.
pub enum Authentication {
    /// The request carries the token of this session.
    Authenticated(Session),
    /// The request carries no valid token of a known session.
    Anonymous,
    /// The session store could not be asked.
    Error(crate::error::Error),
}

/// What a guarded route does with a request.
#[derive(Clone, Copy, Debug, PartialEq, Eq, Structural)]
pub enum Routing {
    /// The route serves the request.
    Serve,
    /// The request is left to the route of the next rank.
    NextRank,
    /// The request fails.
    Fail,
}

impl Authentication {
    /// Classifies what the session store answered for the id that a token
    /// proved. A failure of the store is an error, a missing session and a
    /// session that is not accepted are anonymous.
    pub fn classify(id: &str, lookup: Result<Option<Session>, crate::error::Error>) -> (outcome:
        Authentication)
        ensures
            match lookup {
                Err(e) => outcome matches Authentication::Error(reported) && reported == e,
                Ok(stored) => match accepted(
                    id@,
                    match stored {
                        Some(found) => Some(found@),
                        None => None,
                    },
                ) {
                    Some(session) => outcome matches Authentication::Authenticated(s) && s@
                        == session,
                    None => outcome is Anonymous,
                },
            },
    {
        match lookup {
            Err(e) => Authentication::Error(e),
            Ok(stored) => match accept_stored(id, stored) {
                Some(session) => Authentication::Authenticated(session),
                None => Authentication::Anonymous,
            },
        }
    }

    /// Whether there is a session at all.
    pub open spec fn is_partially_authenticated(self) -> bool {
        self is Authenticated
    }

    /// Whether there is a session and it is fully authenticated.
    pub open spec fn is_fully_authenticated(self) -> bool {
        self matches Authentication::Authenticated(session) && session.fully_authenticated
    }

    /// The guard of a route for any session: it serves an authenticated
    /// request, leaves an anonymous one to the next rank, and fails on an
    /// error.
    pub fn partially_authenticated(&self) -> (routing: Routing)
        ensures
            routing == (match *self {
                Authentication::Authenticated(_) => Routing::Serve,
                Authentication::Anonymous => Routing::NextRank,
                Authentication::Error(_) => Routing::Fail,
            }),
            routing == Routing::Serve <==> self.is_partially_authenticated(),
    {
        match self {
            Authentication::Authenticated(_) => Routing::Serve,
            Authentication::Anonymous => Routing::NextRank,
            Authentication::Error(_) => Routing::Fail,
        }
    }

    /// The guard of a route for fully authenticated users: it serves a
    /// request whose session is fully authenticated, leaves any other session
    /// and an anonymous request to the next rank, and fails on an error.
    pub fn fully_authenticated(&self) -> (routing: Routing)
        ensures
            routing == (match *self {
                Authentication::Authenticated(session) => if session.fully_authenticated {
                    Routing::Serve
                } else {
                    Routing::NextRank
                },
                Authentication::Anonymous => Routing::NextRank,
                Authentication::Error(_) => Routing::Fail,
            }),
            routing == Routing::Serve <==> self.is_fully_authenticated(),
    {
        match self {
            Authentication::Authenticated(session) => {
                if session.fully_authenticated {
                    Routing::Serve
                } else {
                    Routing::NextRank
                }
            },
            Authentication::Anonymous => Routing::NextRank,
            Authentication::Error(_) => Routing::Fail,
        }
    }
}

/// A fully authenticated user.
pub struct User(pub String);

impl User {
    /// The user behind a session, if the session is fully authenticated.
    pub fn from_session(session: &Session) -> (user: Option<User>)
        ensures
            match user {
                Some(u) => session.fully_authenticated && u.0@ == session.username@,
                None => !session.fully_authenticated,
            },
    {
        if session.fully_authenticated {
            Some(User(session.username.clone()))
        } else {
            None
        }
    }

    /// The user's name.
    pub fn get_username(self) -> (username: String)
        ensures
            username@ == self.0@,
    {
        self.0
    }
}

} // verus!
