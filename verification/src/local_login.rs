//! The local login: a password check opens a session, and a second factor
//! completes it where the user has one.

use vstd::prelude::*;
use vstd::string::*;
use crate::challenge::{answered, authentication_rows, finish_webauthn_authentication, read_failure,
    webauthn_text_of, VerifyError};
use crate::config::AppConfig;
use crate::db::{owned_of_kind, read_row, CredentialStore, DBUserCredentialTypes, DBUserCredentialView};
use crate::error::{verify_failure, Error, NOT_FOUND};
use crate::login::{empty_fields_message, wrong_credentials_message, Login};
use crate::sessions::{create_session, is_session_id, Session, SessionStorage};
use crate::text::{contains_text, texts};
use crate::token::signed_token;

verus! {

/// The name of the step that the password check completes.
pub open spec fn password_step() -> Seq<char> {
    "password"@
}

/// The name of the step that a WebAuthn authentication completes.
pub open spec fn webauthn_step() -> Seq<char> {
    "webauthn"@
}

/// The page that asks for the second factor.
pub open spec fn second_factor_page() -> Seq<char> {
    "/auth/webauthn_2fa"@
}

/// The steps that are still missing after the password check: the WebAuthn
/// step where the user has a registered WebAuthn credential, and none
/// otherwise.
pub open spec fn missing_after_password(rows: Seq<DBUserCredentialView>, username: Seq<char>) -> Seq<
    Seq<char>,
> {
    if rows.filter(owned_of_kind(username, DBUserCredentialTypes::WebauthnCredential)).len() > 0 {
        seq![webauthn_step()]
    } else {
        Seq::empty()
    }
}

/// Where to go after a login: where the request came from, or the start
/// page.
pub open spec fn redirect_target_of(redirect_url: Option<String>) -> Seq<char> {
    match redirect_url {
        Some(url) => url@,
        None => "/"@,
    }
}

/// Where to go after a login: the value of the `redirect_url` cookie, or
/// the start page where there is none.
pub fn auth_login(redirect_url: Option<String>) -> (target: String)
    ensures
        target@ == redirect_target_of(redirect_url),
{
    match redirect_url {
        Some(url) => url,
        None => "/".to_owned(),
    }
}

/// What the local login page shows.
pub struct LoginContext {
    pub app_name: String,
    pub message: Option<String>,
}

/// The local login page without a message.
pub fn login(app_config: &AppConfig) -> (context: LoginContext)
    ensures
        context.app_name@ == app_config.name@,
        context.message is None,
{
    LoginContext { app_name: app_config.name.clone(), message: None }
}

/// What to answer to a submitted local login form.
pub enum LoginOutcome {
    /// Show the login page again.
    Page(LoginContext),
    /// The session was opened: set the session cookie to `cookie_value` and
    /// redirect to `to`.
    Redirect { to: String, cookie_value: String, session: Session },
}

impl LoginOutcome {
    /// Whether the outcome shows the login page of this application with
    /// this message.
    pub open spec fn is_page(self, app_name: Seq<char>, message: Seq<char>) -> bool {
        &&& self matches LoginOutcome::Page(context)
        &&& context.app_name@ == app_name
        &&& context.message matches Some(shown)
        &&& shown@ == message
    }
}

/// Answers a submitted local login form. `password_ok` says whether the
/// directory accepted user name and password; it is not read for a form with
/// an empty field. After a good password a session is opened with the
/// password step completed. Where the user has a registered WebAuthn
/// credential that step is missing, and the user is sent to the second
/// factor; otherwise the session is fully authenticated at once, and the user
/// is sent to where the request came from.
pub fn submit(
    form: &Login,
    password_ok: bool,
    credentials: &CredentialStore,
    session_storage: &mut SessionStorage,
    secret: &[u8],
    redirect_url: Option<String>,
    app_config: &AppConfig,
) -> (outcome: LoginOutcome)
    requires
        old(session_storage).wf(),
    ensures
        final(session_storage).wf(),
        form.username@.len() == 0 || form.password@.len() == 0 ==> outcome.is_page(
            app_config.name@,
            empty_fields_message(),
        ) && final(session_storage)@ == old(session_storage)@,
        form.username@.len() > 0 && form.password@.len() > 0 && !password_ok ==> outcome.is_page(
            app_config.name@,
            wrong_credentials_message(),
        ) && final(session_storage)@ == old(session_storage)@,
        form.username@.len() > 0 && form.password@.len() > 0 && password_ok ==> (
        outcome matches LoginOutcome::Redirect { to, cookie_value, session } && {
            &&& is_session_id(session@.id)
            &&& session.wf()
            &&& session@.username == form.username@
            &&& session@.completed_auth_steps == seq![password_step()]
            &&& session@.missing_auth_steps == missing_after_password(
                credentials@,
                form.username@,
            )
            &&& final(session_storage)@ == old(session_storage)@.insert(session@.id, session@)
            &&& cookie_value@ == signed_token(secret@, session@.id)
            &&& to@ == (if session@.fully_authenticated {
                redirect_target_of(redirect_url)
            } else {
                second_factor_page()
            })
        }),
{
    if form.is_blank() {
        return LoginOutcome::Page(
            LoginContext {
                app_name: app_config.name.clone(),
                message: Some("Username and password cannot be empty".to_owned()),
            },
        );
    }
    if !password_ok {
        return LoginOutcome::Page(
            LoginContext {
                app_name: app_config.name.clone(),
                message: Some("Username and/or password is wrong.".to_owned()),
            },
        );
    }
    let registered = credentials.find_by_username(
        form.username.as_str(),
        DBUserCredentialTypes::WebauthnCredential,
    );
    let mut completed: Vec<String> = Vec::new();
    completed.push("password".to_owned());
    assert(texts(completed@) =~= seq![password_step()]);
    let mut missing: Vec<String> = Vec::new();
    assert(crate::db::row_views(registered@).len() == registered@.len());
    if registered.len() > 0 {
        missing.push("webauthn".to_owned());
        assert(texts(missing@) =~= seq![webauthn_step()]);
    } else {
        assert(texts(missing@) =~= Seq::<Seq<char>>::empty());
    }
    let session = Session::new(form.username.clone(), completed, missing);
    let cookie_value = create_session(session_storage, &session, secret);
    let to = if session.fully_authenticated {
        auth_login(redirect_url)
    } else {
        "/auth/webauthn_2fa".to_owned()
    };
    LoginOutcome::Redirect { to, cookie_value, session }
}

/// Whether a session may see the page that asks for the WebAuthn second
/// factor: only while that step is missing. Any other session is told that
/// there is no such page.
pub fn webauthn_2fa(session: &Session) -> (page: Result<(), Error>)
    ensures
        page is Ok <==> session@.missing_auth_steps.contains(webauthn_step()),
        page is Err ==> page == Err::<(), _>(Error::Http(NOT_FOUND)),
{
    if contains_text(&session.missing_auth_steps, "webauthn") {
        Ok(())
    } else {
        Err(Error::Http(NOT_FOUND))
    }
}

/// Answers the WebAuthn challenge `credential_id` for a session. The
/// challenge is consumed, `verify` is asked whether the response proves
/// possession, and on success the WebAuthn step of the session is completed
/// and the updated session is kept. The result is where to go next.
pub fn webauthn_2fa_login<F: FnOnce(&str) -> bool>(
    session: Session,
    credential_id: u128,
    verify: F,
    credentials: &mut CredentialStore,
    session_storage: &mut SessionStorage,
    redirect_url: Option<String>,
) -> (target: Result<String, Error>)
    requires
        old(credentials).wf(),
        old(session_storage).wf(),
        forall|state: &str| verify.requires((state,)),
    ensures
        final(credentials).wf(),
        final(credentials).bound() == old(credentials).bound(),
        final(session_storage).wf(),
        final(credentials)@ == authentication_rows(
            old(credentials)@,
            credential_id,
            session@.username,
        ),
        match target {
            Ok(url) => {
                &&& url@ == redirect_target_of(redirect_url)
                &&& final(session_storage)@ == old(session_storage)@.insert(
                    session@.id,
                    session@.finish_step(webauthn_step()),
                )
            },
            Err(_) => final(session_storage)@ == old(session_storage)@,
        },
        match read_row(
            old(credentials)@,
            credential_id,
            session@.username,
            DBUserCredentialTypes::WebauthnAuthentication,
        ) {
            Err(e) => target == Err::<String, _>(verify_failure(read_failure(e))),
            Ok(row) => {
                &&& target is Ok ==> answered(verify, webauthn_text_of(row), true)
                &&& target is Err ==> answered(verify, webauthn_text_of(row), false) && target
                    == Err::<String, _>(verify_failure(VerifyError::Rejected))
            },
        },
{
    match finish_webauthn_authentication(
        credentials,
        credential_id,
        session.username.as_str(),
        verify,
    ) {
        Err(e) => Err(Error::from(e)),
        Ok(()) => {
            session.finish_step("webauthn", session_storage);
            Ok(auth_login(redirect_url))
        },
    }
}

} // verus!
