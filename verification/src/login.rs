//! The login page that answers a login challenge of the authorization
//! server directly, with a user name and a password.

use vstd::prelude::*;
use vstd::string::*;
use crate::auth::CookieUser;
use crate::config::AppConfig;
use crate::oidc::{accept_login, AcceptLoginRequest, LoginRequest};

verus! {

/// The login form.
pub struct Login {
    pub username: String,
    pub password: String,
}

/// The message for a form with an empty field.
pub open spec fn empty_fields_message() -> Seq<char> {
    "Username and password cannot be empty"@
}

/// The message for a user name and password that the directory refused.
pub open spec fn wrong_credentials_message() -> Seq<char> {
    "Username and/or password is wrong."@
}

impl Login {
    /// Whether the user name or the password is empty. Such a form is
    /// answered without asking the directory.
    pub fn is_blank(&self) -> (blank: bool)
        ensures
            blank == (self.username@.len() == 0 || self.password@.len() == 0),
    {
        self.username.as_str().is_empty() || self.password.as_str().is_empty()
    }
}

/// What the login page shows.
pub struct LoginContext {
    pub app_name: String,
    pub message: Option<String>,
    pub login_challenge: String,
}

/// What to answer to a request for the login page, or to a submitted form.
pub enum LoginStep {
    /// Show the login page.
    Page(LoginContext),
    /// Accept the login challenge with this body, and redirect to where the
    /// authorization server says. Where `remember_username` is there, the
    /// private `username` cookie is set to it.
    Accept { body: AcceptLoginRequest, remember_username: Option<String> },
}

impl LoginStep {
    /// Whether the step shows the login page for this application and this
    /// challenge with this message.
    pub open spec fn is_page(
        self,
        app_name: Seq<char>,
        login_challenge: Seq<char>,
        message: Option<Seq<char>>,
    ) -> bool {
        self matches LoginStep::Page(context) && context.app_name@ == app_name
            && context.login_challenge@ == login_challenge && (match (context.message, message) {
            (Some(shown), Some(wanted)) => shown@ == wanted,
            (None, None) => true,
            _ => false,
        })
    }

    /// Whether the step accepts the login for this subject, remembering
    /// nothing at the authorization server, and sets the `username` cookie as
    /// given.
    pub open spec fn is_accept(self, subject: Seq<char>, cookie: Option<Seq<char>>) -> bool {
        self matches LoginStep::Accept { body, remember_username } && body.subject@ == subject
            && body.remember is None && body.remember_for is None && (match (
            remember_username,
            cookie,
        ) {
            (Some(set), Some(wanted)) => set@ == wanted,
            (None, None) => true,
            _ => false,
        })
    }
}

/// Answers a request for the login page. A login request that the
/// authorization server marks `skip` is accepted for the subject it names;
/// any other is accepted for the user that the cookie names, and shows the
/// login page where there is none.
pub fn handle_login(
    user: Option<CookieUser>,
    request: &LoginRequest,
    login_challenge: &str,
    app_config: &AppConfig,
) -> (step: LoginStep)
    ensures
        request.skip ==> step.is_accept(request.subject@, None),
        !request.skip ==> (match user {
            Some(u) => step.is_accept(u.0@, None),
            None => step.is_page(app_config.name@, login_challenge@, None),
        }),
{
    if request.skip {
        return LoginStep::Accept {
            body: accept_login(request.subject.clone()),
            remember_username: None,
        };
    }
    match user {
        Some(user_record) => LoginStep::Accept {
            body: accept_login(user_record.get_username()),
            remember_username: None,
        },
        None => LoginStep::Page(
            LoginContext {
                app_name: app_config.name.clone(),
                message: None,
                login_challenge: login_challenge.to_owned(),
            },
        ),
    }
}

/// Answers a request for the login page from a user that the cookie names:
/// the login is accepted.
pub fn auth_index(
    user: CookieUser,
    request: &LoginRequest,
    login_challenge: &str,
    app_config: &AppConfig,
) -> (step: LoginStep)
    ensures
        step.is_accept(
            if request.skip {
                request.subject@
            } else {
                user.0@
            },
            None,
        ),
{
    handle_login(Some(user), request, login_challenge, app_config)
}

/// Answers a request for the login page without a cookie: the page is
/// shown, unless the authorization server says `skip`.
pub fn index(request: &LoginRequest, login_challenge: &str, app_config: &AppConfig) -> (step:
    LoginStep)
    ensures
        request.skip ==> step.is_accept(request.subject@, None),
        !request.skip ==> step.is_page(app_config.name@, login_challenge@, None),
{
    handle_login(None, request, login_challenge, app_config)
}

/// Answers a submitted login form. `bind_succeeded` says whether the
/// directory accepted user name and password; it is not read for a form with
/// an empty field, which is answered with a message of its own.
pub fn submit(form: &Login, bind_succeeded: bool, login_challenge: &str, app_config: &AppConfig) -> (step:
    LoginStep)
    ensures
        form.username@.len() == 0 || form.password@.len() == 0 ==> step.is_page(
            app_config.name@,
            login_challenge@,
            Some(empty_fields_message()),
        ),
        form.username@.len() > 0 && form.password@.len() > 0 && !bind_succeeded ==> step.is_page(
            app_config.name@,
            login_challenge@,
            Some(wrong_credentials_message()),
        ),
        form.username@.len() > 0 && form.password@.len() > 0 && bind_succeeded ==> step.is_accept(
            form.username@,
            Some(form.username@),
        ),
{
    if form.is_blank() {
        LoginStep::Page(
            LoginContext {
                app_name: app_config.name.clone(),
                message: Some("Username and password cannot be empty".to_owned()),
                login_challenge: login_challenge.to_owned(),
            },
        )
    } else if bind_succeeded {
        LoginStep::Accept {
            body: accept_login(form.username.clone()),
            remember_username: Some(form.username.clone()),
        }
    } else {
        LoginStep::Page(
            LoginContext {
                app_name: app_config.name.clone(),
                message: Some("Username and/or password is wrong.".to_owned()),
                login_challenge: login_challenge.to_owned(),
            },
        )
    }
}

} // verus!
