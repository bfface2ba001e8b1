//! The handshake with the authorization server: what to answer to a login
//! challenge and to a consent challenge.
//!
//! The authorization server hands out a challenge for each login and each
//! consent request. The caller fetches the request behind the challenge,
//! asks the library what to do, and sends the answer the library built.

use vstd::prelude::*;
use vstd::string::*;
use crate::config::{AppConfig, HydraConfig};
use crate::consent::{claims_of, data_to_session, recognized, recognized_scopes, scope_table, scope_views,
    ConsentRequestSession, DirectoryEntry, Scope};
use crate::error::{Error, BAD_REQUEST};
use crate::sessions::User;
use crate::text::{copy_texts, texts};

verus! {

/// Where a challenge stands.
#[derive(Clone, Copy, Debug, PartialEq, Eq, Structural)]
pub enum ChallengeState {
    /// The request behind the challenge was not fetched yet.
    Pending,
    /// The authorization server knows the subject already: the challenge is
    /// accepted without asking the user.
    SkipAccept,
    /// The user has to authenticate, or to decide, first.
    AwaitingLocalAuth,
    /// The challenge was accepted.
    Accept,
    /// The challenge was rejected.
    Reject,
}

/// What happens to a challenge.
#[derive(Clone, Copy, Debug, PartialEq, Eq, Structural)]
pub enum ChallengeEvent {
    /// The request behind the challenge was fetched; `skip` says whether the
    /// authorization server knows the subject already.
    Fetched { skip: bool },
    /// The user authenticated, or approved.
    Approved,
    /// The user denied.
    Denied,
}

impl ChallengeState {
    /// Whether nothing can happen to the challenge any more.
    pub open spec fn is_terminal(self) -> bool {
        self == ChallengeState::SkipAccept || self == ChallengeState::Accept || self
            == ChallengeState::Reject
    }

    /// The state after `event`, and `None` where the event cannot happen in
    /// this state.
    pub open spec fn after(self, event: ChallengeEvent) -> Option<ChallengeState> {
        match (self, event) {
            (ChallengeState::Pending, ChallengeEvent::Fetched { skip }) => Some(
                if skip {
                    ChallengeState::SkipAccept
                } else {
                    ChallengeState::AwaitingLocalAuth
                },
            ),
            (ChallengeState::AwaitingLocalAuth, ChallengeEvent::Approved) => Some(
                ChallengeState::Accept,
            ),
            (ChallengeState::AwaitingLocalAuth, ChallengeEvent::Denied) => Some(
                ChallengeState::Reject,
            ),
            _ => None,
        }
    }

    /// The state after `event`, and `None` where the event cannot happen in
    /// this state.
    pub fn advance(self, event: ChallengeEvent) -> (next: Option<ChallengeState>)
        ensures
            next == self.after(event),
    {
        match self {
            ChallengeState::Pending => match event {
                ChallengeEvent::Fetched { skip } => {
                    if skip {
                        Some(ChallengeState::SkipAccept)
                    } else {
                        Some(ChallengeState::AwaitingLocalAuth)
                    }
                },
                _ => None,
            },
            ChallengeState::AwaitingLocalAuth => match event {
                ChallengeEvent::Approved => Some(ChallengeState::Accept),
                ChallengeEvent::Denied => Some(ChallengeState::Reject),
                _ => None,
            },
            _ => None,
        }
    }
}

/// An accepted or rejected challenge is done: no event leads anywhere from
/// it, and no event leads back to `Pending`.
pub proof fn lemma_challenge_is_used_once(state: ChallengeState, event: ChallengeEvent)
    ensures
        state.is_terminal() ==> state.after(event) is None,
        state.after(event) != Some(ChallengeState::Pending),
        state.after(event) matches Some(next) ==> next.is_terminal() || state
            == ChallengeState::Pending,
{
}

/// What the authorization server says of a login request.
pub struct LoginRequest {
    /// Whether the authorization server knows the subject already.
    pub skip: bool,
    /// The subject that the authorization server knows; empty unless `skip`.
    pub subject: String,
}

/// The body that accepts a login request.
pub struct AcceptLoginRequest {
    pub subject: String,
    pub remember: Option<bool>,
    pub remember_for: Option<i64>,
}

/// What to do about a login challenge.
pub enum LoginStep {
    /// Accept the login with this body and redirect to where the
    /// authorization server says.
    Accept(AcceptLoginRequest),
    /// The user has to authenticate locally first.
    Authenticate,
}

/// The subject that a login request is accepted for, if it can be accepted
/// now: the subject that the authorization server knows where it says
/// `skip`, and otherwise the fully authenticated local user.
pub open spec fn login_subject(skip: bool, known: Seq<char>, user: Option<Seq<char>>) -> Option<
    Seq<char>,
> {
    if skip {
        Some(known)
    } else {
        user
    }
}

/// The body that accepts a login request for `subject`; nothing is
/// remembered.
pub fn accept_login(subject: String) -> (body: AcceptLoginRequest)
    ensures
        body.subject@ == subject@,
        body.remember is None,
        body.remember_for is None,
{
    AcceptLoginRequest { subject, remember: None, remember_for: None }
}

/// Decides what to do about a login challenge. A request that the
/// authorization server marks `skip` is accepted at once, for the subject it
/// names, whether or not there is a local session. Any other request is
/// accepted for the local user if one is fully authenticated, and needs a
/// local login first if none is.
pub fn begin_login(request: &LoginRequest, user: Option<User>) -> (step: LoginStep)
    ensures
        match login_subject(
            request.skip,
            request.subject@,
            match user {
                Some(u) => Some(u.0@),
                None => None,
            },
        ) {
            Some(subject) => step matches LoginStep::Accept(body) && body.subject@ == subject
                && body.remember is None && body.remember_for is None,
            None => step is Authenticate,
        },
{
    if request.skip {
        LoginStep::Accept(accept_login(request.subject.clone()))
    } else {
        match user {
            Some(u) => LoginStep::Accept(accept_login(u.get_username())),
            None => LoginStep::Authenticate,
        }
    }
}

/// What the authorization server says of a consent request.
pub struct ConsentRequest {
    /// Whether the user has consented to this client before.
    pub skip: bool,
    /// The user who is asked.
    pub subject: String,
    /// The scopes that the client asks for.
    pub requested_scope: Vec<String>,
    /// The audience that the client asks for.
    pub requested_access_token_audience: Option<Vec<String>>,
    /// The client's name.
    pub client_name: String,
    /// The client's address, if it gave one.
    pub client_uri: Option<String>,
}

/// What the consent page shows.
pub struct ConsentContext {
    pub app_name: String,
    pub message: Option<String>,
    pub consent_challenge: String,
    pub client_name: String,
    pub client_uri: String,
    pub requested_scopes: Vec<Scope>,
}

/// What to do about a consent challenge.
pub enum ConsentStep {
    /// Accept at once, without asking the user.
    Accept,
    /// Ask the user.
    Display(ConsentContext),
}

/// Decides what to do about a consent challenge. A request marked `skip`
/// is accepted at once. For any other the user is shown the client's name
/// and address (empty where it gave none) and those of the requested scopes
/// that are known.
pub fn index(request: &ConsentRequest, consent_challenge: &str, app_config: &AppConfig) -> (step:
    ConsentStep)
    ensures
        request.skip ==> step is Accept,
        !request.skip ==> (step matches ConsentStep::Display(context) && {
            &&& context.app_name@ == app_config.name@
            &&& context.message is None
            &&& context.consent_challenge@ == consent_challenge@
            &&& context.client_name@ == request.client_name@
            &&& context.client_uri@ == (match request.client_uri {
                Some(uri) => uri@,
                None => Seq::empty(),
            })
            &&& scope_views(context.requested_scopes@) == recognized(
                scope_table(),
                texts(request.requested_scope@),
            )
        }),
{
    if request.skip {
        return ConsentStep::Accept;
    }
    ConsentStep::Display(
        ConsentContext {
            app_name: app_config.name.clone(),
            message: None,
            consent_challenge: consent_challenge.to_owned(),
            client_name: request.client_name.clone(),
            client_uri: match &request.client_uri {
                Some(uri) => uri.clone(),
                None => String::new(),
            },
            requested_scopes: recognized_scopes(&request.requested_scope),
        },
    )
}

/// The body that accepts a consent request.
pub struct AcceptConsentRequest {
    pub grant_access_token_audience: Option<Vec<String>>,
    pub grant_scope: Vec<String>,
    pub handled_at: String,
    pub remember: bool,
    pub remember_for: i64,
    pub session: ConsentRequestSession,
}

/// The character sequences of an optional list of strings.
pub open spec fn optional_texts(items: Option<Vec<String>>) -> Option<Seq<Seq<char>>> {
    match items {
        Some(list) => Some(texts(list@)),
        None => None,
    }
}

/// Builds the body that accepts a consent request at the time `handled_at`.
/// Every requested scope is granted, with the requested audience; the claims
/// are those that the granted scopes disclose of the subject's directory
/// entry; whether and for how long the consent is remembered comes from the
/// settings. Without a directory entry for the subject the request is bad.
pub fn accept_consent_request_at(
    request: &ConsentRequest,
    ldap_user: Option<&DirectoryEntry>,
    hydra_config: &HydraConfig,
    handled_at: String,
) -> (body: Result<AcceptConsentRequest, Error>)
    ensures
        match ldap_user {
            None => body == Err::<AcceptConsentRequest, _>(Error::Http(BAD_REQUEST)),
            Some(entry) => body matches Ok(accept) && {
                &&& optional_texts(accept.grant_access_token_audience) == optional_texts(
                    request.requested_access_token_audience,
                )
                &&& texts(accept.grant_scope@) == texts(request.requested_scope@)
                &&& accept.handled_at@ == handled_at@
                &&& accept.remember == hydra_config.consent_remember_me
                &&& accept.remember_for == hydra_config.consent_remember_me_for
                &&& accept.session@ == claims_of(
                    scope_table(),
                    entry@,
                    texts(request.requested_scope@),
                )
            },
        },
{
    match ldap_user {
        None => Err(Error::Http(BAD_REQUEST)),
        Some(entry) => Ok(
            AcceptConsentRequest {
                grant_access_token_audience: match &request.requested_access_token_audience {
                    Some(audience) => Some(copy_texts(audience)),
                    None => None,
                },
                grant_scope: copy_texts(&request.requested_scope),
                handled_at,
                remember: hydra_config.consent_remember_me,
                remember_for: hydra_config.consent_remember_me_for,
                session: data_to_session(entry, &request.requested_scope),
            },
        ),
    }
}

/// Builds the body that accepts a consent request now.
pub fn accept_consent_request(
    request: &ConsentRequest,
    ldap_user: Option<&DirectoryEntry>,
    hydra_config: &HydraConfig,
) -> (body: Result<AcceptConsentRequest, Error>)
    ensures
        match ldap_user {
            None => body == Err::<AcceptConsentRequest, _>(Error::Http(BAD_REQUEST)),
            Some(entry) => body matches Ok(accept) && {
                &&& optional_texts(accept.grant_access_token_audience) == optional_texts(
                    request.requested_access_token_audience,
                )
                &&& texts(accept.grant_scope@) == texts(request.requested_scope@)
                &&& accept.remember == hydra_config.consent_remember_me
                &&& accept.remember_for == hydra_config.consent_remember_me_for
                &&& accept.session@ == claims_of(
                    scope_table(),
                    entry@,
                    texts(request.requested_scope@),
                )
            },
        },
{
    accept_consent_request_at(
        request,
        ldap_user,
        hydra_config,
        crate::sessions::current_timestamp(),
    )
}

/// The body that rejects a request.
pub struct RejectRequest {
    pub error: String,
    pub error_description: String,
}

/// The body that rejects a consent request: the user denied access.
pub fn reject() -> (body: RejectRequest)
    ensures
        body.error@ == "access_denied"@,
        body.error_description@ == "The user rejected the request."@,
{
    RejectRequest {
        error: "access_denied".to_owned(),
        error_description: "The user rejected the request.".to_owned(),
    }
}

} // verus!
