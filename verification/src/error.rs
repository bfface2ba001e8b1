//! The errors of a request, and the HTTP status each is answered with.

use vstd::prelude::*;
use crate::challenge::VerifyError;
use crate::db::StorageError;

verus! {

/// HTTP status 400.
pub const BAD_REQUEST: u16 = 400;

/// HTTP status 404.
pub const NOT_FOUND: u16 = 404;

/// HTTP status 500.
pub const INTERNAL_SERVER_ERROR: u16 = 500;

/// HTTP status 503.
pub const SERVICE_UNAVAILABLE: u16 = 503;

/// How a call to the authorization server failed.
#[derive(Clone, Copy, Debug, PartialEq, Eq, Structural)]
pub enum HydraError {
    /// The server answered with this HTTP status.
    ResponseError { status: u16 },
    /// The call failed before an answer could be read.
    Other,
}

/// What went wrong with a request.
#[derive(Clone, Copy, Debug, PartialEq, Eq, Structural)]
pub enum Error {
    /// The request is answered with this HTTP status.
    Http(u16),
    /// The directory failed.
    Ldap,
    /// The authorization server failed; `status` is the status to answer
    /// with.
    Hydra { status: u16 },
    /// The credential table failed.
    DB,
    /// Stored data could not be read or written as JSON.
    SerdeJSON,
    /// The session store failed.
    Redis,
}

/// Whether an HTTP status is a server error: 500 to 599.
pub open spec fn is_server_error(status: u16) -> bool {
    500 <= status < 600
}

/// Whether an HTTP status is a client error: 400 to 499.
pub open spec fn is_client_error(status: u16) -> bool {
    400 <= status < 500
}

/// The error that a failed call to the authorization server is reported as:
/// a server error there is "service unavailable" here, a client error there
/// is a bad request, and anything else, a call that got no answer included,
/// is an internal error.
pub open spec fn hydra_failure(err: HydraError) -> Error {
    match err {
        HydraError::ResponseError { status } => if is_server_error(status) {
            Error::Hydra { status: SERVICE_UNAVAILABLE }
        } else if is_client_error(status) {
            Error::Hydra { status: BAD_REQUEST }
        } else {
            Error::Hydra { status: INTERNAL_SERVER_ERROR }
        },
        HydraError::Other => Error::Hydra { status: INTERNAL_SERVER_ERROR },
    }
}

impl From<HydraError> for Error {
    fn from(err: HydraError) -> (error: Error) {
        match err {
            HydraError::ResponseError { status } => {
                if 500 <= status && status < 600 {
                    Error::Hydra { status: SERVICE_UNAVAILABLE }
                } else if 400 <= status && status < 500 {
                    Error::Hydra { status: BAD_REQUEST }
                } else {
                    Error::Hydra { status: INTERNAL_SERVER_ERROR }
                }
            },
            HydraError::Other => Error::Hydra { status: INTERNAL_SERVER_ERROR },
        }
    }
}

impl vstd::std_specs::convert::FromSpecImpl<HydraError> for Error {
    open spec fn obeys_from_spec() -> bool {
        true
    }

    open spec fn from_spec(err: HydraError) -> Error {
        hydra_failure(err)
    }
}

/// The error that a failed answer to a challenge is reported as: a
/// challenge that is not there is "not found"; a rejected answer and an
/// internal failure are both an internal error, so that the client learns
/// nothing of why the answer failed.
pub open spec fn verify_failure(err: VerifyError) -> Error {
    match err {
        VerifyError::NotFound => Error::Http(NOT_FOUND),
        VerifyError::Rejected => Error::Http(INTERNAL_SERVER_ERROR),
        VerifyError::Internal => Error::Http(INTERNAL_SERVER_ERROR),
    }
}

impl From<VerifyError> for Error {
    fn from(err: VerifyError) -> (error: Error) {
        match err {
            VerifyError::NotFound => Error::Http(NOT_FOUND),
            VerifyError::Rejected => Error::Http(INTERNAL_SERVER_ERROR),
            VerifyError::Internal => Error::Http(INTERNAL_SERVER_ERROR),
        }
    }
}

impl vstd::std_specs::convert::FromSpecImpl<VerifyError> for Error {
    open spec fn obeys_from_spec() -> bool {
        true
    }

    open spec fn from_spec(err: VerifyError) -> Error {
        verify_failure(err)
    }
}

impl From<StorageError> for Error {
    fn from(err: StorageError) -> (error: Error) {
        Error::DB
    }
}

impl vstd::std_specs::convert::FromSpecImpl<StorageError> for Error {
    open spec fn obeys_from_spec() -> bool {
        true
    }

    open spec fn from_spec(err: StorageError) -> Error {
        Error::DB
    }
}

impl Error {
    /// The HTTP status that the error is answered with: its own where it
    /// has one, and 500 for every failure of a collaborator.
    pub open spec fn spec_status(self) -> u16 {
        match self {
            Error::Http(status) => status,
            Error::Hydra { status } => status,
            Error::Ldap => INTERNAL_SERVER_ERROR,
            Error::SerdeJSON => INTERNAL_SERVER_ERROR,
            Error::Redis => INTERNAL_SERVER_ERROR,
            Error::DB => INTERNAL_SERVER_ERROR,
        }
    }

    /// The HTTP status that the error is answered with.
    pub fn respond_to(&self) -> (status: u16)
        ensures
            status == self.spec_status(),
    {
        match self {
            Error::Http(status) => *status,
            Error::Hydra { status } => *status,
            Error::Ldap => INTERNAL_SERVER_ERROR,
            Error::SerdeJSON => INTERNAL_SERVER_ERROR,
            Error::Redis => INTERNAL_SERVER_ERROR,
            Error::DB => INTERNAL_SERVER_ERROR,
        }
    }

    /// A short description of the error.
    pub fn message(&self) -> (text: String)
        ensures
            text@ == (match *self {
                Error::Http(_) => "HTTP status"@,
                Error::Ldap => "LDAP error"@,
                Error::Hydra { status } => "Hydra error"@,
                Error::DB => "SQL DB error"@,
                Error::SerdeJSON => "Serde json error"@,
                Error::Redis => "Redis error"@,
            }),
    {
        match self {
            Error::Http(_) => "HTTP status".to_owned(),
            Error::Ldap => "LDAP error".to_owned(),
            Error::Hydra { status } => "Hydra error".to_owned(),
            Error::DB => "SQL DB error".to_owned(),
            Error::SerdeJSON => "Serde json error".to_owned(),
            Error::Redis => "Redis error".to_owned(),
        }
    }
}

/// A failure of the authorization server is answered with 503 exactly for
/// its server errors, with 400 exactly for its client errors, and with 500
/// for everything else.
pub proof fn lemma_hydra_failure_status(err: HydraError)
    ensures
        hydra_failure(err).spec_status() == SERVICE_UNAVAILABLE <==> (err matches HydraError::ResponseError {
            status,
        } && is_server_error(status)),
        hydra_failure(err).spec_status() == BAD_REQUEST <==> (err matches HydraError::ResponseError {
            status,
        } && is_client_error(status)),
        hydra_failure(err).spec_status() == INTERNAL_SERVER_ERROR <==> (err is Other || (
        err matches HydraError::ResponseError { status } && !is_server_error(status)
            && !is_client_error(status))),
{
}

} // verus!
