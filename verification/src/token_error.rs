//! The errors of the token manager, and how failures of its collaborators
//! turn into them.

use vstd::prelude::*;
use vstd::std_specs::convert::FromSpecImpl;

verus! {

/// The status that the token manager reports to its client.
#[derive(Debug, Clone, Copy, PartialEq, Eq, Structural)]
pub enum Status {
    /// The request succeeded.
    Okay,
    AuthProviderServerError,
    InternalError,
    InvalidRequest,
    NetworkError,
    ReauthRequired,
    UnknownError,
    UserCancelled,
    UserNotFound,
}

/// The status that an auth provider reports.
#[derive(Debug, Clone, Copy, PartialEq, Eq, Structural)]
pub enum AuthProviderStatus {
    BadRequest,
    OauthServerError,
    UserCancelled,
    ReauthRequired,
    NetworkError,
    InternalError,
    /// Any other status.
    Other,
}

/// A failure of the credential store.
#[derive(Debug, Clone, Copy, PartialEq, Eq, Structural)]
pub enum AuthDbError {
    InvalidArguments,
    DbInvalid,
    CredentialNotFound,
    SerializationError,
    /// Any other failure.
    Other,
}

/// A failure of the token cache.
#[derive(Debug, Clone, Copy, PartialEq, Eq, Structural)]
pub enum AuthCacheError {
    InvalidArguments,
    KeyNotFound,
}

/// A problem met in the token manager: the status to report to the client,
/// and whether the problem ends all work on the current channel.
#[derive(Debug, Clone, Copy, PartialEq, Eq, Structural)]
pub struct TokenManagerError {
    pub status: Status,
    pub fatal: bool,
}

/// The error that a failure of the credential store turns into. A store that
/// is invalid, or was asked with invalid arguments, is fatal.
pub open spec fn spec_from_db_error(e: AuthDbError) -> TokenManagerError {
    match e {
        AuthDbError::InvalidArguments => TokenManagerError { status: Status::InvalidRequest, fatal: true },
        AuthDbError::DbInvalid => TokenManagerError { status: Status::InternalError, fatal: true },
        AuthDbError::CredentialNotFound => TokenManagerError {
            status: Status::UserNotFound,
            fatal: false,
        },
        AuthDbError::SerializationError => TokenManagerError {
            status: Status::InternalError,
            fatal: false,
        },
        AuthDbError::Other => TokenManagerError { status: Status::UnknownError, fatal: false },
    }
}

/// The error that a failure of the token cache turns into. None is fatal.
pub open spec fn spec_from_cache_error(e: AuthCacheError) -> TokenManagerError {
    match e {
        AuthCacheError::InvalidArguments => TokenManagerError {
            status: Status::InvalidRequest,
            fatal: false,
        },
        AuthCacheError::KeyNotFound => TokenManagerError { status: Status::UserNotFound, fatal: false },
    }
}

/// The status that stands for the status of an auth provider.
pub open spec fn spec_provider_status(s: AuthProviderStatus) -> Status {
    match s {
        AuthProviderStatus::BadRequest => Status::InvalidRequest,
        AuthProviderStatus::OauthServerError => Status::AuthProviderServerError,
        AuthProviderStatus::UserCancelled => Status::UserCancelled,
        AuthProviderStatus::ReauthRequired => Status::ReauthRequired,
        AuthProviderStatus::NetworkError => Status::NetworkError,
        AuthProviderStatus::InternalError => Status::InternalError,
        AuthProviderStatus::Other => Status::UnknownError,
    }
}

impl TokenManagerError {
    /// A non-fatal error with the given status.
    pub fn new(status: Status) -> (e: TokenManagerError)
        ensures
            e == (TokenManagerError { status, fatal: false }),
    {
        TokenManagerError { status, fatal: false }
    }
}

impl From<Status> for TokenManagerError {
    fn from(status: Status) -> (e: TokenManagerError) {
        TokenManagerError::new(status)
    }
}

impl FromSpecImpl<Status> for TokenManagerError {
    open spec fn obeys_from_spec() -> bool {
        true
    }

    open spec fn from_spec(status: Status) -> TokenManagerError {
        TokenManagerError { status, fatal: false }
    }
}

impl From<AuthDbError> for TokenManagerError {
    fn from(auth_db_error: AuthDbError) -> (e: TokenManagerError) {
        let (status, fatal) = match auth_db_error {
            AuthDbError::InvalidArguments => (Status::InvalidRequest, true),
            AuthDbError::DbInvalid => (Status::InternalError, true),
            AuthDbError::CredentialNotFound => (Status::UserNotFound, false),
            AuthDbError::SerializationError => (Status::InternalError, false),
            AuthDbError::Other => (Status::UnknownError, false),
        };
        TokenManagerError { status, fatal }
    }
}

impl FromSpecImpl<AuthDbError> for TokenManagerError {
    open spec fn obeys_from_spec() -> bool {
        true
    }

    open spec fn from_spec(e: AuthDbError) -> TokenManagerError {
        spec_from_db_error(e)
    }
}

impl From<AuthCacheError> for TokenManagerError {
    fn from(auth_cache_error: AuthCacheError) -> (e: TokenManagerError) {
        TokenManagerError {
            status: match auth_cache_error {
                AuthCacheError::InvalidArguments => Status::InvalidRequest,
                AuthCacheError::KeyNotFound => Status::UserNotFound,
            },
            fatal: false,
        }
    }
}

impl FromSpecImpl<AuthCacheError> for TokenManagerError {
    open spec fn obeys_from_spec() -> bool {
        true
    }

    open spec fn from_spec(e: AuthCacheError) -> TokenManagerError {
        spec_from_cache_error(e)
    }
}

impl From<AuthProviderStatus> for TokenManagerError {
    fn from(auth_provider_status: AuthProviderStatus) -> (e: TokenManagerError) {
        TokenManagerError {
            status: match auth_provider_status {
                AuthProviderStatus::BadRequest => Status::InvalidRequest,
                AuthProviderStatus::OauthServerError => Status::AuthProviderServerError,
                AuthProviderStatus::UserCancelled => Status::UserCancelled,
                AuthProviderStatus::ReauthRequired => Status::ReauthRequired,
                AuthProviderStatus::NetworkError => Status::NetworkError,
                AuthProviderStatus::InternalError => Status::InternalError,
                AuthProviderStatus::Other => Status::UnknownError,
            },
            fatal: false,
        }
    }
}

impl FromSpecImpl<AuthProviderStatus> for TokenManagerError {
    open spec fn obeys_from_spec() -> bool {
        true
    }

    open spec fn from_spec(s: AuthProviderStatus) -> TokenManagerError {
        TokenManagerError { status: spec_provider_status(s), fatal: false }
    }
}

/// Turns the failure of a result into a non-fatal error of the token manager
/// with the given status; a success stays as it is.
pub fn token_manager_status<T, E>(result: Result<T, E>, status: Status) -> (r: Result<T, TokenManagerError>)
    ensures
        r == (match result {
            Ok(value) => Ok::<T, TokenManagerError>(value),
            Err(_) => Err(TokenManagerError { status, fatal: false }),
        }),
{
    match result {
        Ok(value) => Ok(value),
        Err(_) => Err(TokenManagerError::new(status)),
    }
}

/// No failure of the token cache is fatal, and of the failures of the
/// credential store only an invalid store and invalid arguments are. No
/// status of an auth provider is reported as success.
pub proof fn lemma_fatal_errors(db: AuthDbError, cache: AuthCacheError, provider: AuthProviderStatus)
    ensures
        spec_from_db_error(db).fatal <==> (db == AuthDbError::InvalidArguments || db
            == AuthDbError::DbInvalid),
        !spec_from_cache_error(cache).fatal,
        spec_provider_status(provider) != Status::Okay,
{
}

} // verus!
