//! Error values of the acquisition pipeline.
//!
//! Every fatal condition carries enough context (the failing entry, URL or
//! negotiation reason) to be diagnosed without logs. The rate-limit condition
//! is not an error at all: it is absorbed by the retry policy in
//! `crate::retry` and never surfaces here.

use vstd::prelude::*;

verus! {

/// A structured error kind returned by the authorization server on the
/// redirect, mirroring the OAuth2 error codes of the authorize endpoint.
#[derive(Clone, Copy, Debug, PartialEq, Eq, Structural)]
pub enum AuthErrorKind {
    /// The request is missing a parameter, contains an invalid parameter,
    /// includes a parameter more than once, or is otherwise invalid.
    InvalidRequest,
    /// The user or authorization server denied the request.
    AccessDenied,
    /// The client is not allowed to request an authorization code this way.
    UnauthorizedClient,
    /// The server does not support obtaining an authorization code this way.
    UnsupportedResponseType,
    /// The requested scope is invalid or unknown.
    InvalidScope,
    /// The authorization server hit an internal error.
    ServerError,
    /// The authorization server is undergoing maintenance or is otherwise
    /// unavailable.
    TemporarilyUnavailable,
}

/// The fixed diagnostic text of each remote error kind.
pub open spec fn spec_kind_message(kind: AuthErrorKind) -> Seq<char> {
    match kind {
        AuthErrorKind::AccessDenied => "you didn't allow access"@,
        AuthErrorKind::InvalidRequest => "the code is wrong"@,
        AuthErrorKind::UnauthorizedClient => "the code is wrong"@,
        AuthErrorKind::UnsupportedResponseType => "the code is wrong"@,
        AuthErrorKind::InvalidScope => "the code is wrong"@,
        AuthErrorKind::ServerError => "the twitter api broke"@,
        AuthErrorKind::TemporarilyUnavailable => "the twitter api is down"@,
    }
}

impl AuthErrorKind {
    /// A short human-readable account of the failure.
    pub fn message(&self) -> (m: String)
        ensures
            m@ == spec_kind_message(*self),
    {
        match self {
            AuthErrorKind::AccessDenied => "you didn't allow access".to_owned(),
            AuthErrorKind::InvalidRequest
            | AuthErrorKind::UnauthorizedClient
            | AuthErrorKind::UnsupportedResponseType
            | AuthErrorKind::InvalidScope => "the code is wrong".to_owned(),
            AuthErrorKind::ServerError => "the twitter api broke".to_owned(),
            AuthErrorKind::TemporarilyUnavailable => "the twitter api is down".to_owned(),
        }
    }
}

/// The specific reason an authorization negotiation failed. One value of this
/// enum accompanies every failed negotiation, so callers can tell the cases
/// apart without parsing message text.
#[derive(Clone, Copy, Debug, PartialEq, Eq, Structural)]
pub enum AuthFailure {
    /// The redirect carried a structured error payload from the server.
    Remote(AuthErrorKind),
    /// The state returned by the redirect differed from the CSRF token that
    /// was generated for this attempt.
    CsrfMismatch,
    /// The transport failed while exchanging the code for a token.
    Transport,
    /// The token endpoint's response body could not be decoded.
    Decode,
}

/// The fixed diagnostic text of each negotiation failure.
pub open spec fn spec_failure_message(failure: AuthFailure) -> Seq<char> {
    match failure {
        AuthFailure::Remote(kind) => spec_kind_message(kind),
        AuthFailure::CsrfMismatch => "bad csrf token"@,
        AuthFailure::Transport => "token exchange transport failed"@,
        AuthFailure::Decode => "token response could not be decoded"@,
    }
}

impl AuthFailure {
    /// A short human-readable account of the failure.
    pub fn message(&self) -> (m: String)
        ensures
            m@ == spec_failure_message(*self),
    {
        match self {
            AuthFailure::Remote(kind) => kind.message(),
            AuthFailure::CsrfMismatch => "bad csrf token".to_owned(),
            AuthFailure::Transport => "token exchange transport failed".to_owned(),
            AuthFailure::Decode => "token response could not be decoded".to_owned(),
        }
    }
}

/// A fatal error of the acquisition pipeline. Any value of this type aborts
/// the whole load; no partial results are kept.
#[derive(Debug, PartialEq, Eq)]
pub enum Error {
    /// An archive entry did not have the expected shape. `context` names the
    /// token or entry that was being read.
    DataFormat { context: String },
    /// The network or connection failed. `context` names the stage.
    Transport { context: String },
    /// The interactive OAuth2 negotiation failed.
    Authorization { failure: AuthFailure },
    /// A response envelope did not have the expected shape. Carries the raw
    /// response body and the request URL for diagnosing upstream drift.
    Decode { url: String, body: String },
}

/// The fixed diagnostic text of each failure stage.
pub open spec fn spec_error_message(e: Error) -> Seq<char> {
    match e {
        Error::DataFormat { context } => "archive data is malformed"@,
        Error::Transport { context } => "request transport failed"@,
        Error::Authorization { failure } => spec_failure_message(failure),
        Error::Decode { url, body } => "response envelope is malformed"@,
    }
}

impl Error {
    /// Folds a terminal negotiation failure into the pipeline's error
    /// value, carrying the specific reason for diagnostics.
    pub fn from_auth(failure: AuthFailure) -> (e: Error)
        ensures
            e == (Error::Authorization { failure }),
    {
        Error::Authorization { failure }
    }

    /// Builds the error for a failed transport, naming the stage.
    pub fn from_transport(context: &str) -> (e: Error)
        ensures
            e matches Error::Transport { context: c } && c@ == context@,
    {
        Error::Transport { context: context.to_owned() }
    }

    /// A short human-readable account of the failure stage.
    pub fn message(&self) -> (m: String)
        ensures
            m@ == spec_error_message(*self),
    {
        match self {
            Error::DataFormat { .. } => "archive data is malformed".to_owned(),
            Error::Transport { .. } => "request transport failed".to_owned(),
            Error::Authorization { failure } => failure.message(),
            Error::Decode { .. } => "response envelope is malformed".to_owned(),
        }
    }
}

} // verus!
