//! The per-request gate: which authentication mode a request uses, whether
//! its key parses and resolves, and the status and error body of a refusal.

use vstd::prelude::*;
use crate::key::ParseError;
use crate::key::RawApiKey;
use crate::key::parse_spec;
use crate::key::parse_error_text;
use crate::store::ApiKeyError;
use crate::store::CredentialStore;
use crate::store::Resolution;
use crate::store::User;
use crate::store::resolve_spec;
use crate::response::Error;
use crate::response::is_error;

verus! {

/// HTTP status of a malformed or unsupported request.
pub const BAD_REQUEST: u16 = 400;

/// HTTP status of a request without valid credentials.
pub const UNAUTHORIZED: u16 = 401;

/// HTTP status of a failure on the server's side.
pub const INTERNAL_SERVER_ERROR: u16 = 500;

/// The authentication parameters of a request's query.
#[derive(Debug)]
pub struct AuthParams {
    pub api_key: Option<String>,
    pub password: Option<String>,
    pub token: Option<String>,
    pub salt: Option<String>,
}

/// A refused request: the HTTP status and the error body.
#[derive(Debug)]
pub struct Rejection {
    pub status: u16,
    pub error: Error,
}

/// A refusal with the given status, code and message.
pub open spec fn rejects(r: Rejection, status: u16, code: u16, message: Seq<char>) -> bool {
    r.status == status && is_error(r.error, code, message)
}

/// Outcome of the parameter checks: a parsed key, or a refusal.
pub open spec fn admits(params: AuthParams, r: Result<RawApiKey, Rejection>) -> bool {
    match params.api_key {
        None => r matches Err(j) && rejects(j, UNAUTHORIZED, 10, "Missing 'apiKey' parameter"@),
        Some(text) => if params.password is Some {
            r matches Err(j) && rejects(
                j,
                BAD_REQUEST,
                42,
                "Provided authentication mechanism not supported. Only 'apiKey' is supported."@,
            )
        } else if params.token is Some || params.salt is Some {
            r matches Err(j) && rejects(
                j,
                BAD_REQUEST,
                41,
                "Token authentication not supported for LDAP users."@,
            )
        } else {
            match parse_spec(text@) {
                Ok(p) => r matches Ok(k) && k@ == p,
                Err(e) => r matches Err(j) && rejects(j, BAD_REQUEST, 0, parse_error_text(e)),
            }
        },
    }
}

/// Checks the authentication mode of a request and parses its key.
pub fn check_params(params: &AuthParams) -> (r: Result<RawApiKey, Rejection>)
    ensures
        admits(*params, r),
{
    let text = match &params.api_key {
        Some(t) => t,
        None => {
            let error = Error::param_missing().message("Missing 'apiKey' parameter");
            return Err(Rejection { status: UNAUTHORIZED, error });
        },
    };
    if params.password.is_some() {
        return Err(Rejection { status: BAD_REQUEST, error: Error::unsupported_authentication() });
    }
    if params.token.is_some() || params.salt.is_some() {
        return Err(
            Rejection { status: BAD_REQUEST, error: Error::unsupported_token_authentication() },
        );
    }
    match RawApiKey::parse(text.as_str()) {
        Ok(k) => Ok(k),
        Err(e) => {
            let message = e.to_string();
            Err(Rejection { status: BAD_REQUEST, error: Error::generic(message.as_str()) })
        },
    }
}

/// The refusal for a key that did not resolve.
pub open spec fn refuses(e: ApiKeyError, r: Rejection) -> bool {
    match e {
        ApiKeyError::NotFound => rejects(r, UNAUTHORIZED, 44, "Invalid API key."@),
        ApiKeyError::Database(_) => rejects(r, INTERNAL_SERVER_ERROR, 0, "Database error"@),
        ApiKeyError::ParseError(ParseError::UnknownHashAlgorithm(_)) => rejects(
            r,
            INTERNAL_SERVER_ERROR,
            0,
            "Internal server error"@,
        ),
        ApiKeyError::ParseError(p) => rejects(r, BAD_REQUEST, 0, parse_error_text(p)),
    }
}

/// Maps a resolution error to the refusal that the client sees; store and
/// configuration faults are not shown in detail.
pub fn reject_resolution(e: &ApiKeyError) -> (r: Rejection)
    ensures
        refuses(*e, r),
{
    match e {
        ApiKeyError::NotFound => Rejection { status: UNAUTHORIZED, error: Error::invalid_api_key() },
        ApiKeyError::Database(_) => Rejection {
            status: INTERNAL_SERVER_ERROR,
            error: Error::generic("Database error"),
        },
        ApiKeyError::ParseError(ParseError::UnknownHashAlgorithm(_)) => Rejection {
            status: INTERNAL_SERVER_ERROR,
            error: Error::generic("Internal server error"),
        },
        ApiKeyError::ParseError(p) => {
            let message = p.to_string();
            Rejection { status: BAD_REQUEST, error: Error::generic(message.as_str()) }
        },
    }
}

/// The whole gate against an in-memory store: the identity to hand to the
/// next handler, or the refusal.
pub fn authenticate(params: &AuthParams, store: &CredentialStore) -> (r: Result<User, Rejection>)
    ensures
        match params.api_key {
            Some(text) if params.password is None && params.token is None && params.salt is None
                && parse_spec(text@) is Ok => {
                let k = parse_spec(text@)->Ok_0;
                match resolve_spec(store@.credentials, store@.users, k) {
                    Resolution::Identity(u) => r matches Ok(x) && x == u,
                    Resolution::NotFound => r matches Err(j) && rejects(
                        j,
                        UNAUTHORIZED,
                        44,
                        "Invalid API key."@,
                    ),
                    Resolution::UnknownAlgorithm => r matches Err(j) && rejects(
                        j,
                        INTERNAL_SERVER_ERROR,
                        0,
                        "Internal server error"@,
                    ),
                }
            },
            _ => r matches Err(j) && admits(*params, Err(j)),
        },
{
    let key = match check_params(params) {
        Ok(k) => k,
        Err(j) => return Err(j),
    };
    match store.resolve(&key) {
        Ok(u) => Ok(u),
        Err(e) => Err(reject_resolution(&e)),
    }
}

} // verus!
