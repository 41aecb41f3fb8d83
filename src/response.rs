//! The protocol's response envelope and its catalog of error codes.

use vstd::prelude::*;
use vstd::string::StringExecFns;

verus! {

/// Protocol version that every response announces.
pub const SUBSONIC_VERSION: &'static str = "1.16.1";

/// Server name that every response announces.
pub const SERVER_NAME: &'static str = "server";

/// Server version that every response announces.
pub const SERVER_VERSION: &'static str = "0.1.0";

/// The error body of a failed response.
#[derive(Debug)]
pub struct Error {
    pub code: u16,
    pub message: String,
    pub help_url: Option<String>,
}

/// An error body with the given code and message and no help link.
pub open spec fn is_error(e: Error, code: u16, message: Seq<char>) -> bool {
    &&& e.code == code
    &&& e.message@ == message
    &&& e.help_url is None
}

impl Error {
    /// Replaces the code.
    pub fn code(self, code: u16) -> (r: Self)
        ensures
            r.code == code,
            r.message == self.message,
            r.help_url == self.help_url,
    {
        let mut e = self;
        e.code = code;
        e
    }

    /// Replaces the message.
    pub fn message(self, message: &str) -> (r: Self)
        ensures
            r.code == self.code,
            r.message@ == message@,
            r.help_url == self.help_url,
    {
        let mut e = self;
        e.message = String::from_str(message);
        e
    }

    /// Sets the help link.
    pub fn url(self, url: &str) -> (r: Self)
        ensures
            r.code == self.code,
            r.message == self.message,
            r.help_url matches Some(u) && u@ == url@,
    {
        let mut e = self;
        e.help_url = Some(String::from_str(url));
        e
    }

    /// The failed response that carries this error.
    pub fn into_response(self) -> (r: SubsonicResponse<Error>)
        ensures
            is_envelope(r, Status::Failed),
            r.data == self,
    {
        SubsonicResponse::error(self)
    }

    /// Code 0: an error with its own message.
    pub fn generic(message: &str) -> (r: Self)
        ensures
            is_error(r, 0, message@),
    {
        Error { code: 0, message: String::from_str(message), help_url: None }
    }

    /// Code 10: a required parameter is missing.
    pub fn param_missing() -> (r: Self)
        ensures
            is_error(r, 10, "Required parameter is missing."@),
    {
        Error { code: 10, message: String::from_str("Required parameter is missing."), help_url: None }
    }

    /// Code 40: wrong credentials.
    pub fn unauthorized() -> (r: Self)
        ensures
            is_error(r, 40, "Wrong username or password."@),
    {
        Error { code: 40, message: String::from_str("Wrong username or password."), help_url: None }
    }

    /// Code 41: token authentication is not supported.
    pub fn unsupported_token_authentication() -> (r: Self)
        ensures
            is_error(r, 41, "Token authentication not supported for LDAP users."@),
    {
        Error {
            code: 41,
            message: String::from_str("Token authentication not supported for LDAP users."),
            help_url: None,
        }
    }

    /// Code 42: only API-key authentication is supported.
    pub fn unsupported_authentication() -> (r: Self)
        ensures
            is_error(
                r,
                42,
                "Provided authentication mechanism not supported. Only 'apiKey' is supported."@,
            ),
    {
        Error {
            code: 42,
            message: String::from_str(
                "Provided authentication mechanism not supported. Only 'apiKey' is supported.",
            ),
            help_url: None,
        }
    }

    /// Code 44: the API key is not valid.
    pub fn invalid_api_key() -> (r: Self)
        ensures
            is_error(r, 44, "Invalid API key."@),
    {
        Error { code: 44, message: String::from_str("Invalid API key."), help_url: None }
    }
}

/// Outcome of a request as the envelope reports it.
#[derive(Debug, Clone, Copy, PartialEq, Eq, Structural)]
pub enum Status {
    Succeeded,
    Failed,
}

/// The payload of a successful response that carries nothing more.
#[derive(Debug, Clone, Copy, PartialEq, Eq, Structural)]
pub struct EmptyResponse;

/// The envelope around every response.
#[derive(Debug)]
pub struct SubsonicResponse<T> {
    pub status: Status,
    pub subsonic_version: String,
    pub server_name: String,
    pub server_version: String,
    pub open_subsonic: bool,
    pub data: T,
}

/// An envelope with the given status and this server's fixed fields.
pub open spec fn is_envelope<T>(r: SubsonicResponse<T>, status: Status) -> bool {
    &&& r.status == status
    &&& r.subsonic_version@ == SUBSONIC_VERSION@
    &&& r.server_name@ == SERVER_NAME@
    &&& r.server_version@ == SERVER_VERSION@
    &&& !r.open_subsonic
}

impl<T> SubsonicResponse<T> {
    /// A successful envelope around `data`.
    pub fn default(data: T) -> (r: Self)
        ensures
            is_envelope(r, Status::Succeeded),
            r.data == data,
    {
        SubsonicResponse {
            status: Status::Succeeded,
            subsonic_version: String::from_str(SUBSONIC_VERSION),
            server_name: String::from_str(SERVER_NAME),
            server_version: String::from_str(SERVER_VERSION),
            open_subsonic: false,
            data,
        }
    }

    /// Replaces the status.
    pub fn status(self, status: Status) -> (r: Self)
        ensures
            r.status == status,
            r.subsonic_version == self.subsonic_version,
            r.server_name == self.server_name,
            r.server_version == self.server_version,
            r.open_subsonic == self.open_subsonic,
            r.data == self.data,
    {
        let mut r = self;
        r.status = status;
        r
    }
}

impl SubsonicResponse<Error> {
    /// A failed envelope around an error.
    pub fn error(e: Error) -> (r: Self)
        ensures
            is_envelope(r, Status::Failed),
            r.data == e,
    {
        Self::default(e).status(Status::Failed)
    }
}

impl SubsonicResponse<EmptyResponse> {
    /// A successful envelope with no payload.
    pub fn empty_response() -> (r: Self)
        ensures
            is_envelope(r, Status::Succeeded),
    {
        Self::default(EmptyResponse)
    }
}

} // verus!
