//! The failure taxonomy shared by the authentication gate and the
//! membership authorizer, together with its mapping to HTTP status codes.

use vstd::prelude::*;

verus! {

/// Every expected, user-triggerable failure of the core. None of these is
/// retryable; each maps to a terminal rejection of the current request.
#[derive(Clone, Copy, Debug, PartialEq, Eq, Structural)]
pub enum Error {
    /// The `Authorization` header is missing, or is not valid UTF-8.
    NoAuthHeader,
    /// The `Authorization` header is present but does not carry a bearer token.
    InvalidAuthHeader,
    /// The bearer token failed signature, format or expiry checks.
    InvalidToken,
    /// The signing primitive itself failed; a deployment defect, not user input.
    TokenCreationFailed,
    /// Login unknown or password mismatch, deliberately indistinguishable.
    WrongCredentials,
    /// The caller is not the owner of the resource it tried to read.
    NoPermission,
    /// The login requested at registration is already taken.
    LoginInUse,
    /// Re-registration was attempted for an already-credentialed user.
    Unauthorized,
    /// No resource matches the name and password given to a join request.
    WrongResource,
}

impl Error {
    /// The HTTP status code a rejection with this error selects.
    pub fn status_code(&self) -> (code: u16)
        ensures
            code == self.spec_status_code(),
    {
        match self {
            Error::NoAuthHeader => 401,
            Error::InvalidAuthHeader => 401,
            Error::InvalidToken => 401,
            Error::TokenCreationFailed => 500,
            Error::WrongCredentials => 401,
            Error::NoPermission => 403,
            Error::LoginInUse => 400,
            Error::Unauthorized => 401,
            Error::WrongResource => 400,
        }
    }

    pub open spec fn spec_status_code(&self) -> u16 {
        match self {
            Error::NoAuthHeader => 401,
            Error::InvalidAuthHeader => 401,
            Error::InvalidToken => 401,
            Error::TokenCreationFailed => 500,
            Error::WrongCredentials => 401,
            Error::NoPermission => 403,
            Error::LoginInUse => 400,
            Error::Unauthorized => 401,
            Error::WrongResource => 400,
        }
    }

    /// A stable error code, in place of a `Display` implementation.
    pub fn message(&self) -> (m: &'static str) {
        match self {
            Error::NoAuthHeader => "no auth header",
            Error::InvalidAuthHeader => "invalid auth header",
            Error::InvalidToken => "invalid token",
            Error::TokenCreationFailed => "token creation failed",
            Error::WrongCredentials => "wrong credentials",
            Error::NoPermission => "no permission",
            Error::LoginInUse => "login in use",
            Error::Unauthorized => "unauthorized",
            Error::WrongResource => "wrong resource",
        }
    }
}

} // verus!
