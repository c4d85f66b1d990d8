//! Authentication requests and the session they produce.

use vstd::prelude::*;
use crate::models::user_model::SafeUser;

verus! {

/// A login request.
#[derive(Debug, Clone)]
pub struct LoginDto {
    pub email: String,
    pub password: String,
}

/// A registration request.
#[derive(Debug, Clone)]
pub struct RegisterDto {
    pub username: String,
    pub email: String,
    pub password: String,
}

/// An authenticated session: the user and their token pair.
#[derive(Debug, Clone)]
pub struct Auth {
    pub user: SafeUser,
    pub access_token: String,
    pub refresh_token: String,
}

/// The response wrapper an authentication endpoint returns.
#[derive(Debug)]
pub struct AuthResponse {
    pub status: String,
    pub data: Auth,
}

impl Auth {
    /// Bundles a user with a freshly issued token pair.
    pub fn new(user: SafeUser, access_token: String, refresh_token: String) -> (r: Auth)
        ensures
            r.user == user,
            r.access_token == access_token,
            r.refresh_token == refresh_token,
    {
        Auth { user, access_token, refresh_token }
    }
}

impl AuthResponse {
    /// Wraps a session in a success envelope.
    pub fn success(auth: Auth) -> (r: AuthResponse)
        ensures
            r.status@ == "success"@,
            r.data == auth,
    {
        let status = crate::strutil::chars_to_string(&crate::strutil::str_to_chars("success"));
        AuthResponse { status, data: auth }
    }
}

} // verus!
