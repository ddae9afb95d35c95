//! Request and response shapes of the service boundary.
//!
//! These are the plain data shapes the embedding application decodes
//! requests into and encodes responses from.  The verified core never
//! interprets them — identity and session issuance belong to an excluded
//! collaborator — but the envelope a token response carries is fixed here.

use vstd::prelude::*;

verus! {

/// The session-token response envelope: a fixed `"ok"` status and bearer
/// token type beside the issued tokens.
pub struct Tokens {
    pub status: String,
    pub token_type: String,
    pub token: String,
    pub refresh_token: String,
    pub expiration: i64,
}

impl Tokens {
    /// Wraps freshly issued tokens in the response envelope.
    pub fn new(token: String, refresh_token: String, expiration: i64) -> (r: Tokens)
        ensures
            r.status@ == "ok"@,
            r.token_type@ == "Bearer"@,
            r.token@ == token@,
            r.refresh_token@ == refresh_token@,
            r.expiration == expiration,
    {
        Tokens {
            status: "ok".to_owned(),
            token_type: "Bearer".to_owned(),
            token,
            refresh_token,
            expiration,
        }
    }
}

/// A login request: which identification flow to use and the credentials
/// that flow needs.
pub struct UserRequest {
    pub username: Option<String>,
    pub password: Option<String>,
    pub refresh_token: Option<String>,
    pub identifier: String,
    pub captcha: Option<String>,
    pub invite: Option<String>,
    pub newpassword: Option<String>,
    pub private: Option<String>,
}

/// A request to change account settings.
pub struct EditUser {
    pub username: Option<String>,
    pub password: Option<String>,
    pub permissions: Option<String>,
}

/// A registration request: the credentials of the account to create.
pub struct RegisterRequest {
    pub username: String,
    pub password: String,
}

/// Pagination bounds of a listing request.
pub struct LimitQuery {
    pub limit: Option<i64>,
    pub page: Option<i64>,
}

} // verus!
