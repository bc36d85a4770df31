//! Authentication: "who is this?" answered from the `Authorization` header.
//!
//! The server checks requests through [`AuthProvider`]; the one provider here compares a shared
//! `Bearer` token. The bridge's send endpoint checks the same scheme with [`check_auth`].
use vstd::prelude::*;
use crate::text::{has_prefix, owned, str_eq, strip_prefix_str, trim, trim_spec};

verus! {

/// An authenticated identity.
#[derive(Debug, Clone, PartialEq, Eq)]
pub struct Identity {
    pub name: String,
}

/// An authentication failure (answered with 401 by the HTTP layer).
#[derive(Debug, PartialEq, Eq)]
pub struct AuthError;

/// Answers who sent a request, from its `Authorization` header.
pub trait AuthProvider {
    fn check(&self, auth_header: Option<&str>) -> Result<Identity, AuthError>;
}

/// The token carried by a `Bearer` header: what follows `Bearer `, trimmed.
pub open spec fn bearer_token(h: Seq<char>) -> Option<Seq<char>> {
    if has_prefix(h, "Bearer "@) {
        Some(trim_spec(h.skip("Bearer "@.len() as int)))
    } else {
        None
    }
}

/// A header that carries exactly the non-empty token `expected`.
pub open spec fn bearer_accepts(h: Option<Seq<char>>, expected: Seq<char>) -> bool {
    match h {
        Some(v) => match bearer_token(v) {
            Some(t) => t.len() > 0 && t == expected,
            None => false,
        },
        None => false,
    }
}

pub open spec fn opt_str(o: Option<&str>) -> Option<Seq<char>> {
    match o {
        Some(s) => Some(s@),
        None => None,
    }
}

/// The bearer token of a header, if it has the `Bearer ` form.
fn bearer_of(h: &str) -> (r: Option<String>)
    ensures
        match r {
            Some(t) => bearer_token(h@) == Some(t@),
            None => bearer_token(h@) is None,
        },
{
    match strip_prefix_str(h, "Bearer ") {
        Some(rest) => Some(trim(rest.as_str())),
        None => None,
    }
}

/// Shared-token authentication: `Authorization: Bearer <token>`.
pub struct TokenProvider {
    token: String,
}

impl TokenProvider {
    pub closed spec fn token(&self) -> Seq<char> {
        self.token@
    }

    pub fn new(token: &str) -> (r: TokenProvider)
        ensures
            r.token() == token@,
    {
        TokenProvider { token: owned(token) }
    }

    /// The identity of a request that carries this provider's token.
    pub fn check(&self, auth_header: Option<&str>) -> (r: Result<Identity, AuthError>)
        ensures
            r is Ok <==> bearer_accepts(opt_str(auth_header), self.token()),
            r matches Ok(id) ==> id.name@ == "operator"@,
    {
        let h = match auth_header {
            Some(h) => h,
            None => return Err(AuthError),
        };
        let token = match bearer_of(h) {
            Some(t) => t,
            None => return Err(AuthError),
        };
        if token.as_str().is_empty() || !str_eq(token.as_str(), self.token.as_str()) {
            return Err(AuthError);
        }
        Ok(Identity { name: owned("operator") })
    }
}

impl AuthProvider for TokenProvider {
    fn check(&self, auth_header: Option<&str>) -> (r: Result<Identity, AuthError>)
        ensures
            r is Ok <==> bearer_accepts(opt_str(auth_header), self.token()),
            r matches Ok(id) ==> id.name@ == "operator"@,
    {
        TokenProvider::check(self, auth_header)
    }
}

/// The bridge's send-endpoint check: the header carries `Bearer <expected>` and `expected` is
/// not empty.
pub fn check_auth(auth_header: Option<&str>, expected: &str) -> (r: bool)
    ensures
        r == bearer_accepts(opt_str(auth_header), expected@),
{
    match auth_header {
        Some(h) => match bearer_of(h) {
            Some(t) => !expected.is_empty() && str_eq(t.as_str(), expected),
            None => false,
        },
        None => false,
    }
}

} // verus!
