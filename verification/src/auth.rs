//! Authentication modes applied to every request.

use vstd::prelude::*;

verus! {

/// HTTP Basic credentials or a bearer token. The type has no `Debug`
/// form, so a credential cannot reach logs through formatting; use
/// [`Auth::redacted`] for a masked rendering.
#[derive(Clone)]
pub enum Auth {
    Basic(String, Option<String>),
    Jwt(String),
}

impl Auth {
    /// Basic authentication from a username and an optional password.
    pub fn new_basic(username: String, password: Option<String>) -> (r: Auth)
        ensures
            r matches Auth::Basic(u, p) && u@ == username@ && crate::session::opt_view(p)
                == crate::session::opt_view(password),
    {
        Auth::Basic(username, password)
    }

    /// Bearer authentication from a token.
    pub fn new_jwt(token: String) -> (r: Auth)
        ensures
            r matches Auth::Jwt(t) && t@ == token@,
    {
        Auth::Jwt(token)
    }

    /// A rendering with every credential masked: the username is shown,
    /// the password and the token are not.
    pub fn redacted(&self) -> (r: String)
        ensures
            self matches Auth::Basic(u, _) ==> r@ == "Basic("@ + u@ + ", ******)"@,
            self is Jwt ==> r@ == "Jwt(******)"@,
    {
        match self {
            Auth::Basic(u, _) => {
                let mut s = String::new();
                s.append("Basic(");
                s.append(u.as_str());
                s.append(", ******)");
                s
            },
            Auth::Jwt(_) => {
                let mut s = String::new();
                s.append("Jwt(******)");
                s
            },
        }
    }
}

/// Reject password or token authentication over plaintext HTTP.
pub fn check_auth(has_auth: bool, is_http: bool) -> (r: Result<(), crate::error::Error>)
    ensures
        r is Err <==> has_auth && is_http,
        r matches Err(e) ==> e is BasicAuthWithHttp,
{
    if has_auth && is_http {
        Err(crate::error::Error::BasicAuthWithHttp)
    } else {
        Ok(())
    }
}

} // verus!
