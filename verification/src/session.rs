//! The authenticated session: the bearer credential and the fixed request
//! headers every call to the tracker carries.
//!
//! The credential is read from the process environment by the driver and
//! handed in once; both fetch paths then build their request headers from
//! the same session, which keeps the fetchers free of any implicit global.

use vstd::prelude::*;
use vstd::string::StringExecFns;

verus! {

/// An authenticated session with the tracker, holding the bearer credential.
pub struct Session {
    token: String,
}

impl View for Session {
    type V = Seq<char>;

    closed spec fn view(&self) -> Seq<char> {
        self.token@
    }
}

impl Session {
    /// A session from the bearer credential.
    pub fn new(token: String) -> (s: Session)
        ensures
            s@ == token@,
    {
        Session { token }
    }

    /// The `Authorization` header value: the bearer scheme and the credential.
    pub fn authorization(&self) -> (r: String)
        ensures
            r@ == "Bearer "@ + self@,
    {
        String::from_str("Bearer ").concat(self.token.as_str())
    }
}

/// The `User-Agent` header value sent with every request.
pub fn user_agent() -> (r: &'static str)
    ensures
        r@ == "rust web-api"@,
{
    "rust web-api"
}

/// The `Accept` header value selecting the tracker's JSON media type.
pub fn accept_media_type() -> (r: &'static str)
    ensures
        r@ == "application/vnd.github+json"@,
{
    "application/vnd.github+json"
}

} // verus!
