//! The firewall decision: request credentials to a security token, or a
//! refusal with HTTP status 401.

use vstd::prelude::*;

use crate::security::error::{security_error_text, SecurityError};
use crate::security::user::UsernamePasswordToken;

verus! {

/// Request attribute key where the firewall stores the security token.
pub const TOKEN_ATTRIBUTE: &'static str = "_security_token";

/// HTTP status of a request refused for its credentials.
pub const UNAUTHORIZED: u16 = 401;

/// Turns request credentials into a token; applications implement it.
pub trait Authenticator {
    /// Whether this authenticator may answer `r` to `credentials`.
    ///
    /// The default admits every answer: an authenticator that keeps it
    /// claims nothing of how it decides.
    closed spec fn may_answer(&self, credentials: Option<Seq<char>>, r: Result<UsernamePasswordToken, SecurityError>) -> bool {
        true
    }

    /// Authenticates using the raw header value (for example `Bearer …` or
    /// an API key), absent when the request has no such header.
    fn authenticate(&self, credentials: Option<&str>) -> (r: Result<UsernamePasswordToken, SecurityError>)
        ensures
            self.may_answer(credentials_view(credentials), r),
    ;
}

/// The characters of optional credentials.
pub open spec fn credentials_view(credentials: Option<&str>) -> Option<Seq<char>> {
    match credentials {
        Some(c) => Some(c@),
        None => None,
    }
}

/// Whether `r` is what the firewall answers when its authenticator answered
/// `answer`: the token, or a 401 refusal with the error's message.
pub open spec fn firewall_answer(r: Result<UsernamePasswordToken, (u16, String)>, answer: Result<UsernamePasswordToken, SecurityError>) -> bool {
    match answer {
        Ok(t) => r == Ok::<UsernamePasswordToken, (u16, String)>(t),
        Err(e) => r matches Err(refusal) && refusal.0 == UNAUTHORIZED && refusal.1@ == security_error_text(e),
    }
}

/// Firewall that reads a header, runs an [`Authenticator`], and lets the
/// request through with the token it yields.
pub struct FirewallMiddleware<A> {
    header_name: String,
    authenticator: A,
    allow_anonymous: bool,
}

impl<A: Authenticator> FirewallMiddleware<A> {
    /// Header the credentials are read from.
    pub closed spec fn spec_header_name(&self) -> Seq<char> {
        self.header_name@
    }

    /// The authenticator.
    pub closed spec fn spec_authenticator(&self) -> A {
        self.authenticator
    }

    /// Whether a request without credentials passes as anonymous.
    pub closed spec fn spec_allows_anonymous(&self) -> bool {
        self.allow_anonymous
    }

    /// A firewall reading `header_name` (applications usually use
    /// `Authorization`); requests without credentials are refused.
    pub fn new(header_name: &str, authenticator: A) -> (r: Self)
        ensures
            r.spec_header_name() == header_name@,
            r.spec_authenticator() == authenticator,
            !r.spec_allows_anonymous(),
    {
        FirewallMiddleware { header_name: header_name.to_owned(), authenticator, allow_anonymous: false }
    }

    /// When `allow` is set, missing credentials give the anonymous token
    /// instead of a refusal.
    pub fn allow_anonymous(self, allow: bool) -> (r: Self)
        ensures
            r.spec_header_name() == self.spec_header_name(),
            r.spec_authenticator() == self.spec_authenticator(),
            r.spec_allows_anonymous() == allow,
    {
        FirewallMiddleware { header_name: self.header_name, authenticator: self.authenticator, allow_anonymous: allow }
    }

    /// Header the credentials are read from.
    pub fn header_name(&self) -> (r: &str)
        ensures
            r@ == self.spec_header_name(),
    {
        self.header_name.as_str()
    }

    /// The token for a request whose header holds `credentials`, or the
    /// status (401) and message to refuse it with: the anonymous token when
    /// there are no credentials and anonymous access is allowed, else what
    /// the authenticator decides.
    pub fn authenticate_request(&self, credentials: Option<&str>) -> (r: Result<UsernamePasswordToken, (u16, String)>)
        ensures
            credentials is None && self.spec_allows_anonymous() ==> (r matches Ok(t) && t.spec_user() is None
                && t.spec_credentials() is None),
            !(credentials is None && self.spec_allows_anonymous()) ==> exists|answer: Result<UsernamePasswordToken, SecurityError>|
                self.spec_authenticator().may_answer(credentials_view(credentials), answer) && #[trigger] firewall_answer(r, answer),
    {
        if credentials.is_none() && self.allow_anonymous {
            return Ok(UsernamePasswordToken::anonymous());
        }
        let answer = self.authenticator.authenticate(credentials);
        let r = match answer {
            Ok(token) => Ok(token),
            Err(e) => {
                let message = e.describe();
                Err((UNAUTHORIZED, message))
            },
        };
        assert(firewall_answer(r, answer));
        r
    }
}

} // verus!
