//! Users and the security tokens that carry them.

use vstd::prelude::*;

use crate::text::string_views;

verus! {

/// A copy of `v`.
pub fn copy_strings(v: &[String]) -> (r: Vec<String>)
    ensures
        string_views(r@) == string_views(v@),
{
    let mut out: Vec<String> = Vec::new();
    let mut i: usize = 0;
    while i < v.len()
        invariant
            0 <= i <= v@.len(),
            out@.len() == i,
            forall|j: int| 0 <= j < i ==> (#[trigger] out@[j])@ == v@[j]@,
        decreases v@.len() - i,
    {
        out.push(v[i].clone());
        i = i + 1;
    }
    assert(string_views(out@) =~= string_views(v@));
    out
}

/// Owned copies of `v`.
pub fn owned_strings(v: &[&str]) -> (r: Vec<String>)
    ensures
        string_views(r@) == v@.map_values(|t: &str| t@),
{
    let mut out: Vec<String> = Vec::new();
    let mut i: usize = 0;
    while i < v.len()
        invariant
            0 <= i <= v@.len(),
            out@.len() == i,
            forall|j: int| 0 <= j < i ==> (#[trigger] out@[j])@ == v@[j]@,
        decreases v@.len() - i,
    {
        out.push(v[i].to_owned());
        i = i + 1;
    }
    assert(string_views(out@) =~= v@.map_values(|t: &str| t@));
    out
}

/// Something that can be authenticated: an identifier and roles.
pub trait UserInterface {
    /// Stable user identifier (login name, subject).
    fn user_identifier(&self) -> &str;

    /// Roles granted to the user.
    fn roles(&self) -> &[String];
}

/// A user held in memory: identifier and roles.
#[derive(Debug, Clone, PartialEq, Eq)]
pub struct InMemoryUser {
    identifier: String,
    roles: Vec<String>,
}

impl InMemoryUser {
    /// User identifier.
    pub closed spec fn spec_identifier(&self) -> Seq<char> {
        self.identifier@
    }

    /// Roles, in the order given.
    pub closed spec fn spec_roles(&self) -> Seq<Seq<char>> {
        string_views(self.roles@)
    }

    /// A user `identifier` with `roles`.
    pub fn new(identifier: &str, roles: Vec<String>) -> (r: Self)
        ensures
            r.spec_identifier() == identifier@,
            r.spec_roles() == string_views(roles@),
    {
        InMemoryUser { identifier: identifier.to_owned(), roles }
    }

    /// A copy of this user.
    pub fn duplicate(&self) -> (r: Self)
        ensures
            r.spec_identifier() == self.spec_identifier(),
            r.spec_roles() == self.spec_roles(),
    {
        InMemoryUser { identifier: self.identifier.clone(), roles: copy_strings(self.roles.as_slice()) }
    }
}

impl UserInterface for InMemoryUser {
    fn user_identifier(&self) -> (r: &str)
        ensures
            r@ == self.spec_identifier(),
    {
        self.identifier.as_str()
    }

    fn roles(&self) -> (r: &[String])
        ensures
            string_views(r@) == self.spec_roles(),
    {
        self.roles.as_slice()
    }
}

/// What a security token exposes: its user, whether it is authenticated,
/// and the credentials it was built from.
pub trait TokenInterface {
    /// The authenticated user, if any.
    fn user(&self) -> Option<&InMemoryUser>;

    /// Whether the token stands for an authenticated user.
    fn is_authenticated(&self) -> bool;

    /// Raw credentials (password, API key, access token), if kept.
    fn credentials(&self) -> Option<&str>;
}

/// Token built from a user and the credentials that authenticated it, or
/// the anonymous token.
#[derive(Debug, Clone, PartialEq, Eq)]
pub struct UsernamePasswordToken {
    user: Option<InMemoryUser>,
    credentials: Option<String>,
}

impl UsernamePasswordToken {
    /// The user, when authenticated.
    pub closed spec fn spec_user(&self) -> Option<InMemoryUser> {
        self.user
    }

    /// The credentials, when authenticated.
    pub closed spec fn spec_credentials(&self) -> Option<Seq<char>> {
        match self.credentials {
            Some(c) => Some(c@),
            None => None,
        }
    }

    /// The anonymous token: no user, no credentials.
    pub fn anonymous() -> (r: Self)
        ensures
            r.spec_user() is None,
            r.spec_credentials() is None,
    {
        UsernamePasswordToken { user: None, credentials: None }
    }

    /// An authenticated token for `user` with `credentials`.
    pub fn authenticated(user: InMemoryUser, credentials: &str) -> (r: Self)
        ensures
            r.spec_user() == Some(user),
            r.spec_credentials() == Some(credentials@),
    {
        UsernamePasswordToken { user: Some(user), credentials: Some(credentials.to_owned()) }
    }
}

impl TokenInterface for UsernamePasswordToken {
    fn user(&self) -> (r: Option<&InMemoryUser>)
        ensures
            match r {
                Some(u) => self.spec_user() == Some(*u),
                None => self.spec_user() is None,
            },
    {
        match &self.user {
            Some(u) => Some(u),
            None => None,
        }
    }

    fn is_authenticated(&self) -> (r: bool)
        ensures
            r == self.spec_user() is Some,
    {
        self.user.is_some()
    }

    fn credentials(&self) -> (r: Option<&str>)
        ensures
            match r {
                Some(c) => self.spec_credentials() == Some(c@),
                None => self.spec_credentials() is None,
            },
    {
        match &self.credentials {
            Some(c) => Some(c.as_str()),
            None => None,
        }
    }
}

} // verus!
