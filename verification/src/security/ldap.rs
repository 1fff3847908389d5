//! LDAP directory bind helpers: bind configuration, a bind trait that
//! applications implement over their LDAP client, and the mapping of a bound
//! identity to a security token.

use vstd::prelude::*;

use crate::security::error::{same_security_error, SecurityError};
use crate::security::firewall::Authenticator;
use crate::security::user::{copy_strings, owned_strings, InMemoryUser, UsernamePasswordToken};
use crate::text::{chars_equal, chars_of, find_char, replace_all, replace_chars, string_of, string_views};

verus! {

/// Placeholder replaced by the username in a user DN template.
pub const LDAP_USERNAME_PLACEHOLDER: &'static str = "{username}";

/// Whether `e` is an LDAP error with message `m`.
pub open spec fn is_ldap_error(e: SecurityError, m: Seq<char>) -> bool {
    e matches SecurityError::Ldap { message } && message@ == m
}

/// Whether `e` is an authentication error with message `m`.
pub open spec fn is_authentication_error(e: SecurityError, m: Seq<char>) -> bool {
    e matches SecurityError::Authentication { message } && message@ == m
}

/// Connection and DN templates for an LDAP bind authenticator.
#[derive(Debug, Clone, PartialEq, Eq)]
pub struct LdapBindConfig {
    uri: String,
    base_dn: String,
    user_dn_template: String,
}

impl LdapBindConfig {
    /// LDAP URI.
    pub closed spec fn spec_uri(&self) -> Seq<char> {
        self.uri@
    }

    /// Search / base DN.
    pub closed spec fn spec_base_dn(&self) -> Seq<char> {
        self.base_dn@
    }

    /// User DN template.
    pub closed spec fn spec_user_dn_template(&self) -> Seq<char> {
        self.user_dn_template@
    }

    /// Bind settings; `user_dn_template` should contain `{username}`.
    pub fn new(uri: &str, base_dn: &str, user_dn_template: &str) -> (r: Self)
        ensures
            r.spec_uri() == uri@,
            r.spec_base_dn() == base_dn@,
            r.spec_user_dn_template() == user_dn_template@,
    {
        LdapBindConfig { uri: uri.to_owned(), base_dn: base_dn.to_owned(), user_dn_template: user_dn_template.to_owned() }
    }

    /// LDAP URI (for example `ldaps://ldap.example.com:636`).
    pub fn uri(&self) -> (r: &str)
        ensures
            r@ == self.spec_uri(),
    {
        self.uri.as_str()
    }

    /// Search / base DN.
    pub fn base_dn(&self) -> (r: &str)
        ensures
            r@ == self.spec_base_dn(),
    {
        self.base_dn.as_str()
    }

    /// User DN template.
    pub fn user_dn_template(&self) -> (r: &str)
        ensures
            r@ == self.spec_user_dn_template(),
    {
        self.user_dn_template.as_str()
    }

    /// The DN template with every `{username}` replaced by `username`; an
    /// empty username is rejected.
    pub fn user_dn(&self, username: &str) -> (r: Result<String, SecurityError>)
        ensures
            username@.len() == 0 ==> (r matches Err(e) && is_ldap_error(e, "username is empty"@)),
            username@.len() > 0 ==> (r matches Ok(dn) && dn@ == replace_all(
                self.spec_user_dn_template(),
                LDAP_USERNAME_PLACEHOLDER@,
                username@,
            )),
    {
        if username.is_empty() {
            return Err(SecurityError::Ldap { message: "username is empty".to_owned() });
        }
        let template = chars_of(self.user_dn_template.as_str());
        let placeholder = chars_of(LDAP_USERNAME_PLACEHOLDER);
        proof {
            reveal_strlit("{username}");
        }
        let name = chars_of(username);
        let dn = replace_chars(template.as_slice(), placeholder.as_slice(), name.as_slice());
        Ok(string_of(dn.as_slice()))
    }
}

/// Identity returned after a successful directory bind.
#[derive(Debug, Clone, PartialEq, Eq)]
pub struct LdapIdentity {
    dn: String,
    username: String,
    roles: Vec<String>,
}

impl LdapIdentity {
    /// Bound distinguished name.
    pub closed spec fn spec_dn(&self) -> Seq<char> {
        self.dn@
    }

    /// Login name used for the bind.
    pub closed spec fn spec_username(&self) -> Seq<char> {
        self.username@
    }

    /// Roles granted after the bind.
    pub closed spec fn spec_roles(&self) -> Seq<Seq<char>> {
        string_views(self.roles@)
    }

    /// An identity with directory DN, login name and roles.
    pub fn new(dn: &str, username: &str, roles: &[&str]) -> (r: Self)
        ensures
            r.spec_dn() == dn@,
            r.spec_username() == username@,
            r.spec_roles() == roles@.map_values(|t: &str| t@),
    {
        LdapIdentity { dn: dn.to_owned(), username: username.to_owned(), roles: owned_strings(roles) }
    }

    /// Bound distinguished name.
    pub fn dn(&self) -> (r: &str)
        ensures
            r@ == self.spec_dn(),
    {
        self.dn.as_str()
    }

    /// Login name used for the bind.
    pub fn username(&self) -> (r: &str)
        ensures
            r@ == self.spec_username(),
    {
        self.username.as_str()
    }

    /// Roles granted after the bind (application-owned mapping).
    pub fn roles(&self) -> (r: &[String])
        ensures
            string_views(r@) == self.spec_roles(),
    {
        self.roles.as_slice()
    }

    /// A copy of this identity.
    pub fn duplicate(&self) -> (r: Self)
        ensures
            r.spec_dn() == self.spec_dn(),
            r.spec_username() == self.spec_username(),
            r.spec_roles() == self.spec_roles(),
    {
        LdapIdentity { dn: self.dn.clone(), username: self.username.clone(), roles: copy_strings(self.roles.as_slice()) }
    }
}

/// Sync LDAP bind; applications implement it with their LDAP client.
pub trait LdapBinder {
    /// Whether this binder may answer `r` to a bind as `username` /
    /// `password`.
    ///
    /// The default admits every answer: a binder that keeps it claims
    /// nothing of how it binds.
    closed spec fn may_bind(&self, username: Seq<char>, password: Seq<char>, r: Result<LdapIdentity, SecurityError>) -> bool {
        true
    }

    /// Binds as `username` / `password` and returns the directory identity.
    fn bind(&self, username: &str, password: &str) -> (r: Result<LdapIdentity, SecurityError>)
        ensures
            self.may_bind(username@, password@, r),
    ;
}

/// Fixed-response binder for tests.
#[derive(Debug, Clone)]
pub struct MockLdapBinder {
    identity: LdapIdentity,
    expected_username: Option<String>,
    expected_password: Option<String>,
}

/// The characters of an optional string.
pub open spec fn opt_chars(s: Option<String>) -> Option<Seq<char>> {
    match s {
        Some(t) => Some(t@),
        None => None,
    }
}

impl MockLdapBinder {
    /// The identity every successful bind returns.
    pub closed spec fn spec_identity(&self) -> LdapIdentity {
        self.identity
    }

    /// Username a bind must present, when set.
    pub closed spec fn spec_expected_username(&self) -> Option<Seq<char>> {
        opt_chars(self.expected_username)
    }

    /// Password a bind must present, when set.
    pub closed spec fn spec_expected_password(&self) -> Option<Seq<char>> {
        opt_chars(self.expected_password)
    }

    /// Always returns `identity` for a non-empty password.
    pub fn new(identity: LdapIdentity) -> (r: Self)
        ensures
            r.spec_identity() == identity,
            r.spec_expected_username() is None,
            r.spec_expected_password() is None,
    {
        MockLdapBinder { identity, expected_username: None, expected_password: None }
    }

    /// Requires exactly `username` and `password` before returning the identity.
    pub fn with_credentials(self, username: &str, password: &str) -> (r: Self)
        ensures
            r.spec_identity() == self.spec_identity(),
            r.spec_expected_username() == Some(username@),
            r.spec_expected_password() == Some(password@),
    {
        MockLdapBinder {
            identity: self.identity,
            expected_username: Some(username.to_owned()),
            expected_password: Some(password.to_owned()),
        }
    }
}

/// What the mock binder answers to `username` / `password`: an
/// authentication error for an empty password or for credentials other than
/// the expected ones, else its identity.
pub open spec fn mock_bind_ok(expected_username: Option<Seq<char>>, expected_password: Option<Seq<char>>, username: Seq<char>, password: Seq<char>) -> bool {
    &&& password.len() > 0
    &&& (expected_username is Some && expected_password is Some) ==> (username == expected_username->0
        && password == expected_password->0)
}

/// Whether `r` is what the mock binder `b` answers to `username` /
/// `password`.
pub open spec fn mock_bind_answer(b: MockLdapBinder, username: Seq<char>, password: Seq<char>, r: Result<LdapIdentity, SecurityError>) -> bool {
    &&& password.len() == 0 ==> (r matches Err(e) && is_authentication_error(e, "empty password"@))
    &&& password.len() > 0 && !mock_bind_ok(b.spec_expected_username(), b.spec_expected_password(), username, password)
        ==> (r matches Err(e) && is_authentication_error(e, "invalid ldap credentials"@))
    &&& mock_bind_ok(b.spec_expected_username(), b.spec_expected_password(), username, password) ==> (r matches Ok(id)
        && id.spec_dn() == b.spec_identity().spec_dn() && id.spec_username() == b.spec_identity().spec_username()
        && id.spec_roles() == b.spec_identity().spec_roles())
}

impl LdapBinder for MockLdapBinder {
    open spec fn may_bind(&self, username: Seq<char>, password: Seq<char>, r: Result<LdapIdentity, SecurityError>) -> bool {
        mock_bind_answer(*self, username, password, r)
    }

    fn bind(&self, username: &str, password: &str) -> (r: Result<LdapIdentity, SecurityError>)
    {
        if password.is_empty() {
            return Err(SecurityError::Authentication { message: "empty password".to_owned() });
        }
        match (&self.expected_username, &self.expected_password) {
            (Some(expected_user), Some(expected_pass)) => {
                let u = chars_of(username);
                let eu = chars_of(expected_user.as_str());
                let p = chars_of(password);
                let ep = chars_of(expected_pass.as_str());
                if !chars_equal(u.as_slice(), eu.as_slice()) || !chars_equal(p.as_slice(), ep.as_slice()) {
                    return Err(SecurityError::Authentication { message: "invalid ldap credentials".to_owned() });
                }
            },
            _ => {},
        }
        Ok(self.identity.duplicate())
    }
}

/// Whether `t` is the authenticated token for the login name and roles of
/// `identity`, carrying `credentials`.
pub open spec fn token_for_identity(t: UsernamePasswordToken, identity: LdapIdentity, credentials: Seq<char>) -> bool {
    &&& t.spec_user() matches Some(u)
    &&& t.spec_user()->0.spec_identifier() == identity.spec_username()
    &&& t.spec_user()->0.spec_roles() == identity.spec_roles()
    &&& t.spec_credentials() == Some(credentials)
}

/// An authenticated token for a successfully bound `identity`.
pub fn token_from_ldap_identity(identity: &LdapIdentity, password_echo: &str) -> (r: UsernamePasswordToken)
    ensures
        token_for_identity(r, *identity, password_echo@),
{
    UsernamePasswordToken::authenticated(
        InMemoryUser::new(identity.username(), copy_strings(identity.roles())),
        password_echo,
    )
}

/// Binds, then maps the identity to a token; binder failures pass through.
pub fn authenticate_ldap_password<B: LdapBinder>(binder: &B, username: &str, password: &str) -> (r: Result<UsernamePasswordToken, SecurityError>)
    ensures
        exists|bound: Result<LdapIdentity, SecurityError>| binder.may_bind(username@, password@, bound) && #[trigger] bind_outcome(r, bound, password@),
{
    let bound = binder.bind(username, password);
    match bound {
        Ok(identity) => {
            let t = token_from_ldap_identity(&identity, password);
            assert(bind_outcome(Ok(t), Ok::<LdapIdentity, SecurityError>(identity), password@));
            Ok(t)
        },
        Err(e) => {
            assert(bind_outcome(Err(e), Err::<LdapIdentity, SecurityError>(e), password@));
            Err(e)
        },
    }
}

/// Whether `r` is what a bind that gave `bound` leads to: the binder's
/// error, or the token for the bound identity carrying `password`.
pub open spec fn bind_outcome(r: Result<UsernamePasswordToken, SecurityError>, bound: Result<LdapIdentity, SecurityError>, password: Seq<char>) -> bool {
    match bound {
        Ok(identity) => r matches Ok(t) && token_for_identity(t, identity, password),
        Err(e) => r == Err::<UsernamePasswordToken, SecurityError>(e),
    }
}

/// Firewall authenticator over a binder; credentials are `username:password`.
#[derive(Clone)]
pub struct LdapAuthenticator<B> {
    binder: B,
}

impl<B: LdapBinder> LdapAuthenticator<B> {
    /// The binder.
    pub closed spec fn spec_binder(&self) -> B {
        self.binder
    }

    /// Wraps `binder`.
    pub fn new(binder: B) -> (r: Self)
        ensures
            r.spec_binder() == binder,
    {
        LdapAuthenticator { binder }
    }
}

/// Whether `r` is what an LDAP authenticator over `binder` answers to
/// `credentials`: an authentication error when there are none, the LDAP
/// error of a malformed `username:password`, else the outcome of a bind.
pub open spec fn ldap_answer<B: LdapBinder>(binder: B, credentials: Option<Seq<char>>, r: Result<UsernamePasswordToken, SecurityError>) -> bool {
    match credentials {
        None => r matches Err(e) && is_authentication_error(e, "missing credentials"@),
        Some(raw) => match split_outcome(raw) {
            Err(m) => r matches Err(e) && is_ldap_error(e, m),
            Ok(parts) => exists|bound: Result<LdapIdentity, SecurityError>| binder.may_bind(parts.0, parts.1, bound)
                && #[trigger] bind_outcome(r, bound, parts.1),
        },
    }
}

impl<B: LdapBinder> Authenticator for LdapAuthenticator<B> {
    open spec fn may_answer(&self, credentials: Option<Seq<char>>, r: Result<UsernamePasswordToken, SecurityError>) -> bool {
        ldap_answer(self.spec_binder(), credentials, r)
    }

    fn authenticate(&self, credentials: Option<&str>) -> (r: Result<UsernamePasswordToken, SecurityError>)
    {
        let raw = match credentials {
            Some(raw) => raw,
            None => return Err(SecurityError::Authentication { message: "missing credentials".to_owned() }),
        };
        match split_user_password(raw) {
            Ok((username, password)) => authenticate_ldap_password(&self.binder, username, password),
            Err(e) => Err(e),
        }
    }
}

/// `raw` split at its first colon into username and password, or the
/// message of the LDAP error for a missing colon or an empty username.
pub open spec fn split_outcome(raw: Seq<char>) -> Result<(Seq<char>, Seq<char>), Seq<char>> {
    match crate::text::first_index(raw, ':') {
        None => Err("credentials must be username:password"@),
        Some(p) => if p == 0 {
            Err("username is empty"@)
        } else {
            Ok((raw.take(p), raw.skip(p + 1)))
        },
    }
}

/// Splits `username:password` at the first colon (the password may hold colons).
pub fn split_user_password(raw: &str) -> (r: Result<(&str, &str), SecurityError>)
    ensures
        match split_outcome(raw@) {
            Ok(parts) => r matches Ok(got) && got.0@ == parts.0 && got.1@ == parts.1,
            Err(m) => r matches Err(e) && is_ldap_error(e, m),
        },
{
    let c = chars_of(raw);
    let colon = match find_char(c.as_slice(), ':') {
        Some(p) => p,
        None => return Err(SecurityError::Ldap { message: "credentials must be username:password".to_owned() }),
    };
    if colon == 0 {
        return Err(SecurityError::Ldap { message: "username is empty".to_owned() });
    }
    let n = raw.unicode_len();
    assert(colon < n);
    let username = raw.substring_char(0, colon);
    let password = raw.substring_char(colon + 1, n);
    assert(username@ =~= raw@.take(colon as int));
    assert(password@ =~= raw@.skip(colon + 1));
    Ok((username, password))
}

} // verus!
