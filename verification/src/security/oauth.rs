//! OAuth 2.0 / OIDC relying-party helpers: authorization URLs with PKCE,
//! token-endpoint form bodies, and the mapping of an identity-provider
//! subject to a security token. Signatures of ID tokens are not checked.

use vstd::prelude::*;

use crate::security::codec::{
    base64url_decode, base64url_decoded, base64url_encode, base64url_of, claim_or_message,
    json_sub_claim, random_bytes, sha256, sha256_of, sub_claim, bytes_or_message,
};
use crate::security::error::{same_security_error, SecurityError};
use crate::serializer::codec::{json_from_bytes, json_parse_error, json_value_of};
use crate::security::user::{copy_strings, owned_strings, InMemoryUser, UsernamePasswordToken};
use crate::text::{
    chars_of, find_char, first_index, join, percent_encoded, push_all, push_percent_encoded, string_of,
    string_views, sub_chars, utf8_bytes, utf8_encode,
};

verus! {

/// Number of random bytes behind a generated `state` or PKCE verifier.
pub const RANDOM_TOKEN_BYTES: usize = 32;

/// The characters of an optional string.
pub open spec fn opt_text(s: Option<String>) -> Option<Seq<char>> {
    match s {
        Some(t) => Some(t@),
        None => None,
    }
}

/// OAuth 2.0 / OIDC client (relying party) settings.
#[derive(Debug, Clone)]
pub struct OAuthClientConfig {
    client_id: String,
    client_secret: Option<String>,
    authorization_endpoint: String,
    token_endpoint: String,
    redirect_uri: String,
    scopes: Vec<String>,
}

impl OAuthClientConfig {
    /// OAuth `client_id`.
    pub closed spec fn spec_client_id(&self) -> Seq<char> {
        self.client_id@
    }

    /// Client secret, when confidential.
    pub closed spec fn spec_client_secret(&self) -> Option<Seq<char>> {
        opt_text(self.client_secret)
    }

    /// Authorization endpoint URL.
    pub closed spec fn spec_authorization_endpoint(&self) -> Seq<char> {
        self.authorization_endpoint@
    }

    /// Token endpoint URL.
    pub closed spec fn spec_token_endpoint(&self) -> Seq<char> {
        self.token_endpoint@
    }

    /// Registered redirect URI.
    pub closed spec fn spec_redirect_uri(&self) -> Seq<char> {
        self.redirect_uri@
    }

    /// Scopes, in order.
    pub closed spec fn spec_scopes(&self) -> Seq<Seq<char>> {
        string_views(self.scopes@)
    }

    /// A public client (no secret, no scopes).
    pub fn new(client_id: &str, authorization_endpoint: &str, token_endpoint: &str, redirect_uri: &str) -> (r: Self)
        ensures
            r.spec_client_id() == client_id@,
            r.spec_client_secret() is None,
            r.spec_authorization_endpoint() == authorization_endpoint@,
            r.spec_token_endpoint() == token_endpoint@,
            r.spec_redirect_uri() == redirect_uri@,
            r.spec_scopes().len() == 0,
    {
        let r = OAuthClientConfig {
            client_id: client_id.to_owned(),
            client_secret: None,
            authorization_endpoint: authorization_endpoint.to_owned(),
            token_endpoint: token_endpoint.to_owned(),
            redirect_uri: redirect_uri.to_owned(),
            scopes: Vec::new(),
        };
        r
    }

    /// Sets the confidential-client secret.
    pub fn with_client_secret(self, secret: &str) -> (r: Self)
        ensures
            r.spec_client_id() == self.spec_client_id(),
            r.spec_client_secret() == Some(secret@),
            r.spec_authorization_endpoint() == self.spec_authorization_endpoint(),
            r.spec_token_endpoint() == self.spec_token_endpoint(),
            r.spec_redirect_uri() == self.spec_redirect_uri(),
            r.spec_scopes() == self.spec_scopes(),
    {
        OAuthClientConfig { client_secret: Some(secret.to_owned()), ..self }
    }

    /// Sets the scopes (for example `openid profile email`).
    pub fn with_scopes(self, scopes: &[&str]) -> (r: Self)
        ensures
            r.spec_client_id() == self.spec_client_id(),
            r.spec_client_secret() == self.spec_client_secret(),
            r.spec_authorization_endpoint() == self.spec_authorization_endpoint(),
            r.spec_token_endpoint() == self.spec_token_endpoint(),
            r.spec_redirect_uri() == self.spec_redirect_uri(),
            r.spec_scopes() == scopes@.map_values(|t: &str| t@),
    {
        OAuthClientConfig { scopes: owned_strings(scopes), ..self }
    }

    /// OAuth `client_id`.
    pub fn client_id(&self) -> (r: &str)
        ensures
            r@ == self.spec_client_id(),
    {
        self.client_id.as_str()
    }

    /// Client secret, when set.
    pub fn client_secret(&self) -> (r: Option<&str>)
        ensures
            match r {
                Some(s) => self.spec_client_secret() == Some(s@),
                None => self.spec_client_secret() is None,
            },
    {
        match &self.client_secret {
            Some(s) => Some(s.as_str()),
            None => None,
        }
    }

    /// Authorization endpoint URL.
    pub fn authorization_endpoint(&self) -> (r: &str)
        ensures
            r@ == self.spec_authorization_endpoint(),
    {
        self.authorization_endpoint.as_str()
    }

    /// Token endpoint URL.
    pub fn token_endpoint(&self) -> (r: &str)
        ensures
            r@ == self.spec_token_endpoint(),
    {
        self.token_endpoint.as_str()
    }

    /// Registered redirect URI.
    pub fn redirect_uri(&self) -> (r: &str)
        ensures
            r@ == self.spec_redirect_uri(),
    {
        self.redirect_uri.as_str()
    }

    /// Configured scopes.
    pub fn scopes(&self) -> (r: &[String])
        ensures
            string_views(r@) == self.spec_scopes(),
    {
        self.scopes.as_slice()
    }
}

/// `key=value` with the value URL-encoded byte by byte (UTF-8).
pub open spec fn query_pair(key: Seq<char>, value: Seq<char>) -> Seq<char> {
    key + seq!['='] + percent_encoded(utf8_encode(value))
}

/// The PKCE S256 challenge of `verifier`: base64url of its SHA-256.
pub open spec fn pkce_challenge(verifier: Seq<char>) -> Seq<char> {
    base64url_of(sha256_of(utf8_encode(verifier)))
}

/// Whether `s` holds the character `c`.
pub open spec fn holds_char(s: Seq<char>, c: char) -> bool {
    exists|i: int| 0 <= i < s.len() && s[i] == c
}

/// The authorization URL: the endpoint, `?` (or `&` when it already has a
/// query), then `response_type`, `client_id`, `redirect_uri`, `state`,
/// `code_challenge`, `code_challenge_method` and, with scopes, `scope`
/// (space-joined).
pub open spec fn authorization_url(config: OAuthClientConfig, state: Seq<char>, verifier: Seq<char>) -> Seq<char> {
    let endpoint = config.spec_authorization_endpoint();
    let base = endpoint + seq![if holds_char(endpoint, '?') { '&' } else { '?' }] + query_pair("response_type"@, "code"@)
        + seq!['&'] + query_pair("client_id"@, config.spec_client_id())
        + seq!['&'] + query_pair("redirect_uri"@, config.spec_redirect_uri())
        + seq!['&'] + query_pair("state"@, state)
        + seq!['&'] + query_pair("code_challenge"@, pkce_challenge(verifier))
        + seq!['&'] + query_pair("code_challenge_method"@, "S256"@);
    if config.spec_scopes().len() > 0 {
        base + seq!['&'] + query_pair("scope"@, join(config.spec_scopes(), seq![' ']))
    } else {
        base
    }
}

/// Authorization redirect URL plus the `state` and PKCE `code_verifier`.
#[derive(Debug, Clone, PartialEq, Eq)]
pub struct AuthorizationRequest {
    url: String,
    state: String,
    code_verifier: String,
}

impl AuthorizationRequest {
    /// Redirect URL.
    pub closed spec fn spec_url(&self) -> Seq<char> {
        self.url@
    }

    /// `state` value.
    pub closed spec fn spec_state(&self) -> Seq<char> {
        self.state@
    }

    /// PKCE verifier.
    pub closed spec fn spec_code_verifier(&self) -> Seq<char> {
        self.code_verifier@
    }

    /// Full redirect URL for the user agent.
    pub fn url(&self) -> (r: &str)
        ensures
            r@ == self.spec_url(),
    {
        self.url.as_str()
    }

    /// Opaque `state` value to store and compare on callback.
    pub fn state(&self) -> (r: &str)
        ensures
            r@ == self.spec_state(),
    {
        self.state.as_str()
    }

    /// PKCE verifier to send on the token exchange.
    pub fn code_verifier(&self) -> (r: &str)
        ensures
            r@ == self.spec_code_verifier(),
    {
        self.code_verifier.as_str()
    }
}

/// Appends `key=value` (value URL-encoded) to `out`.
fn push_query(out: &mut Vec<char>, key: &str, value: &[char])
    ensures
        final(out)@ == old(out)@ + query_pair(key@, value@),
{
    let k = chars_of(key);
    push_all(out, k.as_slice());
    out.push('=');
    let bytes = utf8_bytes(value);
    push_percent_encoded(out, bytes.as_slice());
}

/// `parts` joined with single spaces.
fn join_spaced(parts: &[String]) -> (r: Vec<char>)
    ensures
        r@ == join(string_views(parts@), seq![' ']),
{
    let mut views: Vec<Vec<char>> = Vec::new();
    let mut i: usize = 0;
    while i < parts.len()
        invariant
            0 <= i <= parts@.len(),
            views@.len() == i,
            forall|j: int| 0 <= j < i ==> (#[trigger] views@[j])@ == parts@[j]@,
        decreases parts@.len() - i,
    {
        views.push(chars_of(parts[i].as_str()));
        i = i + 1;
    }
    assert(crate::text::views_of(views@) =~= string_views(parts@));
    let sep = vec![' '];
    assert(sep@ =~= seq![' ']);
    crate::text::join_chars(&views, sep.as_slice())
}

/// Whether `s` holds `c`.
fn has_char(s: &[char], c: char) -> (r: bool)
    ensures
        r == holds_char(s@, c),
{
    match find_char(s, c) {
        Some(i) => true,
        None => false,
    }
}

/// The authorization request for caller-supplied `state` and PKCE verifier.
pub fn build_authorization_request_with(config: &OAuthClientConfig, state: &str, code_verifier: &str) -> (r: AuthorizationRequest)
    ensures
        r.spec_url() == authorization_url(*config, state@, code_verifier@),
        r.spec_state() == state@,
        r.spec_code_verifier() == code_verifier@,
{
    let verifier_bytes = utf8_bytes(chars_of(code_verifier).as_slice());
    let digest = sha256(verifier_bytes.as_slice());
    let challenge = chars_of(base64url_encode(digest.as_slice()).as_str());
    let endpoint = chars_of(config.authorization_endpoint());
    let mut url = endpoint.clone();
    if has_char(endpoint.as_slice(), '?') {
        url.push('&');
    } else {
        url.push('?');
    }
    push_query(&mut url, "response_type", chars_of("code").as_slice());
    url.push('&');
    push_query(&mut url, "client_id", chars_of(config.client_id()).as_slice());
    url.push('&');
    push_query(&mut url, "redirect_uri", chars_of(config.redirect_uri()).as_slice());
    url.push('&');
    push_query(&mut url, "state", chars_of(state).as_slice());
    url.push('&');
    push_query(&mut url, "code_challenge", challenge.as_slice());
    url.push('&');
    push_query(&mut url, "code_challenge_method", chars_of("S256").as_slice());
    let ghost base = url@;
    if config.scopes().len() > 0 {
        url.push('&');
        let joined = join_spaced(config.scopes());
        push_query(&mut url, "scope", joined.as_slice());
        assert(url@ =~= base + seq!['&'] + query_pair("scope"@, join(config.spec_scopes(), seq![' '])));
    }
    proof {
        assert(url@ =~= authorization_url(*config, state@, code_verifier@));
    }
    AuthorizationRequest { url: string_of(url.as_slice()), state: state.to_owned(), code_verifier: code_verifier.to_owned() }
}

/// URL-safe base64 of `n` random bytes, or `None` when the random source fails.
fn random_url_safe(n: usize) -> (r: Option<String>)
    ensures
        r matches Some(s) ==> exists|bytes: Seq<u8>| bytes.len() == n && s@ == #[trigger] base64url_of(bytes),
{
    match random_bytes(n) {
        Some(bytes) => Some(base64url_encode(bytes.as_slice())),
        None => None,
    }
}

/// The authorization request with a fresh random `state` and PKCE verifier
/// (base64url of 32 random bytes each); a failing random source is an OAuth error.
pub fn build_authorization_request(config: &OAuthClientConfig) -> (r: Result<AuthorizationRequest, SecurityError>)
    ensures
        r matches Ok(req) ==> req.spec_url() == authorization_url(*config, req.spec_state(), req.spec_code_verifier())
            && (exists|b: Seq<u8>| b.len() == RANDOM_TOKEN_BYTES && req.spec_state() == #[trigger] base64url_of(b))
            && (exists|b: Seq<u8>| b.len() == RANDOM_TOKEN_BYTES && req.spec_code_verifier() == #[trigger] base64url_of(b)),
        r matches Err(e) ==> (e matches SecurityError::OAuth { message } && message@ == "RNG failed"@),
{
    let state = match random_url_safe(RANDOM_TOKEN_BYTES) {
        Some(s) => s,
        None => return Err(SecurityError::OAuth { message: "RNG failed".to_owned() }),
    };
    let code_verifier = match random_url_safe(RANDOM_TOKEN_BYTES) {
        Some(s) => s,
        None => return Err(SecurityError::OAuth { message: "RNG failed".to_owned() }),
    };
    Ok(build_authorization_request_with(config, state.as_str(), code_verifier.as_str()))
}

/// The token-exchange form body: `grant_type`, `code`, `redirect_uri`,
/// `client_id`, `code_verifier` and, for a confidential client, `client_secret`.
pub open spec fn exchange_form(config: OAuthClientConfig, code: Seq<char>, verifier: Seq<char>) -> Seq<char> {
    let base = query_pair("grant_type"@, "authorization_code"@)
        + seq!['&'] + query_pair("code"@, code)
        + seq!['&'] + query_pair("redirect_uri"@, config.spec_redirect_uri())
        + seq!['&'] + query_pair("client_id"@, config.spec_client_id())
        + seq!['&'] + query_pair("code_verifier"@, verifier);
    match config.spec_client_secret() {
        Some(secret) => base + seq!['&'] + query_pair("client_secret"@, secret),
        None => base,
    }
}

/// A client secret only adds to the exchange form: the form of a
/// confidential client is that of the same client without a secret, then
/// `&client_secret=` and the encoded secret. Every other pair, the client id
/// among them, is sent whether or not the client has a secret.
pub proof fn law_exchange_form_secret_only_appends(
    confidential: OAuthClientConfig,
    public: OAuthClientConfig,
    code: Seq<char>,
    verifier: Seq<char>,
)
    requires
        confidential.spec_client_id() == public.spec_client_id(),
        confidential.spec_redirect_uri() == public.spec_redirect_uri(),
        confidential.spec_client_secret() is Some,
        public.spec_client_secret() is None,
    ensures
        exchange_form(confidential, code, verifier) == exchange_form(public, code, verifier) + "&client_secret="@
            + percent_encoded(utf8_encode(confidential.spec_client_secret()->0)),
{
    reveal_strlit("&client_secret=");
    reveal_strlit("client_secret");
    assert(exchange_form(confidential, code, verifier) =~= exchange_form(public, code, verifier) + "&client_secret="@
        + percent_encoded(utf8_encode(confidential.spec_client_secret()->0)));
}

/// The exchange form always names the client: it holds `&client_id=` and the
/// encoded client id, whatever the code, the verifier or the secret.
pub proof fn law_exchange_form_names_client(config: OAuthClientConfig, code: Seq<char>, verifier: Seq<char>)
    ensures
        ({
            let form = exchange_form(config, code, verifier);
            let pair = "&client_id="@ + percent_encoded(utf8_encode(config.spec_client_id()));
            exists|i: int| 0 <= i && i + pair.len() <= form.len() && #[trigger] form.subrange(i, i + pair.len()) == pair
        }),
{
    reveal_strlit("&client_id=");
    reveal_strlit("client_id");
    let form = exchange_form(config, code, verifier);
    let pair = "&client_id="@ + percent_encoded(utf8_encode(config.spec_client_id()));
    let head = query_pair("grant_type"@, "authorization_code"@) + seq!['&'] + query_pair("code"@, code) + seq!['&']
        + query_pair("redirect_uri"@, config.spec_redirect_uri());
    let i = head.len() as int;
    assert(form.subrange(i, i + pair.len()) =~= pair);
}

/// The exchange form asks for the authorization-code grant and carries the
/// code first, the redirect URI, and the PKCE verifier: it begins with
/// `grant_type=authorization_code`, `&code=` and the encoded code, holds
/// `&redirect_uri=` and the encoded URI, and, for a client without a secret,
/// ends with `&code_verifier=` and the encoded verifier.
pub proof fn law_exchange_form_carries_code_and_verifier(config: OAuthClientConfig, code: Seq<char>, verifier: Seq<char>)
    ensures
        ({
            let form = exchange_form(config, code, verifier);
            let start = "grant_type="@ + percent_encoded(utf8_encode("authorization_code"@)) + "&code="@
                + percent_encoded(utf8_encode(code));
            let uri = "&redirect_uri="@ + percent_encoded(utf8_encode(config.spec_redirect_uri()));
            let tail = "&code_verifier="@ + percent_encoded(utf8_encode(verifier));
            &&& start.len() <= form.len() && form.subrange(0, start.len() as int) == start
            &&& exists|i: int| 0 <= i && i + uri.len() <= form.len() && #[trigger] form.subrange(i, i + uri.len()) == uri
            &&& config.spec_client_secret() is None ==> (tail.len() <= form.len() && form.subrange(
                form.len() - tail.len(),
                form.len() as int,
            ) == tail)
        }),
{
    reveal_strlit("grant_type=");
    reveal_strlit("grant_type");
    reveal_strlit("&code=");
    reveal_strlit("code");
    reveal_strlit("&redirect_uri=");
    reveal_strlit("redirect_uri");
    reveal_strlit("&code_verifier=");
    reveal_strlit("code_verifier");
    let form = exchange_form(config, code, verifier);
    let start = "grant_type="@ + percent_encoded(utf8_encode("authorization_code"@)) + "&code="@
        + percent_encoded(utf8_encode(code));
    let uri = "&redirect_uri="@ + percent_encoded(utf8_encode(config.spec_redirect_uri()));
    let tail = "&code_verifier="@ + percent_encoded(utf8_encode(verifier));
    assert(form.subrange(0, start.len() as int) =~= start);
    let i = start.len() as int;
    assert(form.subrange(i, i + uri.len()) =~= uri);
    if config.spec_client_secret() is None {
        assert(form.subrange(form.len() - tail.len(), form.len() as int) =~= tail);
    }
}

/// `application/x-www-form-urlencoded` body for the authorization-code exchange.
pub fn token_exchange_form(config: &OAuthClientConfig, code: &str, code_verifier: &str) -> (r: String)
    ensures
        r@ == exchange_form(*config, code@, code_verifier@),
{
    let mut body: Vec<char> = Vec::new();
    push_query(&mut body, "grant_type", chars_of("authorization_code").as_slice());
    body.push('&');
    push_query(&mut body, "code", chars_of(code).as_slice());
    body.push('&');
    push_query(&mut body, "redirect_uri", chars_of(config.redirect_uri()).as_slice());
    body.push('&');
    push_query(&mut body, "client_id", chars_of(config.client_id()).as_slice());
    body.push('&');
    push_query(&mut body, "code_verifier", chars_of(code_verifier).as_slice());
    let ghost base = body@;
    match config.client_secret() {
        Some(secret) => {
            body.push('&');
            push_query(&mut body, "client_secret", chars_of(secret).as_slice());
            assert(body@ =~= base + seq!['&'] + query_pair("client_secret"@, secret@));
        },
        None => {},
    }
    assert(body@ =~= exchange_form(*config, code@, code_verifier@));
    string_of(body.as_slice())
}

/// Parsed token-endpoint response.
#[derive(Debug, Clone, PartialEq, Eq)]
pub struct OAuthTokenResponse {
    /// Access token string.
    pub access_token: String,
    /// Token type (usually `Bearer`).
    pub token_type: Option<String>,
    /// Lifetime in seconds when present.
    pub expires_in: Option<u64>,
    /// Refresh token when present.
    pub refresh_token: Option<String>,
    /// OIDC ID token (JWT) when present.
    pub id_token: Option<String>,
    /// Granted scope string when present.
    pub scope: Option<String>,
}

/// Whether two responses hold the same values.
pub open spec fn same_response(a: OAuthTokenResponse, b: OAuthTokenResponse) -> bool {
    &&& a.access_token@ == b.access_token@
    &&& opt_text(a.token_type) == opt_text(b.token_type)
    &&& a.expires_in == b.expires_in
    &&& opt_text(a.refresh_token) == opt_text(b.refresh_token)
    &&& opt_text(a.id_token) == opt_text(b.id_token)
    &&& opt_text(a.scope) == opt_text(b.scope)
}

/// A copy of an optional string.
fn copy_opt(s: &Option<String>) -> (r: Option<String>)
    ensures
        opt_text(r) == opt_text(*s),
{
    match s {
        Some(t) => Some(t.clone()),
        None => None,
    }
}

impl OAuthTokenResponse {
    /// A copy of this response.
    pub fn duplicate(&self) -> (r: Self)
        ensures
            same_response(r, *self),
    {
        OAuthTokenResponse {
            access_token: self.access_token.clone(),
            token_type: copy_opt(&self.token_type),
            expires_in: self.expires_in,
            refresh_token: copy_opt(&self.refresh_token),
            id_token: copy_opt(&self.id_token),
            scope: copy_opt(&self.scope),
        }
    }
}

/// Sync token exchange; applications implement it with their HTTP stack.
pub trait TokenExchanger {
    /// Sends the authorization code to the token endpoint.
    fn exchange_code(&self, config: &OAuthClientConfig, code: &str, code_verifier: &str) -> Result<OAuthTokenResponse, SecurityError>;
}

/// Fixed-response exchanger for tests.
#[derive(Debug, Clone)]
pub struct MockTokenExchanger {
    response: OAuthTokenResponse,
}

impl MockTokenExchanger {
    /// The response every exchange returns.
    pub closed spec fn spec_response(&self) -> OAuthTokenResponse {
        self.response
    }

    /// Returns `response` for every exchange.
    pub fn new(response: OAuthTokenResponse) -> (r: Self)
        ensures
            r.spec_response() == response,
    {
        MockTokenExchanger { response }
    }
}

impl TokenExchanger for MockTokenExchanger {
    fn exchange_code(&self, config: &OAuthClientConfig, code: &str, code_verifier: &str) -> (r: Result<OAuthTokenResponse, SecurityError>)
        ensures
            r matches Ok(got) && same_response(got, self.spec_response()),
    {
        Ok(self.response.duplicate())
    }
}

/// An authenticated token for an identity-provider `subject` with `roles`.
pub fn token_from_oidc_subject(subject: &str, roles: &[&str], access_token: &str) -> (r: UsernamePasswordToken)
    ensures
        r.spec_user() matches Some(u) && u.spec_identifier() == subject@ && u.spec_roles() == roles@.map_values(|t: &str| t@),
        r.spec_credentials() == Some(access_token@),
{
    UsernamePasswordToken::authenticated(InMemoryUser::new(subject, owned_strings(roles)), access_token)
}

/// The second `.`-separated segment of `jwt` (its payload), if any.
pub open spec fn jwt_payload_segment(jwt: Seq<char>) -> Option<Seq<char>> {
    match first_index(jwt, '.') {
        None => None,
        Some(p) => {
            let rest = jwt.skip(p + 1);
            match first_index(rest, '.') {
                None => Some(rest),
                Some(q) => Some(rest.take(q)),
            }
        },
    }
}

/// The `sub` claim of an unverified ID token, or the message of the OAuth
/// error it gives.
pub open spec fn subject_outcome(jwt: Seq<char>) -> Result<Seq<char>, Seq<char>> {
    match jwt_payload_segment(jwt) {
        None => Err("id_token is not a JWT"@),
        Some(segment) => match base64url_decoded(segment) {
            Err(m) => Err("invalid JWT payload encoding: "@ + m),
            Ok(bytes) => match json_sub_claim(bytes) {
                Err(m) => Err("invalid JWT payload JSON: "@ + m),
                Ok(None) => Err("id_token payload missing sub"@),
                Ok(Some(sub)) => Ok(sub),
            },
        },
    }
}

/// The payload segment of `jwt`.
fn payload_segment(jwt: &[char]) -> (r: Option<Vec<char>>)
    ensures
        match r {
            Some(s) => jwt_payload_segment(jwt@) == Some(s@),
            None => jwt_payload_segment(jwt@) is None,
        },
{
    let p = match find_char(jwt, '.') {
        Some(p) => p,
        None => return None,
    };
    let n = jwt.len();
    assert(p < n);
    let rest = sub_chars(jwt, p + 1, n);
    assert(rest@ =~= jwt@.skip(p + 1));
    match find_char(rest.as_slice(), '.') {
        Some(q) => {
            let seg = sub_chars(rest.as_slice(), 0, q);
            assert(seg@ =~= rest@.take(q as int));
            Some(seg)
        },
        None => Some(rest),
    }
}

/// The error with message `prefix` followed by `detail`.
fn oauth_error(prefix: &str, detail: &str) -> (r: SecurityError)
    ensures
        r matches SecurityError::OAuth { message } && message@ == prefix@ + detail@,
{
    let mut message = String::new();
    message.append(prefix);
    message.append(detail);
    SecurityError::OAuth { message }
}

/// The decoded payload of an ID token, or the message of the OAuth error.
pub open spec fn payload_outcome(jwt: Seq<char>) -> Result<Seq<u8>, Seq<char>> {
    match jwt_payload_segment(jwt) {
        None => Err("id_token is not a JWT"@),
        Some(segment) => match base64url_decoded(segment) {
            Err(m) => Err("invalid JWT payload encoding: "@ + m),
            Ok(bytes) => Ok(bytes),
        },
    }
}

/// The payload bytes of a JWT: its second segment, base64url-decoded. The
/// signature is not checked.
pub fn jwt_payload_bytes(jwt: &str) -> (r: Result<Vec<u8>, SecurityError>)
    ensures
        match payload_outcome(jwt@) {
            Ok(bytes) => r matches Ok(b) && b@ == bytes,
            Err(m) => r matches Err(e) && (e matches SecurityError::OAuth { message } && message@ == m),
        },
{
    let chars = chars_of(jwt);
    let segment = match payload_segment(chars.as_slice()) {
        Some(s) => s,
        None => return Err(SecurityError::OAuth { message: "id_token is not a JWT".to_owned() }),
    };
    let text = string_of(segment.as_slice());
    match base64url_decode(text.as_str()) {
        Ok(b) => Ok(b),
        Err(m) => Err(oauth_error("invalid JWT payload encoding: ", m.as_str())),
    }
}

/// Decodes the JWT payload segment as JSON, without verifying the
/// signature: the payload errors of [`jwt_payload_bytes`], or an OAuth error
/// carrying the JSON parser's message.
pub fn decode_jwt_payload_json(jwt: &str) -> (r: Result<serde_json::Value, SecurityError>)
    ensures
        payload_outcome(jwt@) matches Err(m) ==> (r matches Err(e) && (e matches SecurityError::OAuth { message }
            && message@ == m)),
        payload_outcome(jwt@) is Ok ==> match json_parse_error(payload_outcome(jwt@)->Ok_0) {
            None => r == Ok::<serde_json::Value, SecurityError>(json_value_of(payload_outcome(jwt@)->Ok_0)),
            Some(m) => r matches Err(e) && (e matches SecurityError::OAuth { message }
                && message@ == "invalid JWT payload JSON: "@ + m),
        },
{
    let bytes = match jwt_payload_bytes(jwt) {
        Ok(b) => b,
        Err(e) => return Err(e),
    };
    match json_from_bytes(bytes.as_slice()) {
        Ok(v) => Ok(v),
        Err(m) => Err(oauth_error("invalid JWT payload JSON: ", m.as_str())),
    }
}

/// Reads the OIDC `sub` claim from an ID token without verifying it.
pub fn subject_from_id_token(id_token: &str) -> (r: Result<String, SecurityError>)
    ensures
        match subject_outcome(id_token@) {
            Ok(sub) => r matches Ok(s) && s@ == sub,
            Err(m) => r matches Err(e) && (e matches SecurityError::OAuth { message } && message@ == m),
        },
{
    let bytes = match jwt_payload_bytes(id_token) {
        Ok(b) => b,
        Err(e) => return Err(e),
    };
    match sub_claim(bytes.as_slice()) {
        Ok(Some(sub)) => Ok(sub),
        Ok(None) => Err(SecurityError::OAuth { message: "id_token payload missing sub".to_owned() }),
        Err(m) => Err(oauth_error("invalid JWT payload JSON: ", m.as_str())),
    }
}

} // verus!
