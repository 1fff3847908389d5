use serenade::security::{
    AccessDecisionManager, Authenticator, CsrfToken, CsrfTokenManager, FirewallMiddleware,
    HmacCsrfTokenManager, InMemoryUser, RoleVoter, SecurityError, TokenInterface, UserInterface,
    UsernamePasswordToken, Vote, Voter, CSRF_FIELD_NAME, TOKEN_ATTRIBUTE,
};

struct ApiKeyAuthenticator {
    expected: &'static str,
}

impl Authenticator for ApiKeyAuthenticator {
    fn authenticate(&self, credentials: Option<&str>) -> Result<UsernamePasswordToken, SecurityError> {
        let Some(raw) = credentials else {
            return Err(SecurityError::Authentication { message: "missing credentials".to_owned() });
        };
        let key = raw.strip_prefix("Bearer ").unwrap_or(raw);
        if key != self.expected {
            return Err(SecurityError::Authentication { message: "invalid api key".to_owned() });
        }
        Ok(UsernamePasswordToken::authenticated(InMemoryUser::new("admin", vec!["ROLE_ADMIN".to_owned()]), key))
    }
}

struct DenyAll;

impl Voter for DenyAll {
    fn vote(&self, _token: &UsernamePasswordToken, _subject: &str) -> Vote {
        Vote::Deny
    }
}

#[test]
fn user_and_token_basics() {
    let user = InMemoryUser::new("u1", vec!["ROLE_USER".to_owned()]);
    assert_eq!(user.user_identifier(), "u1");
    assert_eq!(user.roles(), &["ROLE_USER".to_owned()]);

    let anon = UsernamePasswordToken::anonymous();
    assert!(!anon.is_authenticated());
    assert!(anon.user().is_none());

    let token = UsernamePasswordToken::authenticated(user, "secret");
    assert!(token.is_authenticated());
    assert_eq!(token.credentials(), Some("secret"));
    assert_eq!(token.user().expect("user").user_identifier(), "u1");
}

#[test]
fn access_decision_affirmative() {
    let mut adm = AccessDecisionManager::new();
    adm.add_voter(RoleVoter::new("ROLE_ADMIN", "admin.area"));
    let token = UsernamePasswordToken::authenticated(InMemoryUser::new("a", vec!["ROLE_ADMIN".to_owned()]), "k");
    adm.decide(&token, "admin.area").expect("grant");
    let err = adm.decide(&token, "other").expect_err("no grant");
    assert!(matches!(err, SecurityError::AccessDenied { .. }));
    assert_eq!(err, SecurityError::AccessDenied { message: "subject `other` denied".to_owned() });
}

#[test]
fn access_decision_deny_and_empty() {
    let mut adm = AccessDecisionManager::new();
    let err = adm.decide(&UsernamePasswordToken::anonymous(), "x").expect_err("empty");
    assert!(matches!(err, SecurityError::AccessDenied { .. }));
    assert_eq!(err, SecurityError::AccessDenied { message: "no voters registered".to_owned() });
    adm.add_voter(DenyAll);
    let err = adm.decide(&UsernamePasswordToken::anonymous(), "x").expect_err("deny");
    assert!(matches!(err, SecurityError::AccessDenied { .. }));
}

#[test]
fn mixed_voters_grant_when_any_grants() {
    let mut adm: AccessDecisionManager<Box<dyn Voter>> = AccessDecisionManager::new();
    adm.add_voter(Box::new(DenyAll));
    adm.add_voter(Box::new(RoleVoter::new("ROLE_ADMIN", "admin.area")));
    let token = UsernamePasswordToken::authenticated(InMemoryUser::new("a", vec!["ROLE_ADMIN".to_owned()]), "k");
    adm.decide(&token, "admin.area").expect("one grant wins");
}

#[test]
fn role_voter_denies_anonymous_and_wrong_role() {
    let voter = RoleVoter::new("ROLE_ADMIN", "admin.area");
    assert_eq!(voter.vote(&UsernamePasswordToken::anonymous(), "admin.area"), Vote::Deny);
    let user_token = UsernamePasswordToken::authenticated(InMemoryUser::new("u", vec!["ROLE_USER".to_owned()]), "k");
    assert_eq!(voter.vote(&user_token, "admin.area"), Vote::Deny);
    assert_eq!(voter.vote(&user_token, "other"), Vote::Abstain);
}

#[test]
fn hmac_roundtrip() {
    let mgr = HmacCsrfTokenManager::new(b"test-secret-key-32bytes-minimum!!");
    let token = mgr.get_token("comment").expect("token");
    assert_eq!(token.id(), "comment");
    assert!(mgr.is_token_valid(&token));
    let forged = CsrfToken::new("comment", "deadbeef.badmac");
    assert!(!mgr.is_token_valid(&forged));
    let wrong_id = CsrfToken::new("other", token.value());
    assert!(!mgr.is_token_valid(&wrong_id));
}

#[test]
fn csrf_token_shape_and_fixed_nonce() {
    let mgr = HmacCsrfTokenManager::new(b"k");
    let token = mgr.token_for_nonce("form", &[0x00, 0xab]);
    let (nonce, mac) = token.value().split_once('.').expect("dot");
    assert_eq!(nonce, "00ab");
    assert_eq!(mac.len(), 64);
    assert!(mac.chars().all(|c| c.is_ascii_hexdigit() && !c.is_ascii_uppercase()));
    assert!(mgr.is_token_valid(&token));
    assert!(!mgr.is_token_valid(&CsrfToken::new("form", &format!(".{mac}"))));
    assert!(!mgr.is_token_valid(&CsrfToken::new("form", "00ab.")));
    assert!(!mgr.is_token_valid(&CsrfToken::new("form", "no-dot")));
    assert!(!HmacCsrfTokenManager::new(b"other").is_token_valid(&token));
    assert_eq!(CSRF_FIELD_NAME, "_token");
}

#[test]
fn firewall_decisions() {
    let firewall = FirewallMiddleware::new("Authorization", ApiKeyAuthenticator { expected: "secret" });
    assert_eq!(firewall.header_name(), "Authorization");
    let token = firewall.authenticate_request(Some("Bearer secret")).expect("token");
    assert!(token.is_authenticated());
    let (status, message) = firewall.authenticate_request(Some("Bearer wrong")).expect_err("401");
    assert_eq!(status, 401);
    assert_eq!(message, "authentication failed: invalid api key");
    assert!(firewall.authenticate_request(None).is_err());
    let open = FirewallMiddleware::new("Authorization", ApiKeyAuthenticator { expected: "secret" }).allow_anonymous(true);
    let anon = open.authenticate_request(None).expect("anonymous");
    assert!(!anon.is_authenticated());
    assert_eq!(TOKEN_ATTRIBUTE, "_security_token");
}

#[test]
fn security_error_texts() {
    assert_eq!(SecurityError::AccessDenied { message: "m".to_owned() }.describe(), "access denied: m");
    assert_eq!(SecurityError::Ldap { message: "m".to_owned() }.describe(), "LDAP error: m");
}

#[test]
fn firewall_sets_token_attribute() {
    let firewall = FirewallMiddleware::new("Authorization", ApiKeyAuthenticator { expected: "secret" });
    let token = firewall.authenticate_request(Some("Bearer secret")).expect("token");
    assert!(token.is_authenticated());
    assert_eq!(token.user().expect("user").user_identifier(), "admin");
    assert_eq!(TOKEN_ATTRIBUTE, "_security_token");
}

#[test]
fn firewall_401_on_bad_credentials() {
    let firewall = FirewallMiddleware::new("Authorization", ApiKeyAuthenticator { expected: "secret" });
    let (status, _message) = firewall.authenticate_request(Some("Bearer wrong")).expect_err("refused");
    assert_eq!(status, 401);
}

#[test]
fn firewall_anonymous_when_allowed() {
    let firewall =
        FirewallMiddleware::new("Authorization", ApiKeyAuthenticator { expected: "secret" }).allow_anonymous(true);
    let token = firewall.authenticate_request(None).expect("token");
    assert!(!token.is_authenticated());
}
