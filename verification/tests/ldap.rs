use serenade::security::{
    authenticate_ldap_password, split_user_password, token_from_ldap_identity, Authenticator,
    LdapAuthenticator, LdapBindConfig, LdapBinder, LdapIdentity, MockLdapBinder, SecurityError,
    TokenInterface, UserInterface,
};

fn sample_config() -> LdapBindConfig {
    LdapBindConfig::new("ldaps://ldap.example.com", "dc=example,dc=com", "uid={username},ou=people,dc=example,dc=com")
}

fn sample_identity() -> LdapIdentity {
    LdapIdentity::new("uid=alice,ou=people,dc=example,dc=com", "alice", &["ROLE_USER"])
}

#[test]
fn user_dn_expands_username() {
    let config = sample_config();
    assert_eq!(config.uri(), "ldaps://ldap.example.com");
    assert_eq!(config.base_dn(), "dc=example,dc=com");
    assert_eq!(config.user_dn_template(), "uid={username},ou=people,dc=example,dc=com");
    assert_eq!(config.user_dn("alice").expect("dn"), "uid=alice,ou=people,dc=example,dc=com");
}

#[test]
fn user_dn_replaces_every_placeholder() {
    let config = LdapBindConfig::new("ldap://x", "dc=x", "cn={username},uid={username}");
    assert_eq!(config.user_dn("bo").expect("dn"), "cn=bo,uid=bo");
    let plain = LdapBindConfig::new("ldap://x", "dc=x", "cn=fixed");
    assert_eq!(plain.user_dn("bo").expect("dn"), "cn=fixed");
}

#[test]
fn user_dn_rejects_empty_username() {
    let err = sample_config().user_dn("").expect_err("empty");
    assert!(matches!(err, SecurityError::Ldap { .. }));
}

#[test]
fn mock_bind_and_token() {
    let binder = MockLdapBinder::new(sample_identity()).with_credentials("alice", "secret");
    let token = authenticate_ldap_password(&binder, "alice", "secret").expect("ok");
    assert!(token.is_authenticated());
    assert_eq!(token.user().map(UserInterface::user_identifier), Some("alice"));
    assert_eq!(token.credentials(), Some("secret"));
}

#[test]
fn mock_without_expected_credentials_accepts_any_user() {
    let binder = MockLdapBinder::new(sample_identity());
    let token = authenticate_ldap_password(&binder, "anyone", "secret").expect("ok");
    assert_eq!(token.user().map(UserInterface::user_identifier), Some("alice"));
}

#[test]
fn mock_rejects_wrong_username() {
    let binder = MockLdapBinder::new(sample_identity()).with_credentials("alice", "secret");
    let err = authenticate_ldap_password(&binder, "eve", "secret").expect_err("bad");
    assert!(matches!(err, SecurityError::Authentication { .. }));
}

#[test]
fn mock_rejects_wrong_password() {
    let binder = MockLdapBinder::new(sample_identity()).with_credentials("alice", "secret");
    let err = authenticate_ldap_password(&binder, "alice", "nope").expect_err("bad");
    assert!(matches!(err, SecurityError::Authentication { .. }));
}

#[test]
fn mock_rejects_empty_password() {
    let binder = MockLdapBinder::new(sample_identity());
    let err = binder.bind("alice", "").expect_err("empty");
    assert!(matches!(err, SecurityError::Authentication { .. }));
}

#[test]
fn authenticator_parses_colon_credentials() {
    let auth = LdapAuthenticator::new(
        MockLdapBinder::new(LdapIdentity::new("uid=bob,ou=people,dc=example,dc=com", "bob", &["ROLE_USER"]))
            .with_credentials("bob", "p:ass"),
    );
    let token = auth.authenticate(Some("bob:p:ass")).expect("ok");
    assert_eq!(token.user().map(UserInterface::user_identifier), Some("bob"));
}

#[test]
fn authenticator_rejects_missing_and_bad_shape() {
    let auth = LdapAuthenticator::new(MockLdapBinder::new(sample_identity()));
    assert!(matches!(auth.authenticate(None), Err(SecurityError::Authentication { .. })));
    assert!(matches!(auth.authenticate(Some("nocolon")), Err(SecurityError::Ldap { .. })));
    assert!(matches!(auth.authenticate(Some(":nopass")), Err(SecurityError::Ldap { .. })));
}

#[test]
fn identity_accessors() {
    let id = sample_identity();
    assert_eq!(id.dn(), "uid=alice,ou=people,dc=example,dc=com");
    assert_eq!(id.username(), "alice");
    assert_eq!(id.roles(), &["ROLE_USER".to_owned()]);
    let token = token_from_ldap_identity(&id, "");
    assert!(token.is_authenticated());
}

#[test]
fn split_user_password_ok() {
    assert_eq!(split_user_password("u:p:extra").expect("split"), ("u", "p:extra"));
    assert_eq!(split_user_password("u:").expect("empty password"), ("u", ""));
}
