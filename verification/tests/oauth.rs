use base64::engine::general_purpose::URL_SAFE_NO_PAD;
use base64::Engine;
use sha2::{Digest, Sha256};

use serenade::security::{
    build_authorization_request, build_authorization_request_with, decode_jwt_payload_json, subject_from_id_token,
    token_exchange_form, token_from_oidc_subject, MockTokenExchanger, OAuthClientConfig,
    OAuthTokenResponse, SecurityError, TokenExchanger, TokenInterface, UserInterface,
};

fn sample_config() -> OAuthClientConfig {
    OAuthClientConfig::new(
        "client-1",
        "https://idp.example/authorize",
        "https://idp.example/token",
        "https://app.example/callback",
    )
    .with_scopes(&["openid", "profile"])
    .with_client_secret("sekrit")
}

#[test]
fn authorization_url_includes_pkce_and_state() {
    let req = build_authorization_request_with(&sample_config(), "st", "verifier-value-32chars________");
    assert!(req.url().starts_with("https://idp.example/authorize?"));
    assert!(req.url().contains("response_type=code"));
    assert!(req.url().contains("client_id=client-1"));
    assert!(req.url().contains("state=st"));
    assert!(req.url().contains("code_challenge_method=S256"));
    assert!(req.url().contains("code_challenge="));
    assert!(req.url().contains("scope=openid%20profile"));
    assert_eq!(req.state(), "st");
    assert_eq!(req.code_verifier(), "verifier-value-32chars________");
}

#[test]
fn authorization_url_carries_s256_challenge() {
    let req = build_authorization_request_with(&sample_config(), "st", "v");
    let challenge = URL_SAFE_NO_PAD.encode(Sha256::digest(b"v"));
    assert!(req.url().contains(&format!("code_challenge={challenge}&")));
    assert!(req.url().contains("redirect_uri=https%3A%2F%2Fapp.example%2Fcallback"));
}

#[test]
fn authorization_url_appends_when_endpoint_has_query() {
    let config = OAuthClientConfig::new("c", "https://idp.example/authorize?foo=1", "https://idp.example/token", "https://app.example/cb");
    let req = build_authorization_request_with(&config, "s", "v");
    assert!(req.url().starts_with("https://idp.example/authorize?foo=1&"));
    assert!(!req.url().contains("scope="));
}

#[test]
fn token_form_includes_secret_and_pkce() {
    let body = token_exchange_form(&sample_config(), "auth-code", "verifier");
    assert!(body.contains("grant_type=authorization_code"));
    assert!(body.contains("code=auth-code"));
    assert!(body.contains("code_verifier=verifier"));
    assert!(body.contains("client_secret=sekrit"));
    assert!(body.contains("redirect_uri=https%3A%2F%2Fapp.example%2Fcallback"));
}

#[test]
fn token_form_for_public_client() {
    let config = OAuthClientConfig::new("c 1", "https://a", "https://t", "r");
    assert_eq!(
        token_exchange_form(&config, "x", "é"),
        "grant_type=authorization_code&code=x&redirect_uri=r&client_id=c%201&code_verifier=%C3%A9"
    );
}

#[test]
fn mock_exchange_returns_its_response() {
    let response = OAuthTokenResponse {
        access_token: "at".to_owned(),
        token_type: Some("Bearer".to_owned()),
        expires_in: Some(3600),
        refresh_token: None,
        id_token: Some("x.eyJzdWIiOiJ1MSJ9.y".to_owned()),
        scope: None,
    };
    let exchanger = MockTokenExchanger::new(response.clone());
    let got = exchanger.exchange_code(&sample_config(), "c", "v").expect("exchange");
    assert_eq!(got, response);
    assert_eq!(subject_from_id_token(got.id_token.as_deref().expect("id token")).expect("sub"), "u1");
}

#[test]
fn subject_from_minimal_jwt() {
    let payload = URL_SAFE_NO_PAD.encode(br#"{"sub":"user-42"}"#);
    let jwt = format!("hdr.{payload}.sig");
    assert_eq!(subject_from_id_token(&jwt).expect("sub"), "user-42");
}

#[test]
fn subject_rejects_non_jwt() {
    let err = subject_from_id_token("no-dots").expect_err("bad");
    assert!(matches!(err, SecurityError::OAuth { .. }));
}

#[test]
fn subject_rejects_missing_sub() {
    let payload = URL_SAFE_NO_PAD.encode(br#"{"aud":"x"}"#);
    let jwt = format!("hdr.{payload}.sig");
    let err = subject_from_id_token(&jwt).expect_err("no sub");
    assert!(matches!(err, SecurityError::OAuth { .. }));
}

#[test]
fn subject_rejects_bad_encoding_and_json() {
    let err = subject_from_id_token("a.!!!.b").expect_err("encoding");
    assert!(matches!(&err, SecurityError::OAuth { message } if message.starts_with("invalid JWT payload encoding: ")));
    let payload = URL_SAFE_NO_PAD.encode(b"not json");
    let err = subject_from_id_token(&format!("a.{payload}")).expect_err("json");
    assert!(matches!(&err, SecurityError::OAuth { message } if message.starts_with("invalid JWT payload JSON: ")));
}

#[test]
fn token_from_subject_is_authenticated() {
    let token = token_from_oidc_subject("alice", &["ROLE_USER"], "access");
    assert!(token.is_authenticated());
    assert_eq!(token.user().map(UserInterface::user_identifier), Some("alice"));
    assert_eq!(token.credentials(), Some("access"));
}

#[test]
fn build_authorization_request_uses_rng() {
    let a = build_authorization_request(&sample_config()).expect("a");
    let b = build_authorization_request(&sample_config()).expect("b");
    assert_ne!(a.state(), b.state());
    assert_ne!(a.code_verifier(), b.code_verifier());
    assert_ne!(a.state(), "");
    assert_ne!(a.code_verifier(), "");
}

#[test]
fn config_accessors() {
    let config = sample_config();
    assert_eq!(config.client_id(), "client-1");
    assert_eq!(config.client_secret(), Some("sekrit"));
    assert_eq!(config.authorization_endpoint(), "https://idp.example/authorize");
    assert_eq!(config.token_endpoint(), "https://idp.example/token");
    assert_eq!(config.redirect_uri(), "https://app.example/callback");
    assert_eq!(config.scopes(), &["openid".to_owned(), "profile".to_owned()]);
}

#[test]
fn jwt_payload_json_decodes_and_reports_bad_json() {
    let value = decode_jwt_payload_json("h.eyJzdWIiOiJ1MSJ9.s").expect("payload");
    assert_eq!(value.get("sub").and_then(|v| v.as_str()), Some("u1"));
    match decode_jwt_payload_json("h.bm90anNvbg.s") {
        Err(SecurityError::OAuth { message }) => assert!(message.starts_with("invalid JWT payload JSON: ")),
        other => panic!("unexpected {other:?}"),
    }
    match decode_jwt_payload_json("no-dots") {
        Err(SecurityError::OAuth { message }) => assert_eq!(message, "id_token is not a JWT"),
        other => panic!("unexpected {other:?}"),
    }
}
