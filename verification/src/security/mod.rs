//! Authentication and authorization: users and tokens, voters, a firewall
//! decision, CSRF tokens, LDAP bind helpers and OAuth / OIDC client helpers.

pub mod access;
pub mod codec;
pub mod csrf;
pub mod error;
pub mod firewall;
pub mod ldap;
pub mod oauth;
pub mod user;

pub use access::{decide_votes, AccessDecisionManager, RoleVoter, Vote, Voter};
pub use csrf::{CsrfToken, CsrfTokenManager, HmacCsrfTokenManager, CSRF_FIELD_NAME};
pub use error::{version, SecurityError};
pub use firewall::{Authenticator, FirewallMiddleware, TOKEN_ATTRIBUTE};
pub use ldap::{
    authenticate_ldap_password, split_user_password, token_from_ldap_identity, LdapAuthenticator,
    LdapBindConfig, LdapBinder, LdapIdentity, MockLdapBinder, LDAP_USERNAME_PLACEHOLDER,
};
pub use oauth::{
    build_authorization_request, build_authorization_request_with, decode_jwt_payload_json, jwt_payload_bytes,
    subject_from_id_token,
    token_exchange_form, token_from_oidc_subject, AuthorizationRequest, MockTokenExchanger,
    OAuthClientConfig, OAuthTokenResponse, TokenExchanger,
};
pub use user::{InMemoryUser, TokenInterface, UserInterface, UsernamePasswordToken};
