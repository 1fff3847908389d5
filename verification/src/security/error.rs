//! Security component errors.

use vstd::prelude::*;

verus! {

/// Crate version for diagnostics.
pub fn version() -> (r: &'static str)
    ensures
        r@ == "0.1.0"@,
{
    "0.1.0"
}

/// Authentication or authorization failure.
#[derive(Debug, Clone, PartialEq, Eq)]
pub enum SecurityError {
    /// Authenticator rejected the credentials.
    Authentication {
        /// Reason text.
        message: String,
    },
    /// Access decision denied the subject.
    AccessDenied {
        /// Reason text.
        message: String,
    },
    /// The random source failed while issuing a CSRF token.
    CsrfGeneration,
    /// Directory (LDAP) bind helpers rejected their input.
    Ldap {
        /// Reason text.
        message: String,
    },
    /// OAuth / OIDC helpers failed.
    OAuth {
        /// Reason text.
        message: String,
    },
}

/// Whether two errors are the same variant with the same texts.
pub open spec fn same_security_error(a: SecurityError, b: SecurityError) -> bool {
    match (a, b) {
        (SecurityError::Authentication { message: x }, SecurityError::Authentication { message: y }) => x@ == y@,
        (SecurityError::AccessDenied { message: x }, SecurityError::AccessDenied { message: y }) => x@ == y@,
        (SecurityError::CsrfGeneration, SecurityError::CsrfGeneration) => true,
        (SecurityError::Ldap { message: x }, SecurityError::Ldap { message: y }) => x@ == y@,
        (SecurityError::OAuth { message: x }, SecurityError::OAuth { message: y }) => x@ == y@,
        _ => false,
    }
}

/// The human-readable text of an error.
pub open spec fn security_error_text(e: SecurityError) -> Seq<char> {
    match e {
        SecurityError::Authentication { message } => "authentication failed: "@ + message@,
        SecurityError::AccessDenied { message } => "access denied: "@ + message@,
        SecurityError::CsrfGeneration => "CSRF token generation failed"@,
        SecurityError::Ldap { message } => "LDAP error: "@ + message@,
        SecurityError::OAuth { message } => "OAuth error: "@ + message@,
    }
}

impl SecurityError {
    /// The human-readable text of this error.
    pub fn describe(&self) -> (r: String)
        ensures
            r@ == security_error_text(*self),
    {
        let mut out = String::new();
        match self {
            SecurityError::Authentication { message } => {
                out.append("authentication failed: ");
                out.append(message.as_str());
            },
            SecurityError::AccessDenied { message } => {
                out.append("access denied: ");
                out.append(message.as_str());
            },
            SecurityError::CsrfGeneration => {
                out.append("CSRF token generation failed");
            },
            SecurityError::Ldap { message } => {
                out.append("LDAP error: ");
                out.append(message.as_str());
            },
            SecurityError::OAuth { message } => {
                out.append("OAuth error: ");
                out.append(message.as_str());
            },
        }
        out
    }

    /// A copy of this error.
    pub fn duplicate(&self) -> (r: Self)
        ensures
            same_security_error(r, *self),
    {
        match self {
            SecurityError::Authentication { message } => SecurityError::Authentication { message: message.clone() },
            SecurityError::AccessDenied { message } => SecurityError::AccessDenied { message: message.clone() },
            SecurityError::CsrfGeneration => SecurityError::CsrfGeneration,
            SecurityError::Ldap { message } => SecurityError::Ldap { message: message.clone() },
            SecurityError::OAuth { message } => SecurityError::OAuth { message: message.clone() },
        }
    }
}

} // verus!
