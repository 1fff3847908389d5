//! [`RateLimiterError`] variants.

use vstd::prelude::*;

verus! {

/// Failure while creating or consuming a rate limiter.
#[derive(Debug, Clone, PartialEq, Eq)]
pub enum RateLimiterError {
    /// Limiter or subject key is empty or otherwise invalid.
    InvalidKey {
        /// Key that failed validation.
        key: String,
        /// Reason text.
        message: String,
    },
    /// Token count was zero when a positive consume was required, or overflowed.
    InvalidTokens {
        /// Requested token count.
        tokens: u32,
        /// Reason text.
        message: String,
    },
    /// Underlying storage failure.
    Storage {
        /// Reason text.
        message: String,
    },
}

/// Whether `e` is `InvalidKey` for key `key` with reason `message`.
pub open spec fn is_invalid_key(
    e: RateLimiterError,
    key: Seq<char>,
    message: Seq<char>,
) -> bool {
    e matches RateLimiterError::InvalidKey { key: k, message: m } && k@ == key && m@ == message
}

/// Whether `e` is `InvalidTokens` for `tokens` with reason `message`.
pub open spec fn is_invalid_tokens(e: RateLimiterError, tokens: u32, message: Seq<char>) -> bool {
    e matches RateLimiterError::InvalidTokens { tokens: t, message: m } && t == tokens && m@
        == message
}

/// Whether `e` is a storage failure with reason `message`.
pub open spec fn is_storage_error(e: RateLimiterError, message: Seq<char>) -> bool {
    e matches RateLimiterError::Storage { message: m } && m@ == message
}

impl RateLimiterError {
    /// Human-readable description, as the error's `Display` would print it.
    pub fn describe(&self) -> (r: String)
        ensures
            match self {
                RateLimiterError::InvalidKey { key, message } => r@ == "invalid rate-limiter key `"@
                    + key@ + "`: "@ + message@,
                RateLimiterError::InvalidTokens { tokens, message } => r@ == "invalid token count `"@
                    + crate::text::decimal(*tokens as nat) + "`: "@ + message@,
                RateLimiterError::Storage { message } => r@ == "rate-limiter storage error: "@
                    + message@,
            },
    {
        let mut out = String::new();
        match self {
            RateLimiterError::InvalidKey { key, message } => {
                out.append("invalid rate-limiter key `");
                out.append(key.as_str());
                out.append("`: ");
                out.append(message.as_str());
            },
            RateLimiterError::InvalidTokens { tokens, message } => {
                out.append("invalid token count `");
                let digits = crate::text::string_of(
                    crate::text::decimal_chars(*tokens as u128).as_slice(),
                );
                out.append(digits.as_str());
                out.append("`: ");
                out.append(message.as_str());
            },
            RateLimiterError::Storage { message } => {
                out.append("rate-limiter storage error: ");
                out.append(message.as_str());
            },
        }
        out
    }
}

} // verus!
