//! Service wiring: shared storage, the default-storage pass, the shared
//! storage configuration, and the HTTP 429 reply for rejected consumes.

use vstd::prelude::*;

use super::error::{RateLimiterError, is_invalid_key, is_invalid_tokens};
use super::limiter::RateLimiterFactory;
use super::policy::{MAX_DURATION_NANOS, Policy, RateLimit};
use crate::text::{
    any_equal, decimal, decimal_chars, lemma_parse_decimal, mentions, parse_unsigned, string_of, string_views,
};

verus! {

/// Service tag applied to rate-limiter storage definitions.
pub const RATE_LIMITER_STORAGE_TAG: &'static str = "rate_limiter.storage";

/// Container id of the default rate-limiter storage.
pub const DEFAULT_RATE_LIMITER_STORAGE_SERVICE: &'static str = "rate_limiter.storage";

/// A storage shared by the limiters of an application.
pub struct RateLimiterStorageService<S>(pub S);

impl<S> RateLimiterStorageService<S> {
    /// A factory for limiter `name` with `policy`, to be used with the
    /// wrapped storage.
    pub fn factory(&self, name: &str, policy: Policy) -> (r: Result<RateLimiterFactory, RateLimiterError>)
        ensures
            name@.len() == 0 ==> r is Err && is_invalid_key(r->Err_0, name@, "key must not be empty"@),
            name@.len() > 0 ==> (r matches Ok(f) && f.spec_name() == name@ && f.spec_policy() == policy),
    {
        RateLimiterFactory::new(name, policy)
    }

    /// A factory with a fixed window of `limit` tokens per `interval`.
    pub fn fixed_window_factory(&self, name: &str, limit: u32, interval: u128) -> (r: Result<
        RateLimiterFactory,
        RateLimiterError,
    >)
        requires
            interval <= MAX_DURATION_NANOS,
        ensures
            limit == 0 ==> r is Err && is_invalid_tokens(r->Err_0, 0, "policy limit must be greater than zero"@),
            limit != 0 && interval == 0 ==> r is Err && is_invalid_tokens(
                r->Err_0,
                limit,
                "policy interval must be greater than zero"@,
            ),
            limit != 0 && interval != 0 && name@.len() == 0 ==> r is Err && is_invalid_key(
                r->Err_0,
                name@,
                "key must not be empty"@,
            ),
            limit > 0 && interval > 0 && name@.len() > 0 ==> (r matches Ok(f) && f.spec_name()
                == name@ && f.spec_policy() == Policy::FixedWindow { limit, interval }),
    {
        let policy = Policy::fixed_window(limit, interval)?;
        self.factory(name, policy)
    }

    /// A factory with a token bucket of `limit` tokens refilled over `interval`.
    pub fn token_bucket_factory(&self, name: &str, limit: u32, interval: u128) -> (r: Result<
        RateLimiterFactory,
        RateLimiterError,
    >)
        requires
            interval <= MAX_DURATION_NANOS,
        ensures
            limit == 0 ==> r is Err && is_invalid_tokens(r->Err_0, 0, "policy limit must be greater than zero"@),
            limit != 0 && interval == 0 ==> r is Err && is_invalid_tokens(
                r->Err_0,
                limit,
                "policy interval must be greater than zero"@,
            ),
            limit != 0 && interval != 0 && name@.len() == 0 ==> r is Err && is_invalid_key(
                r->Err_0,
                name@,
                "key must not be empty"@,
            ),
            limit > 0 && interval > 0 && name@.len() > 0 ==> (r matches Ok(f) && f.spec_name()
                == name@ && f.spec_policy() == Policy::TokenBucket { limit, interval }),
    {
        let policy = Policy::token_bucket(limit, interval)?;
        self.factory(name, policy)
    }
}

/// Registers the in-process storage as the default when none is defined.
#[derive(Clone, Copy, Debug, Default)]
pub struct RegisterDefaultRateLimiterPass;

impl RegisterDefaultRateLimiterPass {
    /// Name of the pass.
    pub fn name(&self) -> (r: &'static str)
        ensures
            r@ == "register_default_rate_limiter_storage"@,
    {
        "register_default_rate_limiter_storage"
    }

    /// Whether the in-process storage must be registered as the default,
    /// given the ids of the services already defined.
    pub fn should_register(&self, defined: &[String]) -> (r: bool)
        ensures
            r == !mentions(string_views(defined@), DEFAULT_RATE_LIMITER_STORAGE_SERVICE@),
    {
        !any_equal(defined, DEFAULT_RATE_LIMITER_STORAGE_SERVICE)
    }
}

/// Settings of a storage shared through a key-value server.
#[derive(Clone, Debug)]
pub struct RedisRateLimiterStorageConfig {
    /// Server URL.
    pub url: String,
    /// Prefix of every stored key.
    pub prefix: String,
    /// Largest number of pooled connections (at least one).
    pub pool_max_size: u32,
    /// How long to wait for a pooled connection (nanoseconds).
    pub connection_timeout: u128,
    /// Whether to open one connection when the pool is built.
    pub warm_pool: bool,
}

impl RedisRateLimiterStorageConfig {
    /// Settings for `url` with prefix `serenade:rate-limiter:`, a pool of
    /// eight, a five-second timeout and no warm-up.
    pub fn new(url: &str) -> (r: Self)
        ensures
            r.url@ == url@,
            r.prefix@ == "serenade:rate-limiter:"@,
            r.pool_max_size == 8,
            r.connection_timeout == 5_000_000_000,
            !r.warm_pool,
    {
        RedisRateLimiterStorageConfig {
            url: url.to_owned(),
            prefix: "serenade:rate-limiter:".to_string(),
            pool_max_size: 8,
            connection_timeout: 5_000_000_000,
            warm_pool: false,
        }
    }

    /// Sets the key prefix.
    pub fn with_prefix(self, prefix: &str) -> (r: Self)
        ensures
            r.prefix@ == prefix@,
            r.url == self.url,
            r.pool_max_size == self.pool_max_size,
            r.connection_timeout == self.connection_timeout,
            r.warm_pool == self.warm_pool,
    {
        RedisRateLimiterStorageConfig { prefix: prefix.to_owned(), ..self }
    }

    /// Sets the pool size; zero is raised to one.
    pub fn with_pool_max_size(self, size: u32) -> (r: Self)
        ensures
            r.pool_max_size == if size == 0 { 1 } else { size },
            r.url == self.url,
            r.prefix == self.prefix,
            r.connection_timeout == self.connection_timeout,
            r.warm_pool == self.warm_pool,
    {
        RedisRateLimiterStorageConfig { pool_max_size: if size == 0 { 1 } else { size }, ..self }
    }

    /// Sets the connection timeout (nanoseconds).
    pub fn with_connection_timeout(self, timeout: u128) -> (r: Self)
        ensures
            r.connection_timeout == timeout,
            r.url == self.url,
            r.prefix == self.prefix,
            r.pool_max_size == self.pool_max_size,
            r.warm_pool == self.warm_pool,
    {
        RedisRateLimiterStorageConfig { connection_timeout: timeout, ..self }
    }

    /// Sets whether the pool opens a connection when built.
    pub fn with_warm_pool(self, warm: bool) -> (r: Self)
        ensures
            r.warm_pool == warm,
            r.url == self.url,
            r.prefix == self.prefix,
            r.pool_max_size == self.pool_max_size,
            r.connection_timeout == self.connection_timeout,
    {
        RedisRateLimiterStorageConfig { warm_pool: warm, ..self }
    }
}

/// An HTTP reply: status, headers and text body.
#[derive(Clone, Debug)]
pub struct HttpReply {
    /// Status code.
    pub status: u16,
    /// Header names and values, in order.
    pub headers: Vec<(String, String)>,
    /// Text body.
    pub body: String,
}

/// Nanoseconds per second.
pub const NANOS_PER_SECOND: u128 = 1_000_000_000;

/// The `Retry-After` seconds for a wait: whole seconds, at least one.
pub open spec fn retry_after_seconds(wait: u128) -> nat {
    if wait / NANOS_PER_SECOND < 1 { 1 } else { (wait / NANOS_PER_SECOND) as nat }
}

/// A `429 Too Many Requests` reply for a rejected decision, with
/// `x-ratelimit-limit`, `x-ratelimit-remaining` and, when a wait is
/// suggested, `retry-after` in whole seconds (at least one).
pub fn too_many_requests(rate_limit: &RateLimit) -> (r: HttpReply)
    ensures
        r.status == 429,
        r.body@ == "Too Many Requests"@,
        r.headers@.len() == if rate_limit.spec_retry_after() is Some { 3int } else { 2int },
        r.headers@[0].0@ == "x-ratelimit-limit"@,
        r.headers@[0].1@ == decimal(rate_limit.spec_limit() as nat),
        r.headers@[1].0@ == "x-ratelimit-remaining"@,
        r.headers@[1].1@ == decimal(rate_limit.spec_remaining() as nat),
        rate_limit.spec_retry_after() matches Some(wait) ==> r.headers@[2].0@ == "retry-after"@
            && r.headers@[2].1@ == decimal(retry_after_seconds(wait)),
{
    let mut headers: Vec<(String, String)> = Vec::new();
    headers.push(
        (
            "x-ratelimit-limit".to_string(),
            string_of(decimal_chars(rate_limit.limit() as u128).as_slice()),
        ),
    );
    headers.push(
        (
            "x-ratelimit-remaining".to_string(),
            string_of(decimal_chars(rate_limit.remaining_tokens() as u128).as_slice()),
        ),
    );
    match rate_limit.retry_after() {
        Some(wait) => {
            let secs = wait / NANOS_PER_SECOND;
            let secs = if secs < 1 { 1 } else { secs };
            headers.push(("retry-after".to_string(), string_of(decimal_chars(secs).as_slice())));
        },
        None => {},
    }
    HttpReply { status: 429, headers, body: "Too Many Requests".to_string() }
}

/// The `retry-after` header of a 429 reply counts the suggested wait in whole
/// seconds, at least one: the header reads back as a number `s` of seconds
/// such that `s` seconds do not exceed the wait and `s + 1` seconds do, once
/// the wait reaches a second; a shorter wait reads as one second.
pub proof fn law_retry_after_in_whole_seconds(wait: u128)
    ensures
        ({
            let s = retry_after_seconds(wait);
            &&& parse_unsigned(decimal(s), u128::MAX as nat) == Some(s)
            &&& s >= 1
            &&& wait >= 1_000_000_000 ==> s * 1_000_000_000 <= wait < (s + 1) * 1_000_000_000
            &&& wait < 1_000_000_000 ==> s == 1
        }),
{
    let s = retry_after_seconds(wait);
    let q = wait / 1_000_000_000u128;
    assert(q * 1_000_000_000 <= wait < (q + 1) * 1_000_000_000) by (nonlinear_arith)
        requires
            q == wait / 1_000_000_000u128,
    ;
    assert(q <= wait) by (nonlinear_arith)
        requires
            q == wait / 1_000_000_000u128,
    ;
    lemma_parse_decimal(s, u128::MAX as nat);
}

} // verus!
