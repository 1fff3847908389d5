use serenade::rate_limiter::wire::{cas_step, CasStep, MAX_CAS_ATTEMPTS};
use std::time::Duration;

use serenade::rate_limiter::error::RateLimiterError;
use serenade::rate_limiter::limiter::{consume_or_exceed, version, ConsumeOrExceedError, RateLimiterFactory};
use serenade::rate_limiter::policy::{Policy, WindowState};
use serenade::rate_limiter::service::{too_many_requests, RedisRateLimiterStorageConfig, RegisterDefaultRateLimiterPass};
use serenade::rate_limiter::storage::{validate_key, InMemoryRateLimiterStorage, RateLimiterStorage};
use serenade::rate_limiter::wire::{decode_state, encode_state, instant_to_wall_ms, wall_ms_to_instant};

fn ms(n: u64) -> u128 {
    Duration::from_millis(n).as_nanos()
}

fn secs(n: u64) -> u128 {
    Duration::from_secs(n).as_nanos()
}

#[test]
fn tests_version_is_nonempty() {
    assert_ne!(version(), "");
    assert_ne!(serenade::scheduler::version(), "");
}

#[test]
fn validate_key_rejects_empty() {
    assert!(matches!(validate_key(""), Err(RateLimiterError::InvalidKey { .. })));
    validate_key("login").expect("ok");
}

#[test]
fn policy_builders_reject_zero() {
    assert!(Policy::token_bucket(0, secs(1)).is_err());
    assert!(Policy::token_bucket(5, 0).is_err());
    assert!(Policy::fixed_window(0, secs(1)).is_err());
    assert!(Policy::fixed_window(5, 0).is_err());
}

#[test]
fn fixed_window_overflow_is_error() {
    let policy = Policy::fixed_window(1, secs(60)).expect("policy");
    let now = secs(1_000);
    let mut state = Some(WindowState::FixedWindow { count: u32::MAX, window_start: now });
    assert!(policy.consume(&mut state, 1, now).is_err());
}

#[test]
fn round_trip_token_bucket_and_fixed_window() {
    let now = secs(5_000);
    let wall = 1_700_000_000_000_u64;
    let tb = WindowState::TokenBucket { tokens_scaled: 2_000_000, updated_at: now };
    let encoded = encode_state(&tb, now, wall);
    let decoded = decode_state(&encoded, now, wall).expect("decode tb");
    assert_eq!(decoded, tb);

    let past = now - ms(250);
    let fw = WindowState::FixedWindow { count: 3, window_start: past };
    let encoded = encode_state(&fw, now, wall);
    let decoded = decode_state(&encoded, now, wall).expect("decode fw");
    assert!(matches!(
        &decoded,
        WindowState::FixedWindow { count: 3, window_start }
        if ((now - *window_start) / 1_000_000).abs_diff(250) <= 2
    ));

    let future = now + ms(40);
    let tb_future = WindowState::TokenBucket { tokens_scaled: 1, updated_at: future };
    let encoded = encode_state(&tb_future, now, wall);
    let decoded = decode_state(&encoded, now, wall).expect("decode future");
    assert!(matches!(decoded, WindowState::TokenBucket { updated_at, .. } if updated_at > now));

    assert!(decode_state("xx:1:2", now, 1).is_err());
    assert!(decode_state("tb:nope:1", now, 1).is_err());
    assert!(decode_state("fw:1", now, 1).is_err());
    assert!(decode_state("tb:1:bad", now, 1).is_err());
    let mapped = wall_ms_to_instant(wall + 40, now, wall);
    assert_eq!(mapped - now, ms(40));
}

#[test]
fn wall_clock_mapping_is_millisecond_exact() {
    let now = secs(9_000);
    let wall = 1_000_000_u64;
    assert_eq!(instant_to_wall_ms(now - ms(7), now, wall), wall - 7);
    assert_eq!(instant_to_wall_ms(now + ms(3), now, wall), wall + 3);
    assert_eq!(wall_ms_to_instant(wall - 7, now, wall), now - ms(7));
    assert_eq!(encode_state(&WindowState::FixedWindow { count: 2, window_start: now }, now, wall), "fw:2:1000000");
}

#[test]
fn config_builders_and_prefix() {
    let config = RedisRateLimiterStorageConfig::new("redis://127.0.0.1:6379/0")
        .with_prefix("serenade:rate-limiter:cfg:")
        .with_pool_max_size(0)
        .with_connection_timeout(ms(500))
        .with_warm_pool(true);
    assert_eq!(config.pool_max_size, 1);
    assert!(config.warm_pool);
    assert_eq!(config.connection_timeout, ms(500));
    assert_eq!(config.prefix, "serenade:rate-limiter:cfg:");
}

#[test]
fn redis_config_defaults() {
    let config = RedisRateLimiterStorageConfig::new("redis://localhost");
    assert_eq!(config.url, "redis://localhost");
    assert_eq!(config.prefix, "serenade:rate-limiter:");
    assert_eq!(config.pool_max_size, 8);
    assert_eq!(config.connection_timeout, secs(5));
    assert!(!config.warm_pool);
}

#[test]
fn token_bucket_accepts_then_rejects_until_refill() {
    let mut storage = InMemoryRateLimiterStorage::new();
    let factory = RateLimiterFactory::new("api", Policy::token_bucket(2, ms(80)).expect("policy")).expect("factory");
    let limiter = factory.create("user-1").expect("limiter");
    assert_eq!(limiter.id(), "api-user-1");
    assert_eq!(limiter.policy().limit(), 2);
    let t0 = secs(100);

    let first = limiter.consume_at(&mut storage, 1, t0).expect("1");
    assert!(first.is_accepted());
    assert_eq!(first.remaining_tokens(), 1);
    assert_eq!(first.limit(), 2);

    let second = limiter.consume_at(&mut storage, 1, t0).expect("2");
    assert!(second.is_accepted());
    assert_eq!(second.remaining_tokens(), 0);

    let blocked = limiter.consume_at(&mut storage, 1, t0).expect("3");
    assert!(!blocked.is_accepted());
    assert!(blocked.retry_after().is_some());

    let after = limiter.consume_at(&mut storage, 1, t0 + ms(90)).expect("4");
    assert!(after.is_accepted());
}

#[test]
fn token_bucket_burst_consume() {
    let mut storage = InMemoryRateLimiterStorage::new();
    let factory = RateLimiterFactory::new("burst", Policy::token_bucket(5, secs(1)).expect("policy")).expect("factory");
    let limiter = factory.create("ip").expect("limiter");
    let t0 = secs(10);
    let hit = limiter.consume_at(&mut storage, 5, t0).expect("burst");
    assert!(hit.is_accepted());
    assert_eq!(hit.remaining_tokens(), 0);
    assert!(!limiter.consume_at(&mut storage, 1, t0).expect("over").is_accepted());
}

#[test]
fn fixed_window_resets_after_interval() {
    let mut storage = InMemoryRateLimiterStorage::new();
    let factory = RateLimiterFactory::new("login", Policy::fixed_window(3, ms(60)).expect("policy")).expect("factory");
    let limiter = factory.create("alice").expect("limiter");
    let t0 = secs(50);
    assert!(limiter.consume_at(&mut storage, 2, t0).expect("a").is_accepted());
    assert!(limiter.consume_at(&mut storage, 1, t0).expect("b").is_accepted());
    let blocked = limiter.consume_at(&mut storage, 1, t0).expect("c");
    assert!(!blocked.is_accepted());
    assert_eq!(blocked.remaining_tokens(), 0);
    let next = limiter.consume_at(&mut storage, 3, t0 + ms(70)).expect("d");
    assert!(next.is_accepted());
    assert_eq!(next.remaining_tokens(), 0);
}

#[test]
fn reset_clears_budget() {
    let mut storage = InMemoryRateLimiterStorage::new();
    let factory = RateLimiterFactory::new("form", Policy::fixed_window(1, secs(30)).expect("policy")).expect("factory");
    let limiter = factory.create("sess").expect("limiter");
    let t0 = secs(7);
    assert!(limiter.consume_at(&mut storage, 1, t0).expect("use").is_accepted());
    assert!(!limiter.consume_at(&mut storage, 1, t0).expect("block").is_accepted());
    limiter.reset(&mut storage).expect("reset");
    assert!(limiter.consume_at(&mut storage, 1, t0).expect("again").is_accepted());
}

#[test]
fn factory_rejects_empty_name_or_key() {
    assert!(matches!(
        RateLimiterFactory::new("", Policy::fixed_window(1, secs(1)).expect("policy")),
        Err(RateLimiterError::InvalidKey { .. })
    ));
    let factory = RateLimiterFactory::new("ok", Policy::fixed_window(1, secs(1)).expect("policy")).expect("factory");
    assert_eq!(factory.name(), "ok");
    assert_eq!(factory.policy().limit(), 1);
    assert!(matches!(factory.create(""), Err(RateLimiterError::InvalidKey { .. })));
}

#[test]
fn consume_zero_tokens_is_error() {
    let mut storage = InMemoryRateLimiterStorage::new();
    let factory = RateLimiterFactory::new("z", Policy::token_bucket(3, secs(1)).expect("policy")).expect("factory");
    let limiter = factory.create("k").expect("limiter");
    assert!(matches!(
        limiter.consume_at(&mut storage, 0, secs(3)),
        Err(RateLimiterError::InvalidTokens { tokens: 0, .. })
    ));
}

#[test]
fn subjects_are_isolated() {
    let mut storage = InMemoryRateLimiterStorage::new();
    let factory = RateLimiterFactory::new("iso", Policy::fixed_window(1, secs(30)).expect("policy")).expect("factory");
    let a = factory.create("a").expect("a");
    let b = factory.create("b").expect("b");
    let t0 = secs(1);
    assert!(a.consume_at(&mut storage, 1, t0).expect("a1").is_accepted());
    assert!(b.consume_at(&mut storage, 1, t0).expect("b1").is_accepted());
    assert!(!a.consume_at(&mut storage, 1, t0).expect("a2").is_accepted());
}

#[test]
fn storage_ttl_expiry_clears_state() {
    let mut storage = InMemoryRateLimiterStorage::new();
    let policy = Policy::fixed_window(1, secs(30)).expect("policy");
    let t0 = secs(2);
    assert!(storage.consume("ttl-key", &policy, 1, t0, Some(ms(20))).expect("save").is_accepted());
    let again = storage.consume("ttl-key", &policy, 1, t0 + ms(40), Some(secs(30))).expect("after ttl");
    assert!(again.is_accepted());
}

#[test]
fn wall_clock_consume_accepts_first_token() {
    let mut storage = InMemoryRateLimiterStorage::new();
    let factory = RateLimiterFactory::new("wall", Policy::fixed_window(1, secs(60)).expect("policy")).expect("factory");
    let limiter = factory.create("k").expect("limiter");
    assert!(limiter.consume(&mut storage, 1).expect("first").is_accepted());
    assert!(!limiter.consume(&mut storage, 1).expect("second").is_accepted());
}

#[test]
fn exceeded_consume_becomes_error_and_429() {
    let mut storage = InMemoryRateLimiterStorage::new();
    let factory = RateLimiterFactory::new("x", Policy::fixed_window(1, secs(30)).expect("policy")).expect("factory");
    let limiter = factory.create("k").expect("limiter");
    assert!(consume_or_exceed(&limiter, &mut storage, 1).is_ok());
    let err = consume_or_exceed(&limiter, &mut storage, 1).expect_err("exceeded");
    let ConsumeOrExceedError::Exceeded(exceeded) = err else {
        panic!("expected exceeded");
    };
    let reply = too_many_requests(&exceeded.rate_limit);
    assert_eq!(reply.status, 429);
    assert_eq!(reply.body, "Too Many Requests");
    assert!(reply.headers.iter().any(|(name, _)| name == "retry-after"));
    assert_eq!(RegisterDefaultRateLimiterPass.name(), "register_default_rate_limiter_storage");
}

#[test]
fn default_storage_pass_registers_only_when_missing() {
    let pass = RegisterDefaultRateLimiterPass;
    assert!(pass.should_register(&[]));
    assert!(pass.should_register(&["scheduler".to_owned()]));
    assert!(!pass.should_register(&["scheduler".to_owned(), "rate_limiter.storage".to_owned()]));
}

#[test]
fn cas_step_retries_until_attempts_run_out() {
    assert_eq!(cas_step(1, true), CasStep::Applied);
    assert_eq!(cas_step(1, false), CasStep::Retry);
    assert_eq!(cas_step(MAX_CAS_ATTEMPTS - 1, false), CasStep::Retry);
    assert_eq!(cas_step(MAX_CAS_ATTEMPTS, false), CasStep::Exhausted);
    assert_eq!(cas_step(MAX_CAS_ATTEMPTS, true), CasStep::Applied);
}
