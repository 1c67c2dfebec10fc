//! How long to wait, and what is worth another attempt.

use dxlink::error::DXLinkError;
use dxlink::reconnect::{seed_from, worth_retrying, ReconnectPolicy, MIN_RECONNECT_NANOS};
use std::time::Duration;

fn policy() -> ReconnectPolicy {
    ReconnectPolicy {
        initial_delay: Duration::from_secs(1),
        max_delay: Duration::from_secs(8),
        max_attempts: None,
        jitter: false,
    }
}

fn min_reconnect_delay() -> Duration {
    Duration::from_nanos(MIN_RECONNECT_NANOS as u64)
}

#[test]
fn test_the_delay_doubles_and_then_stops_at_the_ceiling() {
    let policy = policy();
    let mut seed = 1;
    let delays: Vec<u64> = (1..=6)
        .map(|attempt| policy.delay_for(attempt, &mut seed).as_secs())
        .collect();
    assert_eq!(delays, [1, 2, 4, 8, 8, 8]);
}

/// A long outage must not fold the backoff back round to zero and start
/// hammering, which is what an overflowing shift would do.
#[test]
fn test_a_very_late_attempt_still_waits_the_maximum() {
    let policy = policy();
    let mut seed = 1;
    for attempt in [40u32, 1_000, u32::MAX] {
        assert_eq!(
            policy.delay_for(attempt, &mut seed),
            policy.max_delay,
            "attempt {attempt} escaped the ceiling"
        );
    }
}

#[test]
fn test_jitter_stays_inside_the_backoff_and_moves() {
    let policy = ReconnectPolicy {
        jitter: true,
        ..policy()
    };
    let mut seed = 0x2545_F491_4F6C_DD1D;
    let mut seen = Vec::new();
    for _ in 0..16 {
        let delay = policy.delay_for(4, &mut seed);
        assert!(
            delay <= policy.max_delay,
            "jitter must never exceed the delay it spreads: {delay:?}"
        );
        seen.push(delay);
    }
    // The point of jitter is that two clients do not come back together.
    assert!(
        seen.iter().any(|delay| *delay != seen[0]),
        "jitter produced the same delay every time: {seen:?}"
    );
}

/// A policy asking for nothing must still pace itself: zero delays with
/// unlimited attempts is a request and log flood, not a reconnect.
#[test]
fn test_a_zero_delay_is_clamped_to_a_floor() {
    let zero = ReconnectPolicy {
        initial_delay: Duration::ZERO,
        max_delay: Duration::ZERO,
        max_attempts: None,
        jitter: false,
    };
    let mut seed = 1;
    for attempt in 1..=5 {
        assert_eq!(zero.delay_for(attempt, &mut seed), min_reconnect_delay());
    }

    // And with jitter, which spreads over [0, delay] and could otherwise put it
    // straight back to zero.
    let jittered = ReconnectPolicy {
        jitter: true,
        ..zero
    };
    let mut seed = 0x2545_F491_4F6C_DD1D;
    for attempt in 1..=32 {
        assert!(jittered.delay_for(attempt, &mut seed) >= min_reconnect_delay());
    }
}

#[test]
fn test_only_transport_failures_are_worth_retrying() {
    // What reconnection exists for.
    assert!(worth_retrying(&DXLinkError::Connection("gone".into())));
    assert!(worth_retrying(&DXLinkError::Channel("no such channel".into())));
    // A peer that accepts the socket and never answers has to be retried.
    assert!(worth_retrying(&DXLinkError::Timeout("no FEED_CONFIG".into())));

    // Fails identically next time.
    assert!(!worth_retrying(&DXLinkError::Authentication("bad token".into())));
    assert!(!worth_retrying(&DXLinkError::Protocol("wrong layout".into())));
    assert!(!worth_retrying(&DXLinkError::UnexpectedMessage("?".into())));
    assert!(!worth_retrying(&DXLinkError::Unknown("?".into())));
}

#[test]
fn the_wait_is_spread_by_xorshift() {
    let policy = ReconnectPolicy {
        jitter: true,
        ..policy()
    };
    let mut seed: u64 = 1;
    let mut expected: u64 = 1;
    for attempt in 1..=8u32 {
        expected ^= expected << 13;
        expected ^= expected >> 7;
        expected ^= expected << 17;
        let full = [1u64, 2, 4, 8, 8, 8, 8, 8][attempt as usize - 1] * 1_000_000_000;
        let drawn = Duration::from_nanos(expected % (full + 1)).max(min_reconnect_delay());
        assert_eq!(policy.delay_for(attempt, &mut seed), drawn);
        assert_eq!(seed, expected);
    }
}

#[test]
fn the_longest_duration_does_not_overflow() {
    let longest = ReconnectPolicy {
        initial_delay: Duration::MAX,
        max_delay: Duration::MAX,
        max_attempts: None,
        jitter: false,
    };
    let mut seed = 1;
    assert_eq!(longest.delay_for(1, &mut seed), Duration::MAX);
    assert_eq!(longest.delay_for(u32::MAX, &mut seed), Duration::MAX);
    assert_eq!(seed, 1);
}

#[test]
fn a_seed_is_never_zero_and_never_comes_to_it() {
    assert_eq!(seed_from(Some(0)), 1);
    assert_eq!(seed_from(Some(6)), 7);
    assert_eq!(seed_from(Some(999_999_999)), 999_999_999);
    assert_eq!(seed_from(None), 0x2545_F491_4F6C_DD1D);

    let policy = ReconnectPolicy {
        jitter: true,
        ..policy()
    };
    let mut seed = seed_from(Some(0));
    for _ in 0..1000 {
        policy.delay_for(1, &mut seed);
        assert_ne!(seed, 0);
    }
}
