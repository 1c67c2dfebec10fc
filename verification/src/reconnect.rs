//! When to try again, and how long to wait.

use crate::error::{DXLinkError, ErrorView};
use std::time::Duration;
use vstd::prelude::*;

verus! {

// ---------------------------------------------------------------------------
// Durations
// ---------------------------------------------------------------------------
/// The nanoseconds in a second.
pub const NANOS_PER_SEC: u32 = 1_000_000_000;

/// The longest duration there is, in nanoseconds.
pub open spec fn max_nanos() -> int {
    u64::MAX * NANOS_PER_SEC + NANOS_PER_SEC - 1
}

/// How many nanoseconds a duration lasts.
pub uninterp spec fn nanos_of(duration: Duration) -> nat;

/// `Duration::as_nanos` answers the total number of nanoseconds, which a
/// duration of `u64` seconds and less than a second on top cannot exceed.
pub assume_specification[ Duration::as_nanos ](duration: &Duration) -> (r: u128)
    ensures
        r == nanos_of(*duration),
        r <= max_nanos(),
;

/// `Duration::new` makes a duration of so many seconds and nanoseconds. With a
/// second or more in the nanoseconds it could panic, which is left out.
pub assume_specification[ Duration::new ](secs: u64, nanos: u32) -> (r: Duration)
    requires
        nanos < NANOS_PER_SEC,
    ensures
        nanos_of(r) == secs * NANOS_PER_SEC + nanos,
;

/// A duration of so many nanoseconds.
pub fn duration_of(nanos: u128) -> (r: Duration)
    requires
        nanos <= max_nanos(),
    ensures
        nanos_of(r) == nanos,
{
    let second: u128 = 1_000_000_000;
    let secs: u128 = nanos / second;
    let rest: u128 = nanos % second;
    Duration::new(secs as u64, rest as u32)
}

/// A duration of so many seconds.
pub fn seconds(secs: u64) -> (r: Duration)
    ensures
        nanos_of(r) == secs * NANOS_PER_SEC,
{
    Duration::new(secs, 0)
}

// ---------------------------------------------------------------------------
// The policy
// ---------------------------------------------------------------------------
/// The shortest wait between two attempts, in nanoseconds.
///
/// No delay and no limit would be a tight loop that turns one outage into a
/// flood of requests.
pub const MIN_RECONNECT_NANOS: u128 = 50_000_000;

/// How the client behaves when a live session dies.
///
/// Without a policy it never tries again.
#[derive(Debug, Clone, Copy)]
pub struct ReconnectPolicy {
    /// The wait before the first attempt. It doubles with each further one.
    pub initial_delay: Duration,
    /// The ceiling of the wait.
    pub max_delay: Duration,
    /// How many attempts there are, or no limit.
    pub max_attempts: Option<u32>,
    /// Whether the wait is spread between nothing and its full length, so that
    /// clients that were knocked over together do not come back together.
    pub jitter: bool,
}

impl Default for ReconnectPolicy {
    fn default() -> (r: Self)
        ensures
            nanos_of(r.initial_delay) == NANOS_PER_SEC,
            nanos_of(r.max_delay) == 30 * NANOS_PER_SEC,
            r.max_attempts is None,
            r.jitter,
    {
        ReconnectPolicy {
            initial_delay: seconds(1),
            max_delay: seconds(30),
            max_attempts: None,
            jitter: true,
        }
    }
}

/// How often the first wait has doubled before an attempt. Attempts count from
/// one, and the doubling stops after a while.
pub open spec fn doublings(attempt: u32) -> nat {
    if attempt <= 1 {
        0
    } else if attempt > 32 {
        31
    } else {
        (attempt - 1) as nat
    }
}

/// The longest wait that a policy allows.
pub open spec fn ceiling(policy: ReconnectPolicy) -> int {
    if nanos_of(policy.max_delay) < MIN_RECONNECT_NANOS {
        MIN_RECONNECT_NANOS as int
    } else {
        nanos_of(policy.max_delay) as int
    }
}

/// A number doubled so many times.
pub open spec fn doubled(n: int, times: nat) -> int
    decreases times,
{
    if times == 0 {
        n
    } else {
        2 * doubled(n, (times - 1) as nat)
    }
}

/// The first wait, doubled once for each attempt after the first.
pub open spec fn full_delay(policy: ReconnectPolicy, attempt: u32) -> int {
    doubled(nanos_of(policy.initial_delay) as int, doublings(attempt))
}

/// The wait before an attempt, without jitter.
pub open spec fn backoff(policy: ReconnectPolicy, attempt: u32) -> int {
    if full_delay(policy, attempt) > ceiling(policy) {
        ceiling(policy)
    } else if full_delay(policy, attempt) < MIN_RECONNECT_NANOS {
        MIN_RECONNECT_NANOS as int
    } else {
        full_delay(policy, attempt)
    }
}

/// The next value of a 64 bit xorshift generator.
pub open spec fn xorshift(seed: u64) -> u64 {
    let a = seed ^ (seed << 13);
    let b = a ^ (a >> 7);
    b ^ (b << 17)
}

/// A seed that a time gives, or the one that is used where there is no time.
/// It is odd, so the generator never starts at zero, where it would stay.
pub open spec fn seed_of(nanos: Option<u32>) -> u64 {
    match nanos {
        Some(nanos) => nanos as u64 | 1,
        None => 0x2545_F491_4F6C_DD1D,
    }
}

/// The seed for a time within its second. Two clients that start together are
/// not to pick the same waits.
pub fn seed_from(nanos: Option<u32>) -> (r: u64)
    ensures
        r == seed_of(nanos),
{
    match nanos {
        Some(nanos) => nanos as u64 | 1,
        None => 0x2545_F491_4F6C_DD1D,
    }
}

/// A wait spread by a random number, and never below the shortest wait.
pub open spec fn spread(delay: int, random: u64) -> int {
    let whole = delay % 0x1_0000_0000_0000_0000;
    if whole == 0 {
        delay
    } else {
        let range = if whole == u64::MAX {
            whole
        } else {
            whole + 1
        };
        let drawn = random as int % range;
        if drawn < MIN_RECONNECT_NANOS {
            MIN_RECONNECT_NANOS as int
        } else {
            drawn
        }
    }
}

impl ReconnectPolicy {
    /// The wait before an attempt, counting from one.
    ///
    /// The seed is only read where the wait is spread, and moves on so that a
    /// run of attempts does not repeat itself.
    pub fn delay_for(&self, attempt: u32, seed: &mut u64) -> (r: Duration)
        ensures
            self.jitter ==> nanos_of(r) == spread(backoff(*self, attempt), xorshift(*old(seed)))
                && *final(seed) == xorshift(*old(seed)),
            !self.jitter ==> nanos_of(r) == backoff(*self, attempt) && *final(seed) == *old(seed),
    {
        let times: u32 = if attempt <= 1 {
            0
        } else if attempt > 32 {
            31
        } else {
            attempt - 1
        };
        let initial: u128 = self.initial_delay.as_nanos();
        let most: u128 = self.max_delay.as_nanos();
        let doubled_delay: u128 = double(initial, times);
        let highest: u128 = if most < MIN_RECONNECT_NANOS {
            MIN_RECONNECT_NANOS
        } else {
            most
        };
        let delay: u128 = if doubled_delay > highest {
            highest
        } else if doubled_delay < MIN_RECONNECT_NANOS {
            MIN_RECONNECT_NANOS
        } else {
            doubled_delay
        };
        assert(delay == backoff(*self, attempt));
        if !self.jitter {
            return duration_of(delay);
        }
        let a: u64 = *seed ^ (*seed << 13);
        let b: u64 = a ^ (a >> 7);
        let random: u64 = b ^ (b << 17);
        *seed = random;
        let wrap: u128 = 0x1_0000_0000_0000_0000;
        let whole: u64 = (delay % wrap) as u64;
        if whole == 0 {
            return duration_of(delay);
        }
        let range: u64 = if whole == u64::MAX {
            whole
        } else {
            whole + 1
        };
        let drawn: u128 = (random % range) as u128;
        duration_of(
            if drawn < MIN_RECONNECT_NANOS {
                MIN_RECONNECT_NANOS
            } else {
                drawn
            },
        )
    }
}

fn double(nanos: u128, times: u32) -> (r: u128)
    requires
        nanos <= max_nanos(),
        times <= 31,
    ensures
        r == doubled(nanos as int, times as nat),
{
    let mut out: u128 = nanos;
    let mut i: u32 = 0;
    while i < times
        invariant
            i <= times,
            times <= 31,
            nanos <= max_nanos(),
            out == doubled(nanos as int, i as nat),
        decreases times - i,
    {
        proof {
            doubled_is_bounded(nanos as int, i as nat);
        }
        out = out * 2;
        i += 1;
    }
    out
}

/// A number that is a duration stays far from the widest integers while it is
/// doubled.
proof fn doubled_is_bounded(n: int, times: nat)
    requires
        0 <= n <= max_nanos(),
        times <= 31,
    ensures
        0 <= doubled(n, times) <= max_nanos() * 0x8000_0000,
{
    doubled_is_monotone(n, times, 31);
    doubled_grows_with(n, max_nanos(), 31);
    assert(doubled(max_nanos(), 31) == max_nanos() * 0x8000_0000) by {
        reveal_with_fuel(doubled, 32);
    }
}

proof fn doubled_is_monotone(n: int, fewer: nat, more: nat)
    requires
        0 <= n,
        fewer <= more,
    ensures
        0 <= doubled(n, fewer) <= doubled(n, more),
    decreases more,
{
    if fewer < more {
        doubled_is_monotone(n, fewer, (more - 1) as nat);
    } else if fewer > 0 {
        doubled_is_monotone(n, (fewer - 1) as nat, (fewer - 1) as nat);
    }
}

proof fn doubled_grows_with(n: int, m: int, times: nat)
    requires
        n <= m,
    ensures
        doubled(n, times) <= doubled(m, times),
    decreases times,
{
    if times > 0 {
        doubled_grows_with(n, m, (times - 1) as nat);
    }
}

/// The generator of random numbers never gets stuck: it starts away from zero,
/// never comes to it, and never stays where it is.
pub proof fn randomness_does_not_run_dry(nanos: Option<u32>, seed: u64)
    ensures
        seed_of(nanos) != 0,
        seed != 0 ==> xorshift(seed) != 0,
        seed != 0 ==> xorshift(seed) != seed,
{
    match nanos {
        Some(nanos) => {
            let wide = nanos as u64;
            assert(wide | 1 != 0) by (bit_vector);
        },
        None => {},
    }
    let a = seed ^ (seed << 13);
    let b = a ^ (a >> 7);
    assert(seed != 0 ==> a != 0) by (bit_vector)
        requires
            a == seed ^ (seed << 13),
    ;
    assert(a != 0 ==> b != 0) by (bit_vector)
        requires
            b == a ^ (a >> 7),
    ;
    assert(b != 0 ==> b ^ (b << 17) != 0) by (bit_vector);
    assert(seed != 0 ==> b ^ (b << 17) != seed) by (bit_vector)
        requires
            a == seed ^ (seed << 13),
            b == a ^ (a >> 7),
    ;
}

/// The wait before an attempt is never shorter than the shortest wait and
/// never longer than the ceiling, whether it is spread or not.
pub proof fn delays_stay_in_bounds(policy: ReconnectPolicy, attempt: u32, random: u64)
    ensures
        MIN_RECONNECT_NANOS <= backoff(policy, attempt) <= ceiling(policy),
        MIN_RECONNECT_NANOS <= spread(backoff(policy, attempt), random) <= backoff(policy, attempt),
{
    doubled_is_monotone(nanos_of(policy.initial_delay) as int, 0, doublings(attempt));
    let delay = backoff(policy, attempt);
    let whole = delay % 0x1_0000_0000_0000_0000;
    assert(0 <= whole <= delay);
    if whole != 0 {
        let range = if whole == u64::MAX {
            whole
        } else {
            whole + 1
        };
        assert(0 <= random as int % range < range) by (nonlinear_arith)
            requires
                range > 0,
        ;
    }
}

/// A later attempt never waits less than an earlier one.
pub proof fn delays_never_shrink(policy: ReconnectPolicy, earlier: u32, later: u32)
    requires
        earlier <= later,
    ensures
        backoff(policy, earlier) <= backoff(policy, later),
{
    doubled_is_monotone(
        nanos_of(policy.initial_delay) as int,
        doublings(earlier),
        doublings(later),
    );
}

/// The wait doubles from one attempt to the next, until it reaches the
/// ceiling.
pub proof fn delays_double(policy: ReconnectPolicy, attempt: u32)
    requires
        1 <= attempt < 32,
    ensures
        full_delay(policy, 1) == nanos_of(policy.initial_delay),
        full_delay(policy, (attempt + 1) as u32) == 2 * full_delay(policy, attempt),
        full_delay(policy, (attempt + 1) as u32) >= ceiling(policy) ==> backoff(
            policy,
            (attempt + 1) as u32,
        ) == ceiling(policy),
{
}

/// A very late attempt waits as long as the last one that doubled: the backoff
/// never folds back.
pub proof fn late_attempts_wait_the_longest(policy: ReconnectPolicy, attempt: u32)
    requires
        attempt >= 32,
    ensures
        backoff(policy, attempt) == backoff(policy, 32),
{
}

// ---------------------------------------------------------------------------
// Maintenance
// ---------------------------------------------------------------------------
/// The silence, in seconds, after which a connection counts as dead, unless
/// another one is set.
pub const DEFAULT_KEEPALIVE_TIMEOUT: u32 = 60;

/// How often maintenance is sent within the deadline. Three times leave room
/// for a lost packet.
pub const KEEPALIVE_DIVISOR: u32 = 3;

/// The shortest interval at which maintenance is sent, in seconds, whatever
/// the server asks for.
pub const MIN_KEEPALIVE_INTERVAL_SECS: u64 = 1;

/// The interval at which maintenance is sent, in seconds: a third of the
/// deadline, rounded up, and at least a second.
pub open spec fn keepalive_secs(advertised: u32, negotiated: Option<u32>) -> int {
    let deadline = match negotiated {
        Some(asked) => asked as int,
        None => advertised as int,
    };
    let part = (deadline + KEEPALIVE_DIVISOR - 1) / KEEPALIVE_DIVISOR as int;
    if part < MIN_KEEPALIVE_INTERVAL_SECS {
        MIN_KEEPALIVE_INTERVAL_SECS as int
    } else {
        part
    }
}

/// How often to send maintenance, given what the client advertised and what
/// the server asked for.
pub fn keepalive_interval_for(advertised: u32, negotiated: Option<u32>) -> (r: Duration)
    ensures
        nanos_of(r) == keepalive_secs(advertised, negotiated) * NANOS_PER_SEC,
{
    let deadline: u64 = match negotiated {
        Some(asked) => asked as u64,
        None => advertised as u64,
    };
    let part: u64 = (deadline + KEEPALIVE_DIVISOR as u64 - 1) / KEEPALIVE_DIVISOR as u64;
    seconds(
        if part < MIN_KEEPALIVE_INTERVAL_SECS {
            MIN_KEEPALIVE_INTERVAL_SECS
        } else {
            part
        },
    )
}

/// Maintenance is sent in time: the interval is never nothing, never longer
/// than a deadline of at least a second, and three of them reach the deadline.
pub proof fn maintenance_is_in_time(advertised: u32, negotiated: Option<u32>)
    ensures
        keepalive_secs(advertised, negotiated) >= 1,
        negotiated matches Some(asked) ==> asked >= 1 ==> keepalive_secs(advertised, negotiated)
            <= asked && keepalive_secs(advertised, negotiated) * KEEPALIVE_DIVISOR >= asked,
        negotiated is None && advertised >= 1 ==> keepalive_secs(advertised, negotiated)
            <= advertised && keepalive_secs(advertised, negotiated) * KEEPALIVE_DIVISOR
            >= advertised,
{
}

// ---------------------------------------------------------------------------
// Which failures are worth another attempt
// ---------------------------------------------------------------------------
/// Whether an attempt that failed like this is worth repeating: the transport
/// failed, or the other side went quiet.
///
/// A rejected token is rejected just as fast the second time, and a
/// disagreement about the protocol stays one.
pub open spec fn is_worth_retrying(error: ErrorView) -> bool {
    error is Connection || error is WebSocket || error is Timeout || error is Channel
}

/// Whether an attempt that failed like this is worth repeating.
pub fn worth_retrying(error: &DXLinkError) -> (r: bool)
    ensures
        r == is_worth_retrying(error@),
        r <==> error@ is WebSocket || error@ is Connection || error@ is Timeout || error@ is Channel,
{
    match error {
        DXLinkError::Connection(_) | DXLinkError::WebSocket(_) | DXLinkError::Timeout(_)
        | DXLinkError::Channel(_) => true,
        DXLinkError::Authentication(_) => false,
        DXLinkError::Protocol(_) | DXLinkError::Serialization(_) | DXLinkError::UnexpectedMessage(
            _,
        ) | DXLinkError::Unknown(_) => false,
    }
}

} // verus!
