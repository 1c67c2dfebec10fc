//! What happens after a session dies: wait, try again, and know when to stop.

use crate::client::{ClientTree, DXLinkClient};
use crate::error;
use crate::error::DXLinkError;
use crate::reconnect;
use crate::reconnect::{worth_retrying, ReconnectPolicy};
use crate::requests::PendingTree;
use crate::text;
use crate::text::decimal_text;
use std::time::Duration;
use vstd::prelude::*;

verus! {

/// How many changes of the connection state are kept for a consumer. A
/// consumer that falls behind loses the oldest ones.
pub const CONNECTION_STATE_CAPACITY: usize = 16;

/// What happened to the connection.
#[derive(Debug, PartialEq, Eq)]
#[non_exhaustive]
pub enum ConnectionState {
    /// The session died.
    Lost {
        /// Why it died.
        reason: String,
    },
    /// Another attempt is about to be made.
    Reconnecting {
        /// The number of the attempt, counting from one.
        attempt: u32,
        /// How long the client waits before it.
        delay: Duration,
    },
    /// The session is live again, with every channel and subscription back.
    Reconnected,
    /// No more attempts will be made.
    GaveUp {
        /// Why not.
        reason: String,
    },
}

/// What is told of the connection.
#[verifier::ext_equal]
pub enum StateTree {
    Lost(Seq<char>),
    Reconnecting(u32, nat),
    Reconnected,
    GaveUp(Seq<char>),
}

impl View for ConnectionState {
    type V = StateTree;

    open spec fn view(&self) -> StateTree {
        match *self {
            ConnectionState::Lost { reason } => StateTree::Lost(reason@),
            ConnectionState::Reconnecting { attempt, delay } => StateTree::Reconnecting(
                attempt,
                reconnect::nanos_of(delay),
            ),
            ConnectionState::Reconnected => StateTree::Reconnected,
            ConnectionState::GaveUp { reason } => StateTree::GaveUp(reason@),
        }
    }
}

impl Clone for ConnectionState {
    fn clone(&self) -> (r: Self)
        ensures
            r@ == self@,
    {
        match self {
            ConnectionState::Lost { reason } => ConnectionState::Lost {
                reason: reason.as_str().to_owned(),
            },
            ConnectionState::Reconnecting { attempt, delay } => ConnectionState::Reconnecting {
                attempt: *attempt,
                delay: *delay,
            },
            ConnectionState::Reconnected => ConnectionState::Reconnected,
            ConnectionState::GaveUp { reason } => ConnectionState::GaveUp {
                reason: reason.as_str().to_owned(),
            },
        }
    }
}

/// What the supervisor does next.
#[derive(Debug)]
pub enum Next {
    /// Wait for a session to die.
    Watch,
    /// Wait so long, then try again.
    Wait(Duration),
    /// Build a session.
    Attempt,
    /// Stop for good.
    Stop,
}

/// Where the supervisor stands.
#[derive(Debug, Clone, Copy, PartialEq, Eq, Structural)]
pub enum Watching {
    /// A session is live.
    Session,
    /// The wait before an attempt is on.
    Backoff,
    /// An attempt is on.
    Attempt,
    /// It has stopped.
    Over,
}

/// The supervisor of a session.
#[derive(Debug)]
pub struct Supervisor {
    policy: ReconnectPolicy,
    seed: u64,
    watching: Watching,
    attempt: u32,
    reason: String,
}

/// What a supervisor is.
#[verifier::ext_equal]
pub struct SupervisorTree {
    /// How it goes about reconnecting.
    pub policy: ReconnectPolicy,
    /// The state of its random numbers.
    pub seed: u64,
    /// Where it stands.
    pub watching: Watching,
    /// How many attempts it has made since the session died.
    pub attempt: u32,
    /// Why the session died.
    pub reason: Seq<char>,
}

impl View for Supervisor {
    type V = SupervisorTree;

    closed spec fn view(&self) -> SupervisorTree {
        SupervisorTree {
            policy: self.policy,
            seed: self.seed,
            watching: self.watching,
            attempt: self.attempt,
            reason: self.reason@,
        }
    }
}

/// What a supervisor tells, and what it does next.
#[derive(Debug)]
pub struct Step {
    /// What is to be told of the connection, in order.
    pub states: Vec<ConnectionState>,
    /// What happens next.
    pub next: Next,
}

/// What is told of the connection, in order.
pub open spec fn state_trees(states: Seq<ConnectionState>) -> Seq<StateTree> {
    states.map_values(|s: ConnectionState| s@)
}

/// Whether the attempts that a policy allows are used up.
pub open spec fn is_used_up(policy: ReconnectPolicy, attempt: u32) -> bool {
    match policy.max_attempts {
        Some(limit) => attempt >= limit,
        None => false,
    }
}

/// How long a supervisor waits before its next attempt.
pub open spec fn next_delay(supervisor: SupervisorTree) -> int {
    let attempt = (supervisor.attempt + 1) as u32;
    if supervisor.policy.jitter {
        reconnect::spread(
            reconnect::backoff(supervisor.policy, attempt),
            reconnect::xorshift(supervisor.seed),
        )
    } else {
        reconnect::backoff(supervisor.policy, attempt)
    }
}

/// Why a supervisor gives up whose attempts are used up.
pub open spec fn used_up_text(supervisor: SupervisorTree) -> Seq<char> {
    "gave up reconnecting after "@ + text::decimal(supervisor.policy.max_attempts->0 as int)
        + " attempt(s): "@ + supervisor.reason
}

/// Whether a step is how a supervisor goes about its next attempt: it waits, or
/// gives up where the attempts are used up.
pub open spec fn tries_again(
    step: Step,
    told: Seq<StateTree>,
    after: SupervisorTree,
    before: SupervisorTree,
) -> bool {
    if is_used_up(before.policy, before.attempt) {
        &&& step.next is Stop
        &&& after == (SupervisorTree { watching: Watching::Over, ..before })
        &&& state_trees(step.states@) == told.push(StateTree::GaveUp(used_up_text(before)))
    } else {
        &&& step.next is Wait
        &&& reconnect::nanos_of(step.next->Wait_0) == next_delay(before)
        &&& after == (SupervisorTree {
            seed: if before.policy.jitter {
                reconnect::xorshift(before.seed)
            } else {
                before.seed
            },
            watching: Watching::Backoff,
            attempt: (before.attempt + 1) as u32,
            ..before
        })
        &&& state_trees(step.states@) == told.push(
            StateTree::Reconnecting(
                (before.attempt + 1) as u32,
                reconnect::nanos_of(step.next->Wait_0),
            ),
        )
    }
}

impl Supervisor {
    /// A supervisor of a live session.
    pub fn new(policy: ReconnectPolicy, seed: u64) -> (r: Self)
        ensures
            r@ == (SupervisorTree {
                policy,
                seed,
                watching: Watching::Session,
                attempt: 0,
                reason: Seq::empty(),
            }),
    {
        Supervisor { policy, seed, watching: Watching::Session, attempt: 0, reason: String::new() }
    }

    /// How many attempts were made since the session died.
    pub fn attempts(&self) -> (r: u32)
        ensures
            r == self@.attempt,
    {
        self.attempt
    }

    /// Stops, whatever is going on.
    pub fn stop(&mut self) -> (r: Step)
        ensures
            r.next is Stop,
            r.states@.len() == 0,
            final(self)@ == (SupervisorTree { watching: Watching::Over, ..old(self)@ }),
    {
        self.watching = Watching::Over;
        Step { states: Vec::new(), next: Next::Stop }
    }

    /// Takes a session that died. Whoever waits for an answer of it is woken.
    /// Where no session will report any more, there is nothing left to watch.
    pub fn session_lost(&mut self, client: &mut DXLinkClient, reason: Option<String>) -> (r: Step)
        requires
            old(self)@.watching == Watching::Session,
        ensures
            final(client)@ == match reason {
                None => old(client)@,
                Some(_) => ClientTree {
                    pending: PendingTree {
                        requests: Seq::empty(),
                        last_id: old(client)@.pending.last_id,
                    },
                    ..old(client)@
                },
            },
            match reason {
                None => r.next is Stop && r.states@.len() == 0 && final(self)@ == (SupervisorTree {
                    watching: Watching::Over,
                    ..old(self)@
                }),
                Some(reason) => tries_again(
                    r,
                    seq![StateTree::Lost(reason@)],
                    final(self)@,
                    SupervisorTree { attempt: 0, reason: reason@, ..old(self)@ },
                ),
            },
    {
        match reason {
            None => self.stop(),
            Some(reason) => {
                client.drop_pending();
                let mut states: Vec<ConnectionState> = Vec::new();
                states.push(ConnectionState::Lost { reason: reason.as_str().to_owned() });
                assert(state_trees(states@) =~= seq![StateTree::Lost(reason@)]);
                self.attempt = 0;
                self.reason = reason;
                self.try_again(states)
            },
        }
    }

    fn try_again(&mut self, states: Vec<ConnectionState>) -> (r: Step)
        requires
            old(self)@.attempt < u32::MAX || is_used_up(old(self)@.policy, old(self)@.attempt),
        ensures
            tries_again(r, state_trees(states@), final(self)@, old(self)@),
    {
        let ghost told = state_trees(states@);
        let mut states = states;
        match self.policy.max_attempts {
            Some(limit) => {
                if self.attempt >= limit {
                    let mut text = "gave up reconnecting after ".to_owned();
                    text.append(decimal_text(limit as u64).as_str());
                    text.append(" attempt(s): ");
                    text.append(self.reason.as_str());
                    let state = ConnectionState::GaveUp { reason: text };
                    let ghost added = state@;
                    states.push(state);
                    assert(state_trees(states@) =~= told.push(added));
                    self.watching = Watching::Over;
                    return Step { states, next: Next::Stop };
                }
            },
            None => {},
        }
        self.attempt = self.attempt + 1;
        let mut seed: u64 = self.seed;
        let delay = self.policy.delay_for(self.attempt, &mut seed);
        self.seed = seed;
        let state = ConnectionState::Reconnecting { attempt: self.attempt, delay };
        let ghost added = state@;
        states.push(state);
        assert(state_trees(states@) =~= told.push(added));
        self.watching = Watching::Backoff;
        Step { states, next: Next::Wait(delay) }
    }

    /// Takes the end of a wait.
    pub fn waited(&mut self) -> (r: Step)
        requires
            old(self)@.watching == Watching::Backoff,
        ensures
            r.next is Attempt,
            r.states@.len() == 0,
            final(self)@ == (SupervisorTree { watching: Watching::Attempt, ..old(self)@ }),
    {
        self.watching = Watching::Attempt;
        Step { states: Vec::new(), next: Next::Attempt }
    }

    /// Takes an attempt that succeeded: the reason why the last session ended
    /// does not apply any more.
    pub fn attempt_succeeded(&mut self, client: &mut DXLinkClient) -> (r: Step)
        requires
            old(self)@.watching == Watching::Attempt,
        ensures
            final(client)@ == (ClientTree { disconnect_reason: None, ..old(client)@ }),
            r.next is Watch,
            state_trees(r.states@) == seq![StateTree::Reconnected],
            final(self)@ == (SupervisorTree { watching: Watching::Session, ..old(self)@ }),
    {
        client.begin_connect();
        self.watching = Watching::Session;
        let mut states: Vec<ConnectionState> = Vec::new();
        states.push(ConnectionState::Reconnected);
        assert(state_trees(states@) =~= seq![StateTree::Reconnected]);
        Step { states, next: Next::Watch }
    }

    /// Takes an attempt that failed. It is repeated only where that can help.
    pub fn attempt_failed(&mut self, error: &DXLinkError) -> (r: Step)
        requires
            old(self)@.watching == Watching::Attempt,
            old(self)@.attempt < u32::MAX || is_used_up(old(self)@.policy, old(self)@.attempt),
        ensures
            reconnect::is_worth_retrying(error@) ==> tries_again(
                r,
                Seq::empty(),
                final(self)@,
                old(self)@,
            ),
            !reconnect::is_worth_retrying(error@) ==> {
                &&& r.next is Stop
                &&& final(self)@ == (SupervisorTree { watching: Watching::Over, ..old(self)@ })
                &&& r.states@.len() == 1
                &&& exists|words: Seq<char>| #[trigger]
                    error::reads_as(words, error@) && r.states@[0]@ == StateTree::GaveUp(
                        "not retrying: "@ + words,
                    )
            },
            r.next is Wait <==> (error@ is WebSocket || error@ is Connection || error@ is Timeout
                || error@ is Channel) && (old(self)@.policy.max_attempts matches Some(limit)
                ==> old(self)@.attempt < limit),
    {
        let mut states: Vec<ConnectionState> = Vec::new();
        if !worth_retrying(error) {
            let words = error.to_string();
            let mut text = "not retrying: ".to_owned();
            text.append(words.as_str());
            assert(error::reads_as(words@, error@));
            states.push(ConnectionState::GaveUp { reason: text });
            self.watching = Watching::Over;
            return Step { states, next: Next::Stop };
        }
        assert(state_trees(states@) =~= Seq::<StateTree>::empty());
        self.try_again(states)
    }
}

/// A supervisor makes as many attempts as its policy allows, and no more: an
/// attempt that is still made has a number within the limit.
pub proof fn attempts_stay_within_the_limit(
    step: Step,
    told: Seq<StateTree>,
    after: SupervisorTree,
    before: SupervisorTree,
    limit: u32,
)
    requires
        before.policy.max_attempts == Some(limit),
        before.attempt <= limit,
        tries_again(step, told, after, before),
    ensures
        after.attempt <= limit,
        step.next is Wait <==> before.attempt < limit,
        step.next is Stop <==> before.attempt == limit,
{
}

/// Every wait of a supervisor lies between the shortest wait and the ceiling
/// of its policy.
pub proof fn waits_stay_in_bounds(
    step: Step,
    told: Seq<StateTree>,
    after: SupervisorTree,
    before: SupervisorTree,
)
    requires
        tries_again(step, told, after, before),
        step.next is Wait,
    ensures
        reconnect::MIN_RECONNECT_NANOS <= reconnect::nanos_of(step.next->Wait_0)
            <= reconnect::ceiling(before.policy),
{
    reconnect::delays_stay_in_bounds(
        before.policy,
        (before.attempt + 1) as u32,
        reconnect::xorshift(before.seed),
    );
}

} // verus!
