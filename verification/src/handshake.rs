//! How a session is established: `SETUP`, then `AUTH` where it is needed.

use crate::client::{DEFAULT_CLIENT_VERSION, MAIN_CHANNEL};
use crate::connection;
use crate::connection::sanitize_server_text;
use crate::error;
use crate::error::{DXLinkError, DXLinkResult, ErrorView};
use crate::json;
use crate::json::{JsonTree, JsonValue, NumberTree};
use crate::messages::{AuthMessage, AuthStateMessage, ServerSetupMessage, SetupMessage};
use crate::text;
use crate::text::{decimal_text, same_ignoring_case, same_text};
use crate::wire;
use vstd::prelude::*;

verus! {

/// How many seconds one answer of the handshake may take.
pub const HANDSHAKE_TIMEOUT_SECS: u64 = 10;

// ---------------------------------------------------------------------------
// Whether an answer is the one that is due
// ---------------------------------------------------------------------------
/// What is due at one point of the handshake.
#[verifier::ext_equal]
pub struct DueTree {
    /// Where the handshake stands, for errors.
    pub state: Seq<char>,
    /// The type of the message that is due.
    pub expected_type: Seq<char>,
    /// The channel on which it is due.
    pub channel: u32,
}

/// The error of an answer that did not come.
pub open spec fn overdue(due: DueTree) -> ErrorView {
    ErrorView::Timeout(
        "timed out after "@ + text::decimal(HANDSHAKE_TIMEOUT_SECS as int) + "s waiting for "@
            + due.expected_type + " on channel "@ + text::decimal(due.channel as int) + " during "@
            + due.state,
    )
}

/// The error of an answer that is no JSON.
pub open spec fn malformed(due: DueTree, words: Seq<char>) -> ErrorView {
    ErrorView::Protocol(
        "during "@ + due.state + ", expected "@ + due.expected_type + " on channel "@
            + text::decimal(due.channel as int) + " but the server sent malformed JSON: "@ + words,
    )
}

/// The error that an `ERROR` of the server stands for. What the server says is
/// free text, so it is made safe first.
pub open spec fn reported(due: DueTree, code: Seq<char>, message: Seq<char>) -> ErrorView {
    let safe_code = connection::sanitized(code);
    let detail = "during "@ + due.state + ", the server returned "@ + safe_code + ": "@
        + connection::sanitized(message);
    if text::ascii_lowered(safe_code) == text::ascii_lowered("UNAUTHORIZED"@) {
        ErrorView::Authentication(detail)
    } else {
        ErrorView::Protocol(detail)
    }
}

/// The error of an answer of another type.
pub open spec fn other_type(due: DueTree, received: Seq<char>) -> ErrorView {
    ErrorView::Protocol(
        "during "@ + due.state + ", expected "@ + due.expected_type + " but received "@ + received,
    )
}

/// The error of an answer on another channel.
pub open spec fn other_channel(due: DueTree, received: Option<int>) -> ErrorView {
    ErrorView::Protocol(
        "during "@ + due.state + ", expected "@ + due.expected_type + " on channel "@
            + text::decimal(due.channel as int) + " but it arrived on channel "@ + (match received {
            Some(channel) => text::decimal(channel),
            None => "<missing>"@,
        }),
    )
}

/// The channel that a message names.
pub open spec fn named_channel(value: JsonTree) -> Option<int> {
    match json::field_of(value, "channel"@) {
        Some(field) => json::integer_of(field, 0, u64::MAX as int),
        None => None,
    }
}

/// What is wrong with an answer, if anything is: an `ERROR` of the server is
/// the server saying why, and comes before everything else.
pub open spec fn objection(due: DueTree, value: JsonTree) -> Option<ErrorView> {
    let received = json::text_field(value, "type"@, "<missing type>"@);
    if received == "ERROR"@ {
        Some(
            reported(
                due,
                json::text_field(value, "error"@, "unknown"@),
                json::text_field(value, "message"@, Seq::empty()),
            ),
        )
    } else if received != due.expected_type {
        Some(other_type(due, received))
    } else if named_channel(value) != Some(due.channel as int) {
        Some(other_channel(due, named_channel(value)))
    } else {
        None
    }
}

/// What is wrong with an answer as it came, if anything is.
pub open spec fn reply_objection(due: DueTree, raw: Option<Seq<char>>) -> Option<ErrorView> {
    match raw {
        None => Some(overdue(due)),
        Some(raw) => match json::parsed(raw) {
            Err(words) => Some(malformed(due, words)),
            Ok(value) => objection(due, value),
        },
    }
}

/// What is due at one point of the handshake.
#[derive(Debug, Clone, Copy)]
pub struct Due {
    /// Where the handshake stands, for errors.
    pub state: &'static str,
    /// The type of the message that is due.
    pub expected_type: &'static str,
    /// The channel on which it is due.
    pub channel: u32,
}

impl View for Due {
    type V = DueTree;

    open spec fn view(&self) -> DueTree {
        DueTree {
            state: self.state@,
            expected_type: self.expected_type@,
            channel: self.channel,
        }
    }
}

/// Checks that an answer is the message that is due.
pub fn check_reply(due: &Due, value: &JsonValue) -> (r: DXLinkResult<()>)
    ensures
        match r {
            Ok(_) => objection(due@, value@) is None,
            Err(e) => objection(due@, value@) == Some(e@),
        },
{
    let received = value.text_field("type", "<missing type>");
    if same_text(received, "ERROR") {
        let code = sanitize_server_text(value.text_field("error", "unknown"));
        let nothing = "";
        proof {
            reveal_strlit("");
            assert(nothing@ =~= Seq::<char>::empty());
        }
        let message = sanitize_server_text(value.text_field("message", nothing));
        let mut detail = "during ".to_owned();
        detail.append(due.state);
        detail.append(", the server returned ");
        detail.append(code.as_str());
        detail.append(": ");
        detail.append(message.as_str());
        return Err(
            if same_ignoring_case(code.as_str(), "UNAUTHORIZED") {
                DXLinkError::Authentication(detail)
            } else {
                DXLinkError::Protocol(detail)
            },
        );
    }
    if !same_text(received, due.expected_type) {
        let mut message = "during ".to_owned();
        message.append(due.state);
        message.append(", expected ");
        message.append(due.expected_type);
        message.append(" but received ");
        message.append(received);
        return Err(DXLinkError::Protocol(message));
    }
    let channel = match value.get("channel") {
        Some(field) => field.as_u64(),
        None => None,
    };
    let arrived = match channel {
        Some(channel) => {
            if channel == due.channel as u64 {
                return Ok(());
            }
            decimal_text(channel)
        },
        None => "<missing>".to_owned(),
    };
    let mut message = "during ".to_owned();
    message.append(due.state);
    message.append(", expected ");
    message.append(due.expected_type);
    message.append(" on channel ");
    message.append(decimal_text(due.channel as u64).as_str());
    message.append(" but it arrived on channel ");
    message.append(arrived.as_str());
    Err(DXLinkError::Protocol(message))
}

/// The text of an optional message.
pub open spec fn raw_text(raw: Option<&str>) -> Option<Seq<char>> {
    match raw {
        Some(raw) => Some(raw@),
        None => None,
    }
}

/// The message that came, where it came in time and is the one that is due.
pub fn expect_handshake_message(due: &Due, raw: Option<&str>) -> (r: DXLinkResult<JsonValue>)
    ensures
        match r {
            Ok(value) => {
                &&& reply_objection(due@, raw_text(raw)) is None
                &&& raw is Some
                &&& json::parsed(raw->0@) == Ok::<JsonTree, Seq<char>>(value@)
            },
            Err(e) => reply_objection(due@, raw_text(raw)) == Some(e@),
        },
{
    let raw = match raw {
        Some(raw) => raw,
        None => {
            let mut message = "timed out after ".to_owned();
            message.append(decimal_text(HANDSHAKE_TIMEOUT_SECS).as_str());
            message.append("s waiting for ");
            message.append(due.expected_type);
            message.append(" on channel ");
            message.append(decimal_text(due.channel as u64).as_str());
            message.append(" during ");
            message.append(due.state);
            return Err(DXLinkError::Timeout(message));
        },
    };
    match JsonValue::parse(raw) {
        Ok(value) => match check_reply(due, &value) {
            Ok(_) => Ok(value),
            Err(e) => Err(e),
        },
        Err(words) => {
            let mut message = "during ".to_owned();
            message.append(due.state);
            message.append(", expected ");
            message.append(due.expected_type);
            message.append(" on channel ");
            message.append(decimal_text(due.channel as u64).as_str());
            message.append(" but the server sent malformed JSON: ");
            message.append(words.as_str());
            Err(DXLinkError::Protocol(message))
        },
    }
}

// ---------------------------------------------------------------------------
// The handshake
// ---------------------------------------------------------------------------
/// Where a handshake stands.
#[derive(Debug, Clone, Copy, PartialEq, Eq, Structural)]
pub enum Phase {
    /// `SETUP` was sent, and the server's `SETUP` is due.
    Setup,
    /// The server is to say whether the session is authorized.
    AuthState,
    /// `AUTH` was sent, and the server is to say whether it accepts it.
    Authorization,
    /// The session is established.
    Established,
}

/// A handshake.
#[derive(Debug)]
pub struct Handshake {
    keepalive_timeout: u32,
    phase: Phase,
    negotiated: Option<u32>,
}

/// What a handshake is.
#[verifier::ext_equal]
pub struct HandshakeTree {
    /// The silence, in seconds, that the client advertises.
    pub keepalive_timeout: u32,
    /// Where the handshake stands.
    pub phase: Phase,
    /// The silence, in seconds, that the server asked for.
    pub negotiated: Option<u32>,
}

impl View for Handshake {
    type V = HandshakeTree;

    closed spec fn view(&self) -> HandshakeTree {
        HandshakeTree {
            keepalive_timeout: self.keepalive_timeout,
            phase: self.phase,
            negotiated: self.negotiated,
        }
    }
}

/// What is due while a handshake stands somewhere.
pub open spec fn due_in(phase: Phase) -> DueTree {
    DueTree {
        state: match phase {
            Phase::Authorization => "AUTH"@,
            _ => "SETUP"@,
        },
        expected_type: match phase {
            Phase::Setup => "SETUP"@,
            _ => "AUTH_STATE"@,
        },
        channel: MAIN_CHANNEL,
    }
}

/// The deadline that a server asked for. Zero is no deadline: maintenance
/// would run in a tight loop.
pub open spec fn asked_deadline(asked: Option<u32>) -> Option<u32> {
    match asked {
        Some(seconds) if seconds > 0 => Some(seconds),
        _ => None,
    }
}

/// What a handshake does after the server said whether the session is
/// authorized.
pub enum HandshakeStep {
    /// Send this, and wait for the answer.
    Authenticate(AuthMessage),
    /// The session is established.
    Established,
}

/// The error of a message that is not of its type: how the JSON library refuses
/// it, and otherwise what is missing for it to be read here.
pub open spec fn refused(refusal: Option<serde_json::Error>, complaint: Option<Seq<char>>) -> Option<
    ErrorView,
> {
    match refusal {
        Some(e) => Some(ErrorView::Serialization(e)),
        None => match complaint {
            Some(words) => Some(ErrorView::Serialization(error::reading_error(words))),
            None => None,
        },
    }
}

/// Whether a handshake goes on as it should after the server said how the
/// session stands. The credential goes out once, and only where the server asks
/// for it.
pub open spec fn answers_state(
    state: Seq<char>,
    token: Seq<char>,
    before: HandshakeTree,
    after: HandshakeTree,
    r: DXLinkResult<HandshakeStep>,
) -> bool {
    if state == "AUTHORIZED"@ {
        &&& r matches Ok(HandshakeStep::Established)
        &&& after == (HandshakeTree { phase: Phase::Established, ..before })
    } else if before.phase == Phase::Authorization {
        &&& after == before
        &&& r is Err
        &&& r->Err_0@ == ErrorView::Authentication(
            "during AUTH, the server reported state "@ + state + " instead of AUTHORIZED"@,
        )
    } else if state == "UNAUTHORIZED"@ {
        &&& after == (HandshakeTree { phase: Phase::Authorization, ..before })
        &&& r matches Ok(HandshakeStep::Authenticate(auth))
        &&& auth.channel == MAIN_CHANNEL
        &&& auth.message_type@ == "AUTH"@
        &&& auth.token@ == token
    } else {
        &&& after == before
        &&& r is Err
        &&& r->Err_0@ == ErrorView::Protocol(
            "during SETUP, the server reported an unknown authentication state: "@ + state,
        )
    }
}

impl Handshake {
    /// A handshake at its start.
    pub fn new(keepalive_timeout: u32) -> (r: Self)
        ensures
            r@ == (HandshakeTree { keepalive_timeout, phase: Phase::Setup, negotiated: None }),
    {
        Handshake { keepalive_timeout, phase: Phase::Setup, negotiated: None }
    }

    /// The message that starts the handshake.
    pub fn setup_message(&self) -> (r: SetupMessage)
        ensures
            r.channel == MAIN_CHANNEL,
            r.message_type@ == "SETUP"@,
            r.keepalive_timeout == self@.keepalive_timeout,
            r.accept_keepalive_timeout == self@.keepalive_timeout,
            r.version@ == DEFAULT_CLIENT_VERSION@,
    {
        SetupMessage {
            channel: MAIN_CHANNEL,
            message_type: "SETUP".to_owned(),
            keepalive_timeout: self.keepalive_timeout,
            accept_keepalive_timeout: self.keepalive_timeout,
            version: DEFAULT_CLIENT_VERSION.to_owned(),
        }
    }

    /// Where the handshake stands.
    pub fn phase(&self) -> (r: Phase)
        ensures
            r == self@.phase,
    {
        self.phase
    }

    /// The deadline that the server asked for.
    pub fn negotiated(&self) -> (r: Option<u32>)
        ensures
            r == self@.negotiated,
    {
        self.negotiated
    }

    /// The message that came, where it came in time and is the one that is
    /// due.
    pub fn check(&self, raw: Option<&str>) -> (r: DXLinkResult<JsonValue>)
        ensures
            match r {
                Ok(value) => {
                    &&& reply_objection(due_in(self@.phase), raw_text(raw)) is None
                    &&& raw is Some
                    &&& json::parsed(raw->0@) == Ok::<JsonTree, Seq<char>>(value@)
                },
                Err(e) => reply_objection(due_in(self@.phase), raw_text(raw)) == Some(e@),
            },
    {
        let state: &'static str = match self.phase {
            Phase::Authorization => "AUTH",
            _ => "SETUP",
        };
        let expected_type: &'static str = match self.phase {
            Phase::Setup => "SETUP",
            _ => "AUTH_STATE",
        };
        expect_handshake_message(&Due { state, expected_type, channel: MAIN_CHANNEL }, raw)
    }

    /// Takes what came, if anything came in time, where the server's `SETUP` is
    /// due, and how the JSON library refuses it as one, if it does.
    pub fn on_server_setup(&mut self, raw: Option<&str>, refusal: Option<serde_json::Error>) -> (r:
        DXLinkResult<()>)
        requires
            old(self)@.phase == Phase::Setup,
        ensures
            match reply_objection(due_in(Phase::Setup), raw_text(raw)) {
                Some(e) => r is Err && r->Err_0@ == e && final(self)@ == old(self)@,
                None => {
                    let value = json::parsed(raw->0@)->Ok_0;
                    match refused(refusal, wire::server_setup_complaint(value)) {
                        Some(e) => r is Err && r->Err_0@ == e && final(self)@ == old(self)@,
                        None => r is Ok && final(self)@ == (HandshakeTree {
                            phase: Phase::AuthState,
                            negotiated: asked_deadline(
                                wire::maybe_whole_member(value, "keepaliveTimeout"@)->Ok_0,
                            ),
                            ..old(self)@
                        }),
                    }
                },
            },
            r is Ok ==> match json::field_of(
                json::parsed(raw->0@)->Ok_0,
                "keepaliveTimeout"@,
            ) {
                Some(JsonTree::Number(NumberTree::Integer(n))) => if n > 0 {
                    final(self)@.negotiated == Some(n as u32)
                } else {
                    final(self)@.negotiated is None
                },
                _ => final(self)@.negotiated is None,
            },
    {
        let value = match self.check(raw) {
            Ok(value) => value,
            Err(e) => return Err(e),
        };
        match refusal {
            Some(e) => return Err(DXLinkError::Serialization(e)),
            None => {},
        }
        match ServerSetupMessage::from_value(&value) {
            Ok(message) => {
                self.server_setup(&message);
                Ok(())
            },
            Err(words) => Err(DXLinkError::unreadable(words.as_str())),
        }
    }

    /// Takes what came, if anything came in time, where the server is to say
    /// whether the session is authorized, and how the JSON library refuses it as
    /// that, if it does.
    pub fn on_auth_state(
        &mut self,
        raw: Option<&str>,
        refusal: Option<serde_json::Error>,
        token: &str,
    ) -> (r: DXLinkResult<HandshakeStep>)
        requires
            old(self)@.phase == Phase::AuthState || old(self)@.phase == Phase::Authorization,
        ensures
            match reply_objection(due_in(old(self)@.phase), raw_text(raw)) {
                Some(e) => r is Err && r->Err_0@ == e && final(self)@ == old(self)@,
                None => {
                    let value = json::parsed(raw->0@)->Ok_0;
                    match refused(refusal, wire::auth_state_complaint(value)) {
                        Some(e) => r is Err && r->Err_0@ == e && final(self)@ == old(self)@,
                        None => answers_state(
                            wire::text_member(value, "state"@)->Ok_0,
                            token@,
                            old(self)@,
                            final(self)@,
                            r,
                        ),
                    }
                },
            },
    {
        let value = match self.check(raw) {
            Ok(value) => value,
            Err(e) => return Err(e),
        };
        match refusal {
            Some(e) => return Err(DXLinkError::Serialization(e)),
            None => {},
        }
        match AuthStateMessage::from_value(&value) {
            Ok(message) => self.auth_state(&message, token),
            Err(words) => Err(DXLinkError::unreadable(words.as_str())),
        }
    }

    /// Takes the server's `SETUP`.
    pub fn server_setup(&mut self, message: &ServerSetupMessage)
        requires
            old(self)@.phase == Phase::Setup,
        ensures
            final(self)@ == (HandshakeTree {
                phase: Phase::AuthState,
                negotiated: asked_deadline(message.keepalive_timeout),
                ..old(self)@
            }),
            match message.keepalive_timeout {
                Some(n) => if n > 0 {
                    final(self)@.negotiated == Some(n)
                } else {
                    final(self)@.negotiated is None
                },
                None => final(self)@.negotiated is None,
            },
    {
        self.negotiated = match message.keepalive_timeout {
            Some(asked) => if asked > 0 {
                Some(asked)
            } else {
                None
            },
            None => None,
        };
        self.phase = Phase::AuthState;
    }

    /// Takes what the server says of the authorization.
    pub fn auth_state(&mut self, message: &AuthStateMessage, token: &str) -> (r: DXLinkResult<
        HandshakeStep,
    >)
        requires
            old(self)@.phase == Phase::AuthState || old(self)@.phase == Phase::Authorization,
        ensures
            answers_state(message.state@, token@, old(self)@, final(self)@, r),
    {
        if same_text(message.state.as_str(), "AUTHORIZED") {
            self.phase = Phase::Established;
            return Ok(HandshakeStep::Established);
        }
        if self.phase == Phase::Authorization {
            let mut text = "during AUTH, the server reported state ".to_owned();
            text.append(message.state.as_str());
            text.append(" instead of AUTHORIZED");
            return Err(DXLinkError::Authentication(text));
        }
        if same_text(message.state.as_str(), "UNAUTHORIZED") {
            self.phase = Phase::Authorization;
            return Ok(
                HandshakeStep::Authenticate(
                    AuthMessage {
                        channel: MAIN_CHANNEL,
                        message_type: "AUTH".to_owned(),
                        token: token.to_owned(),
                    },
                ),
            );
        }
        let mut text =
            "during SETUP, the server reported an unknown authentication state: ".to_owned();
        text.append(message.state.as_str());
        Err(DXLinkError::Protocol(text))
    }
}

/// An error that the server reports during the handshake keeps only what is
/// safe of the server's words: at most so many characters of each, and nothing
/// with the shape of a credential.
pub proof fn reported_errors_are_safe(due: DueTree, code: Seq<char>, message: Seq<char>)
    ensures
        connection::sanitized(code).len() <= connection::MAX_CLOSE_REASON_LEN,
        connection::sanitized(message).len() <= connection::MAX_CLOSE_REASON_LEN,
        connection::has_short_runs(connection::sanitized(code)),
        connection::has_short_runs(connection::sanitized(message)),
        reported(due, code, message) == ErrorView::Authentication(
            "during "@ + due.state + ", the server returned "@ + connection::sanitized(code)
                + ": "@ + connection::sanitized(message),
        ) || reported(due, code, message) == ErrorView::Protocol(
            "during "@ + due.state + ", the server returned "@ + connection::sanitized(code)
                + ": "@ + connection::sanitized(message),
        ),
{
    connection::sanitized_text_is_safe(code);
    connection::sanitized_text_is_safe(message);
}

} // verus!
