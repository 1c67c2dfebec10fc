//! What the reader of the socket does with what it reads.
//!
//! A message goes first to whoever waits for it. Only what nobody waited for
//! is taken as the server speaking by itself.

use crate::client::{ClientTree, DXLinkClient, MAIN_CHANNEL};
use crate::compact;
use crate::compact::try_parse_negotiated;
use crate::connection;
use crate::connection::sanitize_server_text;
use crate::error;
use crate::error::{DXLinkError, ErrorView};
use crate::events::MarketEvent;
use crate::json;
use crate::json::{JsonTree, JsonValue};
use crate::messages::{ErrorMessage, FeedConfigMessage};
use crate::requests;
use crate::requests::{PendingTree, ResponseType};
use crate::schema;
use crate::text;
use crate::text::{decimal_text, same_text};
use crate::wire;
use crate::wire::read_feed_data;
use vstd::prelude::*;

verus! {

// ---------------------------------------------------------------------------
// What a message is
// ---------------------------------------------------------------------------
/// A message of the server.
pub struct ServerMessage {
    /// Its type, or nothing where it names none.
    pub message_type: String,
    /// Its channel, where it names one.
    pub channel: Option<u32>,
    /// The whole message.
    pub value: JsonValue,
    /// The whole message, as it came.
    pub raw: String,
}

/// What a message of the server is.
#[verifier::ext_equal]
pub struct MessageTree {
    pub message_type: Seq<char>,
    pub channel: Option<u32>,
    pub value: JsonTree,
    pub raw: Seq<char>,
}

impl View for ServerMessage {
    type V = MessageTree;

    open spec fn view(&self) -> MessageTree {
        MessageTree {
            message_type: self.message_type@,
            channel: self.channel,
            value: self.value@,
            raw: self.raw@,
        }
    }
}

/// The channel that a message names, cut down to the width of a channel.
pub open spec fn message_channel(value: JsonTree) -> Option<u32> {
    match json::field_of(value, "channel"@) {
        Some(field) => match json::integer_of(field, 0, u64::MAX as int) {
            Some(n) => Some((n % 0x1_0000_0000) as u32),
            None => None,
        },
        None => None,
    }
}

/// The message that a value is.
pub open spec fn message_tree(value: JsonTree, raw: Seq<char>) -> MessageTree {
    MessageTree {
        message_type: json::text_field(value, "type"@, Seq::empty()),
        channel: message_channel(value),
        value,
        raw,
    }
}

/// The message that a value is.
pub fn message_of(value: JsonValue, raw: &str) -> (r: ServerMessage)
    ensures
        r@ == message_tree(value@, raw@),
{
    let nothing = "";
    proof {
        reveal_strlit("");
        assert(nothing@ =~= Seq::<char>::empty());
    }
    let message_type = value.text_field("type", nothing).to_owned();
    let channel = match value.get("channel") {
        Some(field) => match field.as_u64() {
            Some(n) => {
                let wide: u64 = 0x1_0000_0000;
                Some((n % wide) as u32)
            },
            None => None,
        },
        None => None,
    };
    ServerMessage { message_type, channel, value, raw: raw.to_owned() }
}

/// Reads a message, or nothing where it is no JSON.
pub fn read_message(raw: &str) -> (r: Option<ServerMessage>)
    ensures
        match json::parsed(raw@) {
            Ok(value) => r is Some && r->0@ == message_tree(value, raw@),
            Err(_) => r is None,
        },
{
    match JsonValue::parse(raw) {
        Ok(value) => Some(message_of(value, raw)),
        Err(_) => None,
    }
}

// ---------------------------------------------------------------------------
// Answers
// ---------------------------------------------------------------------------
/// What keeps a message from being of its type, if anything does: how the JSON
/// library refuses it, and otherwise what is missing for it to be read here.
pub open spec fn objection(refusal: Option<Seq<char>>, complaint: Option<Seq<char>>) -> Option<
    Seq<char>,
> {
    match refusal {
        Some(words) => Some(words),
        None => complaint,
    }
}

/// The words of a refusal.
pub open spec fn refusal_words(refusal: Option<&str>) -> Option<Seq<char>> {
    match refusal {
        Some(words) => Some(words@),
        None => None,
    }
}

/// Whether an answer is what a message says, where the JSON library may refuse
/// the message as one of its type.
pub open spec fn is_response(
    response: ResponseType,
    message: MessageTree,
    refusal: Option<Seq<char>>,
) -> bool {
    let channel = match message.channel {
        Some(channel) => channel,
        None => 0,
    };
    if message.message_type == "CHANNEL_OPENED"@ {
        response == ResponseType::ChannelOpened(channel)
    } else if message.message_type == "FEED_CONFIG"@ {
        match objection(refusal, wire::feed_config_complaint(message.value)) {
            None => response is FeedConfig && response->FeedConfig_0.is_said_by(message.value),
            Some(words) => response is Error && response->Error_0@ == "MALFORMED_FEED_CONFIG"@
                && response->Error_1@ == words,
        }
    } else if message.message_type == "CHANNEL_CLOSED"@ {
        response == ResponseType::ChannelClosed(channel)
    } else if message.message_type == "ERROR"@ {
        &&& response is Error
        &&& response->Error_0@ == connection::sanitized(
            json::text_field(message.value, "error"@, "unknown"@),
        )
        &&& response->Error_1@ == connection::sanitized(
            json::text_field(message.value, "message"@, Seq::empty()),
        )
    } else {
        response is Other && response->Other_0@ == message.raw
    }
}

/// The answer that a message is to whoever waited for it. A message that the
/// JSON library refuses as one of its type comes with the words of the refusal.
pub fn response_for(message: &ServerMessage, refusal: Option<&str>) -> (r: ResponseType)
    ensures
        is_response(r, message@, refusal_words(refusal)),
{
    let channel: u32 = match message.channel {
        Some(channel) => channel,
        None => 0,
    };
    let message_type = message.message_type.as_str();
    if same_text(message_type, "CHANNEL_OPENED") {
        ResponseType::ChannelOpened(channel)
    } else if same_text(message_type, "FEED_CONFIG") {
        if let Some(words) = refusal {
            return ResponseType::Error("MALFORMED_FEED_CONFIG".to_owned(), words.to_owned());
        }
        match FeedConfigMessage::from_value(&message.value) {
            Ok(config) => ResponseType::FeedConfig(config),
            Err(words) => ResponseType::Error("MALFORMED_FEED_CONFIG".to_owned(), words),
        }
    } else if same_text(message_type, "CHANNEL_CLOSED") {
        ResponseType::ChannelClosed(channel)
    } else if same_text(message_type, "ERROR") {
        let nothing = "";
        proof {
            reveal_strlit("");
            assert(nothing@ =~= Seq::<char>::empty());
        }
        ResponseType::Error(
            sanitize_server_text(message.value.text_field("error", "unknown")),
            sanitize_server_text(message.value.text_field("message", nothing)),
        )
    } else {
        ResponseType::Other(message.raw.as_str().to_owned())
    }
}

/// An answer, and the identity of the request that it is for.
pub struct Claim {
    /// The identity of the request.
    pub id: u64,
    /// The answer.
    pub response: ResponseType,
}

/// Finds who waits for a message, first come first served, and what they are
/// answered.
///
/// Where the one who waited is gone, the caller asks again, until somebody
/// takes the answer or nobody waits for it.
pub fn claim(client: &mut DXLinkClient, message: &ServerMessage, refusal: Option<&str>) -> (r:
    Option<Claim>)
    ensures
        match requests::answered(
            old(client)@.pending.requests,
            message@.message_type,
            message@.channel,
        ) {
            Some(i) => {
                &&& r is Some
                &&& r->0.id == old(client)@.pending.requests[i].id
                &&& is_response(r->0.response, message@, refusal_words(refusal))
                &&& final(client)@ == (ClientTree {
                    pending: PendingTree {
                        requests: old(client)@.pending.requests.remove(i),
                        last_id: old(client)@.pending.last_id,
                    },
                    ..old(client)@
                })
            },
            None => r is None && final(client)@ == old(client)@,
        },
{
    match client.take_answered(message.message_type.as_str(), message.channel) {
        Some(request) => Some(Claim { id: request.id, response: response_for(message, refusal) }),
        None => None,
    }
}

// ---------------------------------------------------------------------------
// What nobody waited for
// ---------------------------------------------------------------------------
/// What is to be done with a message that nobody waited for.
pub enum Routed {
    /// Nothing.
    Ignored,
    /// These events go to the consumer.
    Deliver(Vec<MarketEvent>),
    /// The data is for a channel without a layout, and is dropped.
    NoLayout,
    /// The data cannot be decoded, and is dropped as a whole.
    Malformed(DXLinkError),
    /// The server reports an error, where it can be read.
    ServerError(Option<ErrorMessage>),
    /// The server shows that it is there.
    Keepalive,
    /// The type of the message means nothing here.
    Unhandled,
}

/// Whether schemas are what a configuration that nobody waited for leaves. One
/// that cannot be read is no agreement: the channel is not decoded any more.
pub open spec fn leaves_schemas(
    message: MessageTree,
    refusal: Option<Seq<char>>,
    before: Map<u32, schema::SchemaTree>,
    after: Map<u32, schema::SchemaTree>,
) -> bool {
    match message.channel {
        None => after == before,
        Some(channel) => match objection(refusal, wire::feed_config_complaint(message.value)) {
            None => exists|config: FeedConfigMessage| #[trigger]
                config.is_said_by(message.value) && after == schema::after_config(
                    before,
                    channel,
                    config,
                ),
            Some(_) => after == before.remove(channel),
        },
    }
}

/// Whether a routing is right for data on a channel. Data is decoded against
/// what was agreed for the channel, or not at all, and never in part.
pub open spec fn routes_data(
    routed: Routed,
    schemas: Map<u32, schema::SchemaTree>,
    message: MessageTree,
    refusal: Option<Seq<char>>,
) -> bool {
    if message.channel is None || !schemas.contains_key(message.channel->0) {
        routed is NoLayout
    } else if refusal is Some {
        routed is Ignored
    } else {
        match wire::feed_data(message.value) {
            None => routed is Ignored,
            Some(data) => {
                let decoded = compact::decoded(data, Some(schemas[message.channel->0]), 0);
                match decoded.1 {
                    None => routed is Deliver && compact::event_trees(routed->Deliver_0@)
                        == decoded.0,
                    Some(text) => routed is Malformed && routed->Malformed_0@
                        == ErrorView::Protocol(text),
                }
            },
        }
    }
}

/// Takes a message that nobody waited for. A message that the JSON library
/// refuses as one of its type comes with the words of the refusal.
pub fn on_unclaimed(client: &mut DXLinkClient, message: &ServerMessage, refusal: Option<&str>) -> (r:
    Routed)
    ensures
        if message@.message_type == "FEED_CONFIG"@ {
            &&& r is Ignored
            &&& leaves_schemas(
                message@,
                refusal_words(refusal),
                old(client)@.schemas,
                final(client)@.schemas,
            )
            &&& final(client)@ == (ClientTree {
                schemas: final(client)@.schemas,
                ..old(client)@
            })
        } else {
            final(client)@ == old(client)@
        },
        message@.message_type == "FEED_DATA"@ ==> routes_data(
            r,
            old(client)@.schemas,
            message@,
            refusal_words(refusal),
        ),
        message@.message_type == "ERROR"@ ==> {
            &&& r is ServerError
            &&& match r->ServerError_0 {
                Some(error) => refusal is None && wire::error_complaint(message@.value) is None
                    && error.is_said_by(message@.value),
                None => refusal is Some || wire::error_complaint(message@.value) is Some,
            }
        },
        message@.message_type == "KEEPALIVE"@ ==> r is Keepalive,
        message@.message_type != "FEED_CONFIG"@ && message@.message_type != "FEED_DATA"@
            && message@.message_type != "ERROR"@ && message@.message_type != "KEEPALIVE"@
            ==> r is Unhandled,
{
    proof {
        reveal_strlit("FEED_CONFIG");
        reveal_strlit("FEED_DATA");
        reveal_strlit("ERROR");
        reveal_strlit("KEEPALIVE");
        assert("FEED_CONFIG"@.len() == 11);
        assert("FEED_DATA"@.len() == 9);
        assert("ERROR"@.len() == 5);
        assert("KEEPALIVE"@.len() == 9);
        assert("FEED_DATA"@[0] != "KEEPALIVE"@[0]);
    }
    let message_type = message.message_type.as_str();
    if same_text(message_type, "FEED_CONFIG") {
        match message.channel {
            None => {},
            Some(channel) => if refusal.is_some() {
                client.drop_schema(channel);
            } else {
                match FeedConfigMessage::from_value(&message.value) {
                    Ok(config) => client.reconfigured(channel, &config),
                    Err(_) => client.drop_schema(channel),
                }
            },
        }
        Routed::Ignored
    } else if same_text(message_type, "FEED_DATA") {
        let layout = match message.channel {
            None => None,
            Some(channel) => client.schema_of(channel),
        };
        let layout = match layout {
            None => return Routed::NoLayout,
            Some(layout) => layout,
        };
        if refusal.is_some() {
            return Routed::Ignored;
        }
        match read_feed_data(&message.value) {
            Some(read) => match try_parse_negotiated(read.data.as_slice(), layout) {
                Ok(events) => Routed::Deliver(events),
                Err(e) => Routed::Malformed(e),
            },
            None => Routed::Ignored,
        }
    } else if same_text(message_type, "ERROR") {
        if refusal.is_some() {
            return Routed::ServerError(None);
        }
        match ErrorMessage::from_value(&message.value) {
            Ok(error) => Routed::ServerError(Some(error)),
            Err(_) => Routed::ServerError(None),
        }
    } else if same_text(message_type, "KEEPALIVE") {
        Routed::Keepalive
    } else {
        Routed::Unhandled
    }
}

// ---------------------------------------------------------------------------
// The end of a session
// ---------------------------------------------------------------------------
/// What a read of the socket came to, where it gave no message.
pub enum ReadFailure {
    /// Nothing came for as long as the client advertised.
    Silence,
    /// The read failed.
    Failed(DXLinkError),
}

/// What the reader does after a read that gave no message.
pub enum AfterFailure {
    /// The session is over, for this reason.
    Stop(String),
    /// Wait a moment and read again: the connection may still be good.
    ReadAgain,
}

/// The error of a server that has gone quiet.
pub open spec fn gone_quiet(seconds: u32) -> ErrorView {
    ErrorView::Timeout(
        "no message received on channel "@ + text::decimal(MAIN_CHANNEL as int) + " for "@
            + text::decimal(seconds as int) + "s, the connection is assumed dead"@,
    )
}

/// The error that a read which gave no message stands for.
pub open spec fn failure_view(failure: ReadFailure, seconds: u32) -> ErrorView {
    match failure {
        ReadFailure::Silence => gone_quiet(seconds),
        ReadFailure::Failed(e) => e@,
    }
}

/// Whether a read that gave no message ends the session. Silence does, although
/// a read that timed out says nothing of the connection as a rule: here it has
/// lasted for as long as the client advertised.
pub open spec fn ends_session(failure: ReadFailure) -> bool {
    match failure {
        ReadFailure::Silence => true,
        ReadFailure::Failed(e) => error::ends_connection(e@),
    }
}

/// Takes a read that gave no message. Where it ends the session, the reason is
/// recorded, unless an earlier one is.
pub fn on_failure(client: &mut DXLinkClient, failure: ReadFailure) -> (r: AfterFailure)
    ensures
        ends_session(failure) ==> {
            &&& r is Stop
            &&& error::reads_as(
                r->Stop_0@,
                failure_view(failure, old(client)@.keepalive_timeout),
            )
            &&& match old(client)@.disconnect_reason {
                Some(_) => final(client)@ == old(client)@,
                None => {
                    &&& final(client)@.disconnect_reason is Some
                    &&& error::reads_as(
                        final(client)@.disconnect_reason->0,
                        failure_view(failure, old(client)@.keepalive_timeout),
                    )
                    &&& final(client)@ == (ClientTree {
                        disconnect_reason: final(client)@.disconnect_reason,
                        ..old(client)@
                    })
                },
            }
        },
        !ends_session(failure) ==> r is ReadAgain && final(client)@ == old(client)@,
{
    let error = match failure {
        ReadFailure::Silence => {
            let mut message = "no message received on channel ".to_owned();
            message.append(decimal_text(MAIN_CHANNEL as u64).as_str());
            message.append(" for ");
            message.append(decimal_text(client.keepalive_timeout() as u64).as_str());
            message.append("s, the connection is assumed dead");
            DXLinkError::Timeout(message)
        },
        ReadFailure::Failed(e) => {
            if !e.is_terminal() {
                return AfterFailure::ReadAgain;
            }
            e
        },
    };
    client.record_reason(&error);
    AfterFailure::Stop(error.to_string())
}

} // verus!
