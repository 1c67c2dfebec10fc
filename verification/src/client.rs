//! The state of a client: its channels, its layouts, its subscriptions, and
//! what each operation does to them.
//!
//! An operation that needs the server has two halves. The first checks that
//! the operation is possible and gives the message to send; the second takes
//! what came of it. Nothing is recorded before the message has gone out.

use crate::channels;
use crate::channels::{at, drop_at, ids, put};
use crate::delivery::OverflowPolicy;
use crate::error;
use crate::error::{DXLinkError, DXLinkResult, ErrorView};
use crate::events;
use crate::events::EventType;
use crate::json::JsonNumber;
use crate::messages;
use crate::messages::{
    copy_optional, copy_subscriptions, BaseMessage, ChannelRequestMessage, FeedConfigMessage,
    FeedSetupMessage, FeedSubscription, FeedSubscriptionMessage,
};
use crate::reconnect;
use crate::reconnect::{
    keepalive_interval_for, seconds, ReconnectPolicy, DEFAULT_KEEPALIVE_TIMEOUT,
};
use crate::requests;
use crate::requests::{
    settle, Outcome, PendingRequests, PendingTree, RequestTree, ResponseRequest, ResponseType,
    Ticket, TicketTree,
};
use crate::schema;
use crate::schema::{
    adopt_config, decodable_type_names, negotiated_schema, parse_subscription_types,
    requested_fields, ChannelSchema, SchemaTree,
};
use crate::subscriptions;
use crate::subscriptions::{SubscriptionBook, TrackedTree};
use crate::text;
use crate::text::{decimal_text, same_text};
use std::collections::BTreeMap;
use std::time::Duration;
use vstd::prelude::*;

verus! {

/// The channel of the session itself.
pub const MAIN_CHANNEL: u32 = 0;

/// How many seconds to wait for a channel to open or a feed to be configured.
pub const REQUEST_WAIT_SECS: u64 = 10;

/// How many seconds to wait for a channel to close.
pub const CLOSE_WAIT_SECS: u64 = 5;

/// How many events the stream of a consumer holds, unless another number is
/// set. A day of one minute bars, which a server replays in one burst before
/// anyone reads, has to fit.
pub const DEFAULT_EVENT_BUFFER: usize = 2048;

/// The version that the client names in `SETUP`: protocol version,
/// implementation and client version.
pub const DEFAULT_CLIENT_VERSION: &'static str = "0.1-dxlink-rs/0.3.0";

/// The state of a client.
pub struct DXLinkClient {
    url: String,
    token: String,
    connected: bool,
    keepalive_timeout: u32,
    server_keepalive_timeout: Option<u32>,
    next_channel_id: u32,
    channels: BTreeMap<u32, String>,
    channel_contracts: BTreeMap<u32, String>,
    channel_schemas: BTreeMap<u32, ChannelSchema>,
    subscriptions: SubscriptionBook,
    pending: PendingRequests,
    disconnect_reason: Option<String>,
    event_stream_taken: bool,
    reconnect: Option<ReconnectPolicy>,
    state_stream: Option<u64>,
    streams_opened: u64,
    event_buffer: usize,
    overflow: OverflowPolicy,
    dropped_events: u64,
}

/// What the state of a client is.
#[verifier::ext_equal]
pub struct ClientTree {
    /// The address of the server.
    pub url: Seq<char>,
    /// The credential.
    pub token: Seq<char>,
    /// Whether there is a live connection.
    pub connected: bool,
    /// The silence, in seconds, that the client advertises.
    pub keepalive_timeout: u32,
    /// The silence, in seconds, that the server asked for.
    pub server_keepalive_timeout: Option<u32>,
    /// The next channel to hand out.
    pub next_channel_id: u32,
    /// The open channels, each with its service.
    pub channels: Map<u32, Seq<char>>,
    /// The contract with which each channel was opened.
    pub contracts: Map<u32, Seq<char>>,
    /// The layout that each configured channel is decoded against.
    pub schemas: Map<u32, SchemaTree>,
    /// The live subscriptions.
    pub subscriptions: Seq<TrackedTree>,
    /// The requests that wait for an answer.
    pub pending: PendingTree,
    /// Why the session ended, once it has.
    pub disconnect_reason: Option<Seq<char>>,
    /// Whether the stream of events has been handed out.
    pub event_stream_taken: bool,
    /// The policy for a session that dies.
    pub reconnect: Option<ReconnectPolicy>,
    /// The stream of connection states that is open, by its number.
    pub state_stream: Option<u64>,
    /// How many streams of connection states were opened.
    pub streams_opened: u64,
    /// How many events the stream holds.
    pub event_buffer: usize,
    /// What happens when the stream is full.
    pub overflow: OverflowPolicy,
    /// How many events were dropped.
    pub dropped_events: u64,
}

/// The texts of a map by channel.
pub open spec fn text_values(map: Map<u32, String>) -> Map<u32, Seq<char>> {
    map.map_values(|s: String| s@)
}

impl View for DXLinkClient {
    type V = ClientTree;

    closed spec fn view(&self) -> ClientTree {
        ClientTree {
            url: self.url@,
            token: self.token@,
            connected: self.connected,
            keepalive_timeout: self.keepalive_timeout,
            server_keepalive_timeout: self.server_keepalive_timeout,
            next_channel_id: self.next_channel_id,
            channels: text_values(self.channels@),
            contracts: text_values(self.channel_contracts@),
            schemas: schema::schema_trees(self.channel_schemas@),
            subscriptions: self.subscriptions@,
            pending: self.pending@,
            disconnect_reason: messages::optional_text(self.disconnect_reason),
            event_stream_taken: self.event_stream_taken,
            reconnect: self.reconnect,
            state_stream: self.state_stream,
            streams_opened: self.streams_opened,
            event_buffer: self.event_buffer,
            overflow: self.overflow,
            dropped_events: self.dropped_events,
        }
    }
}

/// The state of a client that has done nothing yet.
pub open spec fn fresh(url: Seq<char>, token: Seq<char>) -> ClientTree {
    ClientTree {
        url,
        token,
        connected: false,
        keepalive_timeout: DEFAULT_KEEPALIVE_TIMEOUT,
        server_keepalive_timeout: None,
        next_channel_id: 1,
        channels: Map::empty(),
        contracts: Map::empty(),
        schemas: Map::empty(),
        subscriptions: Seq::empty(),
        pending: PendingTree { requests: Seq::empty(), last_id: 0 },
        disconnect_reason: None,
        event_stream_taken: false,
        reconnect: None,
        state_stream: None,
        streams_opened: 0,
        event_buffer: DEFAULT_EVENT_BUFFER,
        overflow: OverflowPolicy::Drop,
        dropped_events: 0,
    }
}

/// A client with a stream of connection states: the one that is open, or a new
/// one.
pub open spec fn with_states(client: ClientTree) -> ClientTree {
    match client.state_stream {
        Some(_) => client,
        None => ClientTree {
            state_stream: Some((client.streams_opened + 1) as u64),
            streams_opened: (client.streams_opened + 1) as u64,
            ..client
        },
    }
}

// ---------------------------------------------------------------------------
// Errors
// ---------------------------------------------------------------------------
/// The error of an operation without a connection.
pub open spec fn not_connected() -> ErrorView {
    ErrorView::Connection("Not connected to DXLink server"@)
}

/// The error of a channel that is not open.
pub open spec fn channel_not_found(channel: u32) -> ErrorView {
    ErrorView::Channel("Channel "@ + text::decimal(channel as int) + " not found"@)
}

/// The error of a channel that is for something else.
pub open spec fn wrong_service(channel: u32, service: Seq<char>, expected: Seq<char>) -> ErrorView {
    ErrorView::Channel(
        "Channel "@ + text::decimal(channel as int) + " is a "@ + service + " channel, not a "@
            + expected + " channel"@,
    )
}

/// Whether an error is why a channel cannot be used for a service, or there is
/// none and the channel can be used.
pub open spec fn channel_error(channels: Map<u32, Seq<char>>, channel: u32, expected: Seq<char>) -> Option<
    ErrorView,
> {
    if !channels.contains_key(channel) {
        Some(channel_not_found(channel))
    } else if channels[channel] != expected {
        Some(wrong_service(channel, channels[channel], expected))
    } else {
        None
    }
}

/// The error of an answer that answers something else.
pub open spec fn unexpected_response() -> ErrorView {
    ErrorView::Protocol("Unexpected response type"@)
}

/// The error of an operation that needs a configured channel.
pub open spec fn not_configured(channel: u32) -> ErrorView {
    ErrorView::Channel(
        "channel "@ + text::decimal(channel as int)
            + " has no validated feed configuration; call setup_feed first"@,
    )
}

fn not_connected_error() -> (r: DXLinkError)
    ensures
        r@ == not_connected(),
{
    DXLinkError::Connection("Not connected to DXLink server".to_owned())
}

fn channel_not_found_error(channel: u32) -> (r: DXLinkError)
    ensures
        r@ == channel_not_found(channel),
{
    let mut message = "Channel ".to_owned();
    message.append(decimal_text(channel as u64).as_str());
    message.append(" not found");
    DXLinkError::Channel(message)
}

fn mismatch_error(expected: &str, channel: u32, got: u32) -> (r: DXLinkError)
    ensures
        r@ == ErrorView::Channel(
            expected@ + text::decimal(channel as int) + ", got "@ + text::decimal(got as int),
        ),
{
    let mut message = expected.to_owned();
    message.append(decimal_text(channel as u64).as_str());
    message.append(", got ");
    message.append(decimal_text(got as u64).as_str());
    DXLinkError::Channel(message)
}

fn unexpected_response_error() -> (r: DXLinkError)
    ensures
        r@ == unexpected_response(),
{
    DXLinkError::Protocol("Unexpected response type".to_owned())
}

// ---------------------------------------------------------------------------
// Construction and settings
// ---------------------------------------------------------------------------
impl DXLinkClient {
    /// A client that is not connected yet.
    pub fn new(url: &str, token: &str) -> (r: Self)
        ensures
            r@ == fresh(url@, token@),
    {
        let r = DXLinkClient {
            url: url.to_owned(),
            token: token.to_owned(),
            connected: false,
            keepalive_timeout: DEFAULT_KEEPALIVE_TIMEOUT,
            server_keepalive_timeout: None,
            next_channel_id: 1,
            channels: BTreeMap::new(),
            channel_contracts: BTreeMap::new(),
            channel_schemas: BTreeMap::new(),
            subscriptions: SubscriptionBook::new(),
            pending: PendingRequests::new(),
            disconnect_reason: None,
            event_stream_taken: false,
            reconnect: None,
            state_stream: None,
            streams_opened: 0,
            event_buffer: DEFAULT_EVENT_BUFFER,
            overflow: OverflowPolicy::Drop,
            dropped_events: 0,
        };
        assert(r@.channels =~= Map::<u32, Seq<char>>::empty());
        assert(r@.contracts =~= Map::<u32, Seq<char>>::empty());
        assert(r@.schemas =~= Map::<u32, SchemaTree>::empty());
        r
    }

    /// Sets the silence, in seconds, that the client advertises, and after
    /// which it takes the server for gone. Zero is refused.
    pub fn with_keepalive_timeout(self, seconds: u32) -> (r: DXLinkResult<Self>)
        ensures
            match r {
                Ok(client) => seconds > 0 && client@ == (ClientTree {
                    keepalive_timeout: seconds,
                    ..self@
                }),
                Err(e) => seconds == 0 && e@ == ErrorView::Protocol(
                    "keepalive timeout must be greater than zero"@,
                ),
            },
    {
        if seconds == 0 {
            return Err(
                DXLinkError::Protocol("keepalive timeout must be greater than zero".to_owned()),
            );
        }
        let mut client = self;
        client.keepalive_timeout = seconds;
        Ok(client)
    }

    /// Sets how many events the stream holds. Zero is refused.
    pub fn with_event_buffer(self, capacity: usize) -> (r: DXLinkResult<Self>)
        ensures
            match r {
                Ok(client) => capacity > 0 && client@ == (ClientTree {
                    event_buffer: capacity,
                    ..self@
                }),
                Err(e) => capacity == 0 && e@ == ErrorView::Protocol(
                    "event buffer must hold at least one event"@,
                ),
            },
    {
        if capacity == 0 {
            return Err(
                DXLinkError::Protocol("event buffer must hold at least one event".to_owned()),
            );
        }
        let mut client = self;
        client.event_buffer = capacity;
        Ok(client)
    }

    /// Sets what happens when the stream is full.
    pub fn with_overflow_policy(self, policy: OverflowPolicy) -> (r: Self)
        ensures
            r@ == (ClientTree { overflow: policy, ..self@ }),
    {
        let mut client = self;
        client.overflow = policy;
        client
    }

    /// Turns reconnection on. It is off unless this is called, and from here
    /// on there is a stream of connection states.
    pub fn with_reconnect(&mut self, policy: ReconnectPolicy)
        requires
            old(self)@.streams_opened < u64::MAX,
        ensures
            final(self)@ == with_states(
                ClientTree { reconnect: Some(policy), ..old(self)@ },
            ),
    {
        self.reconnect = Some(policy);
        self.open_states();
    }

    fn open_states(&mut self)
        requires
            old(self)@.streams_opened < u64::MAX,
        ensures
            final(self)@ == with_states(old(self)@),
    {
        if self.state_stream.is_none() {
            self.streams_opened = self.streams_opened + 1;
            self.state_stream = Some(self.streams_opened);
        }
    }

    /// How many streams of connection states were opened.
    pub fn streams_opened(&self) -> (r: u64)
        ensures
            r == self@.streams_opened,
    {
        self.streams_opened
    }

    /// The policy for a session that dies, if there is one.
    pub fn reconnect_policy(&self) -> (r: Option<ReconnectPolicy>)
        ensures
            r == self@.reconnect,
    {
        self.reconnect
    }

    /// The stream of connection states to subscribe to, by its number. As long
    /// as the number is the same, so is the stream.
    pub fn connection_states(&self) -> (r: Option<u64>)
        ensures
            r == self@.state_stream,
    {
        self.state_stream
    }

    /// The address of the server.
    pub fn url(&self) -> (r: &str)
        ensures
            r@ == self@.url,
    {
        self.url.as_str()
    }

    /// The credential.
    pub fn token(&self) -> (r: &str)
        ensures
            r@ == self@.token,
    {
        self.token.as_str()
    }

    /// The silence, in seconds, that the client advertises.
    pub fn keepalive_timeout(&self) -> (r: u32)
        ensures
            r == self@.keepalive_timeout,
    {
        self.keepalive_timeout
    }

    /// How many events the stream holds.
    pub fn event_buffer(&self) -> (r: usize)
        ensures
            r == self@.event_buffer,
    {
        self.event_buffer
    }

    /// What happens when the stream is full.
    pub fn overflow_policy(&self) -> (r: OverflowPolicy)
        ensures
            r == self@.overflow,
    {
        self.overflow
    }

    /// The interval at which maintenance is sent.
    pub fn keepalive_interval(&self) -> (r: Duration)
        ensures
            reconnect::nanos_of(r) == reconnect::keepalive_secs(
                self@.keepalive_timeout,
                self@.server_keepalive_timeout,
            ) * reconnect::NANOS_PER_SEC,
    {
        keepalive_interval_for(self.keepalive_timeout, self.server_keepalive_timeout)
    }
}

// ---------------------------------------------------------------------------
// Connection and requests
// ---------------------------------------------------------------------------
/// What went wrong with a request, if no usable answer came.
pub open spec fn failure(ticket: TicketTree, outcome: Outcome) -> Option<ErrorView> {
    match outcome {
        Outcome::NotSent(e) => Some(e@),
        Outcome::Answered(ResponseType::Error(code, message)) => Some(
            requests::server_error(ticket, code@, message@),
        ),
        Outcome::Answered(_) => None,
        Outcome::Abandoned => Some(requests::abandoned(ticket)),
        Outcome::TimedOut => Some(requests::unanswered(ticket)),
    }
}

/// A client after a request was registered.
pub open spec fn registered(client: ClientTree, ticket: TicketTree) -> ClientTree {
    ClientTree {
        pending: PendingTree {
            requests: client.pending.requests.push(
                RequestTree {
                    id: ticket.id,
                    expected_type: ticket.expected_type,
                    channel_id: Some(ticket.channel),
                },
            ),
            last_id: ticket.id,
        },
        ..client
    }
}

/// A client after a request was settled: nothing of it is left waiting.
pub open spec fn settled(client: ClientTree, id: u64) -> ClientTree {
    ClientTree {
        pending: PendingTree {
            requests: requests::without_request(client.pending.requests, id),
            last_id: client.pending.last_id,
        },
        ..client
    }
}

impl DXLinkClient {
    /// Whether there is a live connection, or the error that there is none.
    pub fn get_connection(&self) -> (r: DXLinkResult<()>)
        ensures
            match r {
                Ok(_) => self@.connected,
                Err(e) => !self@.connected && e@ == not_connected(),
            },
    {
        if self.connected {
            Ok(())
        } else {
            Err(not_connected_error())
        }
    }

    /// The interval at which the maintenance of the live connection runs.
    pub fn start_keepalive(&self) -> (r: DXLinkResult<Duration>)
        ensures
            match r {
                Ok(interval) => self@.connected && reconnect::nanos_of(interval)
                    == reconnect::keepalive_secs(
                    self@.keepalive_timeout,
                    self@.server_keepalive_timeout,
                ) * reconnect::NANOS_PER_SEC,
                Err(e) => !self@.connected && e@ == ErrorView::Connection(
                    "Cannot start keepalive without a connection"@,
                ),
            },
    {
        if self.connected {
            Ok(self.keepalive_interval())
        } else {
            Err(
                DXLinkError::Connection("Cannot start keepalive without a connection".to_owned()),
            )
        }
    }

    /// The silence after which the reader of the live connection takes the
    /// server for gone.
    pub fn start_message_processing(&self) -> (r: DXLinkResult<Duration>)
        ensures
            match r {
                Ok(deadline) => self@.connected && reconnect::nanos_of(deadline)
                    == self@.keepalive_timeout * reconnect::NANOS_PER_SEC,
                Err(e) => !self@.connected && e@ == ErrorView::Connection(
                    "Cannot start message processing without a connection"@,
                ),
            },
    {
        if self.connected {
            Ok(seconds(self.keepalive_timeout as u64))
        } else {
            Err(
                DXLinkError::Connection(
                    "Cannot start message processing without a connection".to_owned(),
                ),
            )
        }
    }

    /// The channel that the next call of [`DXLinkClient::next_channel_id`]
    /// hands out.
    pub fn upcoming_channel(&self) -> (r: u32)
        ensures
            r == self@.next_channel_id,
    {
        self.next_channel_id
    }

    /// The identity of the last request.
    pub fn last_request(&self) -> (r: u64)
        ensures
            r == self@.pending.last_id,
    {
        self.pending.last_id()
    }

    /// Hands out a channel. Every channel is handed out once.
    pub fn next_channel_id(&mut self) -> (r: DXLinkResult<u32>)
        requires
            old(self)@.next_channel_id < u32::MAX,
        ensures
            r == Ok::<u32, DXLinkError>(old(self)@.next_channel_id),
            final(self)@ == (ClientTree {
                next_channel_id: (old(self)@.next_channel_id + 1) as u32,
                ..old(self)@
            }),
    {
        let channel: u32 = self.next_channel_id;
        self.next_channel_id = channel + 1;
        Ok(channel)
    }

    /// Whether a channel is open for a service, or the error that it is not.
    pub fn validate_channel(&self, channel_id: u32, expected_service: &str) -> (r: DXLinkResult<()>)
        ensures
            match r {
                Ok(_) => channel_error(self@.channels, channel_id, expected_service@) is None,
                Err(e) => channel_error(self@.channels, channel_id, expected_service@) == Some(e@),
            },
    {
        match at(&self.channels, channel_id) {
            None => Err(channel_not_found_error(channel_id)),
            Some(service) => {
                assert(self@.channels[channel_id] == service@);
                if same_text(service.as_str(), expected_service) {
                    Ok(())
                } else {
                    let mut message = "Channel ".to_owned();
                    message.append(decimal_text(channel_id as u64).as_str());
                    message.append(" is a ");
                    message.append(service.as_str());
                    message.append(" channel, not a ");
                    message.append(expected_service);
                    message.append(" channel");
                    Err(DXLinkError::Channel(message))
                }
            },
        }
    }

    /// Registers a request before it is sent: an answer that comes at once must
    /// find someone who waits.
    pub fn open_request(
        &mut self,
        operation: &'static str,
        expected_type: &'static str,
        channel: u32,
        wait_secs: u64,
    ) -> (r: DXLinkResult<Ticket>)
        requires
            old(self)@.pending.last_id < u64::MAX,
        ensures
            match r {
                Ok(ticket) => {
                    &&& old(self)@.connected
                    &&& ticket@ == (TicketTree {
                        id: (old(self)@.pending.last_id + 1) as u64,
                        operation: operation@,
                        expected_type: expected_type@,
                        channel,
                        wait_secs,
                    })
                    &&& final(self)@ == registered(old(self)@, ticket@)
                },
                Err(e) => !old(self)@.connected && e@ == not_connected() && final(self)@ == old(
                    self,
                )@,
            },
    {
        if !self.connected {
            return Err(not_connected_error());
        }
        let id: u64 = self.pending.register(expected_type, channel);
        Ok(Ticket { id, operation, expected_type, channel, wait_secs })
    }

    /// Ends a request, whatever came of it: its registration is gone, so that
    /// it can never take an answer that somebody else is owed.
    pub fn close_request(&mut self, ticket: &Ticket, outcome: Outcome) -> (r: DXLinkResult<
        ResponseType,
    >)
        ensures
            final(self)@ == settled(old(self)@, ticket.id),
            match failure(ticket@, outcome) {
                Some(e) => r is Err && r->Err_0@ == e,
                None => outcome is Answered && r == Ok::<ResponseType, DXLinkError>(
                    outcome->Answered_0,
                ),
            },
    {
        self.pending.forget(ticket.id);
        settle(ticket, outcome)
    }

    /// How many requests wait for an answer.
    pub fn pending_response_count(&self) -> (r: usize)
        ensures
            r == self@.pending.requests.len(),
    {
        self.pending.len()
    }
}

// ---------------------------------------------------------------------------
// Channels
// ---------------------------------------------------------------------------
/// Whether a message asks for a channel.
pub open spec fn asks_for_channel(
    message: ChannelRequestMessage,
    channel: u32,
    service: Seq<char>,
    contract: Seq<char>,
) -> bool {
    &&& message.channel == channel
    &&& message.message_type@ == "CHANNEL_REQUEST"@
    &&& message.service@ == service
    &&& message.parameters@.len() == 1
    &&& message.parameters@[0].0@ == "contract"@
    &&& message.parameters@[0].1@ == contract
}

/// The message that asks for a channel.
pub fn channel_request(channel: u32, service: &str, contract: &str) -> (r: ChannelRequestMessage)
    ensures
        asks_for_channel(r, channel, service@, contract@),
{
    let mut parameters: Vec<(String, String)> = Vec::new();
    parameters.push(("contract".to_owned(), contract.to_owned()));
    ChannelRequestMessage {
        channel,
        message_type: "CHANNEL_REQUEST".to_owned(),
        service: service.to_owned(),
        parameters,
    }
}

/// A client after a channel was opened.
pub open spec fn with_channel(client: ClientTree, channel: u32, contract: Seq<char>) -> ClientTree {
    ClientTree {
        channels: client.channels.insert(channel, "FEED"@),
        contracts: client.contracts.insert(channel, contract),
        ..client
    }
}

/// A client after a channel was closed: what is subscribed on it, its layout
/// and its contract are gone with it.
pub open spec fn without_channel(client: ClientTree, channel: u32) -> ClientTree {
    ClientTree {
        channels: client.channels.remove(channel),
        contracts: client.contracts.remove(channel),
        schemas: client.schemas.remove(channel),
        subscriptions: subscriptions::without_channel(client.subscriptions, channel),
        ..client
    }
}

/// What a channel that was asked for leads to, once the server answered.
pub open spec fn channel_answer(response: ResponseType, channel: u32) -> Option<ErrorView> {
    match response {
        ResponseType::ChannelOpened(opened) => if opened == channel {
            None
        } else {
            Some(
                ErrorView::Channel(
                    "Expected channel ID "@ + text::decimal(channel as int) + ", got "@
                        + text::decimal(opened as int),
                ),
            )
        },
        _ => Some(unexpected_response()),
    }
}

/// What a channel that was to be closed leads to, once the server answered.
pub open spec fn close_answer(response: ResponseType, channel: u32) -> Option<ErrorView> {
    match response {
        ResponseType::ChannelClosed(closed) => if closed == channel {
            None
        } else {
            Some(
                ErrorView::Channel(
                    "Expected CHANNEL_CLOSED for channel "@ + text::decimal(channel as int)
                        + ", got "@ + text::decimal(closed as int),
                ),
            )
        },
        _ => Some(unexpected_response()),
    }
}

impl DXLinkClient {
    /// Asks for a channel. The channel is used up even where the request
    /// cannot be made.
    pub fn create_feed_channel(&mut self, contract: &str) -> (r: DXLinkResult<
        (ChannelRequestMessage, Ticket),
    >)
        requires
            old(self)@.next_channel_id < u32::MAX,
            old(self)@.pending.last_id < u64::MAX,
        ensures
            ({
                let channel = old(self)@.next_channel_id;
                let used = ClientTree { next_channel_id: (channel + 1) as u32, ..old(self)@ };
                match r {
                    Ok((message, ticket)) => {
                        &&& old(self)@.connected
                        &&& asks_for_channel(message, channel, "FEED"@, contract@)
                        &&& ticket@ == (TicketTree {
                            id: (old(self)@.pending.last_id + 1) as u64,
                            operation: "create_feed_channel"@,
                            expected_type: "CHANNEL_OPENED"@,
                            channel,
                            wait_secs: REQUEST_WAIT_SECS,
                        })
                        &&& final(self)@ == registered(used, ticket@)
                    },
                    Err(e) => !old(self)@.connected && e@ == not_connected() && final(self)@
                        == used,
                }
            }),
    {
        let channel: u32 = self.next_channel_id;
        self.next_channel_id = channel + 1;
        let message = channel_request(channel, "FEED", contract);
        match self.open_request(
            "create_feed_channel",
            "CHANNEL_OPENED",
            channel,
            REQUEST_WAIT_SECS,
        ) {
            Ok(ticket) => Ok((message, ticket)),
            Err(e) => Err(e),
        }
    }

    /// Takes what came of a channel that was asked for. It is recorded only
    /// where the server opened it.
    pub fn feed_channel_created(&mut self, contract: &str, ticket: &Ticket, outcome: Outcome) -> (r:
        DXLinkResult<u32>)
        ensures
            ({
                let done = settled(old(self)@, ticket.id);
                match failure(ticket@, outcome) {
                    Some(e) => r is Err && r->Err_0@ == e && final(self)@ == done,
                    None => match channel_answer(outcome->Answered_0, ticket.channel) {
                        Some(e) => r is Err && r->Err_0@ == e && final(self)@ == done,
                        None => r == Ok::<u32, DXLinkError>(ticket.channel) && final(self)@
                            == with_channel(done, ticket.channel, contract@),
                    },
                }
            }),
    {
        let channel: u32 = ticket.channel;
        match self.close_request(ticket, outcome) {
            Err(e) => Err(e),
            Ok(ResponseType::ChannelOpened(opened)) => {
                if opened != channel {
                    return Err(mismatch_error("Expected channel ID ", channel, opened));
                }
                let ghost before = self@;
                put(&mut self.channels, channel, "FEED".to_owned());
                put(&mut self.channel_contracts, channel, contract.to_owned());
                assert(self@.channels =~= before.channels.insert(channel, "FEED"@));
                assert(self@.contracts =~= before.contracts.insert(channel, contract@));
                Ok(channel)
            },
            Ok(_) => Err(unexpected_response_error()),
        }
    }

    /// Asks the server to close a channel.
    pub fn close_channel(&mut self, channel_id: u32) -> (r: DXLinkResult<(BaseMessage, Ticket)>)
        requires
            old(self)@.pending.last_id < u64::MAX,
        ensures
            match r {
                Ok((message, ticket)) => {
                    &&& old(self)@.channels.contains_key(channel_id)
                    &&& old(self)@.connected
                    &&& message.channel == channel_id
                    &&& message.message_type@ == "CHANNEL_CANCEL"@
                    &&& ticket@ == (TicketTree {
                        id: (old(self)@.pending.last_id + 1) as u64,
                        operation: "close_channel"@,
                        expected_type: "CHANNEL_CLOSED"@,
                        channel: channel_id,
                        wait_secs: CLOSE_WAIT_SECS,
                    })
                    &&& final(self)@ == registered(old(self)@, ticket@)
                },
                Err(e) => {
                    &&& final(self)@ == old(self)@
                    &&& if !old(self)@.channels.contains_key(channel_id) {
                        e@ == channel_not_found(channel_id)
                    } else {
                        !old(self)@.connected && e@ == not_connected()
                    }
                },
            },
    {
        if at(&self.channels, channel_id).is_none() {
            return Err(channel_not_found_error(channel_id));
        }
        let message = BaseMessage {
            channel: channel_id,
            message_type: "CHANNEL_CANCEL".to_owned(),
        };
        match self.open_request("close_channel", "CHANNEL_CLOSED", channel_id, CLOSE_WAIT_SECS) {
            Ok(ticket) => Ok((message, ticket)),
            Err(e) => Err(e),
        }
    }

    /// Takes what came of a channel that was to be closed. It is forgotten
    /// only where the server closed it.
    pub fn channel_closed(&mut self, ticket: &Ticket, outcome: Outcome) -> (r: DXLinkResult<()>)
        ensures
            ({
                let done = settled(old(self)@, ticket.id);
                match failure(ticket@, outcome) {
                    Some(e) => r is Err && r->Err_0@ == e && final(self)@ == done,
                    None => match close_answer(outcome->Answered_0, ticket.channel) {
                        Some(e) => r is Err && r->Err_0@ == e && final(self)@ == done,
                        None => r is Ok && final(self)@ == without_channel(done, ticket.channel),
                    },
                }
            }),
    {
        let channel: u32 = ticket.channel;
        match self.close_request(ticket, outcome) {
            Err(e) => Err(e),
            Ok(ResponseType::ChannelClosed(closed)) => {
                if closed != channel {
                    return Err(
                        mismatch_error("Expected CHANNEL_CLOSED for channel ", channel, closed),
                    );
                }
                let ghost before = self@;
                drop_at(&mut self.channels, channel);
                drop_at(&mut self.channel_contracts, channel);
                drop_at(&mut self.channel_schemas, channel);
                self.subscriptions.forget_channel(channel);
                assert(self@.channels =~= before.channels.remove(channel));
                assert(self@.contracts =~= before.contracts.remove(channel));
                assert(self@.schemas =~= before.schemas.remove(channel));
                Ok(())
            },
            Ok(_) => Err(unexpected_response_error()),
        }
    }
}

// ---------------------------------------------------------------------------
// Feeds
// ---------------------------------------------------------------------------
/// Whether a message asks for a feed.
pub open spec fn asks_for_feed(
    message: FeedSetupMessage,
    channel: u32,
    event_types: Seq<EventType>,
) -> bool {
    &&& message.channel == channel
    &&& message.message_type@ == "FEED_SETUP"@
    &&& message.accept_aggregation_period@ == crate::json::NumberTree::Double("0.1"@)
    &&& message.accept_data_format@ == "COMPACT"@
    &&& message.accept_event_fields@ == schema::requested(event_types)
}

/// The message that asks for a feed.
pub fn feed_setup(channel: u32, event_types: &[EventType]) -> (r: FeedSetupMessage)
    ensures
        asks_for_feed(r, channel, event_types@),
{
    FeedSetupMessage {
        channel,
        message_type: "FEED_SETUP".to_owned(),
        accept_aggregation_period: JsonNumber::Double("0.1".to_owned()),
        accept_data_format: "COMPACT".to_owned(),
        accept_event_fields: requested_fields(event_types),
    }
}

/// Why a feed cannot be asked for on an open channel, if it cannot.
pub open spec fn feed_error(channel: u32, event_types: Seq<EventType>) -> Option<ErrorView> {
    if event_types.len() == 0 {
        Some(
            ErrorView::Protocol(
                "setup_feed on channel "@ + text::decimal(channel as int)
                    + " needs at least one event type; an empty configuration subscribes to nothing and can never deliver"@,
            ),
        )
    } else {
        undecodable_error(channel, event_types, 0)
    }
}

/// The error of the first type that cannot be decoded, from a position on.
pub open spec fn undecodable_error(channel: u32, event_types: Seq<EventType>, from: int) -> Option<
    ErrorView,
>
    decreases event_types.len() - from,
{
    if from >= event_types.len() {
        None
    } else if !events::is_decodable(event_types[from]) {
        Some(
            ErrorView::Protocol(
                "this client cannot decode "@ + events::wire_name(event_types[from])
                    + " events, so configuring channel "@ + text::decimal(channel as int)
                    + " for them would deliver nothing. Decoded types: "@
                    + schema::decodable_list(),
            ),
        )
    } else {
        undecodable_error(channel, event_types, from + 1)
    }
}

/// A client after the layout of a channel was dropped.
pub open spec fn without_schema(client: ClientTree, channel: u32) -> ClientTree {
    ClientTree { schemas: client.schemas.remove(channel), ..client }
}

/// A client after a channel was configured.
pub open spec fn with_schema(client: ClientTree, channel: u32, schema: SchemaTree) -> ClientTree {
    ClientTree { schemas: client.schemas.insert(channel, schema), ..client }
}

/// Whether a result is what a feed that was asked for leads to, once the
/// server answered.
pub open spec fn feed_answered(
    result: DXLinkResult<()>,
    after: ClientTree,
    before: ClientTree,
    channel: u32,
    event_types: Seq<EventType>,
    response: ResponseType,
) -> bool {
    match response {
        ResponseType::FeedConfig(config) => if config.channel != channel {
            &&& after == before
            &&& result is Err
            &&& result->Err_0@ == ErrorView::Channel(
                "Expected config for channel "@ + text::decimal(channel as int) + ", got "@
                    + text::decimal(config.channel as int),
            )
        } else if schema::is_agreeable(config, event_types) {
            &&& result is Ok
            &&& after == with_schema(before, channel, schema::agreed(config, event_types))
        } else {
            &&& after == before
            &&& result is Err
            &&& schema::refuses_config(result->Err_0@, config, channel, event_types)
        },
        _ => after == before && result is Err && result->Err_0@ == unexpected_response(),
    }
}

impl DXLinkClient {
    /// Asks for a feed on a channel.
    ///
    /// A type that cannot be decoded is refused rather than half configured:
    /// otherwise an empty stream would look exactly like a quiet market. The
    /// layout that the channel had goes before the request does, so that a
    /// configuration that fails never leaves the channel on an old one.
    pub fn setup_feed(&mut self, channel_id: u32, event_types: &[EventType]) -> (r: DXLinkResult<
        (FeedSetupMessage, Ticket),
    >)
        requires
            old(self)@.pending.last_id < u64::MAX,
        ensures
            match channel_error(old(self)@.channels, channel_id, "FEED"@) {
                Some(e) => r is Err && r->Err_0@ == e && final(self)@ == old(self)@,
                None => match feed_error(channel_id, event_types@) {
                    Some(e) => r is Err && r->Err_0@ == e && final(self)@ == old(self)@,
                    None => match r {
                        Ok((message, ticket)) => {
                            &&& old(self)@.connected
                            &&& asks_for_feed(message, channel_id, event_types@)
                            &&& ticket@ == (TicketTree {
                                id: (old(self)@.pending.last_id + 1) as u64,
                                operation: "setup_feed"@,
                                expected_type: "FEED_CONFIG"@,
                                channel: channel_id,
                                wait_secs: REQUEST_WAIT_SECS,
                            })
                            &&& final(self)@ == registered(
                                without_schema(old(self)@, channel_id),
                                ticket@,
                            )
                        },
                        Err(e) => !old(self)@.connected && e@ == not_connected() && final(self)@
                            == without_schema(old(self)@, channel_id),
                    },
                },
            },
    {
        match self.validate_channel(channel_id, "FEED") {
            Ok(_) => {},
            Err(e) => return Err(e),
        }
        if event_types.len() == 0 {
            let mut message = "setup_feed on channel ".to_owned();
            message.append(decimal_text(channel_id as u64).as_str());
            message.append(
                " needs at least one event type; an empty configuration subscribes to nothing and can never deliver",
            );
            return Err(DXLinkError::Protocol(message));
        }
        let mut i: usize = 0;
        while i < event_types.len()
            invariant
                i <= event_types@.len(),
                event_types@.len() > 0,
                self@ == old(self)@,
                channel_error(old(self)@.channels, channel_id, "FEED"@) is None,
                feed_error(channel_id, event_types@) == undecodable_error(
                    channel_id,
                    event_types@,
                    i as int,
                ),
            decreases event_types.len() - i,
        {
            if event_types[i].compact_fields().is_none() {
                let mut message = "this client cannot decode ".to_owned();
                message.append(event_types[i].name());
                message.append(" events, so configuring channel ");
                message.append(decimal_text(channel_id as u64).as_str());
                message.append(" for them would deliver nothing. Decoded types: ");
                message.append(decodable_type_names().as_str());
                return Err(DXLinkError::Protocol(message));
            }
            i += 1;
        }
        let message = feed_setup(channel_id, event_types);
        self.drop_schema(channel_id);
        match self.open_request("setup_feed", "FEED_CONFIG", channel_id, REQUEST_WAIT_SECS) {
            Ok(ticket) => Ok((message, ticket)),
            Err(e) => Err(e),
        }
    }

    /// Takes what came of a feed that was asked for. The channel is decoded
    /// against what the server settled on, where that can be decoded.
    pub fn feed_configured(&mut self, event_types: &[EventType], ticket: &Ticket, outcome: Outcome) -> (r:
        DXLinkResult<()>)
        ensures
            ({
                let done = settled(old(self)@, ticket.id);
                match failure(ticket@, outcome) {
                    Some(e) => r is Err && r->Err_0@ == e && final(self)@ == done,
                    None => feed_answered(
                        r,
                        final(self)@,
                        done,
                        ticket.channel,
                        event_types@,
                        outcome->Answered_0,
                    ),
                }
            }),
    {
        let channel: u32 = ticket.channel;
        match self.close_request(ticket, outcome) {
            Err(e) => Err(e),
            Ok(ResponseType::FeedConfig(config)) => {
                if config.channel != channel {
                    return Err(
                        mismatch_error("Expected config for channel ", channel, config.channel),
                    );
                }
                match negotiated_schema(&config, channel, event_types) {
                    Ok(schema) => {
                        self.keep_schema(channel, schema);
                        Ok(())
                    },
                    Err(e) => Err(e),
                }
            },
            Ok(_) => Err(unexpected_response_error()),
        }
    }

    /// Drops the layout of a channel: nothing on it is decoded any more.
    pub fn drop_schema(&mut self, channel_id: u32)
        ensures
            final(self)@ == without_schema(old(self)@, channel_id),
    {
        drop_at(&mut self.channel_schemas, channel_id);
        assert(self@.schemas =~= old(self)@.schemas.remove(channel_id));
    }

    /// Decodes a channel against a layout from here on.
    pub fn keep_schema(&mut self, channel_id: u32, schema: ChannelSchema)
        ensures
            final(self)@ == with_schema(old(self)@, channel_id, schema@),
    {
        let ghost kept = schema@;
        put(&mut self.channel_schemas, channel_id, schema);
        assert(self@.schemas =~= old(self)@.schemas.insert(channel_id, kept));
    }

    /// The layout that a channel is decoded against, if there is one.
    pub fn schema_of(&self, channel_id: u32) -> (r: Option<&ChannelSchema>)
        ensures
            match r {
                Some(schema) => self@.schemas.contains_key(channel_id) && self@.schemas[channel_id]
                    == schema@,
                None => !self@.schemas.contains_key(channel_id),
            },
    {
        match at(&self.channel_schemas, channel_id) {
            Some(schema) => {
                assert(self@.schemas[channel_id] == schema@);
                Some(schema)
            },
            None => None,
        }
    }

    /// Takes on the layout that the server reports by itself.
    pub fn reconfigured(&mut self, channel_id: u32, config: &FeedConfigMessage)
        ensures
            final(self)@ == (ClientTree {
                schemas: schema::after_config(old(self)@.schemas, channel_id, *config),
                ..old(self)@
            }),
    {
        adopt_config(&mut self.channel_schemas, channel_id, config);
    }
}

// ---------------------------------------------------------------------------
// Subscriptions
// ---------------------------------------------------------------------------
/// What a change does to the subscriptions of a channel.
#[derive(Debug, Clone, Copy, PartialEq, Eq, Structural)]
pub enum ChangeKind {
    /// Subscriptions are added.
    Add,
    /// Subscriptions are removed.
    Remove,
    /// Every subscription of the channel is removed.
    Reset,
}

/// A change of the subscriptions of a channel that may be sent.
#[derive(Debug)]
pub struct SubscriptionChange {
    /// The channel.
    pub channel: u32,
    /// What happens to the subscriptions.
    pub kind: ChangeKind,
    /// The subscriptions.
    pub subscriptions: Vec<FeedSubscription>,
    /// The types of the subscriptions.
    pub types: Vec<EventType>,
}

/// The live subscriptions after some more, the last of them last.
pub open spec fn all_inserted(
    entries: Seq<TrackedTree>,
    channel: u32,
    types: Seq<EventType>,
    list: Seq<messages::SubscriptionTree>,
) -> Seq<TrackedTree>
    decreases list.len(),
{
    if list.len() == 0 {
        entries
    } else {
        subscriptions::inserted(
            all_inserted(entries, channel, types.drop_last(), list.drop_last()),
            channel,
            types.last(),
            list.last(),
        )
    }
}

/// The live subscriptions without some of them.
pub open spec fn all_removed(
    entries: Seq<TrackedTree>,
    channel: u32,
    types: Seq<EventType>,
    list: Seq<messages::SubscriptionTree>,
) -> Seq<TrackedTree>
    decreases list.len(),
{
    if list.len() == 0 {
        entries
    } else {
        subscriptions::without(
            all_removed(entries, channel, types.drop_last(), list.drop_last()),
            channel,
            types.last(),
            list.last(),
        )
    }
}

impl SubscriptionChange {
    /// Whether every subscription has a type.
    pub open spec fn is_typed(self) -> bool {
        self.types@.len() == self.subscriptions@.len()
    }

    /// The live subscriptions after the change.
    pub open spec fn applied(self, entries: Seq<TrackedTree>) -> Seq<TrackedTree> {
        let list = messages::subscription_trees(self.subscriptions@);
        match self.kind {
            ChangeKind::Add => all_inserted(entries, self.channel, self.types@, list),
            ChangeKind::Remove => all_removed(entries, self.channel, self.types@, list),
            ChangeKind::Reset => subscriptions::without_channel(entries, self.channel),
        }
    }

    /// The message that makes the change.
    pub fn message(&self) -> (r: FeedSubscriptionMessage)
        ensures
            r.channel == self.channel,
            r.message_type@ == "FEED_SUBSCRIPTION"@,
            match self.kind {
                ChangeKind::Add => {
                    &&& r.add is Some
                    &&& messages::subscription_trees(r.add->0@) == messages::subscription_trees(
                        self.subscriptions@,
                    )
                    &&& r.remove is None
                    &&& r.reset is None
                },
                ChangeKind::Remove => {
                    &&& r.remove is Some
                    &&& messages::subscription_trees(r.remove->0@)
                        == messages::subscription_trees(self.subscriptions@)
                    &&& r.add is None
                    &&& r.reset is None
                },
                ChangeKind::Reset => r.add is None && r.remove is None && r.reset == Some(true),
            },
    {
        let mut message = FeedSubscriptionMessage {
            channel: self.channel,
            message_type: "FEED_SUBSCRIPTION".to_owned(),
            add: None,
            remove: None,
            reset: None,
        };
        match self.kind {
            ChangeKind::Add => {
                message.add = Some(copy_subscriptions(&self.subscriptions));
            },
            ChangeKind::Remove => {
                message.remove = Some(copy_subscriptions(&self.subscriptions));
            },
            ChangeKind::Reset => {
                message.reset = Some(true);
            },
        }
        message
    }
}

/// Whether an error is why some subscriptions may not be sent: it refuses the
/// first one that may not.
pub open spec fn refuses_some(
    error: ErrorView,
    list: Seq<FeedSubscription>,
    channel: u32,
    configured: SchemaTree,
) -> bool {
    exists|i: int|
        {
            &&& 0 <= i < list.len()
            &&& !schema::is_accepted((#[trigger] list[i])@, configured)
            &&& forall|j: int| 0 <= j < i ==> schema::is_accepted((#[trigger] list[j])@, configured)
            &&& error is Protocol
            &&& schema::refuses(error->Protocol_0, list[i]@, channel, configured)
        }
}

/// Whether all of some subscriptions may be sent.
pub open spec fn accepts_all(list: Seq<FeedSubscription>, configured: SchemaTree) -> bool {
    forall|i: int| 0 <= i < list.len() ==> schema::is_accepted((#[trigger] list[i])@, configured)
}

/// Whether types are those of some subscriptions.
pub open spec fn are_types_of(types: Seq<EventType>, list: Seq<FeedSubscription>) -> bool {
    &&& types.len() == list.len()
    &&& forall|i: int|
        0 <= i < list.len() ==> events::named((#[trigger] list[i]).event_type@) == Some(types[i])
}

/// Whether a result is what to subscribe or to unsubscribe gives, before
/// anything is sent.
pub open spec fn prepares(
    result: DXLinkResult<SubscriptionChange>,
    client: ClientTree,
    channel: u32,
    list: Seq<FeedSubscription>,
    kind: ChangeKind,
) -> bool {
    match channel_error(client.channels, channel, "FEED"@) {
        Some(e) => result is Err && result->Err_0@ == e,
        None => if !client.schemas.contains_key(channel) {
            result is Err && result->Err_0@ == not_configured(channel)
        } else if !accepts_all(list, client.schemas[channel]) {
            result is Err && refuses_some(
                result->Err_0@,
                list,
                channel,
                client.schemas[channel],
            )
        } else if !client.connected {
            result is Err && result->Err_0@ == not_connected()
        } else {
            &&& result is Ok
            &&& result->Ok_0.channel == channel
            &&& result->Ok_0.kind == kind
            &&& result->Ok_0.subscriptions@ == list
            &&& are_types_of(result->Ok_0.types@, list)
        },
    }
}

impl DXLinkClient {
    fn prepare(&self, channel_id: u32, list: Vec<FeedSubscription>, kind: ChangeKind) -> (r:
        DXLinkResult<SubscriptionChange>)
        ensures
            prepares(r, self@, channel_id, list@, kind),
    {
        match self.validate_channel(channel_id, "FEED") {
            Ok(_) => {},
            Err(e) => return Err(e),
        }
        let configured = match self.schema_of(channel_id) {
            Some(configured) => configured,
            None => {
                let mut message = "channel ".to_owned();
                message.append(decimal_text(channel_id as u64).as_str());
                message.append(" has no validated feed configuration; call setup_feed first");
                return Err(DXLinkError::Channel(message));
            },
        };
        let types = match parse_subscription_types(&list, channel_id, configured) {
            Ok(types) => types,
            Err(e) => return Err(e),
        };
        match self.get_connection() {
            Ok(_) => {},
            Err(e) => return Err(e),
        }
        Ok(SubscriptionChange { channel: channel_id, kind, subscriptions: list, types })
    }

    /// What to send in order to subscribe. Nothing is recorded yet.
    pub fn subscribe(&self, channel_id: u32, subscriptions: Vec<FeedSubscription>) -> (r:
        DXLinkResult<SubscriptionChange>)
        ensures
            prepares(r, self@, channel_id, subscriptions@, ChangeKind::Add),
    {
        self.prepare(channel_id, subscriptions, ChangeKind::Add)
    }

    /// What to send in order to unsubscribe. Nothing is recorded yet.
    pub fn unsubscribe(&self, channel_id: u32, subscriptions: Vec<FeedSubscription>) -> (r:
        DXLinkResult<SubscriptionChange>)
        ensures
            prepares(r, self@, channel_id, subscriptions@, ChangeKind::Remove),
    {
        self.prepare(channel_id, subscriptions, ChangeKind::Remove)
    }

    /// What to send in order to remove every subscription of a channel.
    /// Nothing is recorded yet.
    pub fn reset_subscriptions(&self, channel_id: u32) -> (r: DXLinkResult<SubscriptionChange>)
        ensures
            match channel_error(self@.channels, channel_id, "FEED"@) {
                Some(e) => r is Err && r->Err_0@ == e,
                None => if !self@.connected {
                    r is Err && r->Err_0@ == not_connected()
                } else {
                    r is Ok && r->Ok_0.channel == channel_id && r->Ok_0.kind == ChangeKind::Reset
                        && r->Ok_0.subscriptions@.len() == 0 && r->Ok_0.types@.len() == 0
                },
            },
    {
        match self.validate_channel(channel_id, "FEED") {
            Ok(_) => {},
            Err(e) => return Err(e),
        }
        match self.get_connection() {
            Ok(_) => {},
            Err(e) => return Err(e),
        }
        Ok(
            SubscriptionChange {
                channel: channel_id,
                kind: ChangeKind::Reset,
                subscriptions: Vec::new(),
                types: Vec::new(),
            },
        )
    }

    /// Takes what came of sending a change. It is recorded only where it went
    /// out: a client must not believe in what the server never received.
    pub fn subscriptions_sent(&mut self, change: SubscriptionChange, sent: DXLinkResult<()>) -> (r:
        DXLinkResult<()>)
        requires
            change.is_typed(),
        ensures
            r is Ok == sent is Ok,
            sent matches Err(e) ==> r == Err::<(), DXLinkError>(e),
            sent is Err ==> final(self)@ == old(self)@,
            sent is Ok ==> final(self)@ == (ClientTree {
                subscriptions: change.applied(old(self)@.subscriptions),
                ..old(self)@
            }),
    {
        match sent {
            Err(e) => return Err(e),
            Ok(_) => {},
        }
        let ghost before = self@;
        match change.kind {
            ChangeKind::Reset => {
                self.subscriptions.forget_channel(change.channel);
            },
            ChangeKind::Add => {
                let ghost list = messages::subscription_trees(change.subscriptions@);
                let ghost types = change.types@;
                let mut i: usize = 0;
                while i < change.subscriptions.len()
                    invariant
                        change.is_typed(),
                        i <= change.subscriptions@.len(),
                        list == messages::subscription_trees(change.subscriptions@),
                        types == change.types@,
                        self@ == (ClientTree {
                            subscriptions: all_inserted(
                                before.subscriptions,
                                change.channel,
                                types.take(i as int),
                                list.take(i as int),
                            ),
                            ..before
                        }),
                    decreases change.subscriptions.len() - i,
                {
                    proof {
                        assert(list.take(i + 1).drop_last() =~= list.take(i as int));
                        assert(types.take(i + 1).drop_last() =~= types.take(i as int));
                        assert(list.take(i + 1).last() == change.subscriptions@[i as int]@);
                        assert(types.take(i + 1).last() == types[i as int]);
                    }
                    self.subscriptions.insert(
                        change.channel,
                        change.types[i],
                        change.subscriptions[i].copied(),
                    );
                    i += 1;
                }
                assert(list.take(list.len() as int) =~= list);
                assert(types.take(types.len() as int) =~= types);
            },
            ChangeKind::Remove => {
                let ghost list = messages::subscription_trees(change.subscriptions@);
                let ghost types = change.types@;
                let mut i: usize = 0;
                while i < change.subscriptions.len()
                    invariant
                        change.is_typed(),
                        i <= change.subscriptions@.len(),
                        list == messages::subscription_trees(change.subscriptions@),
                        types == change.types@,
                        self@ == (ClientTree {
                            subscriptions: all_removed(
                                before.subscriptions,
                                change.channel,
                                types.take(i as int),
                                list.take(i as int),
                            ),
                            ..before
                        }),
                    decreases change.subscriptions.len() - i,
                {
                    proof {
                        assert(list.take(i + 1).drop_last() =~= list.take(i as int));
                        assert(types.take(i + 1).drop_last() =~= types.take(i as int));
                        assert(list.take(i + 1).last() == change.subscriptions@[i as int]@);
                        assert(types.take(i + 1).last() == types[i as int]);
                    }
                    self.subscriptions.remove(
                        change.channel,
                        change.types[i],
                        &change.subscriptions[i],
                    );
                    i += 1;
                }
                assert(list.take(list.len() as int) =~= list);
                assert(types.take(types.len() as int) =~= types);
            },
        }
        Ok(())
    }

    /// The live subscriptions of a channel, in the order in which they were
    /// asked for.
    pub fn subscriptions(&self, channel_id: u32) -> (r: Vec<FeedSubscription>)
        ensures
            messages::subscription_trees(r@) == subscriptions::asked_on(
                self@.subscriptions,
                channel_id,
            ),
    {
        self.subscriptions.of_channel(channel_id)
    }

    /// The channels with a live subscription, lowest first.
    pub fn subscribed_channels(&self) -> (r: Vec<u32>)
        ensures
            forall|i: int, j: int| 0 <= i < j < r@.len() ==> r@[i] < r@[j],
            forall|channel: u32| #[trigger]
                r@.contains(channel) <==> subscriptions::is_subscribed(
                    self@.subscriptions,
                    channel,
                ),
            subscriptions::count_on(r@, self@.subscriptions) == self@.subscriptions.len(),
    {
        self.subscriptions.channels()
    }
}

// ---------------------------------------------------------------------------
// The life of a session
// ---------------------------------------------------------------------------
/// A client after everything that describes a session is gone.
pub open spec fn without_session(client: ClientTree) -> ClientTree {
    ClientTree {
        channels: Map::empty(),
        contracts: Map::empty(),
        schemas: Map::empty(),
        subscriptions: Seq::empty(),
        pending: PendingTree { requests: Seq::empty(), last_id: client.pending.last_id },
        event_stream_taken: false,
        ..client
    }
}

/// A client after it was disconnected. A disconnect that was asked for has no
/// reason to report.
pub open spec fn after_disconnect(client: ClientTree) -> ClientTree {
    ClientTree {
        connected: false,
        server_keepalive_timeout: None,
        state_stream: None,
        disconnect_reason: None,
        ..without_session(client)
    }
}

/// A client that is about to establish a session.
pub open spec fn before_connect(client: ClientTree) -> ClientTree {
    ClientTree { disconnect_reason: None, ..client }
}

/// A client after a session was established.
pub open spec fn after_connect(client: ClientTree, negotiated: Option<u32>) -> ClientTree {
    let established = ClientTree {
        connected: true,
        server_keepalive_timeout: negotiated,
        event_stream_taken: true,
        ..client
    };
    if client.reconnect is Some {
        with_states(established)
    } else {
        established
    }
}

/// One channel as a new session has to open it.
#[derive(Debug)]
pub struct KnownChannel {
    /// The channel.
    pub channel: u32,
    /// Its service.
    pub service: String,
    /// Its contract.
    pub contract: String,
}

/// What one channel is that a new session has to open.
#[verifier::ext_equal]
pub struct KnownTree {
    pub channel: u32,
    pub service: Seq<char>,
    pub contract: Seq<char>,
}

impl View for KnownChannel {
    type V = KnownTree;

    open spec fn view(&self) -> KnownTree {
        KnownTree { channel: self.channel, service: self.service@, contract: self.contract@ }
    }
}

/// What a channel is that a new session has to open. A channel without a
/// contract of its own gets the default one.
pub open spec fn known_channel(client: ClientTree, channel: u32) -> KnownTree {
    KnownTree {
        channel,
        service: client.channels[channel],
        contract: if client.contracts.contains_key(channel) {
            client.contracts[channel]
        } else {
            "AUTO"@
        },
    }
}

/// Whether a list is the channels that a new session has to open, lowest
/// first.
pub open spec fn lists_known(list: Seq<KnownTree>, client: ClientTree) -> bool {
    &&& channels::lists_channels(
        list.map_values(|k: KnownTree| k.channel),
        client.channels.dom(),
    )
    &&& forall|i: int|
        0 <= i < list.len() ==> #[trigger] list[i] == known_channel(client, list[i].channel)
}

/// The known channels of a list.
pub open spec fn known_trees(list: Seq<KnownChannel>) -> Seq<KnownTree> {
    list.map_values(|k: KnownChannel| k@)
}

/// The layouts of every channel, put aside.
#[derive(Debug)]
pub struct SchemaSnapshot {
    schemas: BTreeMap<u32, ChannelSchema>,
}

impl View for SchemaSnapshot {
    type V = Map<u32, SchemaTree>;

    closed spec fn view(&self) -> Map<u32, SchemaTree> {
        schema::schema_trees(self.schemas@)
    }
}

impl DXLinkClient {
    /// Starts a session: a reason from an earlier one would make a healthy
    /// connection look dead.
    pub fn begin_connect(&mut self)
        ensures
            final(self)@ == before_connect(old(self)@),
    {
        self.disconnect_reason = None;
    }

    /// Hands out the stream of events, which there is once per session. What
    /// is handed out is how many events it holds.
    pub fn event_stream(&mut self) -> (r: DXLinkResult<usize>)
        ensures
            final(self)@ == (ClientTree { event_stream_taken: true, ..old(self)@ }),
            match r {
                Ok(capacity) => !old(self)@.event_stream_taken && capacity == old(
                    self,
                )@.event_buffer,
                Err(e) => old(self)@.event_stream_taken && e@ == ErrorView::Protocol(
                    "Event stream already created"@,
                ),
            },
    {
        if self.event_stream_taken {
            return Err(DXLinkError::Protocol("Event stream already created".to_owned()));
        }
        self.event_stream_taken = true;
        Ok(self.event_buffer)
    }

    /// Takes a session that was established. The session stands even where its
    /// stream of events had been handed out before.
    pub fn finish_connect(&mut self, negotiated: Option<u32>) -> (r: DXLinkResult<usize>)
        requires
            old(self)@.streams_opened < u64::MAX,
        ensures
            final(self)@ == after_connect(old(self)@, negotiated),
            match r {
                Ok(capacity) => !old(self)@.event_stream_taken && capacity == old(
                    self,
                )@.event_buffer,
                Err(e) => old(self)@.event_stream_taken && e@ == ErrorView::Protocol(
                    "Event stream already created"@,
                ),
            },
    {
        self.server_keepalive_timeout = negotiated;
        self.connected = true;
        if self.reconnect.is_some() {
            self.open_states();
        }
        self.event_stream()
    }

    /// Records why the session ended. The first failure is the cause, and what
    /// follows is its consequence, so the first reason stays.
    pub fn record_reason(&mut self, error: &DXLinkError)
        ensures
            old(self)@.disconnect_reason is Some ==> final(self)@ == old(self)@,
            old(self)@.disconnect_reason is None ==> final(self)@.disconnect_reason is Some
                && error::reads_as(final(self)@.disconnect_reason->0, error@) && final(self)@ == (
            ClientTree { disconnect_reason: final(self)@.disconnect_reason, ..old(self)@ }),
    {
        if self.disconnect_reason.is_none() {
            self.disconnect_reason = Some(error.to_string());
        }
    }

    /// Why the session ended, if it has ended; nothing after a disconnect that
    /// was asked for.
    pub fn disconnect_reason(&self) -> (r: Option<String>)
        ensures
            messages::optional_text(r) == self@.disconnect_reason,
    {
        copy_optional(&self.disconnect_reason)
    }

    /// Wakes everyone who waits: the session that would have answered is gone.
    pub fn drop_pending(&mut self)
        ensures
            final(self)@ == (ClientTree {
                pending: PendingTree {
                    requests: Seq::empty(),
                    last_id: old(self)@.pending.last_id,
                },
                ..old(self)@
            }),
    {
        self.pending.clear();
    }

    /// Takes out the first request that a message answers.
    pub fn take_answered(&mut self, message_type: &str, channel: Option<u32>) -> (r: Option<
        ResponseRequest,
    >)
        ensures
            match requests::answered(old(self)@.pending.requests, message_type@, channel) {
                Some(i) => {
                    &&& r is Some
                    &&& r->0@ == old(self)@.pending.requests[i]
                    &&& final(self)@ == (ClientTree {
                        pending: PendingTree {
                            requests: old(self)@.pending.requests.remove(i),
                            last_id: old(self)@.pending.last_id,
                        },
                        ..old(self)@
                    })
                },
                None => r is None && final(self)@ == old(self)@,
            },
    {
        self.pending.take_answered(message_type, channel)
    }

    /// Marks a new connection as live, or the connection as gone.
    pub fn set_connected(&mut self, connected: bool)
        ensures
            final(self)@ == (ClientTree { connected, ..old(self)@ }),
    {
        self.connected = connected;
    }

    /// The channels that a new session has to open, lowest first.
    pub fn known_channels(&self) -> (r: Vec<KnownChannel>)
        ensures
            lists_known(known_trees(r@), self@),
    {
        let list = ids(&self.channels);
        let mut out: Vec<KnownChannel> = Vec::new();
        let mut i: usize = 0;
        assert(self.channels@.dom() =~= self@.channels.dom());
        while i < list.len()
            invariant
                i <= list@.len(),
                out@.len() == i,
                channels::lists_channels(list@, self@.channels.dom()),
                self.channels@.dom() == self@.channels.dom(),
                forall|j: int|
                    0 <= j < i ==> (#[trigger] out@[j])@ == known_channel(self@, list@[j]),
            decreases list.len() - i,
        {
            let channel: u32 = list[i];
            assert(list@.contains(channel));
            let service = match at(&self.channels, channel) {
                Some(service) => service.as_str().to_owned(),
                None => String::new(),
            };
            let contract = match at(&self.channel_contracts, channel) {
                Some(contract) => contract.as_str().to_owned(),
                None => "AUTO".to_owned(),
            };
            out.push(KnownChannel { channel, service, contract });
            assert(out@[i as int]@ =~= known_channel(self@, channel));
            i += 1;
        }
        proof {
            let known = known_trees(out@);
            assert forall|j: int| 0 <= j < known.len() implies #[trigger] known[j] == known_channel(
                self@,
                known[j].channel,
            ) by {
                assert(known[j] == out@[j]@);
            }
            assert(known.map_values(|k: KnownTree| k.channel) =~= list@);
        }
        out
    }

    /// Puts the layouts of every channel aside.
    pub fn snapshot_schemas(&self) -> (r: SchemaSnapshot)
        ensures
            r@ == self@.schemas,
    {
        let list = ids(&self.channel_schemas);
        let mut schemas: BTreeMap<u32, ChannelSchema> = BTreeMap::new();
        let mut i: usize = 0;
        let ghost all = self.channel_schemas@;
        while i < list.len()
            invariant
                i <= list@.len(),
                all == self.channel_schemas@,
                channels::lists_channels(list@, all.dom()),
                forall|channel: u32| #[trigger]
                    schemas@.contains_key(channel) <==> list@.take(i as int).contains(channel),
                forall|channel: u32| #[trigger]
                    schemas@.contains_key(channel) ==> all.contains_key(channel)
                        && schemas@[channel]@ == all[channel]@,
            decreases list.len() - i,
        {
            let channel: u32 = list[i];
            let ghost before = schemas@;
            assert(list@.contains(channel));
            match at(&self.channel_schemas, channel) {
                Some(schema) => put(&mut schemas, channel, schema.copied()),
                None => {},
            }
            proof {
                let taken = list@.take(i as int);
                let more = list@.take(i + 1);
                assert(more =~= taken.push(channel));
                assert forall|other: u32| #[trigger] schemas@.contains_key(other) <==> more.contains(
                    other,
                ) by {
                    assert(more[i as int] == channel);
                    if more.contains(other) && other != channel {
                        let k = choose|k: int| 0 <= k < more.len() && more[k] == other;
                        assert(taken[k] == other);
                        assert(before.contains_key(other));
                    }
                    if before.contains_key(other) {
                        let k = choose|k: int| 0 <= k < taken.len() && taken[k] == other;
                        assert(more[k] == other);
                    }
                }
            }
            i += 1;
        }
        let r = SchemaSnapshot { schemas };
        proof {
            assert(list@.take(list@.len() as int) =~= list@);
            assert forall|channel: u32| r@.contains_key(channel) <==> self@.schemas.contains_key(
                channel,
            ) by {
                assert(list@.contains(channel) <==> all.dom().contains(channel));
            }
            assert(r@ =~= self@.schemas);
        }
        r
    }

    /// Puts the layouts of every channel back.
    pub fn restore_schemas(&mut self, snapshot: SchemaSnapshot)
        ensures
            final(self)@ == (ClientTree { schemas: snapshot@, ..old(self)@ }),
    {
        self.channel_schemas = snapshot.schemas;
    }

    /// The channels to close before the connection is given up, lowest first.
    /// Without a connection there is nobody to close them with.
    pub fn channels_to_close(&self) -> (r: Vec<u32>)
        ensures
            self@.connected ==> channels::lists_channels(r@, self@.channels.dom()),
            !self@.connected ==> r@.len() == 0,
    {
        if !self.connected {
            return Vec::new();
        }
        assert(self.channels@.dom() =~= self@.channels.dom());
        ids(&self.channels)
    }

    /// Ends the stream of connection states.
    pub fn close_states(&mut self)
        ensures
            final(self)@ == (ClientTree { state_stream: None, ..old(self)@ }),
    {
        self.state_stream = None;
    }

    /// Drops everything that describes a session.
    pub fn clear_session_state(&mut self)
        ensures
            final(self)@ == without_session(old(self)@),
    {
        self.channels = BTreeMap::new();
        self.channel_contracts = BTreeMap::new();
        self.channel_schemas = BTreeMap::new();
        self.event_stream_taken = false;
        self.subscriptions.clear();
        self.pending.clear();
        assert(self@.channels =~= Map::<u32, Seq<char>>::empty());
        assert(self@.contracts =~= Map::<u32, Seq<char>>::empty());
        assert(self@.schemas =~= Map::<u32, SchemaTree>::empty());
    }

    /// Takes the end of the session: the connection is gone, and everything
    /// that described it. There is no reason to report, because the end was
    /// asked for.
    pub fn finish_disconnect(&mut self)
        ensures
            final(self)@ == after_disconnect(old(self)@),
    {
        self.connected = false;
        self.server_keepalive_timeout = None;
        self.state_stream = None;
        self.disconnect_reason = None;
        self.clear_session_state();
    }

    /// Counts an event that was dropped. What is answered is whether the count
    /// is worth a warning.
    pub fn count_dropped(&mut self) -> (r: bool)
        requires
            old(self)@.dropped_events < u64::MAX,
        ensures
            final(self)@ == (ClientTree {
                dropped_events: (old(self)@.dropped_events + 1) as u64,
                ..old(self)@
            }),
            r == crate::delivery::is_power_of_two(old(self)@.dropped_events + 1),
    {
        self.dropped_events = self.dropped_events + 1;
        crate::delivery::power_of_two(self.dropped_events)
    }

    /// How many events were dropped since the client was made.
    pub fn dropped_event_count(&self) -> (r: u64)
        ensures
            r == self@.dropped_events,
    {
        self.dropped_events
    }
}

// ---------------------------------------------------------------------------
// What a client says of itself
// ---------------------------------------------------------------------------
/// What may be told of a client: of the credential, only whether there is one.
#[derive(Debug)]
pub struct ClientSummary {
    /// The address of the server.
    pub url: String,
    /// Whether there is a credential.
    pub has_token: bool,
    /// Whether there is a live connection.
    pub connected: bool,
    /// The silence, in seconds, that the client advertises.
    pub keepalive_timeout: u32,
    /// How many channels are open.
    pub channel_count: usize,
    /// How many subscriptions are live.
    pub subscription_count: usize,
    /// How many requests wait for an answer.
    pub pending_responses: usize,
}

/// Which of its two tasks a client runs.
pub open spec fn tasks_text(reader: bool, keepalive: bool) -> Seq<char> {
    if reader && keepalive {
        "All tasks running"@
    } else if reader {
        "Message handler only"@
    } else if keepalive {
        "Keepalive only"@
    } else {
        "No tasks running"@
    }
}

/// How a client reads.
pub open spec fn client_text(client: ClientTree, reader: bool, keepalive: bool) -> Seq<char> {
    "DXLink Client ["@ + (if client.connected {
        "Connected"@
    } else {
        "Disconnected"@
    }) + "] to "@ + client.url + " | Channels: "@ + text::decimal(client.channels.len() as int)
        + ", Subscriptions: "@ + text::decimal(client.subscriptions.len() as int) + " | "@
        + tasks_text(reader, keepalive)
}

impl DXLinkClient {
    fn channel_count(&self) -> (r: usize)
        ensures
            r == self@.channels.len(),
    {
        let list = ids(&self.channels);
        proof {
            list@.unique_seq_to_set();
            assert(list@.to_set() =~= self@.channels.dom());
        }
        list.len()
    }

    /// What may be told of the client.
    pub fn summary(&self) -> (r: ClientSummary)
        ensures
            r.url@ == self@.url,
            r.has_token == (self@.token.len() > 0),
            r.connected == self@.connected,
            r.keepalive_timeout == self@.keepalive_timeout,
            r.channel_count == self@.channels.len(),
            r.subscription_count == self@.subscriptions.len(),
            r.pending_responses == self@.pending.requests.len(),
    {
        ClientSummary {
            url: self.url.as_str().to_owned(),
            has_token: !self.token.as_str().is_empty(),
            connected: self.connected,
            keepalive_timeout: self.keepalive_timeout,
            channel_count: self.channel_count(),
            subscription_count: self.subscriptions.len(),
            pending_responses: self.pending.len(),
        }
    }

    /// How the client reads, with the tasks that run for it.
    pub fn to_string(&self, reader_running: bool, keepalive_running: bool) -> (r: String)
        ensures
            r@ == client_text(self@, reader_running, keepalive_running),
    {
        let mut out = "DXLink Client [".to_owned();
        if self.connected {
            out.append("Connected");
        } else {
            out.append("Disconnected");
        }
        out.append("] to ");
        out.append(self.url.as_str());
        out.append(" | Channels: ");
        out.append(decimal_text(self.channel_count() as u64).as_str());
        out.append(", Subscriptions: ");
        out.append(decimal_text(self.subscriptions.len() as u64).as_str());
        out.append(" | ");
        if reader_running && keepalive_running {
            out.append("All tasks running");
        } else if reader_running {
            out.append("Message handler only");
        } else if keepalive_running {
            out.append("Keepalive only");
        } else {
            out.append("No tasks running");
        }
        out
    }
}

// ---------------------------------------------------------------------------
// What every operation keeps
// ---------------------------------------------------------------------------
/// Whether what a client holds fits together.
pub open spec fn is_consistent(client: ClientTree) -> bool {
    &&& client.next_channel_id >= 1
    &&& forall|channel: u32| #[trigger]
        client.channels.contains_key(channel) ==> MAIN_CHANNEL < channel < client.next_channel_id
    &&& client.contracts.dom() == client.channels.dom()
    &&& forall|channel: u32| #[trigger]
        client.schemas.contains_key(channel) ==> schema::is_usable(client.schemas[channel])
    &&& subscriptions::has_distinct_identities(client.subscriptions)
    &&& requests::has_distinct_ids(client.pending)
    &&& client.state_stream matches Some(number) ==> 1 <= number <= client.streams_opened
}

/// Whoever subscribed to the connection states before the first session hears
/// of every session: the stream that a policy opens is the one that is in use
/// after connecting, and neither another policy nor what a session is made of
/// puts another one in its place.
pub proof fn a_state_stream_outlives_connecting(
    client: ClientTree,
    policy: ReconnectPolicy,
    negotiated: Option<u32>,
    connected: bool,
    ticket: TicketTree,
    channel: u32,
    schema: SchemaTree,
)
    ensures
        ({
            let subscribed = with_states(ClientTree { reconnect: Some(policy), ..client });
            let begun = before_connect(subscribed);
            let started = after_connect(begun, negotiated);
            &&& subscribed.state_stream is Some
            &&& client.state_stream is Some ==> subscribed.state_stream == client.state_stream
            &&& begun.state_stream == subscribed.state_stream
            &&& started.state_stream == subscribed.state_stream
            &&& started.streams_opened == subscribed.streams_opened
            &&& started.reconnect == Some(policy)
        }),
        before_connect(client).state_stream == client.state_stream,
        client.state_stream is Some ==> after_connect(client, negotiated).state_stream
            == client.state_stream,
        (ClientTree { connected, ..client }).state_stream == client.state_stream,
        registered(client, ticket).state_stream == client.state_stream,
        settled(client, ticket.id).state_stream == client.state_stream,
        with_schema(client, channel, schema).state_stream == client.state_stream,
        without_schema(client, channel).state_stream == client.state_stream,
{
}

/// A stream of connection states ends with the disconnect, and one that is
/// opened later is another one: its number was never given before.
pub proof fn a_later_state_stream_is_another_one(
    client: ClientTree,
    earlier: u64,
    negotiated: Option<u32>,
)
    requires
        earlier <= client.streams_opened < u64::MAX,
    ensures
        after_disconnect(client).state_stream is None,
        ({
            let started = after_connect(before_connect(after_disconnect(client)), negotiated);
            &&& started.state_stream is Some <==> client.reconnect is Some
            &&& started.state_stream != Some(earlier)
        }),
{
}

/// What a new client holds fits together.
pub proof fn a_new_client_is_consistent(url: Seq<char>, token: Seq<char>)
    ensures
        is_consistent(fresh(url, token)),
{
    let client = fresh(url, token);
    assert(client.contracts.dom() =~= client.channels.dom());
}

/// To open and to close a channel keeps a client consistent, and a channel
/// that is handed out is one that is not open: channels are never mixed up.
pub proof fn channels_keep_a_client_consistent(
    client: ClientTree,
    channel: u32,
    contract: Seq<char>,
)
    requires
        is_consistent(client),
    ensures
        !client.channels.contains_key(client.next_channel_id),
        client.next_channel_id < u32::MAX ==> is_consistent(
            ClientTree { next_channel_id: (client.next_channel_id + 1) as u32, ..client },
        ),
        MAIN_CHANNEL < channel < client.next_channel_id ==> is_consistent(
            with_channel(client, channel, contract),
        ),
        is_consistent(without_channel(client, channel)),
        !without_channel(client, channel).channels.contains_key(channel),
        !without_channel(client, channel).schemas.contains_key(channel),
        !subscriptions::is_subscribed(
            without_channel(client, channel).subscriptions,
            channel,
        ),
{
    let opened = with_channel(client, channel, contract);
    assert(opened.contracts.dom() =~= opened.channels.dom());
    let closed = without_channel(client, channel);
    assert(closed.contracts.dom() =~= closed.channels.dom());
    assert forall|other: u32| #[trigger] closed.schemas.contains_key(other) implies schema::is_usable(
        closed.schemas[other],
    ) by {
        assert(client.schemas.contains_key(other));
    }
    subscriptions::identities_stay_distinct(
        client.subscriptions,
        channel,
        EventType::Quote,
        arbitrary(),
    );
    subscriptions::a_forgotten_channel_is_empty(client.subscriptions, channel);
}

/// To close one channel leaves every other channel as it is: still open, with
/// its contract, its layout and its subscriptions.
pub proof fn closing_a_channel_is_local(client: ClientTree, channel: u32, other: u32)
    requires
        other != channel,
    ensures
        without_channel(client, channel).channels.contains_key(other)
            == client.channels.contains_key(other),
        client.channels.contains_key(other) ==> without_channel(client, channel).channels[other]
            == client.channels[other],
        without_channel(client, channel).schemas.contains_key(other)
            == client.schemas.contains_key(other),
        client.schemas.contains_key(other) ==> without_channel(client, channel).schemas[other]
            == client.schemas[other],
        subscriptions::on_channel(without_channel(client, channel).subscriptions, other)
            == subscriptions::on_channel(client.subscriptions, other),
{
    subscriptions::other_channels_are_untouched(
        client.subscriptions,
        channel,
        EventType::Quote,
        arbitrary(),
        other,
    );
}

/// To make, to answer and to give up a request keeps a client consistent.
pub proof fn requests_keep_a_client_consistent(
    client: ClientTree,
    ticket: TicketTree,
    at: int,
    id: u64,
)
    requires
        is_consistent(client),
    ensures
        ticket.id == client.pending.last_id + 1 ==> is_consistent(registered(client, ticket)),
        is_consistent(settled(client, id)),
        0 <= at < client.pending.requests.len() ==> is_consistent(
            ClientTree {
                pending: PendingTree {
                    requests: client.pending.requests.remove(at),
                    last_id: client.pending.last_id,
                },
                ..client
            },
        ),
{
    let request = RequestTree {
        id: ticket.id,
        expected_type: ticket.expected_type,
        channel_id: Some(ticket.channel),
    };
    requests::ids_stay_distinct(client.pending, request, at, id);
}

/// A request that ended, however it ended, is not waiting any more, so it can
/// never take an answer that somebody else is owed.
pub proof fn a_settled_request_waits_no_more(client: ClientTree, id: u64, other: RequestTree)
    requires
        is_consistent(client),
    ensures
        settled(client, id).pending.requests.contains(other) <==> client.pending.requests.contains(
            other,
        ) && other.id != id,
{
    requests::forgetting_removes_one_request(client.pending, id, other);
}

/// To configure a channel, to drop its layout, and to follow the server to
/// another layout keeps a client consistent: nothing is ever decoded against a
/// layout whose rows cannot be identified.
pub proof fn layouts_keep_a_client_consistent(
    client: ClientTree,
    channel: u32,
    config: FeedConfigMessage,
    event_types: Seq<EventType>,
)
    requires
        is_consistent(client),
    ensures
        is_consistent(without_schema(client, channel)),
        schema::is_agreeable(config, event_types) ==> is_consistent(
            with_schema(client, channel, schema::agreed(config, event_types)),
        ),
        is_consistent(
            ClientTree {
                schemas: schema::after_config(client.schemas, channel, config),
                ..client
            },
        ),
{
    if schema::is_agreeable(config, event_types) {
        schema::agreed_layouts_are_usable(event_types, schema::named_fields(config));
    }
    if client.schemas.contains_key(channel) {
        schema::reconfiguration_keeps_layouts_usable(client.schemas[channel], config);
    }
    let dropped = without_schema(client, channel);
    assert forall|other: u32| #[trigger] dropped.schemas.contains_key(other) implies schema::is_usable(
        dropped.schemas[other],
    ) by {
        assert(client.schemas.contains_key(other));
    }
    let kept = with_schema(client, channel, schema::agreed(config, event_types));
    assert forall|other: u32|
        other != channel && #[trigger] kept.schemas.contains_key(other) implies schema::is_usable(
        kept.schemas[other],
    ) by {
        assert(client.schemas.contains_key(other));
    }
    let moved = schema::after_config(client.schemas, channel, config);
    assert forall|other: u32| #[trigger] moved.contains_key(other) implies schema::is_usable(
        moved[other],
    ) by {
        assert(client.schemas.contains_key(other));
    }
}

/// To subscribe, to unsubscribe and to reset keeps a client consistent: no
/// subscription is ever tracked twice.
pub proof fn subscriptions_keep_a_client_consistent(
    client: ClientTree,
    change: SubscriptionChange,
)
    requires
        is_consistent(client),
        change.is_typed(),
    ensures
        is_consistent(
            ClientTree { subscriptions: change.applied(client.subscriptions), ..client },
        ),
{
    let list = messages::subscription_trees(change.subscriptions@);
    match change.kind {
        ChangeKind::Add => all_inserted_keeps_distinct(
            client.subscriptions,
            change.channel,
            change.types@,
            list,
        ),
        ChangeKind::Remove => all_removed_keeps_distinct(
            client.subscriptions,
            change.channel,
            change.types@,
            list,
        ),
        ChangeKind::Reset => subscriptions::identities_stay_distinct(
            client.subscriptions,
            change.channel,
            EventType::Quote,
            arbitrary(),
        ),
    }
}

proof fn all_inserted_keeps_distinct(
    entries: Seq<TrackedTree>,
    channel: u32,
    types: Seq<EventType>,
    list: Seq<messages::SubscriptionTree>,
)
    requires
        subscriptions::has_distinct_identities(entries),
    ensures
        subscriptions::has_distinct_identities(all_inserted(entries, channel, types, list)),
    decreases list.len(),
{
    if list.len() > 0 {
        all_inserted_keeps_distinct(entries, channel, types.drop_last(), list.drop_last());
        subscriptions::identities_stay_distinct(
            all_inserted(entries, channel, types.drop_last(), list.drop_last()),
            channel,
            types.last(),
            list.last(),
        );
    }
}

proof fn all_removed_keeps_distinct(
    entries: Seq<TrackedTree>,
    channel: u32,
    types: Seq<EventType>,
    list: Seq<messages::SubscriptionTree>,
)
    requires
        subscriptions::has_distinct_identities(entries),
    ensures
        subscriptions::has_distinct_identities(all_removed(entries, channel, types, list)),
    decreases list.len(),
{
    if list.len() > 0 {
        all_removed_keeps_distinct(entries, channel, types.drop_last(), list.drop_last());
        subscriptions::identities_stay_distinct(
            all_removed(entries, channel, types.drop_last(), list.drop_last()),
            channel,
            types.last(),
            list.last(),
        );
    }
}

/// A change of the subscriptions of one channel leaves every other channel as
/// it is.
pub proof fn changes_are_local(change: SubscriptionChange, entries: Seq<TrackedTree>, other: u32)
    requires
        change.is_typed(),
        other != change.channel,
    ensures
        subscriptions::on_channel(change.applied(entries), other) == subscriptions::on_channel(
            entries,
            other,
        ),
{
    let list = messages::subscription_trees(change.subscriptions@);
    match change.kind {
        ChangeKind::Add => all_inserted_is_local(
            entries,
            change.channel,
            change.types@,
            list,
            other,
        ),
        ChangeKind::Remove => all_removed_is_local(
            entries,
            change.channel,
            change.types@,
            list,
            other,
        ),
        ChangeKind::Reset => subscriptions::other_channels_are_untouched(
            entries,
            change.channel,
            EventType::Quote,
            arbitrary(),
            other,
        ),
    }
}

proof fn all_inserted_is_local(
    entries: Seq<TrackedTree>,
    channel: u32,
    types: Seq<EventType>,
    list: Seq<messages::SubscriptionTree>,
    other: u32,
)
    requires
        other != channel,
    ensures
        subscriptions::on_channel(all_inserted(entries, channel, types, list), other)
            == subscriptions::on_channel(entries, other),
    decreases list.len(),
{
    if list.len() > 0 {
        all_inserted_is_local(entries, channel, types.drop_last(), list.drop_last(), other);
        subscriptions::other_channels_are_untouched(
            all_inserted(entries, channel, types.drop_last(), list.drop_last()),
            channel,
            types.last(),
            list.last(),
            other,
        );
    }
}

proof fn all_removed_is_local(
    entries: Seq<TrackedTree>,
    channel: u32,
    types: Seq<EventType>,
    list: Seq<messages::SubscriptionTree>,
    other: u32,
)
    requires
        other != channel,
    ensures
        subscriptions::on_channel(all_removed(entries, channel, types, list), other)
            == subscriptions::on_channel(entries, other),
    decreases list.len(),
{
    if list.len() > 0 {
        all_removed_is_local(entries, channel, types.drop_last(), list.drop_last(), other);
        subscriptions::other_channels_are_untouched(
            all_removed(entries, channel, types.drop_last(), list.drop_last()),
            channel,
            types.last(),
            list.last(),
            other,
        );
    }
}

/// To set a policy, to connect, to lose the session and to disconnect keeps a
/// client consistent.
pub proof fn sessions_keep_a_client_consistent(
    client: ClientTree,
    policy: ReconnectPolicy,
    negotiated: Option<u32>,
)
    requires
        is_consistent(client),
    ensures
        client.streams_opened < u64::MAX ==> is_consistent(
            with_states(ClientTree { reconnect: Some(policy), ..client }),
        ),
        is_consistent(before_connect(client)),
        client.streams_opened < u64::MAX ==> is_consistent(after_connect(client, negotiated)),
        is_consistent(without_session(client)),
        is_consistent(after_disconnect(client)),
        is_consistent(
            ClientTree {
                pending: PendingTree {
                    requests: Seq::empty(),
                    last_id: client.pending.last_id,
                },
                ..client
            },
        ),
{
    let ended = without_session(client);
    assert(ended.contracts.dom() =~= ended.channels.dom());
    let gone = after_disconnect(client);
    assert(gone.contracts.dom() =~= gone.channels.dom());
}

} // verus!
