//! The messages of the protocol.

use crate::json::JsonNumber;
use crate::layout::FieldLists;
use vstd::prelude::*;

verus! {

/// What every message has: its channel and its type.
#[derive(Debug)]
pub struct BaseMessage {
    /// The channel that the message is about.
    pub channel: u32,
    /// The type of the message.
    pub message_type: String,
}

/// `SETUP`, as the client sends it.
#[derive(Debug)]
pub struct SetupMessage {
    /// The channel that the message is about.
    pub channel: u32,
    /// The type of the message.
    pub message_type: String,
    /// The silence, in seconds, after which the client takes the server for
    /// gone.
    pub keepalive_timeout: u32,
    /// The silence, in seconds, that the client asks the server to accept.
    pub accept_keepalive_timeout: u32,
    /// Protocol version, implementation and client version.
    pub version: String,
}

/// `SETUP`, as the server answers it.
#[derive(Debug)]
pub struct ServerSetupMessage {
    /// The channel that the message is about.
    pub channel: u32,
    /// The type of the message.
    pub message_type: String,
    /// The version of the server, where it names one.
    pub version: Option<String>,
    /// The silence, in seconds, that the server accepts, where it names one.
    pub keepalive_timeout: Option<u32>,
}

/// `KEEPALIVE`.
#[derive(Debug)]
pub struct KeepaliveMessage {
    /// The channel that the message is about.
    pub channel: u32,
    /// The type of the message.
    pub message_type: String,
}

/// `AUTH`.
#[derive(Debug)]
pub struct AuthMessage {
    /// The channel that the message is about.
    pub channel: u32,
    /// The type of the message.
    pub message_type: String,
    /// The credential.
    pub token: String,
}

/// `AUTH_STATE`.
#[derive(Debug)]
pub struct AuthStateMessage {
    /// The channel that the message is about.
    pub channel: u32,
    /// The type of the message.
    pub message_type: String,
    /// Whether the session is authorized.
    pub state: String,
    /// The user, where the server names one.
    pub user_id: Option<String>,
}

/// `CHANNEL_REQUEST`.
#[derive(Debug)]
pub struct ChannelRequestMessage {
    /// The channel that the message is about.
    pub channel: u32,
    /// The type of the message.
    pub message_type: String,
    /// The service that the channel is for.
    pub service: String,
    /// The parameters of the service, each with its name.
    pub parameters: Vec<(String, String)>,
}

/// `CHANNEL_OPENED`.
#[derive(Debug)]
pub struct ChannelOpenedMessage {
    /// The channel that the message is about.
    pub channel: u32,
    /// The type of the message.
    pub message_type: String,
    /// The service that the channel is for.
    pub service: String,
    /// The parameters of the service, each with its name.
    pub parameters: Vec<(String, String)>,
}

/// `CHANNEL_CLOSED`.
#[derive(Debug)]
pub struct ChannelClosedMessage {
    /// The channel that the message is about.
    pub channel: u32,
    /// The type of the message.
    pub message_type: String,
}

/// `CHANNEL_CANCEL`.
#[derive(Debug)]
pub struct ChannelCancelMessage {
    /// The channel that the message is about.
    pub channel: u32,
    /// The type of the message.
    pub message_type: String,
}

/// `ERROR`.
#[derive(Debug)]
pub struct ErrorMessage {
    /// The channel that the message is about.
    pub channel: u32,
    /// The type of the message.
    pub message_type: String,
    /// The code of the error.
    pub error: String,
    /// What the server says about it.
    pub message: String,
}

/// One subscription.
#[derive(Debug)]
pub struct FeedSubscription {
    /// The type of the events.
    pub event_type: String,
    /// The symbol.
    pub symbol: String,
    /// Where history starts, for a series.
    pub from_time: Option<i64>,
    /// The source, for an indexed subscription.
    pub source: Option<String>,
}

/// What a subscription asks for.
#[verifier::ext_equal]
pub struct SubscriptionTree {
    pub event_type: Seq<char>,
    pub symbol: Seq<char>,
    pub from_time: Option<i64>,
    pub source: Option<Seq<char>>,
}

/// The text of an optional string.
pub open spec fn optional_text(text: Option<String>) -> Option<Seq<char>> {
    match text {
        Some(text) => Some(text@),
        None => None,
    }
}

/// An exact copy of an optional string.
pub fn copy_optional(text: &Option<String>) -> (r: Option<String>)
    ensures
        optional_text(r) == optional_text(*text),
{
    match text {
        Some(text) => Some(text.as_str().to_owned()),
        None => None,
    }
}

impl View for FeedSubscription {
    type V = SubscriptionTree;

    open spec fn view(&self) -> SubscriptionTree {
        SubscriptionTree {
            event_type: self.event_type@,
            symbol: self.symbol@,
            from_time: self.from_time,
            source: optional_text(self.source),
        }
    }
}

impl FeedSubscription {
    /// An exact copy.
    pub fn copied(&self) -> (r: FeedSubscription)
        ensures
            r@ == self@,
    {
        FeedSubscription {
            event_type: self.event_type.as_str().to_owned(),
            symbol: self.symbol.as_str().to_owned(),
            from_time: self.from_time,
            source: copy_optional(&self.source),
        }
    }
}

impl Clone for FeedSubscription {
    fn clone(&self) -> (r: Self)
        ensures
            r@ == self@,
    {
        self.copied()
    }
}

/// The subscriptions of a list.
pub open spec fn subscription_trees(list: Seq<FeedSubscription>) -> Seq<SubscriptionTree> {
    list.map_values(|s: FeedSubscription| s@)
}

/// An exact copy of a list of subscriptions.
pub fn copy_subscriptions(list: &Vec<FeedSubscription>) -> (r: Vec<FeedSubscription>)
    ensures
        subscription_trees(r@) == subscription_trees(list@),
{
    let mut out: Vec<FeedSubscription> = Vec::new();
    let mut i: usize = 0;
    while i < list.len()
        invariant
            i <= list.len(),
            out@.len() == i,
            forall|j: int| 0 <= j < i ==> (#[trigger] out@[j])@ == list@[j]@,
        decreases list.len() - i,
    {
        out.push(list[i].copied());
        i += 1;
    }
    assert(subscription_trees(out@) =~= subscription_trees(list@));
    out
}

/// `FEED_SUBSCRIPTION`.
#[derive(Debug)]
pub struct FeedSubscriptionMessage {
    /// The channel that the message is about.
    pub channel: u32,
    /// The type of the message.
    pub message_type: String,
    /// What is to be added.
    pub add: Option<Vec<FeedSubscription>>,
    /// What is to be removed.
    pub remove: Option<Vec<FeedSubscription>>,
    /// Whether everything is to be removed.
    pub reset: Option<bool>,
}

/// `FEED_SETUP`.
#[derive(Debug)]
pub struct FeedSetupMessage {
    /// The channel that the message is about.
    pub channel: u32,
    /// The type of the message.
    pub message_type: String,
    /// The aggregation that is asked for, in seconds.
    pub accept_aggregation_period: JsonNumber,
    /// The data format that is asked for.
    pub accept_data_format: String,
    /// The columns that are asked for.
    pub accept_event_fields: FieldLists,
}

/// `FEED_CONFIG`.
#[derive(Debug)]
pub struct FeedConfigMessage {
    /// The channel that the message is about.
    pub channel: u32,
    /// The type of the message.
    pub message_type: String,
    /// The aggregation that the server settled on, in seconds.
    pub aggregation_period: JsonNumber,
    /// The data format that the server settled on.
    pub data_format: String,
    /// The columns that the server serves, where it names them.
    pub event_fields: Option<FieldLists>,
}

/// `FEED_DATA`.
#[derive(Debug)]
pub struct FeedDataMessage<T> {
    /// The channel that the message is about.
    pub channel: u32,
    /// The type of the message.
    pub message_type: String,
    /// The data.
    pub data: T,
}

} // verus!
