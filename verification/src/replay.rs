//! How a new session is brought to where the lost one was.
//!
//! Channels come back before their feeds, feeds before their subscriptions,
//! and subscriptions go out in the order in which they were asked for.

use crate::client;
use crate::client::{
    channel_request, feed_setup, ClientTree, DXLinkClient, KnownChannel, KnownTree,
    REQUEST_WAIT_SECS,
};
use crate::error::{DXLinkError, DXLinkResult, ErrorView};
use crate::events;
use crate::events::EventType;
use crate::layout::FieldLists;
use crate::messages;
use crate::messages::{
    ChannelRequestMessage, FeedConfigMessage, FeedSetupMessage, FeedSubscription,
    FeedSubscriptionMessage,
};
use crate::requests::{Outcome, ResponseType, Ticket, TicketTree};
use crate::schema;
use crate::schema::{negotiated_schema, SchemaTree};
use crate::subscriptions;
use crate::text;
use crate::text::{decimal_text, join_texts, list_texts, show_text};
use vstd::prelude::*;

verus! {

// ---------------------------------------------------------------------------
// The types of a channel, by name
// ---------------------------------------------------------------------------
/// Every event type, by name.
pub const TYPES_BY_NAME: [EventType; 15] = [
    EventType::Candle,
    EventType::Configuration,
    EventType::Greeks,
    EventType::Message,
    EventType::Order,
    EventType::Profile,
    EventType::Quote,
    EventType::Series,
    EventType::SpreadOrder,
    EventType::Summary,
    EventType::TheoPrice,
    EventType::TimeAndSale,
    EventType::Trade,
    EventType::TradeETH,
    EventType::Underlying,
];

/// Whether a text comes before another one in the order of a dictionary.
pub open spec fn comes_before(a: Seq<char>, b: Seq<char>) -> bool
    decreases a.len(),
{
    if b.len() == 0 {
        false
    } else if a.len() == 0 {
        true
    } else if a[0] != b[0] {
        (a[0] as u32) < (b[0] as u32)
    } else {
        comes_before(a.drop_first(), b.drop_first())
    }
}

/// Every event type occurs in the list, and each comes before the next by its
/// name.
pub proof fn types_are_listed_by_name(event_type: EventType, i: int)
    requires
        0 <= i < 14,
    ensures
        TYPES_BY_NAME@.contains(event_type),
        comes_before(
            events::wire_name(TYPES_BY_NAME@[i]),
            events::wire_name(TYPES_BY_NAME@[i + 1]),
        ),
{
    match event_type {
        EventType::Candle => assert(TYPES_BY_NAME@[0] == event_type),
        EventType::Configuration => assert(TYPES_BY_NAME@[1] == event_type),
        EventType::Greeks => assert(TYPES_BY_NAME@[2] == event_type),
        EventType::Message => assert(TYPES_BY_NAME@[3] == event_type),
        EventType::Order => assert(TYPES_BY_NAME@[4] == event_type),
        EventType::Profile => assert(TYPES_BY_NAME@[5] == event_type),
        EventType::Quote => assert(TYPES_BY_NAME@[6] == event_type),
        EventType::Series => assert(TYPES_BY_NAME@[7] == event_type),
        EventType::SpreadOrder => assert(TYPES_BY_NAME@[8] == event_type),
        EventType::Summary => assert(TYPES_BY_NAME@[9] == event_type),
        EventType::TheoPrice => assert(TYPES_BY_NAME@[10] == event_type),
        EventType::TimeAndSale => assert(TYPES_BY_NAME@[11] == event_type),
        EventType::Trade => assert(TYPES_BY_NAME@[12] == event_type),
        EventType::TradeETH => assert(TYPES_BY_NAME@[13] == event_type),
        EventType::Underlying => assert(TYPES_BY_NAME@[14] == event_type),
    }
    reveal_with_fuel(comes_before, 7);
    reveal_strlit("Candle");
    reveal_strlit("Configuration");
    reveal_strlit("Greeks");
    reveal_strlit("Message");
    reveal_strlit("Order");
    reveal_strlit("Profile");
    reveal_strlit("Quote");
    reveal_strlit("Series");
    reveal_strlit("SpreadOrder");
    reveal_strlit("Summary");
    reveal_strlit("TheoPrice");
    reveal_strlit("TimeAndSale");
    reveal_strlit("Trade");
    reveal_strlit("TradeETH");
    reveal_strlit("Underlying");
}

/// The types of a schema, by name.
pub open spec fn types_in(schema: SchemaTree) -> Seq<EventType> {
    TYPES_BY_NAME@.filter(|t: EventType| schema.contains_key(events::wire_name(t)))
}

/// The error of a layout for something that is no event type.
pub open spec fn unknown_layout(channel: u32, name: Seq<char>) -> ErrorView {
    ErrorView::Protocol(
        "channel "@ + text::decimal(channel as int) + " was configured for `"@ + name
            + "`, which is not a DXLink event type"@,
    )
}

/// Whether every name of a schema is an event type.
pub open spec fn names_event_types(schema: SchemaTree) -> bool {
    forall|name: Seq<char>| #[trigger]
        schema.contains_key(name) ==> events::named(name) is Some
}

/// The types that a channel was configured for, by name.
pub fn configured_types(stored: &FieldLists, channel_id: u32) -> (r: DXLinkResult<Vec<EventType>>)
    ensures
        match r {
            Ok(types) => names_event_types(stored@) && types@ == types_in(stored@),
            Err(e) => exists|name: Seq<char>| #[trigger]
                stored@.contains_key(name) && events::named(name) is None && e@ == unknown_layout(
                    channel_id,
                    name,
                ),
        },
{
    let names = stored.names();
    let ghost all = text::texts(names@);
    let mut i: usize = 0;
    while i < names.len()
        invariant
            i <= names@.len(),
            all == text::texts(names@),
            forall|name: Seq<char>| all.contains(name) <==> stored@.contains_key(name),
            forall|j: int| 0 <= j < i ==> events::named(#[trigger] all[j]) is Some,
        decreases names.len() - i,
    {
        assert(all[i as int] == names@[i as int]@);
        assert(all.contains(all[i as int]));
        if EventType::from_wire_name(names[i].as_str()).is_none() {
            let mut message = "channel ".to_owned();
            message.append(decimal_text(channel_id as u64).as_str());
            message.append(" was configured for `");
            message.append(names[i].as_str());
            message.append("`, which is not a DXLink event type");
            assert(stored@.contains_key(all[i as int]));
            return Err(DXLinkError::Protocol(message));
        }
        i += 1;
    }
    assert(names_event_types(stored@)) by {
        assert forall|name: Seq<char>| #[trigger] stored@.contains_key(name) implies events::named(
            name,
        ) is Some by {
            assert(all.contains(name));
            let j = choose|j: int| 0 <= j < all.len() && all[j] == name;
            assert(events::named(all[j]) is Some);
        }
    }
    let sorted = TYPES_BY_NAME;
    let ghost keeps = |t: EventType| stored@.contains_key(events::wire_name(t));
    let mut types: Vec<EventType> = Vec::new();
    let mut k: usize = 0;
    proof {
        reveal(Seq::filter);
        assert(sorted@.take(0) =~= Seq::<EventType>::empty());
        assert(types@ =~= sorted@.take(0).filter(keeps));
    }
    while k < sorted.len()
        invariant
            k <= sorted@.len(),
            keeps == (|t: EventType| stored@.contains_key(events::wire_name(t))),
            types@ == sorted@.take(k as int).filter(keeps),
        decreases sorted.len() - k,
    {
        proof {
            reveal(Seq::filter);
            assert(sorted@.take(k + 1).drop_last() =~= sorted@.take(k as int));
            assert(sorted@.take(k + 1).last() == sorted@[k as int]);
        }
        if stored.contains(sorted[k].name()) {
            types.push(sorted[k]);
        }
        k += 1;
    }
    assert(sorted@.take(sorted@.len() as int) =~= sorted@);
    Ok(types)
}

/// A feed is asked for again with the types that it had, no more and no less:
/// what is asked for names the same types as the layout that was agreed.
pub proof fn a_replay_asks_for_the_same_types(schema: SchemaTree, name: Seq<char>)
    requires
        forall|n: Seq<char>| #[trigger]
            schema.contains_key(n) ==> events::named(n) is Some && events::is_decodable(
                events::named(n)->0,
            ),
    ensures
        schema::requested(types_in(schema)).contains_key(name) <==> schema.contains_key(name),
{
    let types = types_in(schema);
    let keeps = |t: EventType| schema.contains_key(events::wire_name(t));
    schema::requests_are_decodable(types, name);
    kept_types(TYPES_BY_NAME@, keeps);
    if schema.contains_key(name) {
        let event_type = events::named(name)->0;
        events::wire_names_round_trip(event_type, name);
        types_are_listed_by_name(event_type, 0);
        assert(keeps(event_type));
        assert(types.contains(event_type));
        let i = choose|i: int| 0 <= i < types.len() && types[i] == event_type;
        assert(events::is_decodable(types[i]) && events::wire_name(types[i]) == name);
    }
    if schema::requested(types).contains_key(name) {
        let i = choose|i: int|
            0 <= i < types.len() && events::is_decodable(#[trigger] types[i])
                && events::wire_name(types[i]) == name;
        assert(types.contains(types[i]));
        assert(keeps(types[i]));
    }
}

proof fn kept_types(all: Seq<EventType>, keeps: spec_fn(EventType) -> bool)
    ensures
        forall|t: EventType| #[trigger] all.filter(keeps).contains(t) <==> all.contains(t) && keeps(t),
    decreases all.len(),
{
    reveal(Seq::filter);
    if all.len() > 0 {
        let init = all.drop_last();
        kept_types(init, keeps);
        assert forall|t: EventType| #[trigger] all.filter(keeps).contains(t) <==> all.contains(t)
            && keeps(t) by {
            let kept = init.filter(keeps);
            let more = all.filter(keeps);
            if more.contains(t) {
                let i = choose|i: int| 0 <= i < more.len() && more[i] == t;
                if i < kept.len() {
                    assert(kept[i] == t);
                    assert(kept.contains(t));
                    let k = choose|k: int| 0 <= k < init.len() && init[k] == t;
                    assert(all[k] == t);
                } else {
                    assert(all[all.len() - 1] == t);
                }
            }
            if all.contains(t) && keeps(t) {
                let k = choose|k: int| 0 <= k < all.len() && all[k] == t;
                if k < init.len() {
                    assert(init[k] == t);
                    assert(init.contains(t));
                    assert(kept.contains(t));
                    let i = choose|i: int| 0 <= i < kept.len() && kept[i] == t;
                    assert(more[i] == t);
                } else {
                    assert(more[more.len() - 1] == t);
                }
            }
        }
    }
}

// ---------------------------------------------------------------------------
// The replay
// ---------------------------------------------------------------------------
/// A replay of a session.
#[derive(Debug)]
pub struct Replay {
    known: Vec<KnownChannel>,
    at: usize,
    types: Vec<EventType>,
}

/// What a replay is.
#[verifier::ext_equal]
pub struct ReplayTree {
    /// The channels to bring back, in order.
    pub known: Seq<KnownTree>,
    /// The one that is being brought back.
    pub at: int,
    /// The types for which it is being configured.
    pub types: Seq<EventType>,
}

impl View for Replay {
    type V = ReplayTree;

    closed spec fn view(&self) -> ReplayTree {
        ReplayTree {
            known: client::known_trees(self.known@),
            at: self.at as int,
            types: self.types@,
        }
    }
}

/// What a replay does next.
pub enum ReplayAction {
    /// Ask for a channel, and hand in what came of it.
    Open(ChannelRequestMessage, Ticket),
    /// Ask for a feed, and hand in what came of it.
    Configure(FeedSetupMessage, Ticket),
    /// Send subscriptions, and hand in what came of it.
    Subscribe(FeedSubscriptionMessage),
    /// The session is where the lost one was.
    Done,
}

/// Whether a result is how a replay goes on with the channel that it stands
/// at, or ends.
pub open spec fn goes_on(
    result: DXLinkResult<ReplayAction>,
    after: ClientTree,
    before: ClientTree,
    replay: ReplayTree,
) -> bool {
    if replay.at >= replay.known.len() {
        result matches Ok(ReplayAction::Done) && after == before
    } else {
        let known = replay.known[replay.at];
        match result {
            Ok(ReplayAction::Open(message, ticket)) => {
                &&& before.connected
                &&& client::asks_for_channel(
                    message,
                    known.channel,
                    known.service,
                    known.contract,
                )
                &&& ticket@ == (TicketTree {
                    id: (before.pending.last_id + 1) as u64,
                    operation: "reconnect: reopen channel"@,
                    expected_type: "CHANNEL_OPENED"@,
                    channel: known.channel,
                    wait_secs: REQUEST_WAIT_SECS,
                })
                &&& after == client::registered(before, ticket@)
            },
            Err(e) => !before.connected && e@ == client::not_connected() && after == before,
            _ => false,
        }
    }
}

/// How one layout is shown.
pub open spec fn shown_layout(name: Seq<char>, columns: Seq<Seq<char>>) -> Seq<char> {
    text::shown(name) + ": "@ + text::listed(columns)
}

/// How the layouts of some types are shown, in the order of their names.
pub open spec fn shown_layouts(names: Seq<Seq<char>>, layouts: SchemaTree) -> Seq<char> {
    "{"@ + text::joined(
        names.map_values(|name: Seq<char>| shown_layout(name, layouts[name])),
        ", "@,
    ) + "}"@
}

/// Whether names are those of some layouts, each of them once.
pub open spec fn names_layouts(names: Seq<Seq<char>>, layouts: SchemaTree) -> bool {
    &&& names.no_duplicates()
    &&& forall|name: Seq<char>| #[trigger] names.contains(name) <==> layouts.contains_key(name)
}

/// Whether a text shows the layouts of a configuration. They come in no
/// particular order.
pub open spec fn shows_layouts(shown: Seq<char>, layouts: Option<FieldLists>) -> bool {
    match layouts {
        None => shown == "None"@,
        Some(lists) => exists|names: Seq<Seq<char>>| #[trigger]
            shows_layouts_of(shown, names, lists@),
    }
}

/// Whether a text shows some layouts in the order of their names.
pub open spec fn shows_layouts_of(
    shown: Seq<char>,
    names: Seq<Seq<char>>,
    layouts: SchemaTree,
) -> bool {
    names_layouts(names, layouts) && shown == "Some("@ + shown_layouts(names, layouts) + ")"@
}

/// How a configuration is shown, given how its period and its layouts are.
pub open spec fn shown_config(
    config: FeedConfigMessage,
    period: Seq<char>,
    layouts: Seq<char>,
) -> Seq<char> {
    "FeedConfigMessage { channel: "@ + text::decimal(config.channel as int) + ", message_type: "@
        + text::shown(config.message_type@) + ", aggregation_period: "@ + period
        + ", data_format: "@ + text::shown(config.data_format@) + ", event_fields: "@ + layouts
        + " }"@
}

/// Whether a text is how an answer that fits nothing is named in an error. The
/// period of a configuration is a double, and comes as it is shown.
pub open spec fn names_response(
    name: Seq<char>,
    response: ResponseType,
    period: Seq<char>,
) -> bool {
    match response {
        ResponseType::ChannelOpened(channel) => name == "ChannelOpened("@ + text::decimal(
            channel as int,
        ) + ")"@,
        ResponseType::FeedConfig(config) => exists|layouts: Seq<char>| #[trigger]
            shows_layouts(layouts, config.event_fields) && name
                == "FeedConfig("@ + shown_config(config, period, layouts) + ")"@,
        ResponseType::ChannelClosed(channel) => name == "ChannelClosed("@ + text::decimal(
            channel as int,
        ) + ")"@,
        ResponseType::Error(code, message) => name == "Error("@ + text::shown(code@) + ", "@
            + text::shown(message@) + ")"@,
        ResponseType::Other(raw) => name == "Other("@ + text::shown(raw@) + ")"@,
    }
}

fn show_layouts(layouts: &FieldLists) -> (r: String)
    ensures
        exists|names: Seq<Seq<char>>| #[trigger]
            names_layouts(names, layouts@) && r@ == shown_layouts(names, layouts@),
{
    let names = layouts.names();
    let ghost all = text::texts(names@);
    let mut parts: Vec<String> = Vec::new();
    let mut i: usize = 0;
    while i < names.len()
        invariant
            i <= names@.len(),
            all == text::texts(names@),
            forall|name: Seq<char>| all.contains(name) <==> layouts@.contains_key(name),
            parts@.len() == i,
            forall|j: int|
                0 <= j < i ==> (#[trigger] parts@[j])@ == shown_layout(all[j], layouts@[all[j]]),
        decreases names.len() - i,
    {
        assert(all[i as int] == names@[i as int]@);
        assert(all.contains(all[i as int]));
        let mut part = show_text(names[i].as_str());
        part.append(": ");
        match layouts.get(names[i].as_str()) {
            Some(columns) => part.append(list_texts(columns).as_str()),
            None => {},
        }
        assert(part@ == shown_layout(all[i as int], layouts@[all[i as int]]));
        parts.push(part);
        i += 1;
    }
    let mut out = "{".to_owned();
    out.append(join_texts(&parts, ", ").as_str());
    out.append("}");
    proof {
        let shown = all.map_values(|name: Seq<char>| shown_layout(name, layouts@[name]));
        assert forall|j: int| 0 <= j < shown.len() implies text::texts(parts@)[j] == shown[j] by {
            assert(text::texts(parts@)[j] == parts@[j]@);
        }
        assert(text::texts(parts@) =~= shown);
        assert(names_layouts(all, layouts@));
    }
    out
}

fn show_maybe_layouts(layouts: &Option<FieldLists>) -> (r: String)
    ensures
        shows_layouts(r@, *layouts),
{
    match layouts {
        None => "None".to_owned(),
        Some(lists) => {
            let shown = show_layouts(lists);
            let mut out = "Some(".to_owned();
            out.append(shown.as_str());
            out.append(")");
            proof {
                let names = choose|names: Seq<Seq<char>>| #[trigger]
                    names_layouts(names, lists@) && shown@ == shown_layouts(names, lists@);
                assert(shows_layouts_of(out@, names, lists@));
            }
            out
        },
    }
}

fn name_response(response: &ResponseType, period: &str) -> (r: String)
    ensures
        names_response(r@, *response, period@),
{
    match response {
        ResponseType::ChannelOpened(channel) => {
            let mut out = "ChannelOpened(".to_owned();
            out.append(decimal_text(*channel as u64).as_str());
            out.append(")");
            out
        },
        ResponseType::FeedConfig(config) => {
            let layouts = show_maybe_layouts(&config.event_fields);
            let mut shown = "FeedConfigMessage { channel: ".to_owned();
            shown.append(decimal_text(config.channel as u64).as_str());
            shown.append(", message_type: ");
            shown.append(show_text(config.message_type.as_str()).as_str());
            shown.append(", aggregation_period: ");
            shown.append(period);
            shown.append(", data_format: ");
            shown.append(show_text(config.data_format.as_str()).as_str());
            shown.append(", event_fields: ");
            shown.append(layouts.as_str());
            shown.append(" }");
            let mut out = "FeedConfig(".to_owned();
            out.append(shown.as_str());
            out.append(")");
            out
        },
        ResponseType::ChannelClosed(channel) => {
            let mut out = "ChannelClosed(".to_owned();
            out.append(decimal_text(*channel as u64).as_str());
            out.append(")");
            out
        },
        ResponseType::Error(code, message) => {
            let mut out = "Error(".to_owned();
            out.append(show_text(code.as_str()).as_str());
            out.append(", ");
            out.append(show_text(message.as_str()).as_str());
            out.append(")");
            out
        },
        ResponseType::Other(raw) => {
            let mut out = "Other(".to_owned();
            out.append(show_text(raw.as_str()).as_str());
            out.append(")");
            out
        },
    }
}

/// Whether a result is what follows on a channel that the server opened again:
/// its feed is asked for, with the types that it had; a channel that was never
/// configured has no feed, and the replay goes on with the next one.
pub open spec fn reopened(
    result: DXLinkResult<ReplayAction>,
    after: ClientTree,
    replay_after: ReplayTree,
    before: ClientTree,
    replay: ReplayTree,
    channel: u32,
) -> bool {
    if !before.schemas.contains_key(channel) {
        &&& replay_after == (ReplayTree { at: replay.at + 1, ..replay })
        &&& goes_on(result, after, before, replay_after)
    } else {
        let stored = before.schemas[channel];
        let types = types_in(stored);
        if !names_event_types(stored) {
            &&& after == before
            &&& replay_after == replay
            &&& result is Err
            &&& exists|name: Seq<char>| #[trigger]
                stored.contains_key(name) && events::named(name) is None && result->Err_0@
                    == unknown_layout(channel, name)
        } else {
            let dropped = client::without_schema(before, channel);
            &&& replay_after == (ReplayTree { types, ..replay })
            &&& match result {
                Ok(ReplayAction::Configure(message, ticket)) => {
                    &&& before.connected
                    &&& client::asks_for_feed(message, channel, types)
                    &&& ticket@ == (TicketTree {
                        id: (before.pending.last_id + 1) as u64,
                        operation: "reconnect: reconfigure feed"@,
                        expected_type: "FEED_CONFIG"@,
                        channel,
                        wait_secs: REQUEST_WAIT_SECS,
                    })
                    &&& after == client::registered(dropped, ticket@)
                },
                Err(e) => !before.connected && e@ == client::not_connected() && after == dropped,
                _ => false,
            }
        }
    }
}

/// Whether a message subscribes to what is live on a channel, in order.
pub open spec fn subscribes_again(
    message: FeedSubscriptionMessage,
    channel: u32,
    live: Seq<messages::SubscriptionTree>,
) -> bool {
    &&& message.channel == channel
    &&& message.message_type@ == "FEED_SUBSCRIPTION"@
    &&& message.add is Some
    &&& messages::subscription_trees(message.add->0@) == live
    &&& message.remove is None
    &&& message.reset is None
}

/// Whether a result is what follows on a feed that the server configured again:
/// what is live on the channel is subscribed again; where nothing is, the
/// replay goes on with the next channel.
pub open spec fn reconfigured(
    result: DXLinkResult<ReplayAction>,
    after: ClientTree,
    configured: ClientTree,
    replay_after: ReplayTree,
    channel: u32,
) -> bool {
    let live = subscriptions::asked_on(configured.subscriptions, channel);
    if live.len() == 0 {
        goes_on(result, after, configured, replay_after)
    } else {
        &&& after == configured
        &&& result matches Ok(ReplayAction::Subscribe(message))
        &&& subscribes_again(message, channel, live)
    }
}

impl Replay {
    /// A replay of everything that the client knows, lowest channel first.
    pub fn start(client: &DXLinkClient) -> (r: DXLinkResult<Replay>)
        ensures
            match r {
                Ok(replay) => {
                    &&& client@.connected
                    &&& replay@.at == 0
                    &&& replay@.types.len() == 0
                    &&& client::lists_known(replay@.known, client@)
                },
                Err(e) => !client@.connected && e@ == client::not_connected(),
            },
    {
        match client.get_connection() {
            Ok(_) => {},
            Err(e) => return Err(e),
        }
        Ok(Replay { known: client.known_channels(), at: 0, types: Vec::new() })
    }

    /// Asks for the channel that the replay stands at, or ends the replay.
    pub fn next(&self, client: &mut DXLinkClient) -> (r: DXLinkResult<ReplayAction>)
        requires
            old(client)@.pending.last_id < u64::MAX,
        ensures
            goes_on(r, final(client)@, old(client)@, self@),
    {
        if self.at >= self.known.len() {
            return Ok(ReplayAction::Done);
        }
        let known = &self.known[self.at];
        assert(self@.known[self@.at] == known@);
        let message = channel_request(
            known.channel,
            known.service.as_str(),
            known.contract.as_str(),
        );
        match client.open_request(
            "reconnect: reopen channel",
            "CHANNEL_OPENED",
            known.channel,
            REQUEST_WAIT_SECS,
        ) {
            Ok(ticket) => Ok(ReplayAction::Open(message, ticket)),
            Err(e) => Err(e),
        }
    }

    /// Takes what came of a channel that was asked for. Where that is a
    /// configuration, its period comes as it is shown.
    pub fn opened(
        &mut self,
        client: &mut DXLinkClient,
        ticket: &Ticket,
        outcome: Outcome,
        period: &str,
    ) -> (r: DXLinkResult<ReplayAction>)
        requires
            old(client)@.pending.last_id < u64::MAX,
            old(self)@.at < old(self)@.known.len(),
        ensures
            ({
                let done = client::settled(old(client)@, ticket.id);
                match client::failure(ticket@, outcome) {
                    Some(e) => r is Err && r->Err_0@ == e && final(client)@ == done && final(self)@
                        == old(self)@,
                    None => if outcome->Answered_0 == ResponseType::ChannelOpened(ticket.channel) {
                        reopened(
                            r,
                            final(client)@,
                            final(self)@,
                            done,
                            old(self)@,
                            ticket.channel,
                        )
                    } else {
                        &&& final(client)@ == done
                        &&& final(self)@ == old(self)@
                        &&& r is Err
                        &&& exists|name: Seq<char>| #[trigger]
                            names_response(name, outcome->Answered_0, period@) && r->Err_0@
                                == ErrorView::Channel(
                                "reopening channel "@ + text::decimal(ticket.channel as int)
                                    + " answered with "@ + name,
                            )
                    },
                }
            }),
    {
        let channel: u32 = ticket.channel;
        let total: usize = self.known.len();
        assert(self@.known.len() == total);
        let response = match client.close_request(ticket, outcome) {
            Ok(response) => response,
            Err(e) => return Err(e),
        };
        let fits = match &response {
            ResponseType::ChannelOpened(opened) => *opened == channel,
            _ => false,
        };
        if !fits {
            let mut message = "reopening channel ".to_owned();
            message.append(decimal_text(channel as u64).as_str());
            message.append(" answered with ");
            let name = name_response(&response, period);
            message.append(name.as_str());
            assert(names_response(name@, response, period@));
            return Err(DXLinkError::Channel(message));
        }
        let types = match client.schema_of(channel) {
            None => None,
            Some(stored) => match configured_types(stored, channel) {
                Ok(types) => Some(types),
                Err(e) => return Err(e),
            },
        };
        match types {
            None => {
                self.at = self.at + 1;
                self.next(client)
            },
            Some(types) => {
                let message = feed_setup(channel, types.as_slice());
                self.types = types;
                client.drop_schema(channel);
                match client.open_request(
                    "reconnect: reconfigure feed",
                    "FEED_CONFIG",
                    channel,
                    REQUEST_WAIT_SECS,
                ) {
                    Ok(ticket) => Ok(ReplayAction::Configure(message, ticket)),
                    Err(e) => Err(e),
                }
            },
        }
    }

    /// Takes what came of a feed that was asked for.
    pub fn configured(&mut self, client: &mut DXLinkClient, ticket: &Ticket, outcome: Outcome) -> (r:
        DXLinkResult<ReplayAction>)
        requires
            old(client)@.pending.last_id < u64::MAX,
            old(self)@.at < old(self)@.known.len(),
        ensures
            ({
                let done = client::settled(old(client)@, ticket.id);
                match client::failure(ticket@, outcome) {
                    Some(e) => r is Err && r->Err_0@ == e && final(client)@ == done && final(self)@
                        == old(self)@,
                    None => match outcome->Answered_0 {
                        ResponseType::FeedConfig(config) => if schema::is_agreeable(
                            config,
                            old(self)@.types,
                        ) {
                            &&& final(self)@ == (ReplayTree {
                                at: old(self)@.at + 1,
                                ..old(self)@
                            })
                            &&& reconfigured(
                                r,
                                final(client)@,
                                client::with_schema(
                                    done,
                                    ticket.channel,
                                    schema::agreed(config, old(self)@.types),
                                ),
                                final(self)@,
                                ticket.channel,
                            )
                        } else {
                            &&& final(client)@ == done
                            &&& final(self)@ == old(self)@
                            &&& r is Err
                            &&& schema::refuses_config(
                                r->Err_0@,
                                config,
                                ticket.channel,
                                old(self)@.types,
                            )
                        },
                        response => {
                            &&& final(client)@ == done
                            &&& final(self)@ == old(self)@
                            &&& r is Err
                            &&& exists|name: Seq<char>| #[trigger]
                                names_response(name, response, Seq::empty()) && r->Err_0@
                                    == ErrorView::Protocol(
                                    "reconfiguring channel "@ + text::decimal(
                                        ticket.channel as int,
                                    ) + " answered with "@ + name,
                                )
                        },
                    },
                }
            }),
    {
        let channel: u32 = ticket.channel;
        let total: usize = self.known.len();
        assert(self@.known.len() == total);
        let response = match client.close_request(ticket, outcome) {
            Ok(response) => response,
            Err(e) => return Err(e),
        };
        let schema = match &response {
            ResponseType::FeedConfig(config) => match negotiated_schema(
                config,
                channel,
                self.types.as_slice(),
            ) {
                Ok(schema) => schema,
                Err(e) => return Err(e),
            },
            _ => {
                let mut message = "reconfiguring channel ".to_owned();
                message.append(decimal_text(channel as u64).as_str());
                message.append(" answered with ");
                let nothing = "";
                proof {
                    reveal_strlit("");
                    assert(nothing@ =~= Seq::<char>::empty());
                }
                let name = name_response(&response, nothing);
                message.append(name.as_str());
                assert(names_response(name@, response, Seq::empty()));
                return Err(DXLinkError::Protocol(message));
            },
        };
        client.keep_schema(channel, schema);
        self.at = self.at + 1;
        let live: Vec<FeedSubscription> = client.subscriptions(channel);
        assert(messages::subscription_trees(live@).len() == live@.len());
        if live.len() == 0 {
            return self.next(client);
        }
        Ok(
            ReplayAction::Subscribe(
                FeedSubscriptionMessage {
                    channel,
                    message_type: "FEED_SUBSCRIPTION".to_owned(),
                    add: Some(live),
                    remove: None,
                    reset: None,
                },
            ),
        )
    }

    /// Takes what came of sending subscriptions, and goes on with the next
    /// channel.
    pub fn subscribed(&self, client: &mut DXLinkClient, sent: DXLinkResult<()>) -> (r: DXLinkResult<
        ReplayAction,
    >)
        requires
            old(client)@.pending.last_id < u64::MAX,
        ensures
            match sent {
                Err(e) => r == Err::<ReplayAction, DXLinkError>(e) && final(client)@ == old(client)@,
                Ok(_) => goes_on(r, final(client)@, old(client)@, self@),
            },
    {
        match sent {
            Err(e) => Err(e),
            Ok(_) => self.next(client),
        }
    }
}

// ---------------------------------------------------------------------------
// A rebuild that fails
// ---------------------------------------------------------------------------
/// Takes a rebuild that failed. A session that is half there is worse than
/// none, so the connection is given up. The layouts come back: without them
/// the next attempt would open the channels, configure nothing, subscribe to
/// nothing, and call that a success.
pub fn rebuild_failed(client: &mut DXLinkClient, before: client::SchemaSnapshot)
    ensures
        final(client)@ == (ClientTree { connected: false, schemas: before@, ..old(client)@ }),
{
    client.set_connected(false);
    client.restore_schemas(before);
}

/// Whether two states of a client have the same to replay: the same channels,
/// contracts and subscriptions.
pub open spec fn same_to_replay(a: ClientTree, b: ClientTree) -> bool {
    a.channels == b.channels && a.contracts == b.contracts && a.subscriptions == b.subscriptions
}

/// Whatever a step of a replay comes to, it leaves alone what is replayed.
pub proof fn a_replay_keeps_what_it_replays(
    result: DXLinkResult<ReplayAction>,
    after: ClientTree,
    before: ClientTree,
    replay_after: ReplayTree,
    replay: ReplayTree,
    channel: u32,
    id: u64,
    schema: SchemaTree,
)
    ensures
        same_to_replay(client::settled(before, id), before),
        same_to_replay(client::with_schema(before, channel, schema), before),
        goes_on(result, after, before, replay) ==> same_to_replay(after, before),
        reopened(result, after, replay_after, before, replay, channel) ==> same_to_replay(
            after,
            before,
        ),
        reconfigured(result, after, before, replay_after, channel) ==> same_to_replay(
            after,
            before,
        ),
{
}

/// A rebuild that fails leaves the next attempt with all that the first one
/// had: the layouts are back, and what is to be replayed was never touched.
pub proof fn a_failed_rebuild_loses_nothing(before: ClientTree, later: ClientTree)
    requires
        same_to_replay(later, before),
    ensures
        ({
            let after = ClientTree { connected: false, schemas: before.schemas, ..later };
            &&& after.schemas == before.schemas
            &&& same_to_replay(after, before)
            &&& forall|list: Seq<KnownTree>|
                client::lists_known(list, after) <==> client::lists_known(list, before)
        }),
{
    let after = ClientTree { connected: false, schemas: before.schemas, ..later };
    assert forall|channel: u32| #[trigger] client::known_channel(after, channel)
        == client::known_channel(before, channel) by {}
}

} // verus!
