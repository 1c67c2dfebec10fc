//! The layout that a channel is decoded against: what is asked for, what is
//! agreed to, and what may be subscribed under it.

use crate::channels::{at, drop_at, put};
use crate::compact::asked_names;
use crate::error::{DXLinkError, DXLinkResult, ErrorView};
use crate::events;
use crate::events::{EventType, ALL_EVENT_TYPES};
use crate::layout::FieldLists;
use crate::messages::{FeedConfigMessage, FeedSubscription, SubscriptionTree};
use crate::text;
use crate::text::{copy_texts, decimal_text, holds_text, join_texts, list_texts, same_ignoring_case};
use std::collections::BTreeMap;
use vstd::prelude::*;

verus! {

/// The columns of each event type of a channel.
pub type ChannelSchema = FieldLists;

/// What a channel schema is.
pub type SchemaTree = Map<Seq<char>, Seq<Seq<char>>>;

// ---------------------------------------------------------------------------
// What is asked for
// ---------------------------------------------------------------------------
/// The columns to ask for. A type that cannot be decoded is passed over.
pub open spec fn requested(event_types: Seq<EventType>) -> SchemaTree
    decreases event_types.len(),
{
    if event_types.len() == 0 {
        Map::empty()
    } else if events::is_decodable(event_types.last()) {
        requested(event_types.drop_last()).insert(
            events::wire_name(event_types.last()),
            events::field_names(event_types.last()),
        )
    } else {
        requested(event_types.drop_last())
    }
}

/// The columns to ask for.
pub fn requested_fields(event_types: &[EventType]) -> (r: ChannelSchema)
    ensures
        r@ == requested(event_types@),
{
    let mut schema = FieldLists::new();
    let mut i: usize = 0;
    assert(event_types@.take(0) =~= Seq::<EventType>::empty());
    while i < event_types.len()
        invariant
            i <= event_types@.len(),
            schema@ == requested(event_types@.take(i as int)),
        decreases event_types.len() - i,
    {
        assert(event_types@.take(i + 1).drop_last() =~= event_types@.take(i as int));
        assert(event_types@.take(i + 1).last() == event_types@[i as int]);
        match asked_names(event_types[i]) {
            Some(names) => {
                schema.insert(event_types[i].name(), names);
            },
            None => {},
        }
        i += 1;
    }
    assert(event_types@.take(event_types@.len() as int) =~= event_types@);
    schema
}

/// What is asked for: the types that can be decoded, each with the columns
/// that the decoder reads.
pub proof fn requests_are_decodable(event_types: Seq<EventType>, name: Seq<char>)
    ensures
        requested(event_types).contains_key(name) <==> exists|i: int|
            0 <= i < event_types.len() && events::is_decodable(#[trigger] event_types[i])
                && events::wire_name(event_types[i]) == name,
        requested(event_types).contains_key(name) ==> events::named(name) is Some
            && events::is_decodable(events::named(name)->0) && requested(event_types)[name]
            == events::field_names(events::named(name)->0),
    decreases event_types.len(),
{
    if event_types.len() > 0 {
        let init = event_types.drop_last();
        let last = event_types.last();
        requests_are_decodable(init, name);
        events::wire_names_round_trip(last, name);
        assert(event_types[event_types.len() - 1] == last);
        if exists|i: int|
            0 <= i < event_types.len() && events::is_decodable(#[trigger] event_types[i])
                && events::wire_name(event_types[i]) == name {
            let i = choose|i: int|
                0 <= i < event_types.len() && events::is_decodable(#[trigger] event_types[i])
                    && events::wire_name(event_types[i]) == name;
            if i < init.len() {
                assert(init[i] == event_types[i]);
            }
        }
        if requested(init).contains_key(name) {
            let i = choose|i: int|
                0 <= i < init.len() && events::is_decodable(#[trigger] init[i])
                    && events::wire_name(init[i]) == name;
            assert(event_types[i] == init[i]);
        }
    }
}

// ---------------------------------------------------------------------------
// What is agreed to
// ---------------------------------------------------------------------------
/// Whether rows of a layout say what they are and what they are about.
pub open spec fn is_identifiable(fields: Seq<Seq<char>>) -> bool {
    fields.contains("eventType"@) && fields.contains("eventSymbol"@)
}

/// The error of a layout whose rows cannot be identified.
pub open spec fn unidentifiable(event_type: Seq<char>, channel: u32, fields: Seq<Seq<char>>) -> Seq<
    char,
> {
    "channel "@ + text::decimal(channel as int) + ": the server negotiated a "@ + event_type
        + " layout with no `"@ + (if fields.contains("eventType"@) {
        "eventSymbol"@
    } else {
        "eventType"@
    }) + "` column ("@ + text::listed(fields) + "), so its rows cannot be identified"@
}

/// Refuses a layout whose rows cannot be identified.
///
/// Any other column may be missing and reads as not provided; without these
/// two, to decode a row would be to guess.
pub fn check_identifiable(event_type: &str, channel_id: u32, fields: &Vec<String>) -> (r:
    DXLinkResult<()>)
    ensures
        match r {
            Ok(_) => is_identifiable(text::texts(fields@)),
            Err(e) => !is_identifiable(text::texts(fields@)) && e@ == ErrorView::Protocol(
                unidentifiable(event_type@, channel_id, text::texts(fields@)),
            ),
        },
{
    let missing = if !holds_text(fields, "eventType") {
        "eventType"
    } else if !holds_text(fields, "eventSymbol") {
        "eventSymbol"
    } else {
        return Ok(());
    };
    let mut message = "channel ".to_owned();
    message.append(decimal_text(channel_id as u64).as_str());
    message.append(": the server negotiated a ");
    message.append(event_type);
    message.append(" layout with no `");
    message.append(missing);
    message.append("` column (");
    message.append(list_texts(fields).as_str());
    message.append("), so its rows cannot be identified");
    Err(DXLinkError::Protocol(message))
}

/// A schema with the layouts that the server named in place of its own. A type
/// that the server did not name keeps its layout, and a type that the schema
/// does not hold is not taken on.
pub open spec fn overlaid(schema: SchemaTree, named: SchemaTree) -> SchemaTree {
    Map::new(
        |name: Seq<char>| schema.contains_key(name),
        |name: Seq<char>|
            if named.contains_key(name) {
                named[name]
            } else {
                schema[name]
            },
    )
}

/// Whether a server names a layout for a type of a schema whose rows cannot be
/// identified.
pub open spec fn names_unidentifiable(
    schema: SchemaTree,
    named: SchemaTree,
    event_type: Seq<char>,
) -> bool {
    schema.contains_key(event_type) && named.contains_key(event_type) && !is_identifiable(
        named[event_type],
    )
}

/// Whether a data format is the one that can be decoded.
pub open spec fn is_compact(format: Seq<char>) -> bool {
    text::ascii_lowered(format) == text::ascii_lowered("COMPACT"@)
}

/// What a server names in its configuration.
pub open spec fn named_fields(config: FeedConfigMessage) -> SchemaTree {
    match config.event_fields {
        Some(fields) => fields@,
        None => Map::empty(),
    }
}

/// The error of a data format that cannot be decoded.
pub open spec fn not_compact(channel: u32, format: Seq<char>) -> Seq<char> {
    "channel "@ + text::decimal(channel as int)
        + ": this client decodes COMPACT rows, but the server negotiated "@ + format
}

/// Whether what the server settled on can be decoded.
pub open spec fn is_agreeable(config: FeedConfigMessage, event_types: Seq<EventType>) -> bool {
    &&& is_compact(config.data_format@)
    &&& forall|name: Seq<char>|
        !names_unidentifiable(requested(event_types), named_fields(config), name)
}

/// The layout that a channel will be decoded against.
pub open spec fn agreed(config: FeedConfigMessage, event_types: Seq<EventType>) -> SchemaTree {
    overlaid(requested(event_types), named_fields(config))
}

/// Whether an error is why what the server settled on cannot be decoded.
pub open spec fn refuses_config(
    error: ErrorView,
    config: FeedConfigMessage,
    channel: u32,
    event_types: Seq<EventType>,
) -> bool {
    ||| !is_compact(config.data_format@) && error == ErrorView::Protocol(
        not_compact(channel, config.data_format@),
    )
    ||| is_compact(config.data_format@) && exists|name: Seq<char>| #[trigger]
        names_unidentifiable(requested(event_types), named_fields(config), name) && error
            == ErrorView::Protocol(unidentifiable(name, channel, named_fields(config)[name]))
}

/// The layout that a channel will be decoded against.
///
/// A configuration reports what the server serves, which is not always what it
/// was asked for. What it cannot do is change the data format, or leave out the
/// columns that identify a row. Silence about a type is agreement.
pub fn negotiated_schema(
    config: &FeedConfigMessage,
    channel_id: u32,
    event_types: &[EventType],
) -> (r: DXLinkResult<ChannelSchema>)
    ensures
        match r {
            Ok(schema) => is_agreeable(*config, event_types@) && schema@ == agreed(
                *config,
                event_types@,
            ),
            Err(e) => !is_agreeable(*config, event_types@) && refuses_config(
                e@,
                *config,
                channel_id,
                event_types@,
            ),
        },
{
    if !same_ignoring_case(config.data_format.as_str(), "COMPACT") {
        let mut message = "channel ".to_owned();
        message.append(decimal_text(channel_id as u64).as_str());
        message.append(": this client decodes COMPACT rows, but the server negotiated ");
        message.append(config.data_format.as_str());
        return Err(DXLinkError::Protocol(message));
    }
    let schema = requested_fields(event_types);
    match &config.event_fields {
        None => {
            assert(named_fields(*config) == Map::<Seq<char>, Seq<Seq<char>>>::empty());
            assert(schema@ =~= overlaid(requested(event_types@), named_fields(*config)));
            Ok(schema)
        },
        Some(named) => {
            assert(named_fields(*config) == named@);
            overlay(&schema, named, channel_id)
        },
    }
}

/// Overlays a schema with what the server named, or says which layout cannot
/// be used.
fn overlay(schema: &FieldLists, named: &FieldLists, channel_id: u32) -> (r: DXLinkResult<
    FieldLists,
>)
    ensures
        match r {
            Ok(agreed) => {
                &&& forall|name: Seq<char>| !names_unidentifiable(schema@, named@, name)
                &&& agreed@ == overlaid(schema@, named@)
                &&& forall|name: Seq<char>| #[trigger]
                    agreed@.contains_key(name) <==> schema@.contains_key(name)
                &&& forall|name: Seq<char>|
                    schema@.contains_key(name) && named@.contains_key(name)
                        ==> #[trigger] agreed@[name] == named@[name]
                &&& forall|name: Seq<char>|
                    schema@.contains_key(name) && !named@.contains_key(name)
                        ==> #[trigger] agreed@[name] == schema@[name]
            },
            Err(e) => exists|name: Seq<char>| #[trigger]
                names_unidentifiable(schema@, named@, name) && e@ == ErrorView::Protocol(
                    unidentifiable(name, channel_id, named@[name]),
                ),
        },
{
    let names = named.names();
    let ghost all = text::texts(names@);
    let mut agreed = schema.copied();
    let mut i: usize = 0;
    while i < names.len()
        invariant
            i <= names.len(),
            all == text::texts(names@),
            forall|name: Seq<char>| all.contains(name) <==> named@.contains_key(name),
            forall|j: int|
                0 <= j < i ==> !names_unidentifiable(schema@, named@, #[trigger] all[j]),
            agreed@.dom() == schema@.dom(),
            forall|name: Seq<char>| #[trigger]
                agreed@.contains_key(name) ==> agreed@[name] == if all.take(i as int).contains(
                    name,
                ) {
                    named@[name]
                } else {
                    schema@[name]
                },
        decreases names.len() - i,
    {
        let ghost name = names@[i as int]@;
        let ghost before = agreed@;
        let name_text = names[i].as_str();
        proof {
            assert(all[i as int] == name);
            assert(all.contains(name));
        }
        if schema.contains(name_text) {
            match named.get(name_text) {
                Some(fields) => {
                    match check_identifiable(name_text, channel_id, fields) {
                        Ok(_) => {},
                        Err(e) => {
                            assert(names_unidentifiable(schema@, named@, name));
                            return Err(e);
                        },
                    }
                    agreed.insert(name_text, copy_texts(fields));
                    assert(agreed@ == before.insert(name, named@[name]));
                    assert(agreed@.dom() =~= schema@.dom());
                },
                None => {},
            }
        }
        proof {
            let taken = all.take(i as int);
            let more = all.take(i + 1);
            assert(more =~= taken.push(name));
            assert forall|other: Seq<char>| #[trigger] agreed@.contains_key(other) implies agreed@[other]
                == (if more.contains(other) {
                named@[other]
            } else {
                schema@[other]
            }) by {
                assert(before.contains_key(other));
                assert(more[i as int] == name);
                if other != name {
                    if more.contains(other) {
                        let k = choose|k: int| 0 <= k < more.len() && more[k] == other;
                        assert(taken[k] == other);
                    }
                    if taken.contains(other) {
                        let k = choose|k: int| 0 <= k < taken.len() && taken[k] == other;
                        assert(more[k] == other);
                    }
                }
            }
        }
        i += 1;
    }
    proof {
        assert(all.take(all.len() as int) =~= all);
        assert forall|name: Seq<char>| !names_unidentifiable(schema@, named@, name) by {
            if named@.contains_key(name) {
                assert(all.contains(name));
                let j = choose|j: int| 0 <= j < all.len() && all[j] == name;
                assert(!names_unidentifiable(schema@, named@, all[j]));
            }
        }
        assert(agreed@ =~= overlaid(schema@, named@)) by {
            assert forall|name: Seq<char>| agreed@.contains_key(name) implies agreed@[name]
                == overlaid(schema@, named@)[name] by {
                assert(all.contains(name) <==> named@.contains_key(name));
            }
        }
    }
    Ok(agreed)
}

/// Whether every layout of a schema can identify its rows.
pub open spec fn is_usable(schema: SchemaTree) -> bool {
    forall|name: Seq<char>| #[trigger]
        schema.contains_key(name) ==> is_identifiable(schema[name])
}

/// A layout that a channel is decoded against can always identify its rows: so
/// does what is asked for, and so does what is agreed to.
pub proof fn agreed_layouts_are_usable(event_types: Seq<EventType>, named: SchemaTree)
    requires
        forall|name: Seq<char>| !names_unidentifiable(requested(event_types), named, name),
    ensures
        is_usable(requested(event_types)),
        is_usable(overlaid(requested(event_types), named)),
{
    let schema = requested(event_types);
    assert forall|name: Seq<char>| #[trigger] schema.contains_key(name) implies is_identifiable(
        schema[name],
    ) by {
        requests_are_decodable(event_types, name);
        let event_type = events::named(name)->0;
        events::every_type_asks_for_its_identity(event_type);
        assert(schema[name][0] == "eventType"@);
        assert(schema[name][1] == "eventSymbol"@);
    }
    let agreed = overlaid(schema, named);
    assert forall|name: Seq<char>| #[trigger] agreed.contains_key(name) implies is_identifiable(
        agreed[name],
    ) by {
        assert(schema.contains_key(name));
        assert(!names_unidentifiable(schema, named, name));
    }
}

// ---------------------------------------------------------------------------
// What the server changes later
// ---------------------------------------------------------------------------
/// What a configured channel is decoded against after the server reports
/// another layout. Where it cannot be decoded any more, there is none: to keep
/// the old layout would be to read rows against something that the server has
/// moved away from.
pub open spec fn adopted(stored: SchemaTree, config: FeedConfigMessage) -> Option<SchemaTree> {
    let named = named_fields(config);
    if !is_compact(config.data_format@) {
        None
    } else if exists|name: Seq<char>| #[trigger] names_unidentifiable(stored, named, name) {
        None
    } else {
        Some(overlaid(stored, named))
    }
}

/// What the schemas of the channels hold.
pub open spec fn schema_trees(schemas: Map<u32, ChannelSchema>) -> Map<u32, SchemaTree> {
    schemas.map_values(|s: ChannelSchema| s@)
}

/// The schemas after a channel reported another layout. A channel that was
/// never set up has nothing to update.
pub open spec fn after_config(
    schemas: Map<u32, SchemaTree>,
    channel: u32,
    config: FeedConfigMessage,
) -> Map<u32, SchemaTree> {
    if !schemas.contains_key(channel) {
        schemas
    } else {
        match adopted(schemas[channel], config) {
            Some(schema) => schemas.insert(channel, schema),
            None => schemas.remove(channel),
        }
    }
}

/// Takes on the layout that a server reports for a channel that is already
/// configured.
pub fn adopt_config(
    schemas: &mut BTreeMap<u32, ChannelSchema>,
    channel_id: u32,
    config: &FeedConfigMessage,
)
    ensures
        schema_trees(final(schemas)@) == after_config(
            schema_trees(old(schemas)@),
            channel_id,
            *config,
        ),
{
    let ghost before = schemas@;
    let ghost trees = schema_trees(before);
    let changed = match at(schemas, channel_id) {
        None => return ,
        Some(stored) => {
            assert(trees[channel_id] == stored@);
            if !same_ignoring_case(config.data_format.as_str(), "COMPACT") {
                None
            } else {
                match &config.event_fields {
                    None => {
                        assert(stored@ =~= overlaid(stored@, named_fields(*config)));
                        Some(stored.copied())
                    },
                    Some(named) => match overlay(stored, named, channel_id) {
                        Ok(agreed) => Some(agreed),
                        Err(_) => None,
                    },
                }
            }
        },
    };
    match changed {
        Some(schema) => {
            let ghost agreed = schema@;
            put(schemas, channel_id, schema);
            assert(schema_trees(schemas@) =~= trees.insert(channel_id, agreed));
        },
        None => {
            drop_at(schemas, channel_id);
            assert(schema_trees(schemas@) =~= trees.remove(channel_id));
        },
    }
}

/// A reconfiguration leaves every other channel as it is, and a channel keeps
/// its types for as long as it is decoded at all.
pub proof fn reconfiguration_is_local(
    schemas: Map<u32, SchemaTree>,
    channel: u32,
    config: FeedConfigMessage,
    other: u32,
)
    requires
        other != channel,
    ensures
        after_config(schemas, channel, config).contains_key(other) == schemas.contains_key(other),
        schemas.contains_key(other) ==> after_config(schemas, channel, config)[other]
            == schemas[other],
        after_config(schemas, channel, config).contains_key(channel) ==> schemas.contains_key(
            channel,
        ) && after_config(schemas, channel, config)[channel].dom() == schemas[channel].dom(),
{
    if after_config(schemas, channel, config).contains_key(channel) {
        let named = named_fields(config);
        assert(overlaid(schemas[channel], named).dom() =~= schemas[channel].dom());
    }
}

/// A usable layout stays usable: a channel is never decoded against one whose
/// rows cannot be identified.
pub proof fn reconfiguration_keeps_layouts_usable(stored: SchemaTree, config: FeedConfigMessage)
    requires
        is_usable(stored),
    ensures
        adopted(stored, config) matches Some(schema) ==> is_usable(schema),
{
    if adopted(stored, config) is Some {
        let named = named_fields(config);
        let schema = overlaid(stored, named);
        assert forall|name: Seq<char>| #[trigger] schema.contains_key(name) implies is_identifiable(
            schema[name],
        ) by {
            assert(stored.contains_key(name));
            assert(!names_unidentifiable(stored, named, name));
        }
    }
}

// ---------------------------------------------------------------------------
// What may be subscribed
// ---------------------------------------------------------------------------
/// The names of the types that can be decoded.
pub open spec fn decodable_names(event_types: Seq<EventType>) -> Seq<Seq<char>>
    decreases event_types.len(),
{
    if event_types.len() == 0 {
        Seq::empty()
    } else if events::is_decodable(event_types.last()) {
        decodable_names(event_types.drop_last()).push(events::wire_name(event_types.last()))
    } else {
        decodable_names(event_types.drop_last())
    }
}

/// The types that can be decoded, for an error.
pub open spec fn decodable_list() -> Seq<char> {
    text::joined(decodable_names(ALL_EVENT_TYPES@), ", "@)
}

/// The types that can be decoded, for an error.
pub fn decodable_type_names() -> (r: String)
    ensures
        r@ == decodable_list(),
{
    let all = ALL_EVENT_TYPES;
    let mut names: Vec<String> = Vec::new();
    let mut i: usize = 0;
    assert(all@.take(0) =~= Seq::<EventType>::empty());
    assert(text::texts(names@) =~= Seq::<Seq<char>>::empty());
    while i < all.len()
        invariant
            i <= all@.len(),
            text::texts(names@) == decodable_names(all@.take(i as int)),
        decreases all.len() - i,
    {
        let ghost before = names@;
        assert(all@.take(i + 1).drop_last() =~= all@.take(i as int));
        assert(all@.take(i + 1).last() == all@[i as int]);
        if all[i].compact_fields().is_some() {
            names.push(all[i].to_string());
            assert(text::texts(names@) =~= text::texts(before).push(
                events::wire_name(all@[i as int]),
            ));
        }
        i += 1;
    }
    assert(all@.take(all@.len() as int) =~= all@);
    join_texts(&names, ", ")
}

/// Whether a subscription may be sent: its type is one that the protocol
/// declares, that can be decoded, and that the channel is configured for.
pub open spec fn is_accepted(subscription: SubscriptionTree, configured: SchemaTree) -> bool {
    match events::named(subscription.event_type) {
        Some(event_type) => events::is_decodable(event_type) && configured.contains_key(
            events::wire_name(event_type),
        ),
        None => false,
    }
}

/// Whether a text lists the types of a schema.
pub open spec fn lists_types(text: Seq<char>, configured: SchemaTree) -> bool {
    exists|names: Seq<Seq<char>>|
        {
            &&& names.no_duplicates()
            &&& (forall|name: Seq<char>| names.contains(name) <==> configured.contains_key(name))
            &&& text == #[trigger] text::joined(names, ", "@)
        }
}

/// Whether an error says why a subscription may not be sent.
pub open spec fn refuses(
    error: Seq<char>,
    subscription: SubscriptionTree,
    channel: u32,
    configured: SchemaTree,
) -> bool {
    match events::named(subscription.event_type) {
        None => error == events::unknown_type(subscription.event_type),
        Some(event_type) => if !events::is_decodable(event_type) {
            error == "this client cannot decode "@ + events::wire_name(event_type)
                + " events, so subscribing `"@ + subscription.symbol
                + "` to them would return nothing. Decoded types: "@ + decodable_list()
        } else {
            exists|types: Seq<char>| #[trigger]
                lists_types(types, configured) && error == "channel "@ + text::decimal(
                    channel as int,
                ) + " was not configured for "@ + events::wire_name(event_type)
                    + "; call setup_feed with it before subscribing `"@ + subscription.symbol
                    + "`. Configured: "@ + types
        },
    }
}

fn subscription_type(subscription: &FeedSubscription, channel_id: u32, configured: &ChannelSchema) -> (r:
    DXLinkResult<EventType>)
    ensures
        match r {
            Ok(event_type) => is_accepted(subscription@, configured@) && events::named(
                subscription.event_type@,
            ) == Some(event_type),
            Err(e) => !is_accepted(subscription@, configured@) && e@ is Protocol && refuses(
                e@->Protocol_0,
                subscription@,
                channel_id,
                configured@,
            ),
        },
{
    let event_type = match EventType::parse(subscription.event_type.as_str()) {
        Ok(event_type) => event_type,
        Err(e) => return Err(e),
    };
    if event_type.compact_fields().is_none() {
        let mut message = "this client cannot decode ".to_owned();
        message.append(event_type.name());
        message.append(" events, so subscribing `");
        message.append(subscription.symbol.as_str());
        message.append("` to them would return nothing. Decoded types: ");
        message.append(decodable_type_names().as_str());
        return Err(DXLinkError::Protocol(message));
    }
    if !configured.contains(event_type.name()) {
        let names = configured.names();
        let types = join_texts(&names, ", ");
        let mut message = "channel ".to_owned();
        message.append(decimal_text(channel_id as u64).as_str());
        message.append(" was not configured for ");
        message.append(event_type.name());
        message.append("; call setup_feed with it before subscribing `");
        message.append(subscription.symbol.as_str());
        message.append("`. Configured: ");
        message.append(types.as_str());
        assert(lists_types(types@, configured@)) by {
            let listed = text::texts(names@);
            assert(types@ == text::joined(listed, ", "@));
        }
        return Err(DXLinkError::Protocol(message));
    }
    Ok(event_type)
}

/// The types of some subscriptions, or the refusal of the first one that may
/// not be sent.
///
/// All or nothing: to send half and record the other half would leave client
/// and server disagreeing about what is subscribed.
pub fn parse_subscription_types(
    subscriptions: &Vec<FeedSubscription>,
    channel_id: u32,
    configured: &ChannelSchema,
) -> (r: DXLinkResult<Vec<EventType>>)
    ensures
        match r {
            Ok(types) => {
                &&& types@.len() == subscriptions@.len()
                &&& forall|i: int|
                    0 <= i < subscriptions@.len() ==> is_accepted(
                        (#[trigger] subscriptions@[i])@,
                        configured@,
                    ) && events::named(subscriptions@[i].event_type@) == Some(types@[i])
            },
            Err(e) => exists|i: int|
                {
                    &&& 0 <= i < subscriptions@.len()
                    &&& !is_accepted((#[trigger] subscriptions@[i])@, configured@)
                    &&& forall|j: int|
                        0 <= j < i ==> is_accepted((#[trigger] subscriptions@[j])@, configured@)
                    &&& e@ is Protocol
                    &&& refuses(
                        e@->Protocol_0,
                        subscriptions@[i]@,
                        channel_id,
                        configured@,
                    )
                },
        },
{
    let mut types: Vec<EventType> = Vec::new();
    let mut i: usize = 0;
    while i < subscriptions.len()
        invariant
            i <= subscriptions.len(),
            types@.len() == i,
            forall|j: int|
                0 <= j < i ==> is_accepted((#[trigger] subscriptions@[j])@, configured@)
                    && events::named(subscriptions@[j].event_type@) == Some(types@[j]),
        decreases subscriptions.len() - i,
    {
        match subscription_type(&subscriptions[i], channel_id, configured) {
            Ok(event_type) => types.push(event_type),
            Err(e) => {
                assert(!is_accepted(subscriptions@[i as int]@, configured@));
                return Err(e);
            },
        }
        i += 1;
    }
    Ok(types)
}

} // verus!
