//! The messages of the protocol as JSON: what is sent, and how what is received is read.

use crate::compact;
use crate::events::{CompactData, CompactTree};
use crate::json;
use crate::json::{JsonNumber, JsonTree, JsonValue, NumberTree};
use crate::layout::FieldLists;
use crate::messages;
use crate::messages::{
    AuthMessage, AuthStateMessage, BaseMessage, ChannelCancelMessage, ChannelRequestMessage,
    ErrorMessage, FeedConfigMessage, FeedDataMessage, FeedSetupMessage, FeedSubscription,
    FeedSubscriptionMessage, KeepaliveMessage, ServerSetupMessage, SetupMessage, SubscriptionTree,
};
use crate::text;
use vstd::prelude::*;

verus! {

// ---------------------------------------------------------------------------
// What is sent
// ---------------------------------------------------------------------------
/// The fields of an object.
pub type Fields = Seq<(Seq<char>, JsonTree)>;

/// A whole number as JSON.
pub open spec fn whole(n: int) -> JsonTree {
    JsonTree::Number(NumberTree::Integer(n))
}

/// A message: its channel and its type, and then what else it says.
pub open spec fn addressed(channel: u32, message_type: Seq<char>, rest: Fields) -> JsonTree {
    JsonTree::Object(
        seq![("channel"@, whole(channel as int)), ("type"@, JsonTree::Text(message_type))] + rest,
    )
}

/// A field that is left out where there is nothing to say.
pub open spec fn said(name: Seq<char>, value: Option<JsonTree>) -> Fields {
    match value {
        Some(value) => seq![(name, value)],
        None => Seq::empty(),
    }
}

/// A list of texts as JSON.
pub open spec fn text_array(list: Seq<Seq<char>>) -> JsonTree {
    JsonTree::Array(list.map_values(|text: Seq<char>| JsonTree::Text(text)))
}

/// What a `SETUP` of the client says.
pub open spec fn setup_fields(message: SetupMessage) -> Fields {
    seq![
        ("keepaliveTimeout"@, whole(message.keepalive_timeout as int)),
        ("acceptKeepaliveTimeout"@, whole(message.accept_keepalive_timeout as int)),
        ("version"@, JsonTree::Text(message.version@)),
    ]
}

/// The parameters of a service.
pub open spec fn parameter_fields(parameters: Seq<(String, String)>) -> Fields {
    parameters.map_values(|p: (String, String)| (p.0@, JsonTree::Text(p.1@)))
}

/// What a request for a channel says.
pub open spec fn channel_request_fields(message: ChannelRequestMessage) -> Fields {
    seq![
        ("service"@, JsonTree::Text(message.service@)),
        ("parameters"@, JsonTree::Object(parameter_fields(message.parameters@))),
    ]
}

/// A subscription as JSON.
pub open spec fn subscription_value(subscription: SubscriptionTree) -> JsonTree {
    JsonTree::Object(
        seq![
            ("type"@, JsonTree::Text(subscription.event_type)),
            ("symbol"@, JsonTree::Text(subscription.symbol)),
        ] + said(
            "fromTime"@,
            match subscription.from_time {
                Some(time) => Some(whole(time as int)),
                None => None,
            },
        ) + said(
            "source"@,
            match subscription.source {
                Some(source) => Some(JsonTree::Text(source)),
                None => None,
            },
        ),
    )
}

/// A list of subscriptions as JSON, where there is one.
pub open spec fn subscription_list(list: Option<Vec<FeedSubscription>>) -> Option<JsonTree> {
    match list {
        Some(list) => Some(
            JsonTree::Array(
                messages::subscription_trees(list@).map_values(
                    |s: SubscriptionTree| subscription_value(s),
                ),
            ),
        ),
        None => None,
    }
}

/// What a change of subscriptions says.
pub open spec fn feed_subscription_fields(message: FeedSubscriptionMessage) -> Fields {
    said("add"@, subscription_list(message.add)) + said(
        "remove"@,
        subscription_list(message.remove),
    ) + said(
        "reset"@,
        match message.reset {
            Some(reset) => Some(JsonTree::Bool(reset)),
            None => None,
        },
    )
}

/// Whether an object lists the columns of each type, every type once.
pub open spec fn lists_columns(fields: Fields, lists: Map<Seq<char>, Seq<Seq<char>>>) -> bool {
    &&& forall|i: int, j: int|
        0 <= i < j < fields.len() ==> (#[trigger] fields[i]).0 != (#[trigger] fields[j]).0
    &&& forall|i: int|
        0 <= i < fields.len() ==> lists.contains_key((#[trigger] fields[i]).0) && fields[i].1
            == text_array(lists[fields[i].0])
    &&& forall|name: Seq<char>| #[trigger]
        lists.contains_key(name) ==> exists|i: int|
            0 <= i < fields.len() && (#[trigger] fields[i]).0 == name
}

/// What a set-up of a feed says, with the columns as an object lists them.
pub open spec fn feed_setup_fields(message: FeedSetupMessage, columns: Fields) -> Fields {
    seq![
        ("acceptAggregationPeriod"@, JsonTree::Number(message.accept_aggregation_period@)),
        ("acceptDataFormat"@, JsonTree::Text(message.accept_data_format@)),
        ("acceptEventFields"@, JsonTree::Object(columns)),
    ]
}

fn number(n: u32) -> (r: JsonValue)
    ensures
        r@ == whole(n as int),
{
    JsonValue::Number(JsonNumber::Unsigned(n as u64))
}

fn texts_value(list: &Vec<String>) -> (r: JsonValue)
    ensures
        r@ == text_array(text::texts(list@)),
{
    let mut out: Vec<JsonValue> = Vec::new();
    let mut i: usize = 0;
    while i < list.len()
        invariant
            i <= list.len(),
            out@.len() == i,
            forall|j: int| 0 <= j < i ==> json::tree(#[trigger] out@[j]) == JsonTree::Text(
                list@[j]@,
            ),
        decreases list.len() - i,
    {
        out.push(JsonValue::Text(list[i].as_str().to_owned()));
        i += 1;
    }
    assert(json::trees(out@) =~= text::texts(list@).map_values(
        |text: Seq<char>| JsonTree::Text(text),
    ));
    JsonValue::Array(out)
}

fn address(channel: u32, message_type: &str) -> (r: Vec<(String, JsonValue)>)
    ensures
        json::field_trees(r@) == seq![
            ("channel"@, whole(channel as int)),
            ("type"@, JsonTree::Text(message_type@)),
        ],
{
    let mut fields: Vec<(String, JsonValue)> = Vec::new();
    say(&mut fields, "channel", number(channel));
    say(&mut fields, "type", JsonValue::Text(message_type.to_owned()));
    assert(json::field_trees(fields@) =~= seq![
        ("channel"@, whole(channel as int)),
        ("type"@, JsonTree::Text(message_type@)),
    ]);
    fields
}

fn say(fields: &mut Vec<(String, JsonValue)>, name: &str, value: JsonValue)
    ensures
        json::field_trees(final(fields)@) == json::field_trees(old(fields)@).push((name@, value@)),
{
    fields.push((name.to_owned(), value));
    assert(json::field_trees(fields@) =~= json::field_trees(old(fields)@).push((name@, value@)));
}

impl SetupMessage {
    /// The message as JSON.
    pub fn to_value(&self) -> (r: JsonValue)
        ensures
            r@ == addressed(self.channel, self.message_type@, setup_fields(*self)),
    {
        let mut fields = address(self.channel, self.message_type.as_str());
        let ghost start = json::field_trees(fields@);
        say(&mut fields, "keepaliveTimeout", number(self.keepalive_timeout));
        say(&mut fields, "acceptKeepaliveTimeout", number(self.accept_keepalive_timeout));
        say(&mut fields, "version", JsonValue::Text(self.version.as_str().to_owned()));
        assert(json::field_trees(fields@) =~= start + setup_fields(*self));
        JsonValue::Object(fields)
    }
}

impl BaseMessage {
    /// The message as JSON.
    pub fn to_value(&self) -> (r: JsonValue)
        ensures
            r@ == addressed(self.channel, self.message_type@, Seq::empty()),
    {
        let fields = address(self.channel, self.message_type.as_str());
        let ghost start = json::field_trees(fields@);
        assert(start + Seq::<(Seq<char>, JsonTree)>::empty() =~= start);
        JsonValue::Object(fields)
    }
}

impl KeepaliveMessage {
    /// The message as JSON.
    pub fn to_value(&self) -> (r: JsonValue)
        ensures
            r@ == addressed(self.channel, self.message_type@, Seq::empty()),
    {
        let fields = address(self.channel, self.message_type.as_str());
        let ghost start = json::field_trees(fields@);
        assert(start + Seq::<(Seq<char>, JsonTree)>::empty() =~= start);
        JsonValue::Object(fields)
    }
}

impl ChannelCancelMessage {
    /// The message as JSON.
    pub fn to_value(&self) -> (r: JsonValue)
        ensures
            r@ == addressed(self.channel, self.message_type@, Seq::empty()),
    {
        let fields = address(self.channel, self.message_type.as_str());
        let ghost start = json::field_trees(fields@);
        assert(start + Seq::<(Seq<char>, JsonTree)>::empty() =~= start);
        JsonValue::Object(fields)
    }
}

impl AuthMessage {
    /// The message as JSON.
    pub fn to_value(&self) -> (r: JsonValue)
        ensures
            r@ == addressed(
                self.channel,
                self.message_type@,
                seq![("token"@, JsonTree::Text(self.token@))],
            ),
    {
        let mut fields = address(self.channel, self.message_type.as_str());
        let ghost start = json::field_trees(fields@);
        say(&mut fields, "token", JsonValue::Text(self.token.as_str().to_owned()));
        assert(json::field_trees(fields@) =~= start + seq![
            ("token"@, JsonTree::Text(self.token@)),
        ]);
        JsonValue::Object(fields)
    }
}

impl ChannelRequestMessage {
    /// The message as JSON.
    pub fn to_value(&self) -> (r: JsonValue)
        ensures
            r@ == addressed(self.channel, self.message_type@, channel_request_fields(*self)),
    {
        let mut parameters: Vec<(String, JsonValue)> = Vec::new();
        let mut i: usize = 0;
        let ghost all = parameter_fields(self.parameters@);
        assert(json::field_trees(parameters@) =~= all.take(0));
        while i < self.parameters.len()
            invariant
                i <= self.parameters.len(),
                all == parameter_fields(self.parameters@),
                json::field_trees(parameters@) == all.take(i as int),
            decreases self.parameters.len() - i,
        {
            say(
                &mut parameters,
                self.parameters[i].0.as_str(),
                JsonValue::Text(self.parameters[i].1.as_str().to_owned()),
            );
            assert(all.take(i + 1) =~= all.take(i as int).push(all[i as int]));
            i += 1;
        }
        assert(all.take(self.parameters@.len() as int) =~= all);
        let mut fields = address(self.channel, self.message_type.as_str());
        let ghost start = json::field_trees(fields@);
        say(&mut fields, "service", JsonValue::Text(self.service.as_str().to_owned()));
        say(&mut fields, "parameters", JsonValue::Object(parameters));
        assert(json::field_trees(fields@) =~= start + channel_request_fields(*self));
        JsonValue::Object(fields)
    }
}

impl FeedSubscription {
    /// The subscription as JSON.
    pub fn to_value(&self) -> (r: JsonValue)
        ensures
            r@ == subscription_value(self@),
    {
        let mut fields: Vec<(String, JsonValue)> = Vec::new();
        say(&mut fields, "type", JsonValue::Text(self.event_type.as_str().to_owned()));
        say(&mut fields, "symbol", JsonValue::Text(self.symbol.as_str().to_owned()));
        match self.from_time {
            Some(time) => say(
                &mut fields,
                "fromTime",
                JsonValue::Number(JsonNumber::Signed(time)),
            ),
            None => {},
        }
        match &self.source {
            Some(source) => say(
                &mut fields,
                "source",
                JsonValue::Text(source.as_str().to_owned()),
            ),
            None => {},
        }
        assert(json::field_trees(fields@) =~= subscription_value(self@)->Object_0);
        JsonValue::Object(fields)
    }
}

fn subscriptions_value(list: &Vec<FeedSubscription>) -> (r: JsonValue)
    ensures
        Some(r@) == subscription_list(Some(*list)),
{
    let mut out: Vec<JsonValue> = Vec::new();
    let mut i: usize = 0;
    while i < list.len()
        invariant
            i <= list.len(),
            out@.len() == i,
            forall|j: int|
                0 <= j < i ==> json::tree(#[trigger] out@[j]) == subscription_value(list@[j]@),
        decreases list.len() - i,
    {
        out.push(list[i].to_value());
        i += 1;
    }
    assert(json::trees(out@) =~= messages::subscription_trees(list@).map_values(
        |s: SubscriptionTree| subscription_value(s),
    ));
    JsonValue::Array(out)
}

impl FeedSubscriptionMessage {
    /// The message as JSON.
    pub fn to_value(&self) -> (r: JsonValue)
        ensures
            r@ == addressed(self.channel, self.message_type@, feed_subscription_fields(*self)),
    {
        let mut fields = address(self.channel, self.message_type.as_str());
        let ghost start = json::field_trees(fields@);
        match &self.add {
            Some(add) => say(&mut fields, "add", subscriptions_value(add)),
            None => {},
        }
        match &self.remove {
            Some(remove) => say(&mut fields, "remove", subscriptions_value(remove)),
            None => {},
        }
        match self.reset {
            Some(reset) => say(&mut fields, "reset", JsonValue::Bool(reset)),
            None => {},
        }
        assert(json::field_trees(fields@) =~= start + feed_subscription_fields(*self));
        JsonValue::Object(fields)
    }
}

fn lists_value(lists: &FieldLists) -> (r: JsonValue)
    ensures
        r@ is Object,
        lists_columns(r@->Object_0, lists@),
{
    let names = lists.names();
    let ghost listed = text::texts(names@);
    let mut fields: Vec<(String, JsonValue)> = Vec::new();
    let mut i: usize = 0;
    while i < names.len()
        invariant
            i <= names.len(),
            listed == text::texts(names@),
            listed.no_duplicates(),
            forall|name: Seq<char>| listed.contains(name) <==> lists@.contains_key(name),
            json::field_trees(fields@).len() == i,
            forall|j: int|
                0 <= j < i ==> (#[trigger] json::field_trees(fields@)[j]) == (
                    listed[j],
                    text_array(lists@[listed[j]]),
                ),
        decreases names.len() - i,
    {
        assert(listed[i as int] == names@[i as int]@);
        assert(listed.contains(listed[i as int]));
        match lists.get(names[i].as_str()) {
            Some(columns) => say(&mut fields, names[i].as_str(), texts_value(columns)),
            None => {
                assert(false);
            },
        }
        i += 1;
    }
    proof {
        let trees = json::field_trees(fields@);
        assert forall|name: Seq<char>| #[trigger] lists@.contains_key(name) implies exists|j: int|
            0 <= j < trees.len() && (#[trigger] trees[j]).0 == name by {
            assert(listed.contains(name));
            let j = choose|j: int| 0 <= j < listed.len() && listed[j] == name;
            assert(trees[j].0 == name);
        }
        assert forall|j: int| 0 <= j < trees.len() implies lists@.contains_key(
            (#[trigger] trees[j]).0,
        ) by {
            assert(listed.contains(listed[j]));
        }
    }
    JsonValue::Object(fields)
}

impl FeedSetupMessage {
    /// The message as JSON. The order in which the types are listed is left
    /// open.
    pub fn to_value(&self) -> (r: JsonValue)
        ensures
            exists|columns: Fields|
                #![trigger feed_setup_fields(*self, columns)]
                lists_columns(columns, self.accept_event_fields@) && r@ == addressed(
                    self.channel,
                    self.message_type@,
                    feed_setup_fields(*self, columns),
                ),
    {
        let lists = lists_value(&self.accept_event_fields);
        let ghost columns = lists@->Object_0;
        let mut fields = address(self.channel, self.message_type.as_str());
        let ghost start = json::field_trees(fields@);
        say(
            &mut fields,
            "acceptAggregationPeriod",
            JsonValue::Number(self.accept_aggregation_period.copied()),
        );
        say(
            &mut fields,
            "acceptDataFormat",
            JsonValue::Text(self.accept_data_format.as_str().to_owned()),
        );
        say(&mut fields, "acceptEventFields", lists);
        assert(json::field_trees(fields@) =~= start + feed_setup_fields(*self, columns));
        JsonValue::Object(fields)
    }
}

// ---------------------------------------------------------------------------
// What is received
// ---------------------------------------------------------------------------
/// The words for a field that is not there.
pub open spec fn missing(name: Seq<char>) -> Seq<char> {
    "missing field `"@ + name + "`"@
}

/// The words for a field that holds something else than it should.
pub open spec fn unlike(name: Seq<char>, kind: Seq<char>, value: JsonTree) -> Seq<char> {
    "field `"@ + name + "` should be "@ + kind + ", got "@ + json::rendered(value)
}

/// What a field of text holds, or in words why it cannot be read.
pub open spec fn text_member(value: JsonTree, name: Seq<char>) -> Result<Seq<char>, Seq<char>> {
    match json::field_of(value, name) {
        None => Err(missing(name)),
        Some(JsonTree::Text(text)) => Ok(text),
        Some(field) => Err(unlike(name, "a string"@, field)),
    }
}

/// What a field of text holds that may be left out.
pub open spec fn maybe_text_member(value: JsonTree, name: Seq<char>) -> Result<
    Option<Seq<char>>,
    Seq<char>,
> {
    match json::field_of(value, name) {
        None => Ok(None),
        Some(JsonTree::Null) => Ok(None),
        Some(JsonTree::Text(text)) => Ok(Some(text)),
        Some(field) => Err(unlike(name, "a string"@, field)),
    }
}

/// What a field holds that is a small whole number.
pub open spec fn whole_member(value: JsonTree, name: Seq<char>) -> Result<u32, Seq<char>> {
    match json::field_of(value, name) {
        None => Err(missing(name)),
        Some(field) => match json::integer_of(field, 0, u32::MAX as int) {
            Some(n) => Ok(n as u32),
            None => Err(unlike(name, "a whole number"@, field)),
        },
    }
}

/// What a field holds that is a small whole number and may be left out.
pub open spec fn maybe_whole_member(value: JsonTree, name: Seq<char>) -> Result<
    Option<u32>,
    Seq<char>,
> {
    match json::field_of(value, name) {
        None => Ok(None),
        Some(JsonTree::Null) => Ok(None),
        Some(field) => match json::integer_of(field, 0, u32::MAX as int) {
            Some(n) => Ok(Some(n as u32)),
            None => Err(unlike(name, "a whole number"@, field)),
        },
    }
}

/// What a field holds that is a double.
pub open spec fn number_member(value: JsonTree, name: Seq<char>) -> Result<NumberTree, Seq<char>> {
    match json::field_of(value, name) {
        None => Err(missing(name)),
        Some(JsonTree::Number(n)) => Ok(NumberTree::Double(json::double_text(n))),
        Some(field) => Err(unlike(name, "a number"@, field)),
    }
}

/// The texts that an array holds, where it holds nothing else.
pub open spec fn texts_of(value: JsonTree) -> Option<Seq<Seq<char>>> {
    match value {
        JsonTree::Array(items) => if forall|i: int|
            0 <= i < items.len() ==> (#[trigger] items[i]) is Text {
            Some(items.map_values(|item: JsonTree| item->Text_0))
        } else {
            None
        },
        _ => None,
    }
}

/// The columns of each type, where every field lists some. A later field takes
/// the place of an earlier one of the same name.
pub open spec fn lists_of(fields: Fields) -> Option<Map<Seq<char>, Seq<Seq<char>>>>
    decreases fields.len(),
{
    if fields.len() == 0 {
        Some(Map::empty())
    } else {
        match (lists_of(fields.drop_last()), texts_of(fields.last().1)) {
            (Some(lists), Some(columns)) => Some(lists.insert(fields.last().0, columns)),
            _ => None,
        }
    }
}

/// What a field holds that lists the columns of each type and may be left out.
pub open spec fn maybe_lists_member(value: JsonTree, name: Seq<char>) -> Result<
    Option<Map<Seq<char>, Seq<Seq<char>>>>,
    Seq<char>,
> {
    match json::field_of(value, name) {
        None => Ok(None),
        Some(JsonTree::Null) => Ok(None),
        Some(field) => match field {
            JsonTree::Object(fields) => match lists_of(fields) {
                Some(lists) => Ok(Some(lists)),
                None => Err(unlike(name, "lists of strings"@, field)),
            },
            _ => Err(unlike(name, "lists of strings"@, field)),
        },
    }
}

pub(crate) fn missing_words(name: &str) -> (r: String)
    ensures
        r@ == missing(name@),
{
    let mut words = "missing field `".to_owned();
    words.append(name);
    words.append("`");
    words
}

pub(crate) fn unlike_words(name: &str, kind: &str, value: &JsonValue) -> (r: String)
    ensures
        r@ == unlike(name@, kind@, value@),
{
    let mut words = "field `".to_owned();
    words.append(name);
    words.append("` should be ");
    words.append(kind);
    words.append(", got ");
    words.append(value.render().as_str());
    words
}

fn read_text(value: &JsonValue, name: &str) -> (r: Result<String, String>)
    ensures
        match r {
            Ok(text) => text_member(value@, name@) == Ok::<Seq<char>, Seq<char>>(text@),
            Err(words) => text_member(value@, name@) == Err::<Seq<char>, Seq<char>>(words@),
        },
{
    match value.get(name) {
        None => Err(missing_words(name)),
        Some(field) => match field.as_str() {
            Some(text) => Ok(text.to_owned()),
            None => Err(unlike_words(name, "a string", field)),
        },
    }
}

fn read_maybe_text(value: &JsonValue, name: &str) -> (r: Result<Option<String>, String>)
    ensures
        match r {
            Ok(text) => maybe_text_member(value@, name@) == Ok::<Option<Seq<char>>, Seq<char>>(
                messages::optional_text(text),
            ),
            Err(words) => maybe_text_member(value@, name@) == Err::<Option<Seq<char>>, Seq<char>>(
                words@,
            ),
        },
{
    match value.get(name) {
        None => Ok(None),
        Some(JsonValue::Null) => Ok(None),
        Some(field) => match field.as_str() {
            Some(text) => Ok(Some(text.to_owned())),
            None => Err(unlike_words(name, "a string", field)),
        },
    }
}

fn small(value: &JsonValue) -> (r: Option<u32>)
    ensures
        match r {
            Some(n) => json::integer_of(value@, 0, u32::MAX as int) == Some(n as int),
            None => json::integer_of(value@, 0, u32::MAX as int) is None,
        },
{
    match value.as_u64() {
        Some(n) => if n <= u32::MAX as u64 {
            Some(n as u32)
        } else {
            None
        },
        None => None,
    }
}

fn read_whole(value: &JsonValue, name: &str) -> (r: Result<u32, String>)
    ensures
        match r {
            Ok(n) => whole_member(value@, name@) == Ok::<u32, Seq<char>>(n),
            Err(words) => whole_member(value@, name@) == Err::<u32, Seq<char>>(words@),
        },
{
    match value.get(name) {
        None => Err(missing_words(name)),
        Some(field) => match small(field) {
            Some(n) => Ok(n),
            None => Err(unlike_words(name, "a whole number", field)),
        },
    }
}

fn read_maybe_whole(value: &JsonValue, name: &str) -> (r: Result<Option<u32>, String>)
    ensures
        match r {
            Ok(n) => maybe_whole_member(value@, name@) == Ok::<Option<u32>, Seq<char>>(n),
            Err(words) => maybe_whole_member(value@, name@) == Err::<Option<u32>, Seq<char>>(
                words@,
            ),
        },
{
    match value.get(name) {
        None => Ok(None),
        Some(JsonValue::Null) => Ok(None),
        Some(field) => match small(field) {
            Some(n) => Ok(Some(n)),
            None => Err(unlike_words(name, "a whole number", field)),
        },
    }
}

fn read_number(value: &JsonValue, name: &str) -> (r: Result<JsonNumber, String>)
    ensures
        match r {
            Ok(n) => number_member(value@, name@) == Ok::<NumberTree, Seq<char>>(n@),
            Err(words) => number_member(value@, name@) == Err::<NumberTree, Seq<char>>(words@),
        },
{
    match value.get(name) {
        None => Err(missing_words(name)),
        Some(JsonValue::Number(n)) => Ok(JsonNumber::Double(n.double_text())),
        Some(field) => Err(unlike_words(name, "a number", field)),
    }
}

fn read_texts(value: &JsonValue) -> (r: Option<Vec<String>>)
    ensures
        match r {
            Some(list) => texts_of(value@) == Some(text::texts(list@)),
            None => texts_of(value@) is None,
        },
{
    match value {
        JsonValue::Array(items) => {
            let ghost all = json::trees(items@);
            let mut out: Vec<String> = Vec::new();
            let mut i: usize = 0;
            while i < items.len()
                invariant
                    i <= items.len(),
                    all == json::trees(items@),
                    value@ == JsonTree::Array(all),
                    out@.len() == i,
                    forall|j: int|
                        #![trigger out@[j]]
                        #![trigger all[j]]
                        0 <= j < i ==> all[j] == JsonTree::Text(out@[j]@),
                decreases items.len() - i,
            {
                assert(all[i as int] == items@[i as int]@);
                match items[i].as_str() {
                    Some(text) => out.push(text.to_owned()),
                    None => return None,
                }
                i += 1;
            }
            proof {
                let held = all.map_values(|item: JsonTree| item->Text_0);
                assert forall|j: int| 0 <= j < held.len() implies held[j] == text::texts(out@)[j] by {
                    assert(all[j] == JsonTree::Text(out@[j]@));
                }
                assert(held =~= text::texts(out@));
            }
            Some(out)
        },
        _ => None,
    }
}

fn read_lists(fields: &Vec<(String, JsonValue)>) -> (r: Option<FieldLists>)
    ensures
        match r {
            Some(lists) => lists_of(json::field_trees(fields@)) == Some(lists@),
            None => lists_of(json::field_trees(fields@)) is None,
        },
{
    let ghost all = json::field_trees(fields@);
    let mut out = FieldLists::new();
    let mut i: usize = 0;
    assert(all.take(0) =~= Seq::<(Seq<char>, JsonTree)>::empty());
    while i < fields.len()
        invariant
            i <= fields.len(),
            all == json::field_trees(fields@),
            lists_of(all.take(i as int)) == Some(out@),
        decreases fields.len() - i,
    {
        proof {
            assert(all.take(i + 1).drop_last() =~= all.take(i as int));
            assert(all.take(i + 1).last() == (fields@[i as int].0@, fields@[i as int].1@));
        }
        match read_texts(&fields[i].1) {
            Some(columns) => out.insert(fields[i].0.as_str(), columns),
            None => {
                proof {
                    unreadable_lists_stay_unreadable(all, i + 1);
                }
                return None;
            },
        }
        i += 1;
    }
    assert(all.take(fields@.len() as int) =~= all);
    Some(out)
}

/// A field that lists no columns spoils the whole object.
proof fn unreadable_lists_stay_unreadable(fields: Fields, upto: int)
    requires
        0 <= upto <= fields.len(),
        lists_of(fields.take(upto)) is None,
    ensures
        lists_of(fields) is None,
    decreases fields.len(),
{
    if upto < fields.len() {
        assert(fields.drop_last().take(upto) =~= fields.take(upto));
        unreadable_lists_stay_unreadable(fields.drop_last(), upto);
    } else {
        assert(fields.take(upto) =~= fields);
    }
}

/// The map behind optional field lists.
pub open spec fn optional_lists(lists: Option<FieldLists>) -> Option<
    Map<Seq<char>, Seq<Seq<char>>>,
> {
    match lists {
        Some(lists) => Some(lists@),
        None => None,
    }
}

fn read_maybe_lists(value: &JsonValue, name: &str) -> (r: Result<Option<FieldLists>, String>)
    ensures
        match r {
            Ok(lists) => maybe_lists_member(value@, name@) == Ok::<
                Option<Map<Seq<char>, Seq<Seq<char>>>>,
                Seq<char>,
            >(optional_lists(lists)),
            Err(words) => maybe_lists_member(value@, name@) == Err::<
                Option<Map<Seq<char>, Seq<Seq<char>>>>,
                Seq<char>,
            >(words@),
        },
{
    match value.get(name) {
        None => Ok(None),
        Some(JsonValue::Null) => Ok(None),
        Some(field) => match field {
            JsonValue::Object(fields) => match read_lists(fields) {
                Some(lists) => Ok(Some(lists)),
                None => Err(unlike_words(name, "lists of strings", field)),
            },
            _ => Err(unlike_words(name, "lists of strings", field)),
        },
    }
}

/// The first of some complaints.
pub open spec fn first_complaint(first: Option<Seq<char>>, then: Option<Seq<char>>) -> Option<
    Seq<char>,
> {
    match first {
        Some(words) => Some(words),
        None => then,
    }
}

/// The complaint about a field, if there is one.
pub open spec fn complaint<T>(read: Result<T, Seq<char>>) -> Option<Seq<char>> {
    match read {
        Ok(_) => None,
        Err(words) => Some(words),
    }
}

/// What keeps a value from being the server's `SETUP`, if anything does.
pub open spec fn server_setup_complaint(value: JsonTree) -> Option<Seq<char>> {
    first_complaint(
        complaint(whole_member(value, "channel"@)),
        first_complaint(
            complaint(text_member(value, "type"@)),
            first_complaint(
                complaint(maybe_text_member(value, "version"@)),
                complaint(maybe_whole_member(value, "keepaliveTimeout"@)),
            ),
        ),
    )
}

impl ServerSetupMessage {
    /// Whether a value says what the message says.
    pub open spec fn is_said_by(self, value: JsonTree) -> bool {
        &&& whole_member(value, "channel"@) == Ok::<u32, Seq<char>>(self.channel)
        &&& text_member(value, "type"@) == Ok::<Seq<char>, Seq<char>>(self.message_type@)
        &&& maybe_text_member(value, "version"@) == Ok::<Option<Seq<char>>, Seq<char>>(
            messages::optional_text(self.version),
        )
        &&& maybe_whole_member(value, "keepaliveTimeout"@) == Ok::<Option<u32>, Seq<char>>(
            self.keepalive_timeout,
        )
    }

    /// Reads the message, or says in words why it cannot be read.
    pub fn from_value(value: &JsonValue) -> (r: Result<Self, String>)
        ensures
            match r {
                Ok(message) => server_setup_complaint(value@) is None && message.is_said_by(value@),
                Err(words) => server_setup_complaint(value@) == Some(words@),
            },
    {
        let channel: u32 = match read_whole(value, "channel") {
            Ok(channel) => channel,
            Err(words) => return Err(words),
        };
        let message_type = match read_text(value, "type") {
            Ok(message_type) => message_type,
            Err(words) => return Err(words),
        };
        let version = match read_maybe_text(value, "version") {
            Ok(version) => version,
            Err(words) => return Err(words),
        };
        let keepalive_timeout = match read_maybe_whole(value, "keepaliveTimeout") {
            Ok(keepalive_timeout) => keepalive_timeout,
            Err(words) => return Err(words),
        };
        Ok(ServerSetupMessage { channel, message_type, version, keepalive_timeout })
    }
}

/// What keeps a value from being an `AUTH_STATE`, if anything does.
pub open spec fn auth_state_complaint(value: JsonTree) -> Option<Seq<char>> {
    first_complaint(
        complaint(whole_member(value, "channel"@)),
        first_complaint(
            complaint(text_member(value, "type"@)),
            first_complaint(
                complaint(text_member(value, "state"@)),
                complaint(maybe_text_member(value, "userId"@)),
            ),
        ),
    )
}

impl AuthStateMessage {
    /// Whether a value says what the message says.
    pub open spec fn is_said_by(self, value: JsonTree) -> bool {
        &&& whole_member(value, "channel"@) == Ok::<u32, Seq<char>>(self.channel)
        &&& text_member(value, "type"@) == Ok::<Seq<char>, Seq<char>>(self.message_type@)
        &&& text_member(value, "state"@) == Ok::<Seq<char>, Seq<char>>(self.state@)
        &&& maybe_text_member(value, "userId"@) == Ok::<Option<Seq<char>>, Seq<char>>(
            messages::optional_text(self.user_id),
        )
    }

    /// Reads the message, or says in words why it cannot be read.
    pub fn from_value(value: &JsonValue) -> (r: Result<Self, String>)
        ensures
            match r {
                Ok(message) => auth_state_complaint(value@) is None && message.is_said_by(value@),
                Err(words) => auth_state_complaint(value@) == Some(words@),
            },
    {
        let channel: u32 = match read_whole(value, "channel") {
            Ok(channel) => channel,
            Err(words) => return Err(words),
        };
        let message_type = match read_text(value, "type") {
            Ok(message_type) => message_type,
            Err(words) => return Err(words),
        };
        let state = match read_text(value, "state") {
            Ok(state) => state,
            Err(words) => return Err(words),
        };
        let user_id = match read_maybe_text(value, "userId") {
            Ok(user_id) => user_id,
            Err(words) => return Err(words),
        };
        Ok(AuthStateMessage { channel, message_type, state, user_id })
    }
}

/// What keeps a value from being an `ERROR`, if anything does.
pub open spec fn error_complaint(value: JsonTree) -> Option<Seq<char>> {
    first_complaint(
        complaint(whole_member(value, "channel"@)),
        first_complaint(
            complaint(text_member(value, "type"@)),
            first_complaint(
                complaint(text_member(value, "error"@)),
                complaint(text_member(value, "message"@)),
            ),
        ),
    )
}

impl ErrorMessage {
    /// Whether a value says what the message says.
    pub open spec fn is_said_by(self, value: JsonTree) -> bool {
        &&& whole_member(value, "channel"@) == Ok::<u32, Seq<char>>(self.channel)
        &&& text_member(value, "type"@) == Ok::<Seq<char>, Seq<char>>(self.message_type@)
        &&& text_member(value, "error"@) == Ok::<Seq<char>, Seq<char>>(self.error@)
        &&& text_member(value, "message"@) == Ok::<Seq<char>, Seq<char>>(self.message@)
    }

    /// Reads the message, or says in words why it cannot be read.
    pub fn from_value(value: &JsonValue) -> (r: Result<Self, String>)
        ensures
            match r {
                Ok(message) => error_complaint(value@) is None && message.is_said_by(value@),
                Err(words) => error_complaint(value@) == Some(words@),
            },
    {
        let channel: u32 = match read_whole(value, "channel") {
            Ok(channel) => channel,
            Err(words) => return Err(words),
        };
        let message_type = match read_text(value, "type") {
            Ok(message_type) => message_type,
            Err(words) => return Err(words),
        };
        let error = match read_text(value, "error") {
            Ok(error) => error,
            Err(words) => return Err(words),
        };
        let message = match read_text(value, "message") {
            Ok(message) => message,
            Err(words) => return Err(words),
        };
        Ok(ErrorMessage { channel, message_type, error, message })
    }
}

/// What keeps a value from being a `FEED_CONFIG`, if anything does.
pub open spec fn feed_config_complaint(value: JsonTree) -> Option<Seq<char>> {
    first_complaint(
        complaint(whole_member(value, "channel"@)),
        first_complaint(
            complaint(text_member(value, "type"@)),
            first_complaint(
                complaint(number_member(value, "aggregationPeriod"@)),
                first_complaint(
                    complaint(text_member(value, "dataFormat"@)),
                    complaint(maybe_lists_member(value, "eventFields"@)),
                ),
            ),
        ),
    )
}

impl FeedConfigMessage {
    /// Whether a value says what the message says.
    pub open spec fn is_said_by(self, value: JsonTree) -> bool {
        &&& whole_member(value, "channel"@) == Ok::<u32, Seq<char>>(self.channel)
        &&& text_member(value, "type"@) == Ok::<Seq<char>, Seq<char>>(self.message_type@)
        &&& number_member(value, "aggregationPeriod"@) == Ok::<NumberTree, Seq<char>>(
            self.aggregation_period@,
        )
        &&& text_member(value, "dataFormat"@) == Ok::<Seq<char>, Seq<char>>(self.data_format@)
        &&& maybe_lists_member(value, "eventFields"@) == Ok::<
            Option<Map<Seq<char>, Seq<Seq<char>>>>,
            Seq<char>,
        >(optional_lists(self.event_fields))
    }

    /// Reads the message, or says in words why it cannot be read.
    pub fn from_value(value: &JsonValue) -> (r: Result<Self, String>)
        ensures
            match r {
                Ok(message) => feed_config_complaint(value@) is None && message.is_said_by(value@),
                Err(words) => feed_config_complaint(value@) == Some(words@),
            },
    {
        let channel: u32 = match read_whole(value, "channel") {
            Ok(channel) => channel,
            Err(words) => return Err(words),
        };
        let message_type = match read_text(value, "type") {
            Ok(message_type) => message_type,
            Err(words) => return Err(words),
        };
        let aggregation_period = match read_number(value, "aggregationPeriod") {
            Ok(aggregation_period) => aggregation_period,
            Err(words) => return Err(words),
        };
        let data_format = match read_text(value, "dataFormat") {
            Ok(data_format) => data_format,
            Err(words) => return Err(words),
        };
        let event_fields = match read_maybe_lists(value, "eventFields") {
            Ok(event_fields) => event_fields,
            Err(words) => return Err(words),
        };
        Ok(
            FeedConfigMessage {
                channel,
                message_type,
                aggregation_period,
                data_format,
                event_fields,
            },
        )
    }
}

// ---------------------------------------------------------------------------
// Data
// ---------------------------------------------------------------------------
/// An element of the data of a feed as JSON.
pub open spec fn element_value(element: CompactTree) -> JsonTree {
    match element {
        CompactTree::EventType(name) => JsonTree::Text(name),
        CompactTree::Values(values) => JsonTree::Array(values),
    }
}

/// The element of the data of a feed that a value is, if it is one.
pub open spec fn element_of(value: JsonTree) -> Option<CompactTree> {
    match value {
        JsonTree::Text(name) => Some(CompactTree::EventType(name)),
        JsonTree::Array(values) => Some(CompactTree::Values(values)),
        _ => None,
    }
}

/// The elements that an array holds, where it holds nothing else.
pub open spec fn elements_of(items: Seq<JsonTree>) -> Option<Seq<CompactTree>> {
    if forall|i: int| 0 <= i < items.len() ==> element_of(#[trigger] items[i]) is Some {
        Some(items.map_values(|item: JsonTree| element_of(item)->0))
    } else {
        None
    }
}

/// The data of a `FEED_DATA`, where the message can be read.
pub open spec fn feed_data(value: JsonTree) -> Option<Seq<CompactTree>> {
    if whole_member(value, "channel"@) is Err || text_member(value, "type"@) is Err {
        None
    } else {
        match json::field_of(value, "data"@) {
            Some(JsonTree::Array(items)) => elements_of(items),
            _ => None,
        }
    }
}

impl CompactData {
    /// The element as JSON.
    pub fn into_value(self) -> (r: JsonValue)
        ensures
            r@ == element_value(self@),
    {
        match self {
            CompactData::EventType(name) => JsonValue::Text(name),
            CompactData::Values(values) => JsonValue::Array(values),
        }
    }

    /// The element that a value is, if it is one.
    pub fn from_value(value: JsonValue) -> (r: Option<CompactData>)
        ensures
            match r {
                Some(element) => element_of(value@) == Some(element@),
                None => element_of(value@) is None,
            },
    {
        match value {
            JsonValue::Text(name) => Some(CompactData::EventType(name)),
            JsonValue::Array(values) => Some(CompactData::Values(values)),
            _ => None,
        }
    }
}

/// Reads a `FEED_DATA`, where it can be read.
pub fn read_feed_data(value: &JsonValue) -> (r: Option<FeedDataMessage<Vec<CompactData>>>)
    ensures
        match r {
            Some(message) => {
                &&& whole_member(value@, "channel"@) == Ok::<u32, Seq<char>>(message.channel)
                &&& text_member(value@, "type"@) == Ok::<Seq<char>, Seq<char>>(
                    message.message_type@,
                )
                &&& feed_data(value@) == Some(compact::data_trees(message.data@))
            },
            None => feed_data(value@) is None,
        },
{
    let channel: u32 = match read_whole(value, "channel") {
        Ok(channel) => channel,
        Err(_) => return None,
    };
    let message_type = match read_text(value, "type") {
        Ok(message_type) => message_type,
        Err(_) => return None,
    };
    let items = match value.get("data") {
        Some(JsonValue::Array(items)) => items,
        _ => return None,
    };
    let ghost all = json::trees(items@);
    let mut out: Vec<CompactData> = Vec::new();
    let mut i: usize = 0;
    while i < items.len()
        invariant
            i <= items.len(),
            all == json::trees(items@),
            feed_data(value@) == elements_of(all),
            out@.len() == i,
            forall|j: int|
                #![trigger out@[j]]
                #![trigger all[j]]
                0 <= j < i ==> element_of(all[j]) == Some(out@[j]@),
        decreases items.len() - i,
    {
        assert(all[i as int] == items@[i as int]@);
        match CompactData::from_value(items[i].copied()) {
            Some(element) => out.push(element),
            None => return None,
        }
        i += 1;
    }
    proof {
        let held = all.map_values(|item: JsonTree| element_of(item)->0);
        assert forall|j: int| 0 <= j < held.len() implies held[j] == compact::data_trees(
            out@,
        )[j] by {
            assert(element_of(all[j]) == Some(out@[j]@));
        }
        assert(held =~= compact::data_trees(out@));
    }
    Some(FeedDataMessage { channel, message_type, data: out })
}

// ---------------------------------------------------------------------------
// Laws
// ---------------------------------------------------------------------------
/// A message that is sent says on its face which channel it is about and what
/// it is: whoever reads it finds both.
pub proof fn messages_are_addressed(channel: u32, message_type: Seq<char>, rest: Fields)
    ensures
        whole_member(addressed(channel, message_type, rest), "channel"@) == Ok::<u32, Seq<char>>(
            channel,
        ),
        text_member(addressed(channel, message_type, rest), "type"@) == Ok::<
            Seq<char>,
            Seq<char>,
        >(message_type),
{
    reveal_strlit("channel");
    reveal_strlit("type");
    assert("channel"@.len() == 7);
    assert("type"@.len() == 4);
    let fields = addressed(channel, message_type, rest)->Object_0;
    assert(fields[0] == ("channel"@, whole(channel as int)));
    assert(fields.drop_first()[0] == ("type"@, JsonTree::Text(message_type)));
    reveal_with_fuel(json::first_field, 2);
}

/// Columns that were written out are read back as they were, for every type.
pub proof fn columns_round_trip(fields: Fields, lists: Map<Seq<char>, Seq<Seq<char>>>)
    requires
        lists_columns(fields, lists),
    ensures
        lists_of(fields) == Some(lists),
    decreases fields.len(),
{
    if fields.len() == 0 {
        assert forall|name: Seq<char>| !lists.contains_key(name) by {}
        assert(lists =~= Map::<Seq<char>, Seq<Seq<char>>>::empty());
    } else {
        let last = fields.last();
        let fewer = fields.drop_last();
        let rest = lists.remove(last.0);
        assert(fields[fields.len() - 1] == last);
        texts_round_trip(lists[last.0]);
        assert forall|i: int| 0 <= i < fewer.len() implies rest.contains_key(
            (#[trigger] fewer[i]).0,
        ) && fewer[i].1 == text_array(rest[fewer[i].0]) by {
            assert(fields[i] == fewer[i]);
            assert(fields[i].0 != fields[fields.len() - 1].0);
        }
        assert forall|name: Seq<char>| #[trigger] rest.contains_key(name) implies exists|i: int|
            0 <= i < fewer.len() && (#[trigger] fewer[i]).0 == name by {
            assert(lists.contains_key(name));
            let i = choose|i: int| 0 <= i < fields.len() && (#[trigger] fields[i]).0 == name;
            assert(fewer[i].0 == name);
        }
        assert forall|i: int, j: int| 0 <= i < j < fewer.len() implies (#[trigger] fewer[i]).0 != (
        #[trigger] fewer[j]).0 by {
            assert(fields[i].0 != fields[j].0);
        }
        columns_round_trip(fewer, rest);
        assert(rest.insert(last.0, lists[last.0]) =~= lists);
    }
}

/// A list of texts that was written out is read back as it was.
pub proof fn texts_round_trip(list: Seq<Seq<char>>)
    ensures
        texts_of(text_array(list)) == Some(list),
{
    let items = text_array(list)->Array_0;
    assert(items.map_values(|item: JsonTree| item->Text_0) =~= list);
}

/// The data of a feed that was written out is read back as it was.
pub proof fn data_round_trips(data: Seq<CompactTree>)
    ensures
        elements_of(data.map_values(|element: CompactTree| element_value(element))) == Some(data),
{
    let items = data.map_values(|element: CompactTree| element_value(element));
    assert(items.map_values(|item: JsonTree| element_of(item)->0) =~= data);
}

} // verus!
