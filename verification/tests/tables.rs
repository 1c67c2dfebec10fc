//! Subscriptions, requests, layouts and words.

use dxlink::compact::{decode, try_parse_negotiated};
use dxlink::events::{CompactData, EventType, MarketEvent};
use dxlink::json::JsonValue;
use dxlink::layout::FieldLists;
use dxlink::messages::{FeedConfigMessage, FeedSubscription};
use dxlink::requests::PendingRequests;
use dxlink::schema::{decodable_type_names, requested_fields};
use dxlink::subscriptions::SubscriptionBook;
use dxlink::text::{chars_of, decimal_text, same_ignoring_case, words_of};
use dxlink::wire::read_feed_data;

fn subscription(symbol: &str, source: Option<&str>, from_time: Option<i64>) -> FeedSubscription {
    FeedSubscription {
        event_type: "Quote".to_string(),
        symbol: symbol.to_string(),
        from_time,
        source: source.map(String::from),
    }
}

fn symbols(book: &SubscriptionBook, channel: u32) -> Vec<String> {
    book.of_channel(channel)
        .into_iter()
        .map(|s| s.symbol)
        .collect()
}

#[test]
fn a_subscription_is_tracked_once_and_last() {
    let mut book = SubscriptionBook::new();
    book.insert(2, EventType::Quote, subscription("A", None, None));
    book.insert(1, EventType::Quote, subscription("A", None, None));
    book.insert(1, EventType::Quote, subscription("B", None, None));
    book.insert(1, EventType::Trade, subscription("A", None, None));
    book.insert(1, EventType::Quote, subscription("A", Some("x"), None));
    assert_eq!(book.len(), 5);

    // The same subscription again comes last, with what was asked last.
    book.insert(1, EventType::Quote, subscription("A", None, Some(7)));
    assert_eq!(book.len(), 5);
    assert_eq!(symbols(&book, 1), ["B", "A", "A", "A"]);
    assert_eq!(book.of_channel(1)[3].from_time, Some(7));

    // Removing undoes adding, and leaves other identities and channels alone.
    book.remove(1, EventType::Quote, &subscription("A", None, None));
    assert_eq!(symbols(&book, 1), ["B", "A", "A"]);
    book.remove(1, EventType::Quote, &subscription("absent", None, None));
    assert_eq!(book.len(), 4);
    assert_eq!(book.channels(), [1, 2]);

    book.forget_channel(1);
    assert!(symbols(&book, 1).is_empty());
    assert_eq!(symbols(&book, 2), ["A"]);
    book.clear();
    assert_eq!(book.len(), 0);
}

#[test]
fn a_request_is_forgotten_by_its_identity() {
    let mut pending = PendingRequests::new();
    let first = pending.register("FEED_CONFIG", 1);
    let second = pending.register("FEED_CONFIG", 1);
    assert_ne!(first, second);
    pending.forget(first);
    pending.forget(first);
    assert_eq!(pending.len(), 1);
    // What timed out cannot take the answer of the next request.
    let taken = pending.take_answered("FEED_CONFIG", Some(1)).expect("the second waits");
    assert_eq!(taken.id, second);
    assert!(pending.take_answered("FEED_CONFIG", Some(1)).is_none());

    pending.register("CHANNEL_OPENED", 3);
    assert!(pending.take_answered("CHANNEL_OPENED", Some(4)).is_none());
    assert!(pending.take_answered("CHANNEL_CLOSED", Some(3)).is_none());
    pending.clear();
    assert_eq!(pending.len(), 0);
    assert_eq!(pending.last_id(), 3);
}

#[test]
fn field_lists_keep_one_list_for_each_name() {
    let mut lists = FieldLists::new();
    lists.insert("b", vec!["1".to_string()]);
    lists.insert("a", vec![]);
    lists.insert("b", vec!["2".to_string(), "3".to_string()]);
    assert_eq!(lists.len(), 2);
    assert_eq!(lists.names(), ["b", "a"]);
    assert_eq!(
        lists.get("b"),
        Some(&vec!["2".to_string(), "3".to_string()])
    );
    assert!(lists.contains("a") && !lists.contains("c"));
    let copy = lists.copied();
    assert_eq!(copy.names(), lists.names());
    assert_eq!(copy.get("b"), lists.get("b"));
}

#[test]
fn only_what_can_be_decoded_is_asked_for() {
    let asked = requested_fields(&[EventType::Quote, EventType::Order, EventType::Quote]);
    assert_eq!(asked.names(), ["Quote"]);
    assert_eq!(asked.get("Quote").expect("columns").len(), 6);
    let names = decodable_type_names();
    assert_eq!(
        names,
        "Quote, Trade, Summary, Profile, TimeAndSale, Candle, TradeETH, Greeks, TheoPrice, \
         Underlying, Series"
    );
}

fn row(values: Vec<JsonValue>) -> Vec<CompactData> {
    vec![
        CompactData::EventType("Trade".to_string()),
        CompactData::Values(values),
    ]
}

fn text(text: &str) -> JsonValue {
    JsonValue::Text(text.to_string())
}

#[test]
fn a_row_is_read_by_the_names_of_its_columns() {
    let mut layout = FieldLists::new();
    let names = ["size", "added", "eventSymbol", "eventType"].map(String::from);
    layout.insert("Trade", names.to_vec());
    let data = row(vec![
        JsonValue::parse("7").unwrap(),
        JsonValue::Null,
        text("AAPL"),
        text("Trade"),
    ]);
    let events = try_parse_negotiated(&data, &layout)
        .map_err(|e| e.to_string())
        .expect("well formed");
    match &events[0] {
        MarketEvent::Trade(trade) => {
            assert_eq!(trade.event_symbol, "AAPL");
            assert_eq!(trade.size.to_value().render(), "7.0");
            // What is not served reads as not provided.
            assert_eq!(trade.price.to_value().render(), "\"NaN\"");
        }
        other => panic!("expected a trade, got {other:?}"),
    }

    let no_symbol = {
        let mut layout = FieldLists::new();
        layout.insert("Trade", vec!["eventType".to_string()]);
        layout
    };
    let (events, error) = decode(&row(vec![text("Trade")]), Some(&no_symbol));
    assert!(events.is_empty());
    assert_eq!(
        error.expect("the row has no symbol").to_string(),
        "Protocol error: Trade row 0: the negotiated layout has no `eventSymbol` column, so the \
         row cannot be identified"
    );
    let (_, error) = decode(&[CompactData::Values(vec![])], None);
    assert_eq!(
        error.expect("no type").to_string(),
        "Protocol error: expected an event type at position 0, got a value array"
    );
    let (_, error) = decode(&row(vec![]), Some(&FieldLists::new()));
    assert_eq!(
        error.expect("no layout").to_string(),
        "Protocol error: event type `Trade` is not in the layout this channel negotiated, so \
         there is nothing to read its rows against"
    );
}

#[test]
fn messages_are_read_or_refused_field_by_field() {
    let read = |text: &str| FeedConfigMessage::from_value(&JsonValue::parse(text).unwrap());
    let config = read(
        r#"{"channel":4,"type":"FEED_CONFIG","aggregationPeriod":0.5,"dataFormat":"COMPACT",
            "eventFields":null,"added":1}"#,
    )
    .expect("a configuration");
    assert_eq!(config.channel, 4);
    assert_eq!(config.aggregation_period.render(), "0.5");
    assert!(config.event_fields.is_none());

    for (text, words) in [
        ("{}", "missing field `channel`"),
        (r#"{"channel":-1}"#, "field `channel` should be a whole number, got -1"),
        (r#"{"channel":4294967296}"#, "field `channel` should be a whole number, got 4294967296"),
        (r#"{"channel":1,"type":null}"#, "field `type` should be a string, got null"),
        (
            r#"{"channel":1,"type":"t","aggregationPeriod":"1"}"#,
            "field `aggregationPeriod` should be a number, got \"1\"",
        ),
        (
            r#"{"channel":1,"type":"t","aggregationPeriod":1,"dataFormat":"f","eventFields":{"Q":[1]}}"#,
            r#"field `eventFields` should be lists of strings, got {"Q":[1]}"#,
        ),
        (
            r#"{"channel":1,"type":"t","aggregationPeriod":1,"dataFormat":"f","eventFields":7}"#,
            "field `eventFields` should be lists of strings, got 7",
        ),
    ] {
        assert_eq!(read(text).map(|_| ()).unwrap_err(), words, "{text}");
    }

    let data = |text: &str| read_feed_data(&JsonValue::parse(text).unwrap());
    let elements = data(r#"{"channel":1,"type":"FEED_DATA","data":["Quote",[1,"x"]]}"#)
        .expect("the data can be read");
    assert_eq!(elements.channel, 1);
    assert_eq!(elements.message_type, "FEED_DATA");
    assert_eq!(elements.data.len(), 2);
    let written: Vec<String> = elements
        .data
        .into_iter()
        .map(|element| element.into_value().render())
        .collect();
    assert_eq!(written, ["\"Quote\"", "[1,\"x\"]"]);
    assert!(data(r#"{"type":"FEED_DATA","data":[]}"#).is_none());
    assert!(data(r#"{"channel":1,"type":"FEED_DATA","data":{}}"#).is_none());
    assert!(data(r#"{"channel":1,"type":"FEED_DATA","data":["Quote",7]}"#).is_none());
}

#[test]
fn numbers_and_words_are_as_the_standard_library_has_them() {
    for n in [0, 9, 10, 99, 100, 12345, u64::MAX] {
        assert_eq!(decimal_text(n), n.to_string());
    }
    for text in ["", " ", "a", "  a\u{a0}b\tc\n", "\u{2028}x y"] {
        let words: Vec<String> = text.split_whitespace().map(String::from).collect();
        let ours: Vec<String> = words_of(&chars_of(text))
            .into_iter()
            .map(|word| word.into_iter().collect())
            .collect();
        assert_eq!(ours, words);
    }
    assert!(same_ignoring_case("UnAuthorized", "UNAUTHORIZED"));
    assert!(!same_ignoring_case("\u{c9}", "\u{e9}"));
}

#[test]
fn a_clone_shows_what_it_was_cloned_from() {
    let value = JsonValue::parse(r#"{"a":[1,-2,"x",null,true],"b":{"c":2.5}}"#).expect("an object");
    assert_eq!(value.clone().render(), value.render());
    let elements = vec![
        CompactData::EventType("Quote".to_string()),
        CompactData::Values(vec![value]),
    ];
    assert_eq!(elements[0].clone().into_value().render(), r#""Quote""#);
    assert_eq!(
        elements[1].clone().into_value().render(),
        r#"[{"a":[1,-2,"x",null,true],"b":{"c":2.5}}]"#
    );
    let subscription = FeedSubscription {
        event_type: "Candle".to_string(),
        symbol: "AAPL{=d}".to_string(),
        from_time: Some(7),
        source: Some("NTV".to_string()),
    };
    let copy = subscription.clone();
    assert_eq!(copy.event_type, subscription.event_type);
    assert_eq!(copy.symbol, subscription.symbol);
    assert_eq!(copy.from_time, subscription.from_time);
    assert_eq!(copy.source, subscription.source);
    let mut lists = FieldLists::new();
    lists.insert("Quote", vec!["bidPrice".to_string()]);
    assert_eq!(lists.clone().get("Quote"), lists.get("Quote"));
}

#[test]
fn a_subscription_counts_once_and_channels_make_up_the_book() {
    let subscription = |symbol: &str, from_time| FeedSubscription {
        event_type: "Candle".to_string(),
        symbol: symbol.to_string(),
        from_time,
        source: None,
    };
    let mut book = SubscriptionBook::new();
    book.insert(2, EventType::Candle, subscription("AAPL", Some(1)));
    book.insert(1, EventType::Candle, subscription("AAPL", None));
    book.insert(2, EventType::Candle, subscription("MSFT", None));
    assert_eq!(book.len(), 3);
    // Another start of the history replaces, and counts no more.
    book.insert(2, EventType::Candle, subscription("AAPL", Some(9)));
    assert_eq!(book.len(), 3);
    assert_eq!(book.channels(), [1, 2]);
    let total: usize = book.channels().iter().map(|c| book.of_channel(*c).len()).sum();
    assert_eq!(total, book.len());
    assert_eq!(book.of_channel(2)[1].from_time, Some(9));
    book.clear();
    assert!(book.channels().is_empty());
    assert_eq!(book.len(), 0);
}
