//! What a client holds, and what each operation does to it.

use dxlink::client::{
    DXLinkClient, ChangeKind, DEFAULT_CLIENT_VERSION, DEFAULT_EVENT_BUFFER,
};
use dxlink::delivery::OverflowPolicy;
use dxlink::error::DXLinkError;
use dxlink::events::EventType;
use dxlink::layout::FieldLists;
use dxlink::messages::{FeedConfigMessage, FeedSubscription};
use dxlink::json::JsonNumber;
use dxlink::reconnect::{
    ReconnectPolicy, DEFAULT_KEEPALIVE_TIMEOUT, KEEPALIVE_DIVISOR, MIN_KEEPALIVE_INTERVAL_SECS,
};
use dxlink::requests::{Outcome, ResponseType};
use std::time::Duration;

fn connected() -> DXLinkClient {
    let mut client = DXLinkClient::new("wss://test.url", "test_token");
    client.finish_connect(None).expect("a new client");
    client
}

fn open_channel(client: &mut DXLinkClient) -> u32 {
    let (message, ticket) = client.create_feed_channel("AUTO").expect("connected");
    let answer = Outcome::Answered(ResponseType::ChannelOpened(message.channel));
    client
        .feed_channel_created("AUTO", &ticket, answer)
        .expect("opened")
}

fn config(channel: u32, format: &str, fields: Option<FieldLists>) -> FeedConfigMessage {
    FeedConfigMessage {
        channel,
        message_type: "FEED_CONFIG".to_string(),
        aggregation_period: JsonNumber::Double("0.1".to_string()),
        data_format: format.to_string(),
        event_fields: fields,
    }
}

fn configure(client: &mut DXLinkClient, channel: u32, types: &[EventType]) {
    let (_, ticket) = client.setup_feed(channel, types).expect("a feed");
    let answer = Outcome::Answered(ResponseType::FeedConfig(config(channel, "COMPACT", None)));
    client
        .feed_configured(types, &ticket, answer)
        .expect("configured");
}

fn subscription(event_type: &str, symbol: &str) -> FeedSubscription {
    FeedSubscription {
        event_type: event_type.to_string(),
        symbol: symbol.to_string(),
        from_time: None,
        source: None,
    }
}

fn symbols(client: &DXLinkClient, channel: u32) -> Vec<String> {
    client
        .subscriptions(channel)
        .into_iter()
        .map(|s| s.symbol)
        .collect()
}

#[test]
fn test_new_client() {
    let mut client = DXLinkClient::new("wss://test.url", "test_token");

    assert_eq!(client.url(), "wss://test.url");
    assert_eq!(client.token(), "test_token");
    assert_eq!(client.keepalive_timeout(), DEFAULT_KEEPALIVE_TIMEOUT);
    assert!(client.get_connection().is_err());
    // The stream of events has not been handed out.
    assert!(client.event_stream().is_ok());
    // Nothing runs that could be stopped.
    assert!(client.start_keepalive().is_err());
    assert!(client.start_message_processing().is_err());
}

#[test]
fn test_next_channel_id() {
    let mut client = DXLinkClient::new("wss://test.url", "test_token");

    let id1 = client.next_channel_id().unwrap();
    let id2 = client.next_channel_id().unwrap();

    assert_eq!(id2, id1 + 1);
}

#[test]
fn test_validate_channel() {
    let mut client = connected();
    assert_eq!(open_channel(&mut client), 1);

    // An open channel with the right service.
    let result = client.validate_channel(1, "FEED");
    assert!(result.is_ok());

    // An open channel with another service.
    let result = client.validate_channel(1, "OTHER");
    assert!(result.is_err());
    match result {
        Err(DXLinkError::Channel(text)) => {
            assert_eq!(text, "Channel 1 is a FEED channel, not a OTHER channel")
        }
        _ => panic!("Expected Channel error"),
    }

    // A channel that does not exist.
    let result = client.validate_channel(3, "FEED");
    assert!(result.is_err());
    match result {
        Err(DXLinkError::Channel(text)) => assert_eq!(text, "Channel 3 not found"),
        _ => panic!("Expected Channel error"),
    }
}

#[test]
fn test_event_stream() {
    let mut client = DXLinkClient::new("wss://test.url", "test_token");

    // Check that we can get an event stream
    let result = client.event_stream();
    assert!(result.is_ok());

    // Check that we can't get a second event stream
    let result = client.event_stream();
    assert!(result.is_err());
    match result {
        Err(DXLinkError::Protocol(msg)) => {
            assert!(msg.contains("Event stream already created"));
        }
        _ => panic!("Expected Protocol error"),
    }
}

#[test]
fn test_connection_errors() {
    let client = DXLinkClient::new("wss://test.url", "test_token");

    // Test starting keepalive without connection
    let result = client.start_keepalive();
    assert!(result.is_err());
    match result {
        Err(DXLinkError::Connection(_)) => {}
        _ => panic!("Expected Connection error"),
    }

    // Test starting message processing without connection
    let result = client.start_message_processing();
    assert!(result.is_err());
    match result {
        Err(DXLinkError::Connection(_)) => {}
        _ => panic!("Expected Connection error"),
    }

    // Test getting connection without having one
    let result = client.get_connection();
    assert!(result.is_err());
    match result {
        Err(DXLinkError::Connection(_)) => {}
        _ => panic!("Expected Connection error"),
    }
}

/// The exact string the server sees. Pinned because a malformed version is
/// invisible in normal operation and only shows up in someone else's
/// telemetry.
#[test]
fn test_setup_version_follows_the_spec_format() {
    let (protocol_and_impl, client_version) = DEFAULT_CLIENT_VERSION
        .split_once('/')
        .expect("version must be <protocol>-<implementation>/<client-version>");

    let (protocol, implementation) = protocol_and_impl
        .split_once('-')
        .expect("the part before / must be <protocol>-<implementation>");

    assert_eq!(protocol, "0.1", "protocol version token");
    assert_eq!(implementation, "dxlink-rs", "implementation token");

    assert_eq!(
        client_version, "0.3.0",
        "the advertised version must be the crate version"
    );
    assert!(
        !client_version.is_empty() && client_version.contains('.'),
        "prerelease and normal versions alike are carried verbatim: {client_version}"
    );
}

#[test]
fn test_interval_follows_the_negotiated_deadline() {
    let mut client = DXLinkClient::new("wss://example.com", "token");

    // Nothing negotiated yet: fall back to what we advertise.
    assert_eq!(
        client.keepalive_interval(),
        Duration::from_secs(
            u64::from(DEFAULT_KEEPALIVE_TIMEOUT).div_ceil(u64::from(KEEPALIVE_DIVISOR))
        )
    );

    // A server asking for little must be honoured, or it closes the connection
    // while the client thinks it is healthy.
    client.finish_connect(Some(3)).expect("the first session");
    assert_eq!(client.keepalive_interval(), Duration::from_secs(1));

    client.finish_disconnect();
    client.finish_connect(Some(60)).expect("the next session");
    assert_eq!(
        client.keepalive_interval(),
        Duration::from_secs(60 / u64::from(KEEPALIVE_DIVISOR))
    );
}

#[test]
fn test_interval_never_collapses_to_zero() {
    let mut client = DXLinkClient::new("wss://example.com", "token");
    // Would round down to zero and spin the task.
    client.finish_connect(Some(1)).expect("the first session");
    assert!(client.keepalive_interval() >= Duration::from_secs(MIN_KEEPALIVE_INTERVAL_SECS));
}

#[test]
fn test_advertised_timeout_is_configurable_and_validated() {
    let client = DXLinkClient::new("wss://example.com", "token")
        .with_keepalive_timeout(30)
        .map_err(|e| e.to_string())
        .expect("30 is valid");
    assert_eq!(client.keepalive_timeout(), 30);

    let rejected = DXLinkClient::new("wss://example.com", "token").with_keepalive_timeout(0);
    assert!(matches!(rejected, Err(DXLinkError::Protocol(_))));
}

#[test]
fn test_reconnection_is_off_until_it_is_asked_for() {
    let mut client = DXLinkClient::new("wss://example.com", "token");
    assert!(client.reconnect_policy().is_none(), "no policy by default");
    assert!(
        client.connection_states().is_none(),
        "no state stream without a policy"
    );

    client.with_reconnect(ReconnectPolicy::default());
    assert!(client.reconnect_policy().is_some());

    // Available from here, without connecting first.
    assert!(
        client.connection_states().is_some(),
        "the stream should exist as soon as the policy does"
    );
    // And it is a subscription, not a handout, so a second caller gets one
    // of their own.
    assert!(client.connection_states().is_some());
}

#[test]
fn the_buffer_and_the_policy_are_settings() {
    let client = DXLinkClient::new("u", "t");
    assert_eq!(client.event_buffer(), DEFAULT_EVENT_BUFFER);
    assert_eq!(client.overflow_policy(), OverflowPolicy::Drop);

    let client = client
        .with_event_buffer(7)
        .map_err(|e| e.to_string())
        .expect("seven is a size")
        .with_overflow_policy(OverflowPolicy::Block);
    assert_eq!(client.event_buffer(), 7);
    assert_eq!(client.overflow_policy(), OverflowPolicy::Block);
    assert!(DXLinkClient::new("u", "t").with_event_buffer(0).is_err());
}

#[test]
fn a_channel_is_recorded_only_where_the_server_opened_it() {
    let mut client = connected();
    let (message, ticket) = client.create_feed_channel("HISTORY").expect("connected");
    assert_eq!(
        message.to_value().render(),
        r#"{"channel":1,"type":"CHANNEL_REQUEST","service":"FEED","parameters":{"contract":"HISTORY"}}"#
    );
    assert_eq!(client.pending_response_count(), 1);

    let wrong = Outcome::Answered(ResponseType::ChannelOpened(9));
    let error = client
        .feed_channel_created("HISTORY", &ticket, wrong)
        .unwrap_err();
    assert_eq!(error.to_string(), "Channel error: Expected channel ID 1, got 9");
    assert_eq!(client.pending_response_count(), 0);
    assert!(client.validate_channel(1, "FEED").is_err());

    // The channel is used up all the same.
    let (message, ticket) = client.create_feed_channel("HISTORY").expect("connected");
    assert_eq!(message.channel, 2);
    let answer = Outcome::Answered(ResponseType::ChannelClosed(2));
    assert_eq!(
        client
            .feed_channel_created("HISTORY", &ticket, answer)
            .unwrap_err()
            .to_string(),
        "Protocol error: Unexpected response type"
    );
}

#[test]
fn whatever_ends_a_request_ends_its_registration() {
    let mut client = connected();
    let ends = vec![
        (
            Outcome::NotSent(DXLinkError::Connection("broken pipe".to_string())),
            "Connection error: broken pipe",
        ),
        (
            Outcome::Abandoned,
            "Protocol error: during create_feed_channel on channel 2, the response channel closed",
        ),
        (
            Outcome::TimedOut,
            "Timeout error: timed out after 10s waiting for CHANNEL_OPENED on channel 3 during \
             create_feed_channel",
        ),
        (
            Outcome::Answered(ResponseType::Error("unauthorized".into(), "no".into())),
            "Authentication error: during create_feed_channel on channel 4, waiting for \
             CHANNEL_OPENED, the server returned unauthorized: no",
        ),
        (
            Outcome::Answered(ResponseType::Error("INVALID_CHANNEL".into(), "no".into())),
            "Channel error: during create_feed_channel on channel 5, waiting for CHANNEL_OPENED, \
             the server returned INVALID_CHANNEL: no",
        ),
        (
            Outcome::Answered(ResponseType::Error("Timeout".into(), "no".into())),
            "Timeout error: during create_feed_channel on channel 6, waiting for CHANNEL_OPENED, \
             the server returned Timeout: no",
        ),
        (
            Outcome::Answered(ResponseType::Error("INVALID_ACTION".into(), "no".into())),
            "Protocol error: during create_feed_channel on channel 7, waiting for \
             CHANNEL_OPENED, the server returned INVALID_ACTION: no",
        ),
    ];
    for (outcome, text) in ends {
        let (_, ticket) = client.create_feed_channel("AUTO").expect("connected");
        assert_eq!(client.pending_response_count(), 1);
        let error = client
            .feed_channel_created("AUTO", &ticket, outcome)
            .unwrap_err();
        assert_eq!(error.to_string(), text);
        assert_eq!(client.pending_response_count(), 0);
    }
}

#[test]
fn a_closed_channel_takes_everything_of_its_own_with_it() {
    let mut client = connected();
    let first = open_channel(&mut client);
    let second = open_channel(&mut client);
    for channel in [first, second] {
        configure(&mut client, channel, &[EventType::Quote]);
        let change = client
            .subscribe(channel, vec![subscription("Quote", "AAPL")])
            .expect("a subscription");
        client.subscriptions_sent(change, Ok(())).expect("sent");
    }
    assert_eq!(client.subscribed_channels(), [first, second]);

    let (message, ticket) = client.close_channel(first).expect("open");
    assert_eq!(
        message.to_value().render(),
        r#"{"channel":1,"type":"CHANNEL_CANCEL"}"#
    );
    let answer = Outcome::Answered(ResponseType::ChannelClosed(first));
    client.channel_closed(&ticket, answer).expect("closed");

    assert!(client.validate_channel(first, "FEED").is_err());
    assert!(client.schema_of(first).is_none());
    assert!(symbols(&client, first).is_empty());
    // The other channel is as it was.
    assert!(client.validate_channel(second, "FEED").is_ok());
    assert!(client.schema_of(second).is_some());
    assert_eq!(symbols(&client, second), ["AAPL"]);

    assert_eq!(
        client.close_channel(first).map(|_| ()).unwrap_err().to_string(),
        "Channel error: Channel 1 not found"
    );
}

#[test]
fn a_feed_is_asked_for_with_the_columns_of_its_types() {
    let mut client = connected();
    let channel = open_channel(&mut client);
    let (message, ticket) = client
        .setup_feed(channel, &[EventType::Trade])
        .expect("a feed");
    assert_eq!(
        message.to_value().render(),
        r#"{"channel":1,"type":"FEED_SETUP","acceptAggregationPeriod":0.1,"acceptDataFormat":"COMPACT","acceptEventFields":{"Trade":["eventType","eventSymbol","price","size","dayVolume"]}}"#
    );
    // A format that cannot be decoded is refused.
    let answer = Outcome::Answered(ResponseType::FeedConfig(config(channel, "FULL", None)));
    let error = client
        .feed_configured(&[EventType::Trade], &ticket, answer)
        .unwrap_err();
    assert_eq!(
        error.to_string(),
        "Protocol error: channel 1: this client decodes COMPACT rows, but the server negotiated \
         FULL"
    );
    assert!(client.schema_of(channel).is_none());

    // A layout whose rows cannot be identified is refused, and named.
    let mut named = FieldLists::new();
    named.insert("Trade", vec!["eventType".to_string(), "price".to_string()]);
    let (_, ticket) = client
        .setup_feed(channel, &[EventType::Trade])
        .expect("a feed");
    let answer = Outcome::Answered(ResponseType::FeedConfig(config(
        channel,
        "compact",
        Some(named),
    )));
    let error = client
        .feed_configured(&[EventType::Trade], &ticket, answer)
        .unwrap_err();
    assert_eq!(
        error.to_string(),
        "Protocol error: channel 1: the server negotiated a Trade layout with no `eventSymbol` \
         column ([\"eventType\", \"price\"]), so its rows cannot be identified"
    );

    // Another order is adopted, and a type that was not asked for is not.
    let mut named = FieldLists::new();
    let order = ["price", "eventSymbol", "eventType"].map(String::from);
    named.insert("Trade", order.to_vec());
    named.insert("Quote", vec!["nonsense".to_string()]);
    let (_, ticket) = client
        .setup_feed(channel, &[EventType::Trade])
        .expect("a feed");
    let answer = Outcome::Answered(ResponseType::FeedConfig(config(
        channel,
        "Compact",
        Some(named),
    )));
    client
        .feed_configured(&[EventType::Trade], &ticket, answer)
        .expect("configured");
    let schema = client.schema_of(channel).expect("a layout");
    assert_eq!(schema.get("Trade"), Some(&order.to_vec()));
    assert!(!schema.contains("Quote"));
    assert_eq!(schema.len(), 1);
}

#[test]
fn a_feed_that_could_deliver_nothing_is_refused() {
    let mut client = connected();
    let channel = open_channel(&mut client);
    assert_eq!(
        client
            .setup_feed(channel, &[])
            .map(|_| ())
            .unwrap_err()
            .to_string(),
        "Protocol error: setup_feed on channel 1 needs at least one event type; an empty \
         configuration subscribes to nothing and can never deliver"
    );
    let error = client
        .setup_feed(channel, &[EventType::Quote, EventType::Order])
        .map(|_| ())
        .unwrap_err()
        .to_string();
    assert!(
        error.starts_with(
            "Protocol error: this client cannot decode Order events, so configuring channel 1 \
             for them would deliver nothing. Decoded types: "
        ),
        "{error}"
    );
    assert_eq!(client.pending_response_count(), 0);
}

#[test]
fn what_was_not_sent_was_not_subscribed() {
    let mut client = connected();
    let channel = open_channel(&mut client);
    assert_eq!(
        client
            .subscribe(channel, vec![])
            .map(|_| ())
            .unwrap_err()
            .to_string(),
        "Channel error: channel 1 has no validated feed configuration; call setup_feed first"
    );
    configure(&mut client, channel, &[EventType::Quote, EventType::Candle]);

    let change = client
        .subscribe(channel, vec![subscription("Quote", "AAPL")])
        .expect("a subscription");
    let failed = Err(DXLinkError::Connection("broken pipe".to_string()));
    assert!(client.subscriptions_sent(change, failed).is_err());
    assert!(symbols(&client, channel).is_empty());

    let bars = FeedSubscription {
        from_time: Some(-5),
        source: Some("x".to_string()),
        ..subscription("Candle", "AAPL{=5m}")
    };
    let change = client
        .subscribe(channel, vec![subscription("Quote", "AAPL"), bars])
        .expect("subscriptions");
    assert_eq!(change.kind, ChangeKind::Add);
    assert_eq!(
        change.message().to_value().render(),
        r#"{"channel":1,"type":"FEED_SUBSCRIPTION","add":[{"type":"Quote","symbol":"AAPL"},{"type":"Candle","symbol":"AAPL{=5m}","fromTime":-5,"source":"x"}]}"#
    );
    client.subscriptions_sent(change, Ok(())).expect("sent");
    assert_eq!(symbols(&client, channel), ["AAPL", "AAPL{=5m}"]);

    let change = client
        .unsubscribe(channel, vec![subscription("Quote", "AAPL")])
        .expect("a subscription");
    assert_eq!(
        change.message().to_value().render(),
        r#"{"channel":1,"type":"FEED_SUBSCRIPTION","remove":[{"type":"Quote","symbol":"AAPL"}]}"#
    );
    client.subscriptions_sent(change, Ok(())).expect("sent");
    assert_eq!(symbols(&client, channel), ["AAPL{=5m}"]);

    let change = client.reset_subscriptions(channel).expect("open");
    assert_eq!(
        change.message().to_value().render(),
        r#"{"channel":1,"type":"FEED_SUBSCRIPTION","reset":true}"#
    );
    client.subscriptions_sent(change, Ok(())).expect("sent");
    assert!(client.subscribed_channels().is_empty());
}

#[test]
fn one_bad_type_refuses_the_whole_batch() {
    let mut client = connected();
    let channel = open_channel(&mut client);
    configure(&mut client, channel, &[EventType::Quote]);
    for bad in ["Nonsense", "Order", "Trade"] {
        let error = client
            .subscribe(
                channel,
                vec![subscription("Quote", "AAPL"), subscription(bad, "MSFT")],
            )
            .map(|_| ())
            .unwrap_err();
        assert!(matches!(error, DXLinkError::Protocol(_)));
        assert!(error.to_string().contains(bad), "{}", error.to_string());
    }
    assert!(client.subscribed_channels().is_empty());
}

#[test]
fn without_a_connection_nothing_goes_out() {
    let mut client = connected();
    let channel = open_channel(&mut client);
    configure(&mut client, channel, &[EventType::Quote]);
    client.set_connected(false);
    let none = "Connection error: Not connected to DXLink server";
    let quote = || vec![subscription("Quote", "AAPL")];
    let errors = [
        client.create_feed_channel("AUTO").map(|_| ()).unwrap_err(),
        client.close_channel(channel).map(|_| ()).unwrap_err(),
        client.subscribe(channel, quote()).map(|_| ()).unwrap_err(),
        client.unsubscribe(channel, quote()).map(|_| ()).unwrap_err(),
        client.reset_subscriptions(channel).map(|_| ()).unwrap_err(),
        client
            .setup_feed(channel, &[EventType::Quote])
            .map(|_| ())
            .unwrap_err(),
    ];
    for error in errors {
        assert_eq!(error.to_string(), none);
    }
    assert_eq!(client.pending_response_count(), 0);
}

#[test]
fn the_first_reason_is_the_cause() {
    let mut client = connected();
    assert_eq!(client.disconnect_reason(), None);
    client.record_reason(&DXLinkError::Connection("gone".to_string()));
    client.record_reason(&DXLinkError::Timeout("later".to_string()));
    assert_eq!(
        client.disconnect_reason().as_deref(),
        Some("Connection error: gone")
    );
    client.begin_connect();
    assert_eq!(client.disconnect_reason(), None);
}

#[test]
fn drops_are_counted_and_a_doubled_count_is_worth_a_warning() {
    let mut client = connected();
    let warned: Vec<bool> = (1..=9).map(|_| client.count_dropped()).collect();
    assert_eq!(
        warned,
        [true, true, false, true, false, false, false, true, false]
    );
    assert_eq!(client.dropped_event_count(), 9);
    client.finish_disconnect();
    assert_eq!(client.dropped_event_count(), 9, "across sessions");
}

#[test]
fn a_client_says_what_it_is_without_its_credential() {
    let mut client = connected();
    open_channel(&mut client);
    assert_eq!(
        client.to_string(true, true),
        "DXLink Client [Connected] to wss://test.url | Channels: 1, Subscriptions: 0 | All tasks \
         running"
    );
    assert!(client.to_string(true, false).ends_with("Message handler only"));
    assert!(client.to_string(false, true).ends_with("Keepalive only"));
    assert!(client.to_string(false, false).ends_with("No tasks running"));

    let summary = client.summary();
    assert!(summary.has_token);
    assert!(summary.connected);
    assert_eq!(summary.channel_count, 1);
    assert_eq!(summary.subscription_count, 0);
    assert_eq!(summary.pending_responses, 0);
    assert!(!format!("{summary:?}").contains("test_token"));
    assert!(!DXLinkClient::new("u", "").summary().has_token);
}

#[test]
fn a_disconnect_that_was_asked_for_has_no_reason() {
    let mut client = connected();
    client.record_reason(&DXLinkError::Connection("gone".to_string()));
    client.finish_disconnect();
    assert_eq!(client.disconnect_reason(), None);
}

#[test]
fn a_stream_of_states_that_was_taken_early_stays() {
    let mut client = DXLinkClient::new("wss://test.url", "token");
    assert_eq!(client.connection_states(), None);
    client.with_reconnect(ReconnectPolicy::default());
    let early = client.connection_states();
    assert!(early.is_some());
    client.begin_connect();
    assert_eq!(client.connection_states(), early);
    client.finish_connect(None).expect("the first session");
    assert_eq!(client.connection_states(), early);
    // Another policy leaves the stream as it is.
    client.with_reconnect(ReconnectPolicy::default());
    assert_eq!(client.connection_states(), early);
    client.finish_disconnect();
    assert_eq!(client.connection_states(), None);

    // The next session has a stream of its own.
    client.begin_connect();
    client.finish_connect(None).expect("the next session");
    assert!(client.connection_states().is_some());
    assert_ne!(client.connection_states(), early);
    assert_eq!(client.streams_opened(), 2);
}
