//! How a lost session comes back, and how a session ends.

use dxlink::client::DXLinkClient;
use dxlink::delivery::{
    after_offer, power_of_two, AfterOffer, AfterStream, Delivery, HandOff, OverflowPolicy,
};
use dxlink::error::DXLinkError;
use dxlink::events::EventType;
use dxlink::json::JsonNumber;
use dxlink::layout::FieldLists;
use dxlink::messages::{FeedConfigMessage, FeedSubscription};
use dxlink::reconnect::ReconnectPolicy;
use dxlink::replay::{configured_types, rebuild_failed, Replay, ReplayAction};
use dxlink::requests::{Outcome, ResponseType};
use dxlink::shutdown::{keepalive, maintenance, Shutdown, ShutdownStep};
use dxlink::supervisor::{ConnectionState, Next, Supervisor};
use std::time::Duration;

fn subscription(event_type: &str, symbol: &str) -> FeedSubscription {
    FeedSubscription {
        event_type: event_type.to_string(),
        symbol: symbol.to_string(),
        from_time: None,
        source: None,
    }
}

fn config(channel: u32) -> Outcome {
    Outcome::Answered(ResponseType::FeedConfig(FeedConfigMessage {
        channel,
        message_type: "FEED_CONFIG".to_string(),
        aggregation_period: JsonNumber::Unsigned(1),
        data_format: "COMPACT".to_string(),
        event_fields: None,
    }))
}

/// A client with two channels, the first of them configured and subscribed.
fn busy() -> DXLinkClient {
    let mut client = DXLinkClient::new("wss://test.url", "token");
    client.finish_connect(Some(9)).expect("a new client");
    for contract in ["TICKER", "HISTORY"] {
        let (message, ticket) = client.create_feed_channel(contract).expect("connected");
        let answer = Outcome::Answered(ResponseType::ChannelOpened(message.channel));
        client
            .feed_channel_created(contract, &ticket, answer)
            .expect("opened");
    }
    let types = [EventType::Trade, EventType::Quote];
    let (_, ticket) = client.setup_feed(1, &types).expect("a feed");
    client
        .feed_configured(&types, &ticket, config(1))
        .expect("configured");
    let change = client
        .subscribe(
            1,
            vec![subscription("Quote", "AAPL"), subscription("Trade", "MSFT")],
        )
        .expect("subscriptions");
    client.subscriptions_sent(change, Ok(())).expect("sent");
    client
}

fn policy(max_attempts: Option<u32>) -> ReconnectPolicy {
    ReconnectPolicy {
        initial_delay: Duration::from_secs(1),
        max_delay: Duration::from_secs(4),
        max_attempts,
        jitter: false,
    }
}

#[test]
fn a_replay_brings_back_channels_feeds_and_subscriptions_in_order() {
    let mut client = busy();
    let mut replay = Replay::start(&client).expect("connected");

    let ticket = match replay.next(&mut client).expect("connected") {
        ReplayAction::Open(message, ticket) => {
            assert_eq!(
                message.to_value().render(),
                r#"{"channel":1,"type":"CHANNEL_REQUEST","service":"FEED","parameters":{"contract":"TICKER"}}"#
            );
            assert_eq!(ticket.operation, "reconnect: reopen channel");
            ticket
        }
        _ => panic!("the first channel is opened"),
    };
    let opened = Outcome::Answered(ResponseType::ChannelOpened(1));
    let ticket = match replay.opened(&mut client, &ticket, opened, "").expect("opened") {
        ReplayAction::Configure(message, ticket) => {
            let asked = message.accept_event_fields;
            assert_eq!(asked.len(), 2);
            assert!(asked.contains("Quote") && asked.contains("Trade"));
            // Nothing is decoded until the server has agreed again.
            assert!(client.schema_of(1).is_none());
            ticket
        }
        _ => panic!("the feed is configured"),
    };
    match replay
        .configured(&mut client, &ticket, config(1))
        .expect("configured")
    {
        ReplayAction::Subscribe(message) => assert_eq!(
            message.to_value().render(),
            r#"{"channel":1,"type":"FEED_SUBSCRIPTION","add":[{"type":"Quote","symbol":"AAPL"},{"type":"Trade","symbol":"MSFT"}]}"#
        ),
        _ => panic!("the subscriptions are sent"),
    }
    let ticket = match replay.subscribed(&mut client, Ok(())).expect("sent") {
        ReplayAction::Open(message, ticket) => {
            assert_eq!(message.channel, 2);
            assert_eq!(message.parameters[0].1, "HISTORY");
            ticket
        }
        _ => panic!("the second channel is opened"),
    };
    // It was never configured, so there is nothing more to do on it.
    let opened = Outcome::Answered(ResponseType::ChannelOpened(2));
    assert!(matches!(
        replay.opened(&mut client, &ticket, opened, ""),
        Ok(ReplayAction::Done)
    ));
    assert_eq!(client.pending_response_count(), 0);
    assert_eq!(client.subscriptions(1).len(), 2);
}

#[test]
fn a_failed_rebuild_loses_nothing_that_the_next_one_needs() {
    let mut client = busy();
    let before = client.snapshot_schemas();
    let mut replay = Replay::start(&client).expect("connected");
    let ticket = match replay.next(&mut client).expect("connected") {
        ReplayAction::Open(_, ticket) => ticket,
        _ => panic!("the first channel is opened"),
    };
    let opened = Outcome::Answered(ResponseType::ChannelOpened(1));
    let ticket = match replay.opened(&mut client, &ticket, opened, "").expect("opened") {
        ReplayAction::Configure(_, ticket) => ticket,
        _ => panic!("the feed is configured"),
    };
    let error = replay
        .configured(&mut client, &ticket, Outcome::TimedOut)
        .map(|_| ())
        .unwrap_err();
    assert_eq!(
        error.to_string(),
        "Timeout error: timed out after 10s waiting for FEED_CONFIG on channel 1 during \
         reconnect: reconfigure feed"
    );
    assert!(client.schema_of(1).is_none());

    rebuild_failed(&mut client, before);
    assert!(client.get_connection().is_err());
    assert_eq!(client.schema_of(1).expect("the layout is back").len(), 2);
    assert_eq!(client.subscriptions(1).len(), 2);
    assert!(client.validate_channel(2, "FEED").is_ok());
}

#[test]
fn the_types_of_a_layout_are_listed_by_name() {
    let mut lists = FieldLists::new();
    for name in ["Trade", "Candle", "Quote"] {
        lists.insert(name, vec!["eventType".to_string()]);
    }
    assert_eq!(
        configured_types(&lists, 1).expect("known types"),
        [EventType::Candle, EventType::Quote, EventType::Trade]
    );
    lists.insert("Nonsense", vec![]);
    let error = configured_types(&lists, 4).unwrap_err().to_string();
    assert!(error.contains("Nonsense"), "{error}");
}

#[test]
fn a_supervisor_waits_longer_each_time_and_gives_up_at_the_limit() {
    let mut client = busy();
    client.open_request("a", "FEED_CONFIG", 1, 10).expect("a");
    let mut supervisor = Supervisor::new(policy(Some(2)), 1);

    let step = supervisor.session_lost(&mut client, Some("gone".to_string()));
    assert_eq!(
        step.states,
        [
            ConnectionState::Lost {
                reason: "gone".to_string()
            },
            ConnectionState::Reconnecting {
                attempt: 1,
                delay: Duration::from_secs(1)
            },
        ]
    );
    assert!(matches!(step.next, Next::Wait(delay) if delay == Duration::from_secs(1)));
    // Whoever waited for an answer of the lost session is woken.
    assert_eq!(client.pending_response_count(), 0);

    assert!(matches!(supervisor.waited().next, Next::Attempt));
    let refused = DXLinkError::Connection("refused".to_string());
    let step = supervisor.attempt_failed(&refused);
    assert!(matches!(step.next, Next::Wait(delay) if delay == Duration::from_secs(2)));
    assert_eq!(supervisor.attempts(), 2);

    assert!(matches!(supervisor.waited().next, Next::Attempt));
    let step = supervisor.attempt_failed(&refused);
    assert_eq!(
        step.states,
        [ConnectionState::GaveUp {
            reason: "gave up reconnecting after 2 attempt(s): gone".to_string()
        }]
    );
    assert!(matches!(step.next, Next::Stop));
}

#[test]
fn a_session_that_is_back_starts_the_count_anew() {
    let mut client = busy();
    client.record_reason(&DXLinkError::Connection("gone".to_string()));
    let mut supervisor = Supervisor::new(policy(Some(1)), 1);
    for _ in 0..3 {
        supervisor.session_lost(&mut client, Some("gone".to_string()));
        supervisor.waited();
        let step = supervisor.attempt_succeeded(&mut client);
        assert_eq!(step.states, [ConnectionState::Reconnected]);
        assert!(matches!(step.next, Next::Watch));
        assert_eq!(client.disconnect_reason(), None);
    }
    let step = supervisor.session_lost(&mut client, None);
    assert!(step.states.is_empty());
    assert!(matches!(step.next, Next::Stop));
}

#[test]
fn what_fails_the_same_way_again_is_not_repeated() {
    let mut client = busy();
    let mut supervisor = Supervisor::new(policy(None), 1);
    supervisor.session_lost(&mut client, Some("gone".to_string()));
    supervisor.waited();
    let step = supervisor.attempt_failed(&DXLinkError::Authentication("bad token".to_string()));
    assert_eq!(
        step.states,
        [ConnectionState::GaveUp {
            reason: "not retrying: Authentication error: bad token".to_string()
        }]
    );
    assert!(matches!(step.next, Next::Stop));

    let mut supervisor = Supervisor::new(policy(Some(0)), 1);
    let step = supervisor.session_lost(&mut client, Some("gone".to_string()));
    assert_eq!(step.states.len(), 2);
    assert!(matches!(step.next, Next::Stop));
    assert!(matches!(supervisor.stop().next, Next::Stop));
}

fn disconnect(client: &mut DXLinkClient) -> Vec<u32> {
    let mut shutdown = Shutdown::begin();
    assert!(matches!(
        shutdown.next(client),
        ShutdownStep::StopSupervisor
    ));
    assert!(matches!(shutdown.next(client), ShutdownStep::StopKeepalive));
    assert!(client.connection_states().is_none());
    let closed = match shutdown.next(client) {
        ShutdownStep::CloseChannels(channels) => channels,
        other => panic!("the channels are closed, got {other:?}"),
    };
    assert!(matches!(shutdown.next(client), ShutdownStep::StopReader));
    assert!(matches!(shutdown.next(client), ShutdownStep::Done));
    assert!(matches!(shutdown.next(client), ShutdownStep::Done));
    closed
}

#[test]
fn to_disconnect_clears_the_session_and_twice_is_once() {
    let mut client = busy();
    client.with_reconnect(policy(None));
    assert_eq!(disconnect(&mut client), [1, 2]);
    assert!(client.get_connection().is_err());
    assert!(client.validate_channel(1, "FEED").is_err());
    assert!(client.schema_of(1).is_none());
    assert!(client.subscribed_channels().is_empty());
    let text = client.to_string(false, false);

    assert!(disconnect(&mut client).is_empty());
    assert_eq!(client.to_string(false, false), text);

    // The next session starts clean, and hands out its own stream.
    assert!(client.finish_connect(None).is_ok());
    assert_eq!(client.keepalive_interval(), Duration::from_secs(20));
    assert!(client.known_channels().is_empty());
}

#[test]
fn maintenance_is_due_only_after_a_quiet_interval() {
    let interval = Duration::from_secs(20);
    assert!(maintenance(Duration::from_secs(19), interval).is_none());
    let due = maintenance(interval, interval).expect("maintenance is due");
    assert_eq!(
        due.to_value().render(),
        r#"{"channel":0,"type":"KEEPALIVE"}"#
    );
    assert_eq!(keepalive(5).channel, 5);
}

#[test]
fn every_event_is_delivered_or_counted() {
    assert_eq!(after_offer(HandOff::Taken), AfterOffer::Next);
    assert_eq!(after_offer(HandOff::Full), AfterOffer::Dropped);
    assert_eq!(after_offer(HandOff::Closed), AfterOffer::Stop);

    let mut dropping = Delivery::new(OverflowPolicy::Drop);
    assert_eq!(dropping.after_stream(HandOff::Taken), AfterStream::Delivered);
    assert_eq!(dropping.after_stream(HandOff::Full), AfterStream::Dropped);

    let mut blocking = Delivery::new(OverflowPolicy::Block);
    assert_eq!(blocking.after_stream(HandOff::Full), AfterStream::Wait);
    assert_eq!(blocking.after_stream(HandOff::Taken), AfterStream::Delivered);
    // That the consumer is gone is news once.
    assert_eq!(blocking.after_stream(HandOff::Closed), AfterStream::GoneNow);
    assert_eq!(blocking.after_stream(HandOff::Closed), AfterStream::Gone);

    for n in 0..=1u64 << 12 {
        assert_eq!(power_of_two(n), n.is_power_of_two());
    }
    assert!(power_of_two(1 << 63));
    assert!(!power_of_two(u64::MAX));
}

#[test]
fn a_cloned_state_is_the_same_state() {
    for state in [
        ConnectionState::Lost {
            reason: "gone".to_string(),
        },
        ConnectionState::Reconnecting {
            attempt: 3,
            delay: Duration::from_secs(4),
        },
        ConnectionState::Reconnected,
        ConnectionState::GaveUp {
            reason: "refused".to_string(),
        },
    ] {
        assert_eq!(state.clone(), state);
    }
}

#[test]
fn an_answer_that_fits_nothing_stops_a_replay() {
    for (answer, named) in [
        (ResponseType::ChannelOpened(9), "ChannelOpened(9)"),
        (ResponseType::ChannelClosed(1), "ChannelClosed(1)"),
        (
            ResponseType::Other("{\"type\":\"X\"}".to_string()),
            r#"Other("{\"type\":\"X\"}")"#,
        ),
        (
            ResponseType::FeedConfig(FeedConfigMessage {
                channel: 1,
                message_type: "FEED_CONFIG".to_string(),
                aggregation_period: JsonNumber::Double("0.1".to_string()),
                data_format: "COMPACT".to_string(),
                event_fields: None,
            }),
            "FeedConfig(FeedConfigMessage { channel: 1, message_type: \"FEED_CONFIG\", \
             aggregation_period: 0.1, data_format: \"COMPACT\", event_fields: None })",
        ),
        (
            ResponseType::FeedConfig(FeedConfigMessage {
                channel: 2,
                message_type: "FEED_CONFIG".to_string(),
                aggregation_period: JsonNumber::Double("0.1".to_string()),
                data_format: "FULL".to_string(),
                event_fields: Some({
                    let mut fields = FieldLists::new();
                    fields.insert("Quote", vec!["a".to_string(), "b".to_string()]);
                    fields
                }),
            }),
            "FeedConfig(FeedConfigMessage { channel: 2, message_type: \"FEED_CONFIG\", \
             aggregation_period: 0.1, data_format: \"FULL\", event_fields: \
             Some({\"Quote\": [\"a\", \"b\"]}) })",
        ),
    ] {
        let mut client = busy();
        let mut replay = Replay::start(&client).expect("connected");
        let ticket = match replay.next(&mut client).expect("connected") {
            ReplayAction::Open(_, ticket) => ticket,
            _ => panic!("the first channel is opened"),
        };
        let error = replay
            .opened(&mut client, &ticket, Outcome::Answered(answer), "0.1")
            .map(|_| ())
            .unwrap_err();
        assert_eq!(
            error.to_string(),
            format!("Channel error: reopening channel 1 answered with {named}")
        );
        assert_eq!(client.schema_of(1).expect("untouched").len(), 2);
    }
}
