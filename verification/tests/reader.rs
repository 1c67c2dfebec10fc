//! What the reader does with what it reads.

use dxlink::client::DXLinkClient;
use dxlink::error::DXLinkError;
use dxlink::events::{EventType, MarketEvent};
use dxlink::reader::{
    claim, on_failure, on_unclaimed, read_message, AfterFailure, ReadFailure, Routed,
    ServerMessage,
};
use dxlink::requests::{Outcome, ResponseType};

fn message(raw: &str) -> ServerMessage {
    read_message(raw).expect("JSON")
}

fn connected() -> DXLinkClient {
    let mut client = DXLinkClient::new("wss://test.url", "token");
    client.finish_connect(None).expect("a new client");
    client
}

/// A client with one open channel that is configured for quotes.
fn configured() -> DXLinkClient {
    let mut client = connected();
    let (_, ticket) = client.create_feed_channel("AUTO").expect("connected");
    let answer = claim(&mut client, &message(r#"{"channel":1,"type":"CHANNEL_OPENED"}"#), None);
    let outcome = Outcome::Answered(answer.expect("somebody waits").response);
    client
        .feed_channel_created("AUTO", &ticket, outcome)
        .expect("opened");

    let types = [EventType::Quote];
    let (_, ticket) = client.setup_feed(1, &types).expect("a feed");
    let answer = claim(
        &mut client,
        &message(
            r#"{"channel":1,"type":"FEED_CONFIG","aggregationPeriod":1,"dataFormat":"COMPACT"}"#,
        ),
        None,
    );
    let outcome = Outcome::Answered(answer.expect("somebody waits").response);
    client
        .feed_configured(&types, &ticket, outcome)
        .expect("configured");
    client
}

const QUOTES: &str =
    r#"{"channel":1,"type":"FEED_DATA","data":["Quote",["Quote","AAPL",1.5,2.5,"NaN",4]]}"#;

#[test]
fn the_first_in_line_is_answered_and_only_once() {
    let mut client = connected();
    let first = client.open_request("a", "FEED_CONFIG", 1, 10).expect("a");
    let second = client.open_request("b", "FEED_CONFIG", 1, 10).expect("b");
    let other = client.open_request("c", "FEED_CONFIG", 2, 10).expect("c");

    let config =
        r#"{"channel":1,"type":"FEED_CONFIG","aggregationPeriod":0.1,"dataFormat":"COMPACT"}"#;
    let answer = claim(&mut client, &message(config), None).expect("a waits");
    assert_eq!(answer.id, first.id);
    let answer = claim(&mut client, &message(config), None).expect("b waits");
    assert_eq!(answer.id, second.id);
    assert!(claim(&mut client, &message(config), None).is_none());
    assert_eq!(client.pending_response_count(), 1);

    // An error on a channel answers whoever waits on that channel.
    let error = r#"{"channel":2,"type":"ERROR","error":"BAD","message":"no"}"#;
    let answer = claim(&mut client, &message(error), None).expect("c waits");
    assert_eq!(answer.id, other.id);
    match answer.response {
        ResponseType::Error(code, text) => assert_eq!((code.as_str(), text.as_str()), ("BAD", "no")),
        other => panic!("expected an error, got {other:?}"),
    }
}

#[test]
fn an_answer_says_what_the_message_says() {
    let mut client = connected();
    client.open_request("a", "CHANNEL_CLOSED", 3, 5).expect("a");
    let answer = claim(&mut client, &message(r#"{"channel":3,"type":"CHANNEL_CLOSED"}"#), None);
    assert!(matches!(
        answer.expect("a waits").response,
        ResponseType::ChannelClosed(3)
    ));

    client.open_request("b", "FEED_CONFIG", 3, 5).expect("b");
    let malformed = r#"{"channel":3,"type":"FEED_CONFIG","dataFormat":"COMPACT"}"#;
    let words = "missing field `aggregationPeriod` at line 1 column 57";
    match claim(&mut client, &message(malformed), Some(words)).expect("b waits").response {
        ResponseType::Error(code, text) => {
            assert_eq!(code, "MALFORMED_FEED_CONFIG");
            assert_eq!(text, words);
        }
        other => panic!("expected an error, got {other:?}"),
    }

    client.open_request("c", "FEED_CONFIG", 3, 5).expect("c");
    let config = r#"{"channel":3,"type":"FEED_CONFIG","aggregationPeriod":2,"dataFormat":"COMPACT",
        "eventFields":{"Quote":["a","b"],"Trade":[]}}"#;
    match claim(&mut client, &message(config), None).expect("c waits").response {
        ResponseType::FeedConfig(config) => {
            assert_eq!(config.channel, 3);
            assert_eq!(config.aggregation_period.render(), "2.0");
            let fields = config.event_fields.expect("columns");
            assert_eq!(
                fields.get("Quote"),
                Some(&vec!["a".to_string(), "b".to_string()])
            );
            assert_eq!(fields.get("Trade"), Some(&vec![]));
            assert_eq!(fields.len(), 2);
        }
        other => panic!("expected a configuration, got {other:?}"),
    }
}

#[test]
fn data_is_decoded_against_what_the_channel_agreed_to() {
    let mut client = configured();
    match on_unclaimed(&mut client, &message(QUOTES), None) {
        Routed::Deliver(events) => {
            assert_eq!(events.len(), 1);
            match &events[0] {
                MarketEvent::Quote(quote) => {
                    assert_eq!(quote.event_symbol, "AAPL");
                    assert_eq!(quote.bid_price.to_value().render(), "1.5");
                    assert_eq!(quote.bid_size.to_value().render(), "\"NaN\"");
                    assert_eq!(quote.ask_size.to_value().render(), "4.0");
                }
                other => panic!("expected a quote, got {other:?}"),
            }
        }
        _ => panic!("the quotes are delivered"),
    }

    // Nothing is delivered of a batch that is malformed.
    let malformed = r#"{"channel":1,"type":"FEED_DATA",
        "data":["Quote",["Quote","AAPL",1,2,3,4,"Quote","MSFT",1,2,3,"x"]]}"#;
    match on_unclaimed(&mut client, &message(malformed), None) {
        Routed::Malformed(error) => assert_eq!(
            error.to_string(),
            "Protocol error: Quote row 1: field `askSize` should be a number, got \"x\""
        ),
        _ => panic!("the batch is malformed"),
    }
    let unagreed = r#"{"channel":1,"type":"FEED_DATA","data":["Trade",["Trade","A",1,2,3]]}"#;
    assert!(matches!(
        on_unclaimed(&mut client, &message(unagreed), None),
        Routed::Malformed(DXLinkError::Protocol(_))
    ));
    // What cannot be read at all is passed over.
    for data in [r#"{"channel":1,"type":"FEED_DATA"}"#, r#"{"channel":1,"type":"FEED_DATA","data":[1]}"#] {
        assert!(matches!(
            on_unclaimed(&mut client, &message(data), None),
            Routed::Ignored
        ));
    }
    // Without a layout there is nothing to decode against.
    for data in [
        r#"{"channel":2,"type":"FEED_DATA","data":[]}"#,
        r#"{"type":"FEED_DATA","data":[]}"#,
    ] {
        assert!(matches!(
            on_unclaimed(&mut client, &message(data), None),
            Routed::NoLayout
        ));
    }
}

#[test]
fn a_reconfiguration_is_followed_and_an_unusable_one_stops_the_channel() {
    let mut client = configured();
    let moved = r#"{"channel":1,"type":"FEED_CONFIG","aggregationPeriod":1,"dataFormat":"COMPACT",
        "eventFields":{"Quote":["eventSymbol","eventType","bidPrice"]}}"#;
    assert!(matches!(
        on_unclaimed(&mut client, &message(moved), None),
        Routed::Ignored
    ));
    let rows = r#"{"channel":1,"type":"FEED_DATA","data":["Quote",["AAPL","Quote",1.5]]}"#;
    match on_unclaimed(&mut client, &message(rows), None) {
        Routed::Deliver(events) => match &events[0] {
            MarketEvent::Quote(quote) => {
                assert_eq!(quote.event_symbol, "AAPL");
                assert_eq!(quote.bid_price.to_value().render(), "1.5");
                assert_eq!(quote.ask_price.to_value().render(), "\"NaN\"");
            }
            other => panic!("expected a quote, got {other:?}"),
        },
        _ => panic!("the quotes are delivered"),
    }

    for unusable in [
        r#"{"channel":1,"type":"FEED_CONFIG","aggregationPeriod":1,"dataFormat":"FULL"}"#,
        r#"{"channel":1,"type":"FEED_CONFIG","dataFormat":"COMPACT"}"#,
        r#"{"channel":1,"type":"FEED_CONFIG","aggregationPeriod":1,"dataFormat":"COMPACT",
            "eventFields":{"Quote":["bidPrice"]}}"#,
    ] {
        let mut client = configured();
        on_unclaimed(&mut client, &message(unusable), None);
        assert!(client.schema_of(1).is_none(), "{unusable}");
        assert!(matches!(
            on_unclaimed(&mut client, &message(QUOTES), None),
            Routed::NoLayout
        ));
    }
}

#[test]
fn what_means_nothing_here_changes_nothing() {
    let mut client = configured();
    assert!(matches!(
        on_unclaimed(&mut client, &message(r#"{"channel":0,"type":"KEEPALIVE"}"#), None),
        Routed::Keepalive
    ));
    assert!(matches!(
        on_unclaimed(&mut client, &message(r#"{"channel":0,"type":"ERROR","error":"x"}"#), None),
        Routed::ServerError(None)
    ));
    let error = r#"{"channel":0,"type":"ERROR","error":"x","message":"y"}"#;
    match on_unclaimed(&mut client, &message(error), None) {
        Routed::ServerError(Some(error)) => {
            assert_eq!((error.error.as_str(), error.message.as_str()), ("x", "y"))
        }
        _ => panic!("the error can be read"),
    }
    assert!(matches!(
        on_unclaimed(&mut client, &message(r#"{"channel":0,"type":"NEWS"}"#), None),
        Routed::Unhandled
    ));
    assert!(client.schema_of(1).is_some());
    assert!(read_message("not json").is_none());
    let wide = message(r#"{"channel":4294967297,"type":"X"}"#);
    assert_eq!(wide.channel, Some(1));
    assert_eq!(message("[]").channel, None);
}

#[test]
fn silence_and_a_lost_connection_end_the_session() {
    let mut client = connected();
    let unexpected = DXLinkError::UnexpectedMessage("binary".to_string());
    assert!(matches!(
        on_failure(&mut client, ReadFailure::Failed(unexpected)),
        AfterFailure::ReadAgain
    ));
    assert_eq!(client.disconnect_reason(), None);

    let text = "Timeout error: no message received on channel 0 for 60s, the connection is \
                assumed dead";
    match on_failure(&mut client, ReadFailure::Silence) {
        AfterFailure::Stop(reason) => assert_eq!(reason, text),
        AfterFailure::ReadAgain => panic!("silence ends the session"),
    }
    assert_eq!(client.disconnect_reason().as_deref(), Some(text));

    let lost = DXLinkError::Connection("gone".to_string());
    match on_failure(&mut client, ReadFailure::Failed(lost)) {
        AfterFailure::Stop(reason) => assert_eq!(reason, "Connection error: gone"),
        AfterFailure::ReadAgain => panic!("a lost connection ends the session"),
    }
    // The first failure is the cause.
    assert_eq!(client.disconnect_reason().as_deref(), Some(text));
}

#[test]
fn a_message_that_is_refused_as_one_of_its_type_is_not_taken_for_one() {
    let words = Some("duplicate field `channel` at line 1 column 60");
    // A field that stands twice: the value alone does not show it.
    let config = r#"{"channel":1,"type":"FEED_CONFIG","aggregationPeriod":1,
        "dataFormat":"COMPACT","channel":1}"#;
    let mut client = configured();
    client.open_request("a", "FEED_CONFIG", 1, 5).expect("a");
    match claim(&mut client, &message(config), words).expect("a waits").response {
        ResponseType::Error(code, text) => {
            assert_eq!(code, "MALFORMED_FEED_CONFIG");
            assert_eq!(Some(text.as_str()), words);
        }
        other => panic!("expected an error, got {other:?}"),
    }

    // Refused data is passed over, and the layout stays.
    assert!(matches!(
        on_unclaimed(&mut client, &message(QUOTES), words),
        Routed::Ignored
    ));
    assert!(client.schema_of(1).is_some());
    let error = r#"{"channel":0,"type":"ERROR","error":"x","message":"y","error":"z"}"#;
    assert!(matches!(
        on_unclaimed(&mut client, &message(error), words),
        Routed::ServerError(None)
    ));

    // A refused configuration is no agreement.
    assert!(matches!(
        on_unclaimed(&mut client, &message(config), words),
        Routed::Ignored
    ));
    assert!(client.schema_of(1).is_none());
}
