//! Event types and their names, and events as JSON.

use dxlink::events::{
    CompactData, EventType, GreeksEvent, JsonDouble, MarketEvent, QuoteEvent, TradeEvent,
    ALL_EVENT_TYPES,
};
use dxlink::full::read_event;
use dxlink::json::JsonValue;

fn json(value: impl Into<serde_json::Value>) -> JsonValue {
    JsonValue::from_serde(value.into())
}

/// The double of the protocol that a double of the machine is.
fn double(value: f64) -> JsonDouble {
    if value.is_nan() {
        JsonDouble::NaN
    } else if value.is_infinite() {
        if value > 0.0 {
            JsonDouble::Infinity
        } else {
            JsonDouble::NegInfinity
        }
    } else {
        JsonDouble::from_value(&json(value)).expect("a finite number")
    }
}

/// The double of the machine that a double of the protocol is.
fn f(double: &JsonDouble) -> f64 {
    match double {
        JsonDouble::NaN => f64::NAN,
        JsonDouble::Infinity => f64::INFINITY,
        JsonDouble::NegInfinity => f64::NEG_INFINITY,
        JsonDouble::Number(text) => text.parse().expect("a decimal number"),
    }
}

fn parsed(text: &str) -> serde_json::Value {
    serde_json::from_str(text).expect("JSON")
}

fn to_string(event: &MarketEvent) -> String {
    event.to_value().render()
}

fn from_str(text: &str) -> Option<MarketEvent> {
    MarketEvent::from_value(&JsonValue::parse(text).expect("JSON"))
}

fn quote_from(text: &str) -> Result<QuoteEvent, String> {
    match read_event(EventType::Quote, &JsonValue::parse(text).expect("JSON"))? {
        MarketEvent::Quote(quote) => Ok(quote),
        other => panic!("expected a quote, got {other:?}"),
    }
}

fn trade_from(text: &str) -> Result<TradeEvent, String> {
    match read_event(EventType::Trade, &JsonValue::parse(text).expect("JSON"))? {
        MarketEvent::Trade(trade) => Ok(trade),
        other => panic!("expected a trade, got {other:?}"),
    }
}

fn greeks_from(text: &str) -> Result<GreeksEvent, String> {
    match read_event(EventType::Greeks, &JsonValue::parse(text).expect("JSON"))? {
        MarketEvent::Greeks(greeks) => Ok(greeks),
        other => panic!("expected greeks, got {other:?}"),
    }
}

#[test]
fn test_event_type_display() {
    assert_eq!(EventType::Quote.to_string(), "Quote");
    assert_eq!(EventType::Trade.to_string(), "Trade");
    assert_eq!(EventType::Summary.to_string(), "Summary");
    assert_eq!(EventType::Profile.to_string(), "Profile");
    assert_eq!(EventType::Order.to_string(), "Order");
    assert_eq!(EventType::TimeAndSale.to_string(), "TimeAndSale");
    assert_eq!(EventType::Candle.to_string(), "Candle");
    assert_eq!(EventType::TradeETH.to_string(), "TradeETH");
    assert_eq!(EventType::SpreadOrder.to_string(), "SpreadOrder");
    assert_eq!(EventType::Greeks.to_string(), "Greeks");
    assert_eq!(EventType::TheoPrice.to_string(), "TheoPrice");
    assert_eq!(EventType::Underlying.to_string(), "Underlying");
    assert_eq!(EventType::Series.to_string(), "Series");
    assert_eq!(EventType::Configuration.to_string(), "Configuration");
    assert_eq!(EventType::Message.to_string(), "Message");
}

#[test]
fn test_event_type_from_str() {
    assert_eq!(EventType::from("Quote"), EventType::Quote);
    assert_eq!(EventType::from("Trade"), EventType::Trade);
    assert_eq!(EventType::from("Summary"), EventType::Summary);
    assert_eq!(EventType::from("Profile"), EventType::Profile);
    assert_eq!(EventType::from("Order"), EventType::Order);
    assert_eq!(EventType::from("TimeAndSale"), EventType::TimeAndSale);
    assert_eq!(EventType::from("Candle"), EventType::Candle);
    assert_eq!(EventType::from("TradeETH"), EventType::TradeETH);
    assert_eq!(EventType::from("SpreadOrder"), EventType::SpreadOrder);
    assert_eq!(EventType::from("Greeks"), EventType::Greeks);
    assert_eq!(EventType::from("TheoPrice"), EventType::TheoPrice);
    assert_eq!(EventType::from("Underlying"), EventType::Underlying);
    assert_eq!(EventType::from("Series"), EventType::Series);
    assert_eq!(EventType::from("Configuration"), EventType::Configuration);
    assert_eq!(EventType::from("Message"), EventType::Message);

    assert_eq!(EventType::from("UnknownType"), EventType::Quote);
    assert_eq!(EventType::from(""), EventType::Quote);
}

#[test]
fn test_event_type_serialization() {
    let event_type = EventType::Quote;
    let serialized = JsonValue::Text(event_type.to_string()).render();
    assert_eq!(serialized, "\"Quote\"");

    let event_type = EventType::Greeks;
    let serialized = JsonValue::Text(event_type.to_string()).render();
    assert_eq!(serialized, "\"Greeks\"");
}

#[test]
fn test_event_type_deserialization() {
    let value = JsonValue::parse("\"Quote\"").unwrap();
    let event_type: EventType = value.as_str().unwrap().parse().unwrap();
    assert_eq!(event_type, EventType::Quote);

    let value = JsonValue::parse("\"Greeks\"").unwrap();
    let event_type: EventType = value.as_str().unwrap().parse().unwrap();
    assert_eq!(event_type, EventType::Greeks);
}

#[test]
fn test_quote_event_serialization() {
    let quote = QuoteEvent {
        event_type: "Quote".to_string(),
        event_symbol: "AAPL".to_string(),
        bid_price: double(150.25),
        ask_price: double(150.50),
        bid_size: double(100.0),
        ask_size: double(150.0),
    };

    let serialized = to_string(&MarketEvent::Quote(quote));
    let json_value = parsed(&serialized);

    assert_eq!(json_value["eventType"], "Quote");
    assert_eq!(json_value["eventSymbol"], "AAPL");
    assert_eq!(json_value["bidPrice"], 150.25);
    assert_eq!(json_value["askPrice"], 150.50);
    assert_eq!(json_value["bidSize"], 100.0);
    assert_eq!(json_value["askSize"], 150.0);
}

#[test]
fn test_quote_event_deserialization() {
    let json_str = r#"{
        "eventType": "Quote",
        "eventSymbol": "AAPL",
        "bidPrice": 150.25,
        "askPrice": 150.50,
        "bidSize": 100.0,
        "askSize": 150.0
    }"#;

    let quote = quote_from(json_str).unwrap();

    assert_eq!(quote.event_type, "Quote");
    assert_eq!(quote.event_symbol, "AAPL");
    assert_eq!(f(&quote.bid_price), 150.25);
    assert_eq!(f(&quote.ask_price), 150.50);
    assert_eq!(f(&quote.bid_size), 100.0);
    assert_eq!(f(&quote.ask_size), 150.0);
}

#[test]
fn test_trade_event_serialization() {
    let trade = TradeEvent {
        event_type: "Trade".to_string(),
        event_symbol: "MSFT".to_string(),
        price: double(280.75),
        size: double(50.0),
        day_volume: double(5000000.0),
    };

    let serialized = to_string(&MarketEvent::Trade(trade));
    let json_value = parsed(&serialized);

    assert_eq!(json_value["eventType"], "Trade");
    assert_eq!(json_value["eventSymbol"], "MSFT");
    assert_eq!(json_value["price"], 280.75);
    assert_eq!(json_value["size"], 50.0);
    assert_eq!(json_value["dayVolume"], 5000000.0);
}

#[test]
fn test_trade_event_deserialization() {
    let json_str = r#"{
        "eventType": "Trade",
        "eventSymbol": "MSFT",
        "price": 280.75,
        "size": 50.0,
        "dayVolume": 5000000.0
    }"#;

    let trade = trade_from(json_str).unwrap();

    assert_eq!(trade.event_type, "Trade");
    assert_eq!(trade.event_symbol, "MSFT");
    assert_eq!(f(&trade.price), 280.75);
    assert_eq!(f(&trade.size), 50.0);
    assert_eq!(f(&trade.day_volume), 5000000.0);
}

#[test]
fn test_greeks_event_serialization() {
    let greeks = GreeksEvent {
        event_type: "Greeks".to_string(),
        event_symbol: "AAPL230519C00160000".to_string(),
        delta: double(0.65),
        gamma: double(0.05),
        theta: double(-0.15),
        vega: double(0.10),
        rho: double(0.03),
        volatility: double(0.25),
    };

    let serialized = to_string(&MarketEvent::Greeks(greeks));

    let json_value = parsed(&serialized);

    assert_eq!(json_value["eventType"], "Greeks");
    assert_eq!(json_value["eventSymbol"], "AAPL230519C00160000");
    assert_eq!(json_value["delta"], 0.65);
    assert_eq!(json_value["gamma"], 0.05);
    assert_eq!(json_value["theta"], -0.15);
    assert_eq!(json_value["vega"], 0.10);
    assert_eq!(json_value["rho"], 0.03);
    assert_eq!(json_value["volatility"], 0.25);
}

#[test]
fn test_greeks_event_deserialization() {
    let json_str = r#"{
        "eventType": "Greeks",
        "eventSymbol": "AAPL230519C00160000",
        "delta": 0.65,
        "gamma": 0.05,
        "theta": -0.15,
        "vega": 0.10,
        "rho": 0.03,
        "volatility": 0.25
    }"#;

    let greeks = greeks_from(json_str).unwrap();

    assert_eq!(greeks.event_type, "Greeks");
    assert_eq!(greeks.event_symbol, "AAPL230519C00160000");
    assert_eq!(f(&greeks.delta), 0.65);
    assert_eq!(f(&greeks.gamma), 0.05);
    assert_eq!(f(&greeks.theta), -0.15);
    assert_eq!(f(&greeks.vega), 0.10);
    assert_eq!(f(&greeks.rho), 0.03);
    assert_eq!(f(&greeks.volatility), 0.25);
}

#[test]
fn test_market_event_quote_serialization() {
    let quote = QuoteEvent {
        event_type: "Quote".to_string(),
        event_symbol: "AAPL".to_string(),
        bid_price: double(150.25),
        ask_price: double(150.50),
        bid_size: double(100.0),
        ask_size: double(150.0),
    };
    let market_event = MarketEvent::Quote(quote);
    let serialized = to_string(&market_event);
    let json_value = parsed(&serialized);

    assert_eq!(json_value["eventType"], "Quote");
    assert_eq!(json_value["eventSymbol"], "AAPL");
    assert_eq!(json_value["bidPrice"], 150.25);
    assert_eq!(json_value["askPrice"], 150.50);
    assert_eq!(json_value["bidSize"], 100.0);
    assert_eq!(json_value["askSize"], 150.0);
}

#[test]
fn test_market_event_trade_serialization() {
    let trade = TradeEvent {
        event_type: "Trade".to_string(),
        event_symbol: "MSFT".to_string(),
        price: double(280.75),
        size: double(50.0),
        day_volume: double(5000000.0),
    };
    let market_event = MarketEvent::Trade(trade);
    let serialized = to_string(&market_event);
    let json_value = parsed(&serialized);

    assert_eq!(json_value["eventType"], "Trade");
    assert_eq!(json_value["eventSymbol"], "MSFT");
    assert_eq!(json_value["price"], 280.75);
    assert_eq!(json_value["size"], 50.0);
    assert_eq!(json_value["dayVolume"], 5000000.0);
}

#[test]
fn test_market_event_greeks_serialization() {
    let greeks = GreeksEvent {
        event_type: "Greeks".to_string(),
        event_symbol: "AAPL230519C00160000".to_string(),
        delta: double(0.65),
        gamma: double(0.05),
        theta: double(-0.15),
        vega: double(0.10),
        rho: double(0.03),
        volatility: double(0.25),
    };
    let market_event = MarketEvent::Greeks(greeks);
    let serialized = to_string(&market_event);
    let json_value = parsed(&serialized);

    assert_eq!(json_value["eventType"], "Greeks");
    assert_eq!(json_value["eventSymbol"], "AAPL230519C00160000");
    assert_eq!(json_value["delta"], 0.65);
    assert_eq!(json_value["gamma"], 0.05);
    assert_eq!(json_value["theta"], -0.15);
    assert_eq!(json_value["vega"], 0.10);
    assert_eq!(json_value["rho"], 0.03);
    assert_eq!(json_value["volatility"], 0.25);
}

#[test]
fn test_market_event_quote_deserialization() {
    let json_str = r#"{
        "eventType": "Quote",
        "eventSymbol": "AAPL",
        "bidPrice": 150.25,
        "askPrice": 150.50,
        "bidSize": 100.0,
        "askSize": 150.0
    }"#;

    let market_event = from_str(json_str).unwrap();
    match market_event {
        MarketEvent::Quote(quote) => {
            assert_eq!(quote.event_type, "Quote");
            assert_eq!(quote.event_symbol, "AAPL");
            assert_eq!(f(&quote.bid_price), 150.25);
            assert_eq!(f(&quote.ask_price), 150.50);
            assert_eq!(f(&quote.bid_size), 100.0);
            assert_eq!(f(&quote.ask_size), 150.0);
        }
        _ => panic!("Expected QuoteEvent"),
    }
}

#[test]
fn test_market_event_trade_deserialization() {
    let json_str = r#"{
        "eventType": "Trade",
        "eventSymbol": "MSFT",
        "price": 280.75,
        "size": 50.0,
        "dayVolume": 5000000.0
    }"#;

    let market_event = from_str(json_str).unwrap();
    match market_event {
        MarketEvent::Trade(trade) => {
            assert_eq!(trade.event_type, "Trade");
            assert_eq!(trade.event_symbol, "MSFT");
            assert_eq!(f(&trade.price), 280.75);
            assert_eq!(f(&trade.size), 50.0);
            assert_eq!(f(&trade.day_volume), 5000000.0);
        }
        _ => panic!("Expected TradeEvent"),
    }
}

#[test]
fn test_market_event_greeks_deserialization() {
    let json_str = r#"{
        "eventType": "Greeks",
        "eventSymbol": "AAPL230519C00160000",
        "delta": 0.65,
        "gamma": 0.05,
        "theta": -0.15,
        "vega": 0.10,
        "rho": 0.03,
        "volatility": 0.25
    }"#;

    let market_event = from_str(json_str).unwrap();
    match market_event {
        MarketEvent::Greeks(greeks) => {
            assert_eq!(greeks.event_type, "Greeks");
            assert_eq!(greeks.event_symbol, "AAPL230519C00160000");
            assert_eq!(f(&greeks.delta), 0.65);
            assert_eq!(f(&greeks.gamma), 0.05);
            assert_eq!(f(&greeks.theta), -0.15);
            assert_eq!(f(&greeks.vega), 0.10);
            assert_eq!(f(&greeks.rho), 0.03);
            assert_eq!(f(&greeks.volatility), 0.25);
        }
        _ => panic!("Expected GreeksEvent"),
    }
}

#[test]
fn test_compact_data_eventtype_serialization() {
    let compact_data = CompactData::EventType("Quote".to_string());
    let serialized = compact_data.into_value().render();
    assert_eq!(serialized, "\"Quote\"");
}

#[test]
fn test_compact_data_values_serialization() {
    let values = vec![
        json("AAPL"),
        json("Quote"),
        json(150.25),
        json(150.50),
        json(100.0),
        json(150.0),
    ];
    let compact_data = CompactData::Values(values);
    let serialized = compact_data.into_value().render();
    assert_eq!(serialized, "[\"AAPL\",\"Quote\",150.25,150.5,100.0,150.0]");
}

#[test]
fn test_compact_data_eventtype_deserialization() {
    let json_str = "\"Quote\"";
    let compact_data = CompactData::from_value(JsonValue::parse(json_str).unwrap()).unwrap();
    match compact_data {
        CompactData::EventType(event_type) => {
            assert_eq!(event_type, "Quote");
        }
        _ => panic!("Expected CompactData::EventType"),
    }
}

#[test]
fn test_compact_data_values_deserialization() {
    let json_str = "[\"AAPL\",\"Quote\",150.25,150.5,100.0,150.0]";
    let compact_data = CompactData::from_value(JsonValue::parse(json_str).unwrap()).unwrap();
    match compact_data {
        CompactData::Values(values) => {
            assert_eq!(values.len(), 6);
            assert_eq!(values[0].render(), json("AAPL").render());
            assert_eq!(values[1].render(), json("Quote").render());
            assert_eq!(values[2].render(), json(150.25).render());
            assert_eq!(values[3].render(), json(150.5).render());
            assert_eq!(values[4].render(), json(100.0).render());
            assert_eq!(values[5].render(), json(150.0).render());
        }
        _ => panic!("Expected CompactData::Values"),
    }
}

/// Every declared type must survive Display then FromStr.
#[test]
fn test_every_event_type_round_trips_through_its_wire_name() {
    for event_type in ALL_EVENT_TYPES {
        let name = event_type.to_string();
        assert_eq!(
            EventType::from_wire_name(&name),
            Some(event_type),
            "`{name}` does not parse back; from_wire_name is missing an arm"
        );
    }
}

/// The array itself must not silently fall behind the enum.
#[test]
fn test_all_event_types_covers_every_declared_name() {
    // Each entry is distinct, so a copy-paste omission shows up as a
    // duplicate or a short list rather than passing quietly.
    let mut names: Vec<String> = ALL_EVENT_TYPES.iter().map(|e| e.to_string()).collect();
    names.sort();
    names.dedup();
    assert_eq!(
        names.len(),
        ALL_EVENT_TYPES.len(),
        "ALL_EVENT_TYPES contains a duplicate"
    );
}

/// An option with no bid has a NaN price. The protocol sends it as a string
/// because JSON has no literal for it.
#[test]
fn test_a_full_payload_with_non_finite_values_deserializes() {
    let quote = quote_from(r#"{
        "eventType": "Quote",
        "eventSymbol": "AAPL240119C00500000",
        "bidPrice": "NaN",
        "askPrice": "Infinity",
        "bidSize": "-Infinity",
        "askSize": 150.0
    }"#)
    .expect("the protocol's non-finite strings are valid");

    assert!(f(&quote.bid_price).is_nan());
    assert_eq!(f(&quote.ask_price), f64::INFINITY);
    assert_eq!(f(&quote.bid_size), f64::NEG_INFINITY);
    assert_eq!(f(&quote.ask_size), 150.0);
}

/// Serializing must produce what the protocol accepts, not JSON `null` or a
/// serializer error.
#[test]
fn test_non_finite_values_serialize_to_the_protocol_strings() {
    let quote = MarketEvent::Quote(QuoteEvent {
        event_type: "Quote".to_string(),
        event_symbol: "AAPL".to_string(),
        bid_price: double(f64::NAN),
        ask_price: double(f64::INFINITY),
        bid_size: double(f64::NEG_INFINITY),
        ask_size: double(150.0),
    });
    let json = parsed(&to_string(&quote));

    assert_eq!(json["bidPrice"], "NaN");
    assert_eq!(json["askPrice"], "Infinity");
    assert_eq!(json["bidSize"], "-Infinity");
    // Finite values stay numbers; quoting them all would be a wire change.
    assert_eq!(json["askSize"], 150.0);
}

#[test]
fn test_finite_values_round_trip_exactly() {
    let original = TradeEvent {
        event_type: "Trade".to_string(),
        event_symbol: "MSFT".to_string(),
        price: double(280.75),
        size: double(50.0),
        day_volume: double(5_000_000.0),
    };

    let back = trade_from(&to_string(&MarketEvent::Trade(original))).expect("deserialize");

    assert_eq!(f(&back.price), 280.75);
    assert_eq!(f(&back.size), 50.0);
    assert_eq!(f(&back.day_volume), 5_000_000.0);
}

#[test]
fn test_non_finite_values_round_trip_through_full_json() {
    let original = GreeksEvent {
        event_type: "Greeks".to_string(),
        event_symbol: "AAPL240119C00500000".to_string(),
        delta: double(f64::NAN),
        gamma: double(0.05),
        theta: double(f64::NEG_INFINITY),
        vega: double(0.1),
        rho: double(f64::INFINITY),
        volatility: double(0.25),
    };

    let back = greeks_from(&to_string(&MarketEvent::Greeks(original))).expect("deserialize");

    assert!(f(&back.delta).is_nan());
    assert_eq!(f(&back.theta), f64::NEG_INFINITY);
    assert_eq!(f(&back.rho), f64::INFINITY);
    assert_eq!(f(&back.gamma), 0.05);
}

#[test]
fn test_a_string_that_is_not_a_known_special_is_rejected() {
    let result = quote_from(r#"{
        "eventType": "Quote",
        "eventSymbol": "AAPL",
        "bidPrice": "cheap",
        "askPrice": 1.0,
        "bidSize": 1.0,
        "askSize": 1.0
    }"#);

    let error = result.expect_err("`cheap` is not a JSONDouble");
    assert!(error.contains("cheap"), "the value is missing: {error}");
}

#[test]
fn every_event_is_read_back_as_its_own_type() {
    // A trade in extended hours has every field of a trade, and more.
    let text = r#"{"eventType":"TradeETH","eventSymbol":"AAPL","eventTime":0,"time":5,
        "timeNanoPart":0,"sequence":-3,"exchangeCode":"D","price":307.3554,"change":"NaN",
        "size":600,"dayId":20665,"dayVolume":1.5,"dayTurnover":2.5,
        "tickDirection":"UNDEFINED","extendedTradingHours":true}"#;
    let event = from_str(text).expect("an event");
    assert!(matches!(event, MarketEvent::TradeETH(_)));
    let again = from_str(&to_string(&event)).expect("an event");
    match again {
        MarketEvent::TradeETH(print) => {
            assert_eq!(print.sequence, -3);
            assert_eq!(f(&print.size), 600.0);
            assert!(f(&print.change).is_nan());
            assert!(print.extended_trading_hours);
        }
        other => panic!("expected a trade in extended hours, got {other:?}"),
    }

    // Without the fields that only the longer type has, it is a trade.
    let text = r#"{"eventType":"TradeETH","eventSymbol":"AAPL","price":1.5,"size":2,"dayVolume":3,
        "time":5}"#;
    assert!(matches!(from_str(text), Some(MarketEvent::Trade(_))));
}

#[test]
fn an_object_that_is_no_event_is_refused_with_the_reason() {
    assert!(from_str("{}").is_none());
    assert!(from_str("[1,2]").is_none());
    assert_eq!(
        quote_from(r#"{"eventType":"Quote"}"#).unwrap_err(),
        "missing field `eventSymbol`"
    );
    assert_eq!(
        quote_from(r#"{"eventType":1}"#).unwrap_err(),
        "field `eventType` should be a string, got 1"
    );
    let value = JsonValue::parse("{}").expect("JSON");
    assert_eq!(
        read_event(EventType::Order, &value).map(|_| ()).unwrap_err(),
        "event type `Order` has no decoder in this client, so its rows cannot be read"
    );
    // A whole number where a truth value is due, and the other way round.
    let text = r#"{"eventType":"Candle","eventSymbol":"A","eventTime":true}"#;
    let value = JsonValue::parse(text).expect("JSON");
    assert_eq!(
        read_event(EventType::Candle, &value).map(|_| ()).unwrap_err(),
        "field `eventTime` should be a whole number, got true"
    );
}

#[test]
fn names_that_are_no_wire_names_are_refused() {
    assert_eq!(EventType::from_wire_name("quote"), None);
    assert_eq!(EventType::from_wire_name("Quote "), None);
    assert!(EventType::parse("Nonsense").is_err());
    assert_eq!(
        EventType::parse("Nonsense").map(|_| ()).unwrap_err().to_string(),
        "Protocol error: `Nonsense` is not a DXLink event type; the protocol declares Quote, Trade, \
         Summary, Profile, Order, TimeAndSale, Candle, TradeETH, SpreadOrder, Greeks, TheoPrice, \
         Underlying, Series, Configuration and Message"
    );
}

#[test]
fn the_types_that_can_be_decoded_ask_for_each_column_once() {
    let mut decodable = 0;
    for event_type in ALL_EVENT_TYPES {
        let Some(fields) = event_type.compact_fields() else {
            continue;
        };
        decodable += 1;
        assert_eq!(fields[0], "eventType");
        assert_eq!(fields[1], "eventSymbol");
        let mut names = fields.to_vec();
        names.sort();
        names.dedup();
        assert_eq!(names.len(), fields.len(), "{event_type:?}");
    }
    assert_eq!(decodable, 11);
}

#[test]
fn a_whole_number_in_a_double_is_the_nearest_double() {
    for text in [
        "0",
        "4",
        "-3",
        "9007199254740993",
        "18446744073709551615",
        "-9223372036854775808",
        "12345678901234567890",
        "-0",
        "0.1",
    ] {
        let value: serde_json::Value = serde_json::from_str(text).expect("a number");
        let held = value.as_f64().expect("a double");
        let double = JsonDouble::from_value(&json(value)).expect("a double");
        assert_eq!(
            double.to_value().render(),
            serde_json::Number::from_f64(held).expect("finite").to_string(),
            "{text}"
        );
        assert_eq!(f(&double).to_bits(), held.to_bits(), "{text}");
    }
    let four = JsonDouble::from_value(&json(4)).expect("a double");
    assert_eq!(four.to_value().render(), "4.0");
}
