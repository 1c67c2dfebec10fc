//! Events as JSON objects, one field for each column.
//!
//! An object does not say of which type it is. It is read as the first type
//! whose fields it has, all of them and each of its kind.

use crate::compact;
use crate::compact::{assemble, FieldValue};
use crate::events;
use crate::events::{
    CandleEvent, EventTree, EventType, FieldKind, FieldTree, GreeksEvent, JsonDouble, MarketEvent,
    ProfileEvent, QuoteEvent, SeriesEvent, SummaryEvent, TheoPriceEvent, TimeAndSaleEvent,
    TradeETHEvent, TradeEvent, UnderlyingEvent,
};
use crate::json;
use crate::json::{JsonNumber, JsonTree, JsonValue};
use crate::wire;
use crate::wire::{missing_words, unlike_words};
use vstd::prelude::*;

verus! {

// ---------------------------------------------------------------------------
// Writing
// ---------------------------------------------------------------------------
/// What one field of an event is as JSON.
pub open spec fn field_value(field: FieldTree) -> JsonTree {
    match field {
        FieldTree::Text(text) => JsonTree::Text(text),
        FieldTree::Whole(n) => wire::whole(n),
        FieldTree::Double(double) => events::double_value(double),
        FieldTree::Flag(flag) => JsonTree::Bool(flag),
    }
}

/// The fields of an event as JSON, each under the name of its column.
pub open spec fn event_fields(event: EventTree) -> wire::Fields {
    Seq::new(
        event.fields.len(),
        |i: int| (events::field_names(event.event_type)[i], field_value(event.fields[i])),
    )
}

/// An event as JSON.
pub open spec fn event_value(event: EventTree) -> JsonTree {
    JsonTree::Object(event_fields(event))
}

fn quote_fields(e: &QuoteEvent) -> (r: Vec<FieldValue>)
    ensures
        compact::field_values(r@) == e.fields(),
{
    let values = vec![
        FieldValue::Text(e.event_type.as_str().to_owned()),
        FieldValue::Text(e.event_symbol.as_str().to_owned()),
        FieldValue::Double(e.bid_price.copied()),
        FieldValue::Double(e.ask_price.copied()),
        FieldValue::Double(e.bid_size.copied()),
        FieldValue::Double(e.ask_size.copied()),
    ];
    assert(compact::field_values(values@) =~= e.fields());
    values
}

fn trade_fields(e: &TradeEvent) -> (r: Vec<FieldValue>)
    ensures
        compact::field_values(r@) == e.fields(),
{
    let values = vec![
        FieldValue::Text(e.event_type.as_str().to_owned()),
        FieldValue::Text(e.event_symbol.as_str().to_owned()),
        FieldValue::Double(e.price.copied()),
        FieldValue::Double(e.size.copied()),
        FieldValue::Double(e.day_volume.copied()),
    ];
    assert(compact::field_values(values@) =~= e.fields());
    values
}

fn greeks_fields(e: &GreeksEvent) -> (r: Vec<FieldValue>)
    ensures
        compact::field_values(r@) == e.fields(),
{
    let values = vec![
        FieldValue::Text(e.event_type.as_str().to_owned()),
        FieldValue::Text(e.event_symbol.as_str().to_owned()),
        FieldValue::Double(e.delta.copied()),
        FieldValue::Double(e.gamma.copied()),
        FieldValue::Double(e.theta.copied()),
        FieldValue::Double(e.vega.copied()),
        FieldValue::Double(e.rho.copied()),
        FieldValue::Double(e.volatility.copied()),
    ];
    assert(compact::field_values(values@) =~= e.fields());
    values
}

fn candle_fields(e: &CandleEvent) -> (r: Vec<FieldValue>)
    ensures
        compact::field_values(r@) == e.fields(),
{
    let values = vec![
        FieldValue::Text(e.event_type.as_str().to_owned()),
        FieldValue::Text(e.event_symbol.as_str().to_owned()),
        FieldValue::Whole(e.event_time),
        FieldValue::Whole(e.event_flags),
        FieldValue::Whole(e.index),
        FieldValue::Whole(e.time),
        FieldValue::Whole(e.sequence),
        FieldValue::Whole(e.count),
        FieldValue::Double(e.open.copied()),
        FieldValue::Double(e.high.copied()),
        FieldValue::Double(e.low.copied()),
        FieldValue::Double(e.close.copied()),
        FieldValue::Double(e.volume.copied()),
        FieldValue::Double(e.vwap.copied()),
        FieldValue::Double(e.bid_volume.copied()),
        FieldValue::Double(e.ask_volume.copied()),
        FieldValue::Double(e.imp_volatility.copied()),
        FieldValue::Double(e.open_interest.copied()),
    ];
    assert(compact::field_values(values@) =~= e.fields());
    values
}

fn summary_fields(e: &SummaryEvent) -> (r: Vec<FieldValue>)
    ensures
        compact::field_values(r@) == e.fields(),
{
    let values = vec![
        FieldValue::Text(e.event_type.as_str().to_owned()),
        FieldValue::Text(e.event_symbol.as_str().to_owned()),
        FieldValue::Whole(e.event_time),
        FieldValue::Whole(e.day_id),
        FieldValue::Double(e.day_open_price.copied()),
        FieldValue::Double(e.day_high_price.copied()),
        FieldValue::Double(e.day_low_price.copied()),
        FieldValue::Double(e.day_close_price.copied()),
        FieldValue::Text(e.day_close_price_type.as_str().to_owned()),
        FieldValue::Whole(e.prev_day_id),
        FieldValue::Double(e.prev_day_close_price.copied()),
        FieldValue::Text(e.prev_day_close_price_type.as_str().to_owned()),
        FieldValue::Double(e.prev_day_volume.copied()),
        FieldValue::Double(e.open_interest.copied()),
    ];
    assert(compact::field_values(values@) =~= e.fields());
    values
}

fn time_and_sale_fields(e: &TimeAndSaleEvent) -> (r: Vec<FieldValue>)
    ensures
        compact::field_values(r@) == e.fields(),
{
    let values = vec![
        FieldValue::Text(e.event_type.as_str().to_owned()),
        FieldValue::Text(e.event_symbol.as_str().to_owned()),
        FieldValue::Whole(e.event_time),
        FieldValue::Whole(e.event_flags),
        FieldValue::Whole(e.index),
        FieldValue::Whole(e.time),
        FieldValue::Whole(e.time_nano_part),
        FieldValue::Whole(e.sequence),
        FieldValue::Text(e.exchange_code.as_str().to_owned()),
        FieldValue::Double(e.price.copied()),
        FieldValue::Double(e.size.copied()),
        FieldValue::Double(e.bid_price.copied()),
        FieldValue::Double(e.ask_price.copied()),
        FieldValue::Text(e.exchange_sale_conditions.as_str().to_owned()),
        FieldValue::Text(e.trade_through_exempt.as_str().to_owned()),
        FieldValue::Text(e.aggressor_side.as_str().to_owned()),
        FieldValue::Flag(e.spread_leg),
        FieldValue::Flag(e.extended_trading_hours),
        FieldValue::Flag(e.valid_tick),
        FieldValue::Text(e.sale_type.as_str().to_owned()),
        FieldValue::Text(e.buyer.as_str().to_owned()),
        FieldValue::Text(e.seller.as_str().to_owned()),
    ];
    assert(compact::field_values(values@) =~= e.fields());
    values
}

fn profile_fields(e: &ProfileEvent) -> (r: Vec<FieldValue>)
    ensures
        compact::field_values(r@) == e.fields(),
{
    let values = vec![
        FieldValue::Text(e.event_type.as_str().to_owned()),
        FieldValue::Text(e.event_symbol.as_str().to_owned()),
        FieldValue::Whole(e.event_time),
        FieldValue::Text(e.description.as_str().to_owned()),
        FieldValue::Text(e.short_sale_restriction.as_str().to_owned()),
        FieldValue::Text(e.trading_status.as_str().to_owned()),
        FieldValue::Text(e.status_reason.as_str().to_owned()),
        FieldValue::Whole(e.halt_start_time),
        FieldValue::Whole(e.halt_end_time),
        FieldValue::Double(e.high_limit_price.copied()),
        FieldValue::Double(e.low_limit_price.copied()),
        FieldValue::Double(e.high_52_week_price.copied()),
        FieldValue::Double(e.low_52_week_price.copied()),
        FieldValue::Double(e.beta.copied()),
        FieldValue::Double(e.earnings_per_share.copied()),
        FieldValue::Double(e.dividend_frequency.copied()),
        FieldValue::Double(e.ex_dividend_amount.copied()),
        FieldValue::Whole(e.ex_dividend_day_id),
        FieldValue::Double(e.shares.copied()),
        FieldValue::Double(e.free_float.copied()),
    ];
    assert(compact::field_values(values@) =~= e.fields());
    values
}

fn underlying_fields(e: &UnderlyingEvent) -> (r: Vec<FieldValue>)
    ensures
        compact::field_values(r@) == e.fields(),
{
    let values = vec![
        FieldValue::Text(e.event_type.as_str().to_owned()),
        FieldValue::Text(e.event_symbol.as_str().to_owned()),
        FieldValue::Whole(e.event_time),
        FieldValue::Whole(e.event_flags),
        FieldValue::Whole(e.index),
        FieldValue::Whole(e.time),
        FieldValue::Whole(e.sequence),
        FieldValue::Double(e.volatility.copied()),
        FieldValue::Double(e.front_volatility.copied()),
        FieldValue::Double(e.back_volatility.copied()),
        FieldValue::Double(e.call_volume.copied()),
        FieldValue::Double(e.put_volume.copied()),
        FieldValue::Double(e.put_call_ratio.copied()),
    ];
    assert(compact::field_values(values@) =~= e.fields());
    values
}

fn theo_price_fields(e: &TheoPriceEvent) -> (r: Vec<FieldValue>)
    ensures
        compact::field_values(r@) == e.fields(),
{
    let values = vec![
        FieldValue::Text(e.event_type.as_str().to_owned()),
        FieldValue::Text(e.event_symbol.as_str().to_owned()),
        FieldValue::Whole(e.event_time),
        FieldValue::Whole(e.event_flags),
        FieldValue::Whole(e.index),
        FieldValue::Whole(e.time),
        FieldValue::Whole(e.sequence),
        FieldValue::Double(e.price.copied()),
        FieldValue::Double(e.underlying_price.copied()),
        FieldValue::Double(e.delta.copied()),
        FieldValue::Double(e.gamma.copied()),
        FieldValue::Double(e.dividend.copied()),
        FieldValue::Double(e.interest.copied()),
    ];
    assert(compact::field_values(values@) =~= e.fields());
    values
}

fn series_fields(e: &SeriesEvent) -> (r: Vec<FieldValue>)
    ensures
        compact::field_values(r@) == e.fields(),
{
    let values = vec![
        FieldValue::Text(e.event_type.as_str().to_owned()),
        FieldValue::Text(e.event_symbol.as_str().to_owned()),
        FieldValue::Whole(e.event_time),
        FieldValue::Whole(e.event_flags),
        FieldValue::Whole(e.index),
        FieldValue::Whole(e.time),
        FieldValue::Whole(e.sequence),
        FieldValue::Whole(e.expiration),
        FieldValue::Double(e.volatility.copied()),
        FieldValue::Double(e.call_volume.copied()),
        FieldValue::Double(e.put_volume.copied()),
        FieldValue::Double(e.put_call_ratio.copied()),
        FieldValue::Double(e.forward_price.copied()),
        FieldValue::Double(e.dividend.copied()),
        FieldValue::Double(e.interest.copied()),
    ];
    assert(compact::field_values(values@) =~= e.fields());
    values
}

fn trade_eth_fields(e: &TradeETHEvent) -> (r: Vec<FieldValue>)
    ensures
        compact::field_values(r@) == e.fields(),
{
    let values = vec![
        FieldValue::Text(e.event_type.as_str().to_owned()),
        FieldValue::Text(e.event_symbol.as_str().to_owned()),
        FieldValue::Whole(e.event_time),
        FieldValue::Whole(e.time),
        FieldValue::Whole(e.time_nano_part),
        FieldValue::Whole(e.sequence),
        FieldValue::Text(e.exchange_code.as_str().to_owned()),
        FieldValue::Double(e.price.copied()),
        FieldValue::Double(e.change.copied()),
        FieldValue::Double(e.size.copied()),
        FieldValue::Whole(e.day_id),
        FieldValue::Double(e.day_volume.copied()),
        FieldValue::Double(e.day_turnover.copied()),
        FieldValue::Text(e.tick_direction.as_str().to_owned()),
        FieldValue::Flag(e.extended_trading_hours),
    ];
    assert(compact::field_values(values@) =~= e.fields());
    values
}

/// The fields of an event, in the order of its columns.
pub fn fields_of(event: &MarketEvent) -> (r: Vec<FieldValue>)
    ensures
        compact::field_values(r@) == event@.fields,
        events::is_decodable(event@.event_type),
        r@.len() == events::field_names(event@.event_type).len(),
{
    let fields = match event {
        MarketEvent::Quote(e) => quote_fields(e),
        MarketEvent::Trade(e) => trade_fields(e),
        MarketEvent::Greeks(e) => greeks_fields(e),
        MarketEvent::Candle(e) => candle_fields(e),
        MarketEvent::Summary(e) => summary_fields(e),
        MarketEvent::TimeAndSale(e) => time_and_sale_fields(e),
        MarketEvent::Profile(e) => profile_fields(e),
        MarketEvent::Underlying(e) => underlying_fields(e),
        MarketEvent::TheoPrice(e) => theo_price_fields(e),
        MarketEvent::Series(e) => series_fields(e),
        MarketEvent::TradeETH(e) => trade_eth_fields(e),
    };
    proof {
        assert(compact::field_values(fields@).len() == fields@.len());
        assert(events::field_names(event@.event_type).len() == events::columns(
            event@.event_type,
        )->0.len());
    }
    fields
}

fn to_field_value(field: FieldValue) -> (r: JsonValue)
    ensures
        r@ == field_value(field@),
{
    match field {
        FieldValue::Text(text) => JsonValue::Text(text),
        FieldValue::Whole(n) => JsonValue::Number(JsonNumber::Signed(n)),
        FieldValue::Double(double) => double.to_value(),
        FieldValue::Flag(flag) => JsonValue::Bool(flag),
    }
}

impl MarketEvent {
    /// The type of the event.
    pub fn event_type(&self) -> (r: EventType)
        ensures
            r == self@.event_type,
    {
        match self {
            MarketEvent::Quote(_) => EventType::Quote,
            MarketEvent::Trade(_) => EventType::Trade,
            MarketEvent::Greeks(_) => EventType::Greeks,
            MarketEvent::Candle(_) => EventType::Candle,
            MarketEvent::Summary(_) => EventType::Summary,
            MarketEvent::TimeAndSale(_) => EventType::TimeAndSale,
            MarketEvent::Profile(_) => EventType::Profile,
            MarketEvent::Underlying(_) => EventType::Underlying,
            MarketEvent::TheoPrice(_) => EventType::TheoPrice,
            MarketEvent::Series(_) => EventType::Series,
            MarketEvent::TradeETH(_) => EventType::TradeETH,
        }
    }

    /// The event as JSON.
    pub fn to_value(&self) -> (r: JsonValue)
        ensures
            r@ == event_value(self@),
    {
        let fields = fields_of(self);
        let names = self.event_type().compact_fields().unwrap();
        let ghost held = compact::field_values(fields@);
        let ghost all = event_fields(self@);
        assert(events::names_of(names@).len() == names@.len());
        let mut out: Vec<(String, JsonValue)> = Vec::new();
        for field in it: fields
            invariant
                it.seq() == fields@,
                held == compact::field_values(fields@),
                held == self@.fields,
                all == event_fields(self@),
                names@.len() == fields@.len(),
                events::names_of(names@) == events::field_names(self@.event_type),
                out@.len() == it.index(),
                forall|j: int|
                    0 <= j < out@.len() ==> ((#[trigger] out@[j]).0@, json::tree(out@[j].1))
                        == all[j],
        {
            let ghost i = it.index();
            assert(field@ == held[i]);
            assert(events::names_of(names@)[i] == names@[i]@);
            let at: usize = out.len();
            out.push((names[at].to_owned(), to_field_value(field)));
        }
        assert(json::field_trees(out@) =~= all);
        JsonValue::Object(out)
    }
}

// ---------------------------------------------------------------------------
// Reading
// ---------------------------------------------------------------------------
/// What a field of an object holds, read as its kind asks, or in words why it
/// cannot be read. No field may be left out.
pub open spec fn object_field(value: JsonTree, name: Seq<char>, kind: FieldKind) -> Result<
    FieldTree,
    Seq<char>,
> {
    match json::field_of(value, name) {
        None => Err(wire::missing(name)),
        Some(field) => match kind {
            FieldKind::Identity | FieldKind::Text => match json::text_of(field) {
                Some(text) => Ok(FieldTree::Text(text)),
                None => Err(wire::unlike(name, "a string"@, field)),
            },
            FieldKind::Whole => match json::integer_of(field, i64::MIN as int, i64::MAX as int) {
                Some(n) => Ok(FieldTree::Whole(n)),
                None => Err(wire::unlike(name, "a whole number"@, field)),
            },
            FieldKind::Double => match events::double_of(field) {
                Some(double) => Ok(FieldTree::Double(double)),
                None => Err(wire::unlike(name, "a number"@, field)),
            },
            FieldKind::Flag => match json::bool_of(field) {
                Some(flag) => Ok(FieldTree::Flag(flag)),
                None => Err(wire::unlike(name, "a boolean"@, field)),
            },
        },
    }
}

/// What the fields of an object hold, one for each column, or the first thing
/// that cannot be read.
pub open spec fn object_fields(value: JsonTree, columns: Seq<(Seq<char>, FieldKind)>) -> Result<
    Seq<FieldTree>,
    Seq<char>,
>
    decreases columns.len(),
{
    if columns.len() == 0 {
        Ok(Seq::empty())
    } else {
        match object_fields(value, columns.drop_last()) {
            Err(words) => Err(words),
            Ok(fields) => match object_field(value, columns.last().0, columns.last().1) {
                Err(words) => Err(words),
                Ok(field) => Ok(fields.push(field)),
            },
        }
    }
}

/// The event of a type that an object is, or in words why it is none.
pub open spec fn event_as(event_type: EventType, value: JsonTree) -> Result<EventTree, Seq<char>> {
    match events::columns(event_type) {
        Some(columns) => match object_fields(value, columns) {
            Ok(fields) => Ok(EventTree { event_type, fields }),
            Err(words) => Err(words),
        },
        None => Err(compact::no_decoder(events::wire_name(event_type))),
    }
}

/// The types in the order in which an object is tried. A trade in extended
/// hours has every field of a trade, so it comes before it.
pub const TRIED_IN_ORDER: [EventType; 11] = [
    EventType::Quote,
    EventType::TradeETH,
    EventType::Trade,
    EventType::Greeks,
    EventType::Candle,
    EventType::Summary,
    EventType::TimeAndSale,
    EventType::Profile,
    EventType::Underlying,
    EventType::TheoPrice,
    EventType::Series,
];

/// The first type from a position on that an object can be read as.
pub open spec fn first_event(order: Seq<EventType>, value: JsonTree, from: int) -> Option<EventTree>
    decreases order.len() - from,
{
    if from >= order.len() {
        None
    } else {
        match event_as(order[from], value) {
            Ok(event) => Some(event),
            Err(_) => first_event(order, value, from + 1),
        }
    }
}

/// The event that an object is, if it is one.
pub open spec fn event_of(value: JsonTree) -> Option<EventTree> {
    first_event(TRIED_IN_ORDER@, value, 0)
}

fn read_object_field(value: &JsonValue, name: &str, kind: FieldKind) -> (r: Result<
    FieldValue,
    String,
>)
    ensures
        match r {
            Ok(field) => object_field(value@, name@, kind) == Ok::<FieldTree, Seq<char>>(field@),
            Err(words) => object_field(value@, name@, kind) == Err::<FieldTree, Seq<char>>(words@),
        },
{
    let field = match value.get(name) {
        None => return Err(missing_words(name)),
        Some(field) => field,
    };
    match kind {
        FieldKind::Identity | FieldKind::Text => match field.as_str() {
            Some(text) => Ok(FieldValue::Text(text.to_owned())),
            None => Err(unlike_words(name, "a string", field)),
        },
        FieldKind::Whole => match field.as_i64() {
            Some(n) => Ok(FieldValue::Whole(n)),
            None => Err(unlike_words(name, "a whole number", field)),
        },
        FieldKind::Double => match JsonDouble::from_value(field) {
            Some(double) => Ok(FieldValue::Double(double)),
            None => Err(unlike_words(name, "a number", field)),
        },
        FieldKind::Flag => match field.as_bool() {
            Some(flag) => Ok(FieldValue::Flag(flag)),
            None => Err(unlike_words(name, "a boolean", field)),
        },
    }
}

/// Reads an object as an event of a type, or says in words why it is none.
pub fn read_event(event_type: EventType, value: &JsonValue) -> (r: Result<MarketEvent, String>)
    ensures
        match r {
            Ok(event) => event_as(event_type, value@) == Ok::<EventTree, Seq<char>>(event@),
            Err(words) => event_as(event_type, value@) == Err::<EventTree, Seq<char>>(words@),
        },
{
    let names = match event_type.compact_fields() {
        Some(names) => names,
        None => {
            let mut words = "event type `".to_owned();
            words.append(event_type.name());
            words.append("` has no decoder in this client, so its rows cannot be read");
            return Err(words);
        },
    };
    let kinds = event_type.field_kinds().unwrap();
    let ghost columns = events::columns(event_type)->0;
    let mut out: Vec<FieldValue> = Vec::new();
    let mut i: usize = 0;
    proof {
        assert(columns.take(0) =~= Seq::<(Seq<char>, FieldKind)>::empty());
        assert(events::names_of(names@).len() == columns.len());
        assert(compact::field_values(out@) =~= Seq::<FieldTree>::empty());
    }
    while i < names.len()
        invariant
            i <= names.len(),
            events::names_of(names@) == events::field_names(event_type),
            events::columns(event_type) == Some(columns),
            kinds@ == columns.map_values(|c: (Seq<char>, FieldKind)| c.1),
            names@.len() == columns.len(),
            out@.len() == i,
            forall|j: int| 0 <= j < i ==> compact::is_of_kind((#[trigger] out@[j])@, columns[j].1),
            object_fields(value@, columns.take(i as int)) == Ok::<Seq<FieldTree>, Seq<char>>(
                compact::field_values(out@),
            ),
        decreases names.len() - i,
    {
        let ghost before = out@;
        proof {
            assert(columns.take(i + 1).drop_last() =~= columns.take(i as int));
            assert(columns.take(i + 1).last() == columns[i as int]);
            assert(events::names_of(names@)[i as int] == names@[i as int]@);
            assert(events::field_names(event_type)[i as int] == columns[i as int].0);
            assert(kinds@[i as int] == columns[i as int].1);
        }
        match read_object_field(value, names[i], kinds[i]) {
            Ok(field) => {
                out.push(field);
                assert(compact::field_values(out@) =~= compact::field_values(before).push(field@));
            },
            Err(words) => {
                proof {
                    first_fault_stands(value@, columns, i + 1);
                }
                return Err(words);
            },
        }
        i += 1;
    }
    assert(columns.take(columns.len() as int) =~= columns);
    Ok(assemble(event_type, &out))
}

/// A fault in the first fields is the fault of the object.
proof fn first_fault_stands(value: JsonTree, columns: Seq<(Seq<char>, FieldKind)>, upto: int)
    requires
        0 <= upto <= columns.len(),
        object_fields(value, columns.take(upto)) is Err,
    ensures
        object_fields(value, columns) == object_fields(value, columns.take(upto)),
    decreases columns.len(),
{
    if upto < columns.len() {
        assert(columns.drop_last().take(upto) =~= columns.take(upto));
        first_fault_stands(value, columns.drop_last(), upto);
    } else {
        assert(columns.take(upto) =~= columns);
    }
}

impl MarketEvent {
    /// The event that an object is, if it is one.
    pub fn from_value(value: &JsonValue) -> (r: Option<MarketEvent>)
        ensures
            match r {
                Some(event) => event_of(value@) == Some(event@),
                None => event_of(value@) is None,
            },
    {
        let mut i: usize = 0;
        while i < 11
            invariant
                i <= 11,
                event_of(value@) == first_event(TRIED_IN_ORDER@, value@, i as int),
            decreases 11 - i,
        {
            match read_event(TRIED_IN_ORDER[i], value) {
                Ok(event) => return Some(event),
                Err(_) => {},
            }
            i += 1;
        }
        None
    }
}

// ---------------------------------------------------------------------------
// Laws
// ---------------------------------------------------------------------------
/// A column that an object has only where it is of a type, or of one that is
/// tried earlier.
spec fn telling(event_type: EventType) -> Seq<char> {
    match event_type {
        EventType::Quote => "bidSize"@,
        EventType::Trade => "dayVolume"@,
        EventType::Greeks => "vega"@,
        EventType::Candle => "VWAP"@,
        EventType::Summary => "prevDayVolume"@,
        EventType::TimeAndSale => "buyer"@,
        EventType::Profile => "beta"@,
        EventType::Underlying => "frontVolatility"@,
        EventType::TheoPrice => "underlyingPrice"@,
        EventType::Series => "forwardPrice"@,
        EventType::TradeETH => "change"@,
        _ => Seq::empty(),
    }
}

/// How long the telling names are, and how they start.
proof fn telling_names()
    ensures
        "bidSize"@.len() == 7 && "bidSize"@[0] == 'b',
        "dayVolume"@.len() == 9 && "dayVolume"@[0] == 'd',
        "vega"@.len() == 4 && "vega"@[0] == 'v',
        "VWAP"@.len() == 4 && "VWAP"@[0] == 'V',
        "prevDayVolume"@.len() == 13 && "prevDayVolume"@[0] == 'p',
        "buyer"@.len() == 5 && "buyer"@[0] == 'b',
        "beta"@.len() == 4 && "beta"@[0] == 'b',
        "frontVolatility"@.len() == 15 && "frontVolatility"@[0] == 'f',
        "underlyingPrice"@.len() == 15 && "underlyingPrice"@[0] == 'u',
        "forwardPrice"@.len() == 12 && "forwardPrice"@[0] == 'f',
        "change"@.len() == 6 && "change"@[0] == 'c',
{
    reveal_strlit("bidSize");
    reveal_strlit("dayVolume");
    reveal_strlit("vega");
    reveal_strlit("VWAP");
    reveal_strlit("prevDayVolume");
    reveal_strlit("buyer");
    reveal_strlit("beta");
    reveal_strlit("frontVolatility");
    reveal_strlit("underlyingPrice");
    reveal_strlit("forwardPrice");
    reveal_strlit("change");
}

proof fn quote_names()
    ensures
        events::field_names(EventType::Quote).no_duplicates(),
        events::field_names(EventType::Quote).contains(telling(EventType::Quote)),
        forall|other: EventType| events::is_decodable(other) && other != EventType::Quote 
            ==> !events::field_names(EventType::Quote).contains(#[trigger] telling(other)),
{
    telling_names();
    reveal_strlit("eventType");
    reveal_strlit("eventSymbol");
    reveal_strlit("bidPrice");
    reveal_strlit("askPrice");
    reveal_strlit("bidSize");
    reveal_strlit("askSize");
    let names = events::field_names(EventType::Quote);
    assert(names[0] == "eventType"@ && names[0].len() == 9 && names[0][0] == 'e');
    assert(names[1] == "eventSymbol"@ && names[1].len() == 11 && names[1][0] == 'e');
    assert(names[2] == "bidPrice"@ && names[2].len() == 8 && names[2][0] == 'b');
    assert(names[3] == "askPrice"@ && names[3].len() == 8 && names[3][0] == 'a');
    assert(names[4] == "bidSize"@ && names[4].len() == 7 && names[4][0] == 'b');
    assert(names[5] == "askSize"@ && names[5].len() == 7 && names[5][0] == 'a');
    assert(names[4] == telling(EventType::Quote));
    assert forall|i: int, j: int| 0 <= i < j < names.len() implies names[i] != names[j] by {}
}

proof fn trade_names()
    ensures
        events::field_names(EventType::Trade).no_duplicates(),
        events::field_names(EventType::Trade).contains(telling(EventType::Trade)),
        forall|other: EventType| events::is_decodable(other) && other != EventType::Trade 
            ==> !events::field_names(EventType::Trade).contains(#[trigger] telling(other)),
{
    telling_names();
    reveal_strlit("eventType");
    reveal_strlit("eventSymbol");
    reveal_strlit("price");
    reveal_strlit("size");
    reveal_strlit("dayVolume");
    let names = events::field_names(EventType::Trade);
    assert(names[0] == "eventType"@ && names[0].len() == 9 && names[0][0] == 'e');
    assert(names[1] == "eventSymbol"@ && names[1].len() == 11 && names[1][0] == 'e');
    assert(names[2] == "price"@ && names[2].len() == 5 && names[2][0] == 'p');
    assert(names[3] == "size"@ && names[3].len() == 4 && names[3][0] == 's');
    assert(names[4] == "dayVolume"@ && names[4].len() == 9 && names[4][0] == 'd');
    assert(names[4] == telling(EventType::Trade));
    assert forall|i: int, j: int| 0 <= i < j < names.len() implies names[i] != names[j] by {}
}

proof fn greeks_names()
    ensures
        events::field_names(EventType::Greeks).no_duplicates(),
        events::field_names(EventType::Greeks).contains(telling(EventType::Greeks)),
        forall|other: EventType| events::is_decodable(other) && other != EventType::Greeks 
            ==> !events::field_names(EventType::Greeks).contains(#[trigger] telling(other)),
{
    telling_names();
    reveal_strlit("eventType");
    reveal_strlit("eventSymbol");
    reveal_strlit("delta");
    reveal_strlit("gamma");
    reveal_strlit("theta");
    reveal_strlit("vega");
    reveal_strlit("rho");
    reveal_strlit("volatility");
    let names = events::field_names(EventType::Greeks);
    assert(names[0] == "eventType"@ && names[0].len() == 9 && names[0][0] == 'e');
    assert(names[1] == "eventSymbol"@ && names[1].len() == 11 && names[1][0] == 'e');
    assert(names[2] == "delta"@ && names[2].len() == 5 && names[2][0] == 'd');
    assert(names[3] == "gamma"@ && names[3].len() == 5 && names[3][0] == 'g');
    assert(names[4] == "theta"@ && names[4].len() == 5 && names[4][0] == 't');
    assert(names[5] == "vega"@ && names[5].len() == 4 && names[5][0] == 'v');
    assert(names[6] == "rho"@ && names[6].len() == 3 && names[6][0] == 'r');
    assert(names[7] == "volatility"@ && names[7].len() == 10 && names[7][0] == 'v');
    assert(names[5] == telling(EventType::Greeks));
    assert forall|i: int, j: int| 0 <= i < j < names.len() implies names[i] != names[j] by {}
}

proof fn candle_names()
    ensures
        events::field_names(EventType::Candle).no_duplicates(),
        events::field_names(EventType::Candle).contains(telling(EventType::Candle)),
        forall|other: EventType| events::is_decodable(other) && other != EventType::Candle 
            ==> !events::field_names(EventType::Candle).contains(#[trigger] telling(other)),
{
    telling_names();
    reveal_strlit("eventType");
    reveal_strlit("eventSymbol");
    reveal_strlit("eventTime");
    reveal_strlit("eventFlags");
    reveal_strlit("index");
    reveal_strlit("time");
    reveal_strlit("sequence");
    reveal_strlit("count");
    reveal_strlit("open");
    reveal_strlit("high");
    reveal_strlit("low");
    reveal_strlit("close");
    reveal_strlit("volume");
    reveal_strlit("VWAP");
    reveal_strlit("bidVolume");
    reveal_strlit("askVolume");
    reveal_strlit("impVolatility");
    reveal_strlit("openInterest");
    let names = events::field_names(EventType::Candle);
    assert(names[0] == "eventType"@ && names[0].len() == 9 && names[0][0] == 'e');
    assert(names[1] == "eventSymbol"@ && names[1].len() == 11 && names[1][0] == 'e');
    assert(names[2] == "eventTime"@ && names[2].len() == 9 && names[2][0] == 'e');
    assert(names[3] == "eventFlags"@ && names[3].len() == 10 && names[3][0] == 'e');
    assert(names[4] == "index"@ && names[4].len() == 5 && names[4][0] == 'i');
    assert(names[5] == "time"@ && names[5].len() == 4 && names[5][0] == 't');
    assert(names[6] == "sequence"@ && names[6].len() == 8 && names[6][0] == 's');
    assert(names[7] == "count"@ && names[7].len() == 5 && names[7][0] == 'c');
    assert(names[8] == "open"@ && names[8].len() == 4 && names[8][0] == 'o');
    assert(names[9] == "high"@ && names[9].len() == 4 && names[9][0] == 'h');
    assert(names[10] == "low"@ && names[10].len() == 3 && names[10][0] == 'l');
    assert(names[11] == "close"@ && names[11].len() == 5 && names[11][0] == 'c');
    assert(names[12] == "volume"@ && names[12].len() == 6 && names[12][0] == 'v');
    assert(names[13] == "VWAP"@ && names[13].len() == 4 && names[13][0] == 'V');
    assert(names[14] == "bidVolume"@ && names[14].len() == 9 && names[14][0] == 'b');
    assert(names[15] == "askVolume"@ && names[15].len() == 9 && names[15][0] == 'a');
    assert(names[16] == "impVolatility"@ && names[16].len() == 13 && names[16][0] == 'i');
    assert(names[17] == "openInterest"@ && names[17].len() == 12 && names[17][0] == 'o');
    assert("eventType"@[6] != "eventTime"@[6]);
    assert("count"@[1] != "close"@[1]);
    assert(names[13] == telling(EventType::Candle));
    assert forall|i: int, j: int| 0 <= i < j < names.len() implies names[i] != names[j] by {}
}

proof fn summary_names()
    ensures
        events::field_names(EventType::Summary).no_duplicates(),
        events::field_names(EventType::Summary).contains(telling(EventType::Summary)),
        forall|other: EventType| events::is_decodable(other) && other != EventType::Summary 
            ==> !events::field_names(EventType::Summary).contains(#[trigger] telling(other)),
{
    telling_names();
    reveal_strlit("eventType");
    reveal_strlit("eventSymbol");
    reveal_strlit("eventTime");
    reveal_strlit("dayId");
    reveal_strlit("dayOpenPrice");
    reveal_strlit("dayHighPrice");
    reveal_strlit("dayLowPrice");
    reveal_strlit("dayClosePrice");
    reveal_strlit("dayClosePriceType");
    reveal_strlit("prevDayId");
    reveal_strlit("prevDayClosePrice");
    reveal_strlit("prevDayClosePriceType");
    reveal_strlit("prevDayVolume");
    reveal_strlit("openInterest");
    let names = events::field_names(EventType::Summary);
    assert(names[0] == "eventType"@ && names[0].len() == 9 && names[0][0] == 'e');
    assert(names[1] == "eventSymbol"@ && names[1].len() == 11 && names[1][0] == 'e');
    assert(names[2] == "eventTime"@ && names[2].len() == 9 && names[2][0] == 'e');
    assert(names[3] == "dayId"@ && names[3].len() == 5 && names[3][0] == 'd');
    assert(names[4] == "dayOpenPrice"@ && names[4].len() == 12 && names[4][0] == 'd');
    assert(names[5] == "dayHighPrice"@ && names[5].len() == 12 && names[5][0] == 'd');
    assert(names[6] == "dayLowPrice"@ && names[6].len() == 11 && names[6][0] == 'd');
    assert(names[7] == "dayClosePrice"@ && names[7].len() == 13 && names[7][0] == 'd');
    assert(names[8] == "dayClosePriceType"@ && names[8].len() == 17 && names[8][0] == 'd');
    assert(names[9] == "prevDayId"@ && names[9].len() == 9 && names[9][0] == 'p');
    assert(names[10] == "prevDayClosePrice"@ && names[10].len() == 17 && names[10][0] == 'p');
    assert(names[11] == "prevDayClosePriceType"@ && names[11].len() == 21 && names[11][0] == 'p');
    assert(names[12] == "prevDayVolume"@ && names[12].len() == 13 && names[12][0] == 'p');
    assert(names[13] == "openInterest"@ && names[13].len() == 12 && names[13][0] == 'o');
    assert("eventType"@[6] != "eventTime"@[6]);
    assert("dayOpenPrice"@[3] != "dayHighPrice"@[3]);
    assert(names[12] == telling(EventType::Summary));
    assert forall|i: int, j: int| 0 <= i < j < names.len() implies names[i] != names[j] by {}
}

proof fn time_and_sale_names()
    ensures
        events::field_names(EventType::TimeAndSale).no_duplicates(),
        events::field_names(EventType::TimeAndSale).contains(telling(EventType::TimeAndSale)),
        forall|other: EventType| events::is_decodable(other) && other != EventType::TimeAndSale 
            ==> !events::field_names(EventType::TimeAndSale).contains(#[trigger] telling(other)),
{
    telling_names();
    reveal_strlit("eventType");
    reveal_strlit("eventSymbol");
    reveal_strlit("eventTime");
    reveal_strlit("eventFlags");
    reveal_strlit("index");
    reveal_strlit("time");
    reveal_strlit("timeNanoPart");
    reveal_strlit("sequence");
    reveal_strlit("exchangeCode");
    reveal_strlit("price");
    reveal_strlit("size");
    reveal_strlit("bidPrice");
    reveal_strlit("askPrice");
    reveal_strlit("exchangeSaleConditions");
    reveal_strlit("tradeThroughExempt");
    reveal_strlit("aggressorSide");
    reveal_strlit("spreadLeg");
    reveal_strlit("extendedTradingHours");
    reveal_strlit("validTick");
    reveal_strlit("type");
    reveal_strlit("buyer");
    reveal_strlit("seller");
    let names = events::field_names(EventType::TimeAndSale);
    assert(names[0] == "eventType"@ && names[0].len() == 9 && names[0][0] == 'e');
    assert(names[1] == "eventSymbol"@ && names[1].len() == 11 && names[1][0] == 'e');
    assert(names[2] == "eventTime"@ && names[2].len() == 9 && names[2][0] == 'e');
    assert(names[3] == "eventFlags"@ && names[3].len() == 10 && names[3][0] == 'e');
    assert(names[4] == "index"@ && names[4].len() == 5 && names[4][0] == 'i');
    assert(names[5] == "time"@ && names[5].len() == 4 && names[5][0] == 't');
    assert(names[6] == "timeNanoPart"@ && names[6].len() == 12 && names[6][0] == 't');
    assert(names[7] == "sequence"@ && names[7].len() == 8 && names[7][0] == 's');
    assert(names[8] == "exchangeCode"@ && names[8].len() == 12 && names[8][0] == 'e');
    assert(names[9] == "price"@ && names[9].len() == 5 && names[9][0] == 'p');
    assert(names[10] == "size"@ && names[10].len() == 4 && names[10][0] == 's');
    assert(names[11] == "bidPrice"@ && names[11].len() == 8 && names[11][0] == 'b');
    assert(names[12] == "askPrice"@ && names[12].len() == 8 && names[12][0] == 'a');
    assert(names[13] == "exchangeSaleConditions"@ && names[13].len() == 22 && names[13][0] == 'e');
    assert(names[14] == "tradeThroughExempt"@ && names[14].len() == 18 && names[14][0] == 't');
    assert(names[15] == "aggressorSide"@ && names[15].len() == 13 && names[15][0] == 'a');
    assert(names[16] == "spreadLeg"@ && names[16].len() == 9 && names[16][0] == 's');
    assert(names[17] == "extendedTradingHours"@ && names[17].len() == 20 && names[17][0] == 'e');
    assert(names[18] == "validTick"@ && names[18].len() == 9 && names[18][0] == 'v');
    assert(names[19] == "type"@ && names[19].len() == 4 && names[19][0] == 't');
    assert(names[20] == "buyer"@ && names[20].len() == 5 && names[20][0] == 'b');
    assert(names[21] == "seller"@ && names[21].len() == 6 && names[21][0] == 's');
    assert("eventType"@[6] != "eventTime"@[6]);
    assert("time"@[1] != "type"@[1]);
    assert(names[20] == telling(EventType::TimeAndSale));
    assert forall|i: int, j: int| 0 <= i < j < names.len() implies names[i] != names[j] by {}
}

proof fn profile_names()
    ensures
        events::field_names(EventType::Profile).no_duplicates(),
        events::field_names(EventType::Profile).contains(telling(EventType::Profile)),
        forall|other: EventType| events::is_decodable(other) && other != EventType::Profile 
            ==> !events::field_names(EventType::Profile).contains(#[trigger] telling(other)),
{
    telling_names();
    reveal_strlit("eventType");
    reveal_strlit("eventSymbol");
    reveal_strlit("eventTime");
    reveal_strlit("description");
    reveal_strlit("shortSaleRestriction");
    reveal_strlit("tradingStatus");
    reveal_strlit("statusReason");
    reveal_strlit("haltStartTime");
    reveal_strlit("haltEndTime");
    reveal_strlit("highLimitPrice");
    reveal_strlit("lowLimitPrice");
    reveal_strlit("high52WeekPrice");
    reveal_strlit("low52WeekPrice");
    reveal_strlit("beta");
    reveal_strlit("earningsPerShare");
    reveal_strlit("dividendFrequency");
    reveal_strlit("exDividendAmount");
    reveal_strlit("exDividendDayId");
    reveal_strlit("shares");
    reveal_strlit("freeFloat");
    let names = events::field_names(EventType::Profile);
    assert(names[0] == "eventType"@ && names[0].len() == 9 && names[0][0] == 'e');
    assert(names[1] == "eventSymbol"@ && names[1].len() == 11 && names[1][0] == 'e');
    assert(names[2] == "eventTime"@ && names[2].len() == 9 && names[2][0] == 'e');
    assert(names[3] == "description"@ && names[3].len() == 11 && names[3][0] == 'd');
    assert(names[4] == "shortSaleRestriction"@ && names[4].len() == 20 && names[4][0] == 's');
    assert(names[5] == "tradingStatus"@ && names[5].len() == 13 && names[5][0] == 't');
    assert(names[6] == "statusReason"@ && names[6].len() == 12 && names[6][0] == 's');
    assert(names[7] == "haltStartTime"@ && names[7].len() == 13 && names[7][0] == 'h');
    assert(names[8] == "haltEndTime"@ && names[8].len() == 11 && names[8][0] == 'h');
    assert(names[9] == "highLimitPrice"@ && names[9].len() == 14 && names[9][0] == 'h');
    assert(names[10] == "lowLimitPrice"@ && names[10].len() == 13 && names[10][0] == 'l');
    assert(names[11] == "high52WeekPrice"@ && names[11].len() == 15 && names[11][0] == 'h');
    assert(names[12] == "low52WeekPrice"@ && names[12].len() == 14 && names[12][0] == 'l');
    assert(names[13] == "beta"@ && names[13].len() == 4 && names[13][0] == 'b');
    assert(names[14] == "earningsPerShare"@ && names[14].len() == 16 && names[14][0] == 'e');
    assert(names[15] == "dividendFrequency"@ && names[15].len() == 17 && names[15][0] == 'd');
    assert(names[16] == "exDividendAmount"@ && names[16].len() == 16 && names[16][0] == 'e');
    assert(names[17] == "exDividendDayId"@ && names[17].len() == 15 && names[17][0] == 'e');
    assert(names[18] == "shares"@ && names[18].len() == 6 && names[18][0] == 's');
    assert(names[19] == "freeFloat"@ && names[19].len() == 9 && names[19][0] == 'f');
    assert("eventType"@[6] != "eventTime"@[6]);
    assert("earningsPerShare"@[1] != "exDividendAmount"@[1]);
    assert(names[13] == telling(EventType::Profile));
    assert forall|i: int, j: int| 0 <= i < j < names.len() implies names[i] != names[j] by {}
}

proof fn underlying_names()
    ensures
        events::field_names(EventType::Underlying).no_duplicates(),
        events::field_names(EventType::Underlying).contains(telling(EventType::Underlying)),
        forall|other: EventType| events::is_decodable(other) && other != EventType::Underlying 
            ==> !events::field_names(EventType::Underlying).contains(#[trigger] telling(other)),
{
    telling_names();
    reveal_strlit("eventType");
    reveal_strlit("eventSymbol");
    reveal_strlit("eventTime");
    reveal_strlit("eventFlags");
    reveal_strlit("index");
    reveal_strlit("time");
    reveal_strlit("sequence");
    reveal_strlit("volatility");
    reveal_strlit("frontVolatility");
    reveal_strlit("backVolatility");
    reveal_strlit("callVolume");
    reveal_strlit("putVolume");
    reveal_strlit("putCallRatio");
    let names = events::field_names(EventType::Underlying);
    assert(names[0] == "eventType"@ && names[0].len() == 9 && names[0][0] == 'e');
    assert(names[1] == "eventSymbol"@ && names[1].len() == 11 && names[1][0] == 'e');
    assert(names[2] == "eventTime"@ && names[2].len() == 9 && names[2][0] == 'e');
    assert(names[3] == "eventFlags"@ && names[3].len() == 10 && names[3][0] == 'e');
    assert(names[4] == "index"@ && names[4].len() == 5 && names[4][0] == 'i');
    assert(names[5] == "time"@ && names[5].len() == 4 && names[5][0] == 't');
    assert(names[6] == "sequence"@ && names[6].len() == 8 && names[6][0] == 's');
    assert(names[7] == "volatility"@ && names[7].len() == 10 && names[7][0] == 'v');
    assert(names[8] == "frontVolatility"@ && names[8].len() == 15 && names[8][0] == 'f');
    assert(names[9] == "backVolatility"@ && names[9].len() == 14 && names[9][0] == 'b');
    assert(names[10] == "callVolume"@ && names[10].len() == 10 && names[10][0] == 'c');
    assert(names[11] == "putVolume"@ && names[11].len() == 9 && names[11][0] == 'p');
    assert(names[12] == "putCallRatio"@ && names[12].len() == 12 && names[12][0] == 'p');
    assert("eventType"@[6] != "eventTime"@[6]);
    assert(names[8] == telling(EventType::Underlying));
    assert forall|i: int, j: int| 0 <= i < j < names.len() implies names[i] != names[j] by {}
}

proof fn theo_price_names()
    ensures
        events::field_names(EventType::TheoPrice).no_duplicates(),
        events::field_names(EventType::TheoPrice).contains(telling(EventType::TheoPrice)),
        forall|other: EventType| events::is_decodable(other) && other != EventType::TheoPrice 
            ==> !events::field_names(EventType::TheoPrice).contains(#[trigger] telling(other)),
{
    telling_names();
    reveal_strlit("eventType");
    reveal_strlit("eventSymbol");
    reveal_strlit("eventTime");
    reveal_strlit("eventFlags");
    reveal_strlit("index");
    reveal_strlit("time");
    reveal_strlit("sequence");
    reveal_strlit("price");
    reveal_strlit("underlyingPrice");
    reveal_strlit("delta");
    reveal_strlit("gamma");
    reveal_strlit("dividend");
    reveal_strlit("interest");
    let names = events::field_names(EventType::TheoPrice);
    assert(names[0] == "eventType"@ && names[0].len() == 9 && names[0][0] == 'e');
    assert(names[1] == "eventSymbol"@ && names[1].len() == 11 && names[1][0] == 'e');
    assert(names[2] == "eventTime"@ && names[2].len() == 9 && names[2][0] == 'e');
    assert(names[3] == "eventFlags"@ && names[3].len() == 10 && names[3][0] == 'e');
    assert(names[4] == "index"@ && names[4].len() == 5 && names[4][0] == 'i');
    assert(names[5] == "time"@ && names[5].len() == 4 && names[5][0] == 't');
    assert(names[6] == "sequence"@ && names[6].len() == 8 && names[6][0] == 's');
    assert(names[7] == "price"@ && names[7].len() == 5 && names[7][0] == 'p');
    assert(names[8] == "underlyingPrice"@ && names[8].len() == 15 && names[8][0] == 'u');
    assert(names[9] == "delta"@ && names[9].len() == 5 && names[9][0] == 'd');
    assert(names[10] == "gamma"@ && names[10].len() == 5 && names[10][0] == 'g');
    assert(names[11] == "dividend"@ && names[11].len() == 8 && names[11][0] == 'd');
    assert(names[12] == "interest"@ && names[12].len() == 8 && names[12][0] == 'i');
    assert("eventType"@[6] != "eventTime"@[6]);
    assert(names[8] == telling(EventType::TheoPrice));
    assert forall|i: int, j: int| 0 <= i < j < names.len() implies names[i] != names[j] by {}
}

proof fn series_names()
    ensures
        events::field_names(EventType::Series).no_duplicates(),
        events::field_names(EventType::Series).contains(telling(EventType::Series)),
        forall|other: EventType| events::is_decodable(other) && other != EventType::Series 
            ==> !events::field_names(EventType::Series).contains(#[trigger] telling(other)),
{
    telling_names();
    reveal_strlit("eventType");
    reveal_strlit("eventSymbol");
    reveal_strlit("eventTime");
    reveal_strlit("eventFlags");
    reveal_strlit("index");
    reveal_strlit("time");
    reveal_strlit("sequence");
    reveal_strlit("expiration");
    reveal_strlit("volatility");
    reveal_strlit("callVolume");
    reveal_strlit("putVolume");
    reveal_strlit("putCallRatio");
    reveal_strlit("forwardPrice");
    reveal_strlit("dividend");
    reveal_strlit("interest");
    let names = events::field_names(EventType::Series);
    assert(names[0] == "eventType"@ && names[0].len() == 9 && names[0][0] == 'e');
    assert(names[1] == "eventSymbol"@ && names[1].len() == 11 && names[1][0] == 'e');
    assert(names[2] == "eventTime"@ && names[2].len() == 9 && names[2][0] == 'e');
    assert(names[3] == "eventFlags"@ && names[3].len() == 10 && names[3][0] == 'e');
    assert(names[4] == "index"@ && names[4].len() == 5 && names[4][0] == 'i');
    assert(names[5] == "time"@ && names[5].len() == 4 && names[5][0] == 't');
    assert(names[6] == "sequence"@ && names[6].len() == 8 && names[6][0] == 's');
    assert(names[7] == "expiration"@ && names[7].len() == 10 && names[7][0] == 'e');
    assert(names[8] == "volatility"@ && names[8].len() == 10 && names[8][0] == 'v');
    assert(names[9] == "callVolume"@ && names[9].len() == 10 && names[9][0] == 'c');
    assert(names[10] == "putVolume"@ && names[10].len() == 9 && names[10][0] == 'p');
    assert(names[11] == "putCallRatio"@ && names[11].len() == 12 && names[11][0] == 'p');
    assert(names[12] == "forwardPrice"@ && names[12].len() == 12 && names[12][0] == 'f');
    assert(names[13] == "dividend"@ && names[13].len() == 8 && names[13][0] == 'd');
    assert(names[14] == "interest"@ && names[14].len() == 8 && names[14][0] == 'i');
    assert("eventType"@[6] != "eventTime"@[6]);
    assert("eventFlags"@[1] != "expiration"@[1]);
    assert(names[12] == telling(EventType::Series));
    assert forall|i: int, j: int| 0 <= i < j < names.len() implies names[i] != names[j] by {}
}

proof fn trade_eth_names()
    ensures
        events::field_names(EventType::TradeETH).no_duplicates(),
        events::field_names(EventType::TradeETH).contains(telling(EventType::TradeETH)),
        forall|other: EventType| events::is_decodable(other) && other != EventType::TradeETH && other != EventType::Trade 
            ==> !events::field_names(EventType::TradeETH).contains(#[trigger] telling(other)),
{
    telling_names();
    reveal_strlit("eventType");
    reveal_strlit("eventSymbol");
    reveal_strlit("eventTime");
    reveal_strlit("time");
    reveal_strlit("timeNanoPart");
    reveal_strlit("sequence");
    reveal_strlit("exchangeCode");
    reveal_strlit("price");
    reveal_strlit("change");
    reveal_strlit("size");
    reveal_strlit("dayId");
    reveal_strlit("dayVolume");
    reveal_strlit("dayTurnover");
    reveal_strlit("tickDirection");
    reveal_strlit("extendedTradingHours");
    let names = events::field_names(EventType::TradeETH);
    assert(names[0] == "eventType"@ && names[0].len() == 9 && names[0][0] == 'e');
    assert(names[1] == "eventSymbol"@ && names[1].len() == 11 && names[1][0] == 'e');
    assert(names[2] == "eventTime"@ && names[2].len() == 9 && names[2][0] == 'e');
    assert(names[3] == "time"@ && names[3].len() == 4 && names[3][0] == 't');
    assert(names[4] == "timeNanoPart"@ && names[4].len() == 12 && names[4][0] == 't');
    assert(names[5] == "sequence"@ && names[5].len() == 8 && names[5][0] == 's');
    assert(names[6] == "exchangeCode"@ && names[6].len() == 12 && names[6][0] == 'e');
    assert(names[7] == "price"@ && names[7].len() == 5 && names[7][0] == 'p');
    assert(names[8] == "change"@ && names[8].len() == 6 && names[8][0] == 'c');
    assert(names[9] == "size"@ && names[9].len() == 4 && names[9][0] == 's');
    assert(names[10] == "dayId"@ && names[10].len() == 5 && names[10][0] == 'd');
    assert(names[11] == "dayVolume"@ && names[11].len() == 9 && names[11][0] == 'd');
    assert(names[12] == "dayTurnover"@ && names[12].len() == 11 && names[12][0] == 'd');
    assert(names[13] == "tickDirection"@ && names[13].len() == 13 && names[13][0] == 't');
    assert(names[14] == "extendedTradingHours"@ && names[14].len() == 20 && names[14][0] == 'e');
    assert("eventType"@[6] != "eventTime"@[6]);
    assert(names[8] == telling(EventType::TradeETH));
    assert forall|i: int, j: int| 0 <= i < j < names.len() implies names[i] != names[j] by {}
}

/// No type asks for a column twice.
pub proof fn columns_are_distinct(event_type: EventType)
    ensures
        events::field_names(event_type).no_duplicates(),
{
    if events::is_decodable(event_type) {
        names_tell_the_type(event_type, event_type);
    }
}

/// Each type has a column that no type tried after it has.
proof fn names_tell_the_type(event_type: EventType, other: EventType)
    requires
        events::is_decodable(event_type),
        events::is_decodable(other),
    ensures
        events::field_names(event_type).no_duplicates(),
        events::field_names(event_type).contains(telling(event_type)),
        other != event_type && !(event_type == EventType::TradeETH && other == EventType::Trade)
            ==> !events::field_names(event_type).contains(telling(other)),
{
    match event_type {
        EventType::Quote => quote_names(),
        EventType::Trade => trade_names(),
        EventType::Greeks => greeks_names(),
        EventType::Candle => candle_names(),
        EventType::Summary => summary_names(),
        EventType::TimeAndSale => time_and_sale_names(),
        EventType::Profile => profile_names(),
        EventType::Underlying => underlying_names(),
        EventType::TheoPrice => theo_price_names(),
        EventType::Series => series_names(),
        _ => trade_eth_names(),
    }
}

/// Whether something is an event of its type: one field for each column, and
/// each of its kind.
pub open spec fn is_event(event: EventTree) -> bool {
    &&& events::is_decodable(event.event_type)
    &&& event.fields.len() == events::columns(event.event_type)->0.len()
    &&& forall|i: int|
        0 <= i < event.fields.len() ==> {
            &&& compact::is_of_kind(
                #[trigger] event.fields[i],
                events::columns(event.event_type)->0[i].1,
            )
            &&& event.fields[i] matches FieldTree::Whole(n) ==> i64::MIN <= n <= i64::MAX
        }
}

/// Every event of the market has one field for each column of its type, and
/// each of its kind.
pub proof fn events_have_their_columns(event: MarketEvent)
    ensures
        is_event(event@),
{
}

/// Where names are distinct, each field is found under its name.
proof fn a_field_is_found(fields: wire::Fields, i: int)
    requires
        0 <= i < fields.len(),
        forall|a: int, b: int|
            0 <= a < b < fields.len() ==> (#[trigger] fields[a]).0 != (#[trigger] fields[b]).0,
    ensures
        json::first_field(fields, fields[i].0) == Some(fields[i].1),
    decreases fields.len(),
{
    if i > 0 {
        let rest = fields.drop_first();
        assert forall|a: int, b: int| 0 <= a < b < rest.len() implies (#[trigger] rest[a]).0 != (
        #[trigger] rest[b]).0 by {
            assert(fields[a + 1].0 != fields[b + 1].0);
        }
        assert(fields[0].0 != fields[i].0);
        a_field_is_found(rest, i - 1);
    }
}

/// A field that is not there is not found.
proof fn an_absent_field_is_not_found(fields: wire::Fields, name: Seq<char>)
    requires
        forall|i: int| 0 <= i < fields.len() ==> (#[trigger] fields[i]).0 != name,
    ensures
        json::first_field(fields, name) is None,
    decreases fields.len(),
{
    if fields.len() > 0 {
        an_absent_field_is_not_found(fields.drop_first(), name);
    }
}

proof fn own_fields_are_read(event: EventTree, upto: int)
    requires
        is_event(event),
        0 <= upto <= event.fields.len(),
    ensures
        object_fields(
            event_value(event),
            events::columns(event.event_type)->0.take(upto),
        ) == Ok::<Seq<FieldTree>, Seq<char>>(event.fields.take(upto)),
    decreases upto,
{
    let columns = events::columns(event.event_type)->0;
    if upto == 0 {
        assert(event.fields.take(0) =~= Seq::<FieldTree>::empty());
    } else {
        let i = upto - 1;
        let fields = event_fields(event);
        let names = events::field_names(event.event_type);
        own_fields_are_read(event, i);
        columns_are_distinct(event.event_type);
        assert(columns.take(upto).drop_last() =~= columns.take(i));
        assert(columns.take(upto).last() == columns[i]);
        assert forall|a: int, b: int| 0 <= a < b < fields.len() implies (#[trigger] fields[a]).0
            != (#[trigger] fields[b]).0 by {
            assert(names[a] != names[b]);
        }
        a_field_is_found(fields, i);
        assert(names[i] == columns[i].0);
        assert(compact::is_of_kind(event.fields[i], columns[i].1));
        match event.fields[i] {
            FieldTree::Double(double) => events::doubles_round_trip(double),
            _ => {},
        }
        assert(event.fields.take(upto) =~= event.fields.take(i).push(event.fields[i]));
    }
}

/// An object without a column of a type is not of that type.
proof fn a_missing_column_rules_a_type_out(
    value: JsonTree,
    columns: Seq<(Seq<char>, FieldKind)>,
    i: int,
)
    requires
        0 <= i < columns.len(),
        json::field_of(value, columns[i].0) is None,
    ensures
        object_fields(value, columns) is Err,
    decreases columns.len(),
{
    if i < columns.len() - 1 {
        a_missing_column_rules_a_type_out(value, columns.drop_last(), i);
    }
}

proof fn another_type_is_ruled_out(event: EventTree, other: EventType)
    requires
        is_event(event),
        events::is_decodable(other),
        other != event.event_type,
        !(event.event_type == EventType::TradeETH && other == EventType::Trade),
    ensures
        event_as(other, event_value(event)) is Err,
{
    let names = events::field_names(event.event_type);
    let fields = event_fields(event);
    let columns = events::columns(other)->0;
    names_tell_the_type(event.event_type, other);
    names_tell_the_type(other, other);
    assert forall|i: int| 0 <= i < fields.len() implies (#[trigger] fields[i]).0 != telling(other) by {
        assert(names.contains(names[i]));
    }
    an_absent_field_is_not_found(fields, telling(other));
    let listed = events::field_names(other);
    let i = choose|i: int| 0 <= i < listed.len() && listed[i] == telling(other);
    assert(columns[i].0 == telling(other));
    a_missing_column_rules_a_type_out(event_value(event), columns, i);
}

/// An event that was written out as an object is read back as the same event,
/// and as an event of the same type.
pub proof fn events_round_trip(event: EventTree)
    requires
        is_event(event),
    ensures
        event_as(event.event_type, event_value(event)) == Ok::<EventTree, Seq<char>>(event),
        event_of(event_value(event)) == Some(event),
{
    let value = event_value(event);
    let columns = events::columns(event.event_type)->0;
    own_fields_are_read(event, event.fields.len() as int);
    assert(columns.take(columns.len() as int) =~= columns);
    assert(event.fields.take(event.fields.len() as int) =~= event.fields);
    assert(event_as(event.event_type, value) == Ok::<EventTree, Seq<char>>(event));
    let order = TRIED_IN_ORDER@;
    let at = choose|i: int| 0 <= i < order.len() && order[i] == event.event_type;
    assert(order.contains(event.event_type)) by {
        match event.event_type {
            EventType::Quote => assert(order[0] == event.event_type),
            EventType::TradeETH => assert(order[1] == event.event_type),
            EventType::Trade => assert(order[2] == event.event_type),
            EventType::Greeks => assert(order[3] == event.event_type),
            EventType::Candle => assert(order[4] == event.event_type),
            EventType::Summary => assert(order[5] == event.event_type),
            EventType::TimeAndSale => assert(order[6] == event.event_type),
            EventType::Profile => assert(order[7] == event.event_type),
            EventType::Underlying => assert(order[8] == event.event_type),
            EventType::TheoPrice => assert(order[9] == event.event_type),
            _ => assert(order[10] == event.event_type),
        }
    }
    assert forall|i: int| 0 <= i < at implies event_as(#[trigger] order[i], value) is Err by {
        assert(order[i] != event.event_type);
        assert(!(event.event_type == EventType::TradeETH && order[i] == EventType::Trade));
        another_type_is_ruled_out(event, order[i]);
    }
    earlier_types_are_passed_over(order, value, 0, at);
}

/// Types that an object cannot be read as do not decide what it is.
proof fn earlier_types_are_passed_over(order: Seq<EventType>, value: JsonTree, from: int, at: int)
    requires
        0 <= from <= at <= order.len(),
        forall|i: int| from <= i < at ==> event_as(#[trigger] order[i], value) is Err,
    ensures
        first_event(order, value, from) == first_event(order, value, at),
    decreases at - from,
{
    if from < at {
        assert(event_as(order[from], value) is Err);
        earlier_types_are_passed_over(order, value, from + 1, at);
    }
}

} // verus!
