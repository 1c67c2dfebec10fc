//! What goes over the wire and what is shown of it, said of what is meant.
//!
//! A value is found under the name that the protocol gives it, whoever writes
//! it or reads it, and what is shown of a text or a message holds what may be
//! shown and nothing else.

#![allow(unused_imports)]

use crate::client;
use crate::client::ClientTree;
use crate::compact;
use crate::connection;
use crate::delivery;
use crate::delivery::{AfterStream, DeliveryTree, HandOff, OverflowPolicy};
use crate::error;
use crate::error::{DXLinkError, DXLinkResult, ErrorView};
use crate::events;
use crate::events::{
    CandleEvent, CompactTree, DoubleTree, EventTree, EventType, FieldKind, FieldTree, GreeksEvent,
    MarketEvent, ProfileEvent, QuoteEvent, SeriesEvent, SummaryEvent, TheoPriceEvent,
    TimeAndSaleEvent, TradeETHEvent, TradeEvent, UnderlyingEvent,
};
use crate::full;
use crate::handshake;
use crate::json;
use crate::json::{JsonTree, NumberTree};
use crate::messages;
use crate::messages::{
    ChannelRequestMessage, FeedConfigMessage, FeedSetupMessage, FeedSubscriptionMessage,
    SetupMessage, SubscriptionTree,
};
use crate::promises;
use crate::reader;
use crate::reader::{MessageTree, ReadFailure, Routed};
use crate::replay;
use crate::replay::{ReplayAction, ReplayTree};
use crate::requests;
use crate::requests::{Outcome, RequestTree, ResponseType, TicketTree};
use crate::schema;
use crate::shutdown;
use crate::shutdown::Progress;
use crate::subscriptions;
use crate::subscriptions::TrackedTree;
use crate::text;
use crate::wire;
use vstd::prelude::*;

verus! {

// ---------------------------------------------------------------------------
// Events
// ---------------------------------------------------------------------------
/// A field of an event is found under the name of its column.
proof fn a_field_is_written_under_its_name(event: EventTree, i: int)
    requires
        full::is_event(event),
        0 <= i < event.fields.len(),
    ensures
        json::field_of(full::event_value(event), events::columns(event.event_type)->0[i].0) == Some(
            full::field_value(event.fields[i]),
        ),
{
    let fields = full::event_fields(event);
    let names = events::field_names(event.event_type);
    full::columns_are_distinct(event.event_type);
    assert(names[i] == events::columns(event.event_type)->0[i].0);
    assert forall|j: int| 0 <= j < i implies (#[trigger] fields[j]).0 != names[i] by {
        assert(fields[j].0 == names[j]);
    }
    promises::a_field_is_the_first_of_its_name(fields, names[i], i, JsonTree::Null);
}

/// A quote is written with each value under its own name, and read back so.
pub proof fn a_quote_is_written_by_name(e: QuoteEvent)
    ensures
        ({
            let value = full::event_value(MarketEvent::Quote(e)@);
            &&& json::field_of(value, "eventType"@) == Some(JsonTree::Text(e.event_type@))
            &&& json::field_of(value, "eventSymbol"@) == Some(JsonTree::Text(e.event_symbol@))
            &&& json::field_of(value, "bidPrice"@) == Some(events::double_value(e.bid_price@))
            &&& json::field_of(value, "askPrice"@) == Some(events::double_value(e.ask_price@))
            &&& json::field_of(value, "bidSize"@) == Some(events::double_value(e.bid_size@))
            &&& json::field_of(value, "askSize"@) == Some(events::double_value(e.ask_size@))
            &&& full::event_of(value) == Some(MarketEvent::Quote(e)@)
        }),
{
    let event = MarketEvent::Quote(e)@;
    full::events_have_their_columns(MarketEvent::Quote(e));
    full::events_round_trip(event);
    a_field_is_written_under_its_name(event, 0);
    a_field_is_written_under_its_name(event, 1);
    a_field_is_written_under_its_name(event, 2);
    a_field_is_written_under_its_name(event, 3);
    a_field_is_written_under_its_name(event, 4);
    a_field_is_written_under_its_name(event, 5);
}

/// A trade is written with each value under its own name, and read back so.
pub proof fn a_trade_is_written_by_name(e: TradeEvent)
    ensures
        ({
            let value = full::event_value(MarketEvent::Trade(e)@);
            &&& json::field_of(value, "eventType"@) == Some(JsonTree::Text(e.event_type@))
            &&& json::field_of(value, "eventSymbol"@) == Some(JsonTree::Text(e.event_symbol@))
            &&& json::field_of(value, "price"@) == Some(events::double_value(e.price@))
            &&& json::field_of(value, "size"@) == Some(events::double_value(e.size@))
            &&& json::field_of(value, "dayVolume"@) == Some(events::double_value(e.day_volume@))
            &&& full::event_of(value) == Some(MarketEvent::Trade(e)@)
        }),
{
    let event = MarketEvent::Trade(e)@;
    full::events_have_their_columns(MarketEvent::Trade(e));
    full::events_round_trip(event);
    a_field_is_written_under_its_name(event, 0);
    a_field_is_written_under_its_name(event, 1);
    a_field_is_written_under_its_name(event, 2);
    a_field_is_written_under_its_name(event, 3);
    a_field_is_written_under_its_name(event, 4);
}

/// The greeks of an option are written with each value under its own name, and read back so.
pub proof fn greeks_are_written_by_name(e: GreeksEvent)
    ensures
        ({
            let value = full::event_value(MarketEvent::Greeks(e)@);
            &&& json::field_of(value, "eventType"@) == Some(JsonTree::Text(e.event_type@))
            &&& json::field_of(value, "eventSymbol"@) == Some(JsonTree::Text(e.event_symbol@))
            &&& json::field_of(value, "delta"@) == Some(events::double_value(e.delta@))
            &&& json::field_of(value, "gamma"@) == Some(events::double_value(e.gamma@))
            &&& json::field_of(value, "theta"@) == Some(events::double_value(e.theta@))
            &&& json::field_of(value, "vega"@) == Some(events::double_value(e.vega@))
            &&& json::field_of(value, "rho"@) == Some(events::double_value(e.rho@))
            &&& json::field_of(value, "volatility"@) == Some(events::double_value(e.volatility@))
            &&& full::event_of(value) == Some(MarketEvent::Greeks(e)@)
        }),
{
    let event = MarketEvent::Greeks(e)@;
    full::events_have_their_columns(MarketEvent::Greeks(e));
    full::events_round_trip(event);
    a_field_is_written_under_its_name(event, 0);
    a_field_is_written_under_its_name(event, 1);
    a_field_is_written_under_its_name(event, 2);
    a_field_is_written_under_its_name(event, 3);
    a_field_is_written_under_its_name(event, 4);
    a_field_is_written_under_its_name(event, 5);
    a_field_is_written_under_its_name(event, 6);
    a_field_is_written_under_its_name(event, 7);
}

/// A candle is written with each value under its own name, and read back so.
#[verifier::rlimit(40)]
pub proof fn a_candle_is_written_by_name(e: CandleEvent)
    ensures
        ({
            let value = full::event_value(MarketEvent::Candle(e)@);
            &&& json::field_of(value, "eventType"@) == Some(JsonTree::Text(e.event_type@))
            &&& json::field_of(value, "eventSymbol"@) == Some(JsonTree::Text(e.event_symbol@))
            &&& json::field_of(value, "eventTime"@) == Some(JsonTree::Number(NumberTree::Integer(e.event_time as int)))
            &&& json::field_of(value, "eventFlags"@) == Some(JsonTree::Number(NumberTree::Integer(e.event_flags as int)))
            &&& json::field_of(value, "index"@) == Some(JsonTree::Number(NumberTree::Integer(e.index as int)))
            &&& json::field_of(value, "time"@) == Some(JsonTree::Number(NumberTree::Integer(e.time as int)))
            &&& json::field_of(value, "sequence"@) == Some(JsonTree::Number(NumberTree::Integer(e.sequence as int)))
            &&& json::field_of(value, "count"@) == Some(JsonTree::Number(NumberTree::Integer(e.count as int)))
            &&& json::field_of(value, "open"@) == Some(events::double_value(e.open@))
            &&& json::field_of(value, "high"@) == Some(events::double_value(e.high@))
            &&& json::field_of(value, "low"@) == Some(events::double_value(e.low@))
            &&& json::field_of(value, "close"@) == Some(events::double_value(e.close@))
            &&& json::field_of(value, "volume"@) == Some(events::double_value(e.volume@))
            &&& json::field_of(value, "VWAP"@) == Some(events::double_value(e.vwap@))
            &&& json::field_of(value, "bidVolume"@) == Some(events::double_value(e.bid_volume@))
            &&& json::field_of(value, "askVolume"@) == Some(events::double_value(e.ask_volume@))
            &&& json::field_of(value, "impVolatility"@) == Some(events::double_value(e.imp_volatility@))
            &&& json::field_of(value, "openInterest"@) == Some(events::double_value(e.open_interest@))
            &&& full::event_of(value) == Some(MarketEvent::Candle(e)@)
        }),
{
    let event = MarketEvent::Candle(e)@;
    full::events_have_their_columns(MarketEvent::Candle(e));
    full::events_round_trip(event);
    a_field_is_written_under_its_name(event, 0);
    a_field_is_written_under_its_name(event, 1);
    a_field_is_written_under_its_name(event, 2);
    a_field_is_written_under_its_name(event, 3);
    a_field_is_written_under_its_name(event, 4);
    a_field_is_written_under_its_name(event, 5);
    a_field_is_written_under_its_name(event, 6);
    a_field_is_written_under_its_name(event, 7);
    a_field_is_written_under_its_name(event, 8);
    a_field_is_written_under_its_name(event, 9);
    a_field_is_written_under_its_name(event, 10);
    a_field_is_written_under_its_name(event, 11);
    a_field_is_written_under_its_name(event, 12);
    a_field_is_written_under_its_name(event, 13);
    a_field_is_written_under_its_name(event, 14);
    a_field_is_written_under_its_name(event, 15);
    a_field_is_written_under_its_name(event, 16);
    a_field_is_written_under_its_name(event, 17);
}

/// A summary is written with each value under its own name, and read back so.
#[verifier::rlimit(40)]
pub proof fn a_summary_is_written_by_name(e: SummaryEvent)
    ensures
        ({
            let value = full::event_value(MarketEvent::Summary(e)@);
            &&& json::field_of(value, "eventType"@) == Some(JsonTree::Text(e.event_type@))
            &&& json::field_of(value, "eventSymbol"@) == Some(JsonTree::Text(e.event_symbol@))
            &&& json::field_of(value, "eventTime"@) == Some(JsonTree::Number(NumberTree::Integer(e.event_time as int)))
            &&& json::field_of(value, "dayId"@) == Some(JsonTree::Number(NumberTree::Integer(e.day_id as int)))
            &&& json::field_of(value, "dayOpenPrice"@) == Some(events::double_value(e.day_open_price@))
            &&& json::field_of(value, "dayHighPrice"@) == Some(events::double_value(e.day_high_price@))
            &&& json::field_of(value, "dayLowPrice"@) == Some(events::double_value(e.day_low_price@))
            &&& json::field_of(value, "dayClosePrice"@) == Some(events::double_value(e.day_close_price@))
            &&& json::field_of(value, "dayClosePriceType"@) == Some(JsonTree::Text(e.day_close_price_type@))
            &&& json::field_of(value, "prevDayId"@) == Some(JsonTree::Number(NumberTree::Integer(e.prev_day_id as int)))
            &&& json::field_of(value, "prevDayClosePrice"@) == Some(events::double_value(e.prev_day_close_price@))
            &&& json::field_of(value, "prevDayClosePriceType"@) == Some(JsonTree::Text(e.prev_day_close_price_type@))
            &&& json::field_of(value, "prevDayVolume"@) == Some(events::double_value(e.prev_day_volume@))
            &&& json::field_of(value, "openInterest"@) == Some(events::double_value(e.open_interest@))
            &&& full::event_of(value) == Some(MarketEvent::Summary(e)@)
        }),
{
    let event = MarketEvent::Summary(e)@;
    full::events_have_their_columns(MarketEvent::Summary(e));
    full::events_round_trip(event);
    a_field_is_written_under_its_name(event, 0);
    a_field_is_written_under_its_name(event, 1);
    a_field_is_written_under_its_name(event, 2);
    a_field_is_written_under_its_name(event, 3);
    a_field_is_written_under_its_name(event, 4);
    a_field_is_written_under_its_name(event, 5);
    a_field_is_written_under_its_name(event, 6);
    a_field_is_written_under_its_name(event, 7);
    a_field_is_written_under_its_name(event, 8);
    a_field_is_written_under_its_name(event, 9);
    a_field_is_written_under_its_name(event, 10);
    a_field_is_written_under_its_name(event, 11);
    a_field_is_written_under_its_name(event, 12);
    a_field_is_written_under_its_name(event, 13);
}

/// A print of the tape is written with each value under its own name, and read back so.
#[verifier::rlimit(40)]
pub proof fn a_print_is_written_by_name(e: TimeAndSaleEvent)
    ensures
        ({
            let value = full::event_value(MarketEvent::TimeAndSale(e)@);
            &&& json::field_of(value, "eventType"@) == Some(JsonTree::Text(e.event_type@))
            &&& json::field_of(value, "eventSymbol"@) == Some(JsonTree::Text(e.event_symbol@))
            &&& json::field_of(value, "eventTime"@) == Some(JsonTree::Number(NumberTree::Integer(e.event_time as int)))
            &&& json::field_of(value, "eventFlags"@) == Some(JsonTree::Number(NumberTree::Integer(e.event_flags as int)))
            &&& json::field_of(value, "index"@) == Some(JsonTree::Number(NumberTree::Integer(e.index as int)))
            &&& json::field_of(value, "time"@) == Some(JsonTree::Number(NumberTree::Integer(e.time as int)))
            &&& json::field_of(value, "timeNanoPart"@) == Some(JsonTree::Number(NumberTree::Integer(e.time_nano_part as int)))
            &&& json::field_of(value, "sequence"@) == Some(JsonTree::Number(NumberTree::Integer(e.sequence as int)))
            &&& json::field_of(value, "exchangeCode"@) == Some(JsonTree::Text(e.exchange_code@))
            &&& json::field_of(value, "price"@) == Some(events::double_value(e.price@))
            &&& json::field_of(value, "size"@) == Some(events::double_value(e.size@))
            &&& json::field_of(value, "bidPrice"@) == Some(events::double_value(e.bid_price@))
            &&& json::field_of(value, "askPrice"@) == Some(events::double_value(e.ask_price@))
            &&& json::field_of(value, "exchangeSaleConditions"@) == Some(JsonTree::Text(e.exchange_sale_conditions@))
            &&& json::field_of(value, "tradeThroughExempt"@) == Some(JsonTree::Text(e.trade_through_exempt@))
            &&& json::field_of(value, "aggressorSide"@) == Some(JsonTree::Text(e.aggressor_side@))
            &&& json::field_of(value, "spreadLeg"@) == Some(JsonTree::Bool(e.spread_leg))
            &&& json::field_of(value, "extendedTradingHours"@) == Some(JsonTree::Bool(e.extended_trading_hours))
            &&& json::field_of(value, "validTick"@) == Some(JsonTree::Bool(e.valid_tick))
            &&& json::field_of(value, "type"@) == Some(JsonTree::Text(e.sale_type@))
            &&& json::field_of(value, "buyer"@) == Some(JsonTree::Text(e.buyer@))
            &&& json::field_of(value, "seller"@) == Some(JsonTree::Text(e.seller@))
            &&& full::event_of(value) == Some(MarketEvent::TimeAndSale(e)@)
        }),
{
    let event = MarketEvent::TimeAndSale(e)@;
    full::events_have_their_columns(MarketEvent::TimeAndSale(e));
    full::events_round_trip(event);
    a_field_is_written_under_its_name(event, 0);
    a_field_is_written_under_its_name(event, 1);
    a_field_is_written_under_its_name(event, 2);
    a_field_is_written_under_its_name(event, 3);
    a_field_is_written_under_its_name(event, 4);
    a_field_is_written_under_its_name(event, 5);
    a_field_is_written_under_its_name(event, 6);
    a_field_is_written_under_its_name(event, 7);
    a_field_is_written_under_its_name(event, 8);
    a_field_is_written_under_its_name(event, 9);
    a_field_is_written_under_its_name(event, 10);
    a_field_is_written_under_its_name(event, 11);
    a_field_is_written_under_its_name(event, 12);
    a_field_is_written_under_its_name(event, 13);
    a_field_is_written_under_its_name(event, 14);
    a_field_is_written_under_its_name(event, 15);
    a_field_is_written_under_its_name(event, 16);
    a_field_is_written_under_its_name(event, 17);
    a_field_is_written_under_its_name(event, 18);
    a_field_is_written_under_its_name(event, 19);
    a_field_is_written_under_its_name(event, 20);
    a_field_is_written_under_its_name(event, 21);
}

/// A profile is written with each value under its own name, and read back so.
#[verifier::rlimit(40)]
pub proof fn a_profile_is_written_by_name(e: ProfileEvent)
    ensures
        ({
            let value = full::event_value(MarketEvent::Profile(e)@);
            &&& json::field_of(value, "eventType"@) == Some(JsonTree::Text(e.event_type@))
            &&& json::field_of(value, "eventSymbol"@) == Some(JsonTree::Text(e.event_symbol@))
            &&& json::field_of(value, "eventTime"@) == Some(JsonTree::Number(NumberTree::Integer(e.event_time as int)))
            &&& json::field_of(value, "description"@) == Some(JsonTree::Text(e.description@))
            &&& json::field_of(value, "shortSaleRestriction"@) == Some(JsonTree::Text(e.short_sale_restriction@))
            &&& json::field_of(value, "tradingStatus"@) == Some(JsonTree::Text(e.trading_status@))
            &&& json::field_of(value, "statusReason"@) == Some(JsonTree::Text(e.status_reason@))
            &&& json::field_of(value, "haltStartTime"@) == Some(JsonTree::Number(NumberTree::Integer(e.halt_start_time as int)))
            &&& json::field_of(value, "haltEndTime"@) == Some(JsonTree::Number(NumberTree::Integer(e.halt_end_time as int)))
            &&& json::field_of(value, "highLimitPrice"@) == Some(events::double_value(e.high_limit_price@))
            &&& json::field_of(value, "lowLimitPrice"@) == Some(events::double_value(e.low_limit_price@))
            &&& json::field_of(value, "high52WeekPrice"@) == Some(events::double_value(e.high_52_week_price@))
            &&& json::field_of(value, "low52WeekPrice"@) == Some(events::double_value(e.low_52_week_price@))
            &&& json::field_of(value, "beta"@) == Some(events::double_value(e.beta@))
            &&& json::field_of(value, "earningsPerShare"@) == Some(events::double_value(e.earnings_per_share@))
            &&& json::field_of(value, "dividendFrequency"@) == Some(events::double_value(e.dividend_frequency@))
            &&& json::field_of(value, "exDividendAmount"@) == Some(events::double_value(e.ex_dividend_amount@))
            &&& json::field_of(value, "exDividendDayId"@) == Some(JsonTree::Number(NumberTree::Integer(e.ex_dividend_day_id as int)))
            &&& json::field_of(value, "shares"@) == Some(events::double_value(e.shares@))
            &&& json::field_of(value, "freeFloat"@) == Some(events::double_value(e.free_float@))
            &&& full::event_of(value) == Some(MarketEvent::Profile(e)@)
        }),
{
    let event = MarketEvent::Profile(e)@;
    full::events_have_their_columns(MarketEvent::Profile(e));
    full::events_round_trip(event);
    a_field_is_written_under_its_name(event, 0);
    a_field_is_written_under_its_name(event, 1);
    a_field_is_written_under_its_name(event, 2);
    a_field_is_written_under_its_name(event, 3);
    a_field_is_written_under_its_name(event, 4);
    a_field_is_written_under_its_name(event, 5);
    a_field_is_written_under_its_name(event, 6);
    a_field_is_written_under_its_name(event, 7);
    a_field_is_written_under_its_name(event, 8);
    a_field_is_written_under_its_name(event, 9);
    a_field_is_written_under_its_name(event, 10);
    a_field_is_written_under_its_name(event, 11);
    a_field_is_written_under_its_name(event, 12);
    a_field_is_written_under_its_name(event, 13);
    a_field_is_written_under_its_name(event, 14);
    a_field_is_written_under_its_name(event, 15);
    a_field_is_written_under_its_name(event, 16);
    a_field_is_written_under_its_name(event, 17);
    a_field_is_written_under_its_name(event, 18);
    a_field_is_written_under_its_name(event, 19);
}

/// An underlying is written with each value under its own name, and read back so.
#[verifier::rlimit(40)]
pub proof fn an_underlying_is_written_by_name(e: UnderlyingEvent)
    ensures
        ({
            let value = full::event_value(MarketEvent::Underlying(e)@);
            &&& json::field_of(value, "eventType"@) == Some(JsonTree::Text(e.event_type@))
            &&& json::field_of(value, "eventSymbol"@) == Some(JsonTree::Text(e.event_symbol@))
            &&& json::field_of(value, "eventTime"@) == Some(JsonTree::Number(NumberTree::Integer(e.event_time as int)))
            &&& json::field_of(value, "eventFlags"@) == Some(JsonTree::Number(NumberTree::Integer(e.event_flags as int)))
            &&& json::field_of(value, "index"@) == Some(JsonTree::Number(NumberTree::Integer(e.index as int)))
            &&& json::field_of(value, "time"@) == Some(JsonTree::Number(NumberTree::Integer(e.time as int)))
            &&& json::field_of(value, "sequence"@) == Some(JsonTree::Number(NumberTree::Integer(e.sequence as int)))
            &&& json::field_of(value, "volatility"@) == Some(events::double_value(e.volatility@))
            &&& json::field_of(value, "frontVolatility"@) == Some(events::double_value(e.front_volatility@))
            &&& json::field_of(value, "backVolatility"@) == Some(events::double_value(e.back_volatility@))
            &&& json::field_of(value, "callVolume"@) == Some(events::double_value(e.call_volume@))
            &&& json::field_of(value, "putVolume"@) == Some(events::double_value(e.put_volume@))
            &&& json::field_of(value, "putCallRatio"@) == Some(events::double_value(e.put_call_ratio@))
            &&& full::event_of(value) == Some(MarketEvent::Underlying(e)@)
        }),
{
    let event = MarketEvent::Underlying(e)@;
    full::events_have_their_columns(MarketEvent::Underlying(e));
    full::events_round_trip(event);
    a_field_is_written_under_its_name(event, 0);
    a_field_is_written_under_its_name(event, 1);
    a_field_is_written_under_its_name(event, 2);
    a_field_is_written_under_its_name(event, 3);
    a_field_is_written_under_its_name(event, 4);
    a_field_is_written_under_its_name(event, 5);
    a_field_is_written_under_its_name(event, 6);
    a_field_is_written_under_its_name(event, 7);
    a_field_is_written_under_its_name(event, 8);
    a_field_is_written_under_its_name(event, 9);
    a_field_is_written_under_its_name(event, 10);
    a_field_is_written_under_its_name(event, 11);
    a_field_is_written_under_its_name(event, 12);
}

/// A theoretical price is written with each value under its own name, and read back so.
#[verifier::rlimit(40)]
pub proof fn a_theoretical_price_is_written_by_name(e: TheoPriceEvent)
    ensures
        ({
            let value = full::event_value(MarketEvent::TheoPrice(e)@);
            &&& json::field_of(value, "eventType"@) == Some(JsonTree::Text(e.event_type@))
            &&& json::field_of(value, "eventSymbol"@) == Some(JsonTree::Text(e.event_symbol@))
            &&& json::field_of(value, "eventTime"@) == Some(JsonTree::Number(NumberTree::Integer(e.event_time as int)))
            &&& json::field_of(value, "eventFlags"@) == Some(JsonTree::Number(NumberTree::Integer(e.event_flags as int)))
            &&& json::field_of(value, "index"@) == Some(JsonTree::Number(NumberTree::Integer(e.index as int)))
            &&& json::field_of(value, "time"@) == Some(JsonTree::Number(NumberTree::Integer(e.time as int)))
            &&& json::field_of(value, "sequence"@) == Some(JsonTree::Number(NumberTree::Integer(e.sequence as int)))
            &&& json::field_of(value, "price"@) == Some(events::double_value(e.price@))
            &&& json::field_of(value, "underlyingPrice"@) == Some(events::double_value(e.underlying_price@))
            &&& json::field_of(value, "delta"@) == Some(events::double_value(e.delta@))
            &&& json::field_of(value, "gamma"@) == Some(events::double_value(e.gamma@))
            &&& json::field_of(value, "dividend"@) == Some(events::double_value(e.dividend@))
            &&& json::field_of(value, "interest"@) == Some(events::double_value(e.interest@))
            &&& full::event_of(value) == Some(MarketEvent::TheoPrice(e)@)
        }),
{
    let event = MarketEvent::TheoPrice(e)@;
    full::events_have_their_columns(MarketEvent::TheoPrice(e));
    full::events_round_trip(event);
    a_field_is_written_under_its_name(event, 0);
    a_field_is_written_under_its_name(event, 1);
    a_field_is_written_under_its_name(event, 2);
    a_field_is_written_under_its_name(event, 3);
    a_field_is_written_under_its_name(event, 4);
    a_field_is_written_under_its_name(event, 5);
    a_field_is_written_under_its_name(event, 6);
    a_field_is_written_under_its_name(event, 7);
    a_field_is_written_under_its_name(event, 8);
    a_field_is_written_under_its_name(event, 9);
    a_field_is_written_under_its_name(event, 10);
    a_field_is_written_under_its_name(event, 11);
    a_field_is_written_under_its_name(event, 12);
}

/// A series is written with each value under its own name, and read back so.
#[verifier::rlimit(40)]
pub proof fn a_series_is_written_by_name(e: SeriesEvent)
    ensures
        ({
            let value = full::event_value(MarketEvent::Series(e)@);
            &&& json::field_of(value, "eventType"@) == Some(JsonTree::Text(e.event_type@))
            &&& json::field_of(value, "eventSymbol"@) == Some(JsonTree::Text(e.event_symbol@))
            &&& json::field_of(value, "eventTime"@) == Some(JsonTree::Number(NumberTree::Integer(e.event_time as int)))
            &&& json::field_of(value, "eventFlags"@) == Some(JsonTree::Number(NumberTree::Integer(e.event_flags as int)))
            &&& json::field_of(value, "index"@) == Some(JsonTree::Number(NumberTree::Integer(e.index as int)))
            &&& json::field_of(value, "time"@) == Some(JsonTree::Number(NumberTree::Integer(e.time as int)))
            &&& json::field_of(value, "sequence"@) == Some(JsonTree::Number(NumberTree::Integer(e.sequence as int)))
            &&& json::field_of(value, "expiration"@) == Some(JsonTree::Number(NumberTree::Integer(e.expiration as int)))
            &&& json::field_of(value, "volatility"@) == Some(events::double_value(e.volatility@))
            &&& json::field_of(value, "callVolume"@) == Some(events::double_value(e.call_volume@))
            &&& json::field_of(value, "putVolume"@) == Some(events::double_value(e.put_volume@))
            &&& json::field_of(value, "putCallRatio"@) == Some(events::double_value(e.put_call_ratio@))
            &&& json::field_of(value, "forwardPrice"@) == Some(events::double_value(e.forward_price@))
            &&& json::field_of(value, "dividend"@) == Some(events::double_value(e.dividend@))
            &&& json::field_of(value, "interest"@) == Some(events::double_value(e.interest@))
            &&& full::event_of(value) == Some(MarketEvent::Series(e)@)
        }),
{
    let event = MarketEvent::Series(e)@;
    full::events_have_their_columns(MarketEvent::Series(e));
    full::events_round_trip(event);
    a_field_is_written_under_its_name(event, 0);
    a_field_is_written_under_its_name(event, 1);
    a_field_is_written_under_its_name(event, 2);
    a_field_is_written_under_its_name(event, 3);
    a_field_is_written_under_its_name(event, 4);
    a_field_is_written_under_its_name(event, 5);
    a_field_is_written_under_its_name(event, 6);
    a_field_is_written_under_its_name(event, 7);
    a_field_is_written_under_its_name(event, 8);
    a_field_is_written_under_its_name(event, 9);
    a_field_is_written_under_its_name(event, 10);
    a_field_is_written_under_its_name(event, 11);
    a_field_is_written_under_its_name(event, 12);
    a_field_is_written_under_its_name(event, 13);
    a_field_is_written_under_its_name(event, 14);
}

/// A trade in extended hours is written with each value under its own name, and read back so.
#[verifier::rlimit(40)]
pub proof fn a_late_trade_is_written_by_name(e: TradeETHEvent)
    ensures
        ({
            let value = full::event_value(MarketEvent::TradeETH(e)@);
            &&& json::field_of(value, "eventType"@) == Some(JsonTree::Text(e.event_type@))
            &&& json::field_of(value, "eventSymbol"@) == Some(JsonTree::Text(e.event_symbol@))
            &&& json::field_of(value, "eventTime"@) == Some(JsonTree::Number(NumberTree::Integer(e.event_time as int)))
            &&& json::field_of(value, "time"@) == Some(JsonTree::Number(NumberTree::Integer(e.time as int)))
            &&& json::field_of(value, "timeNanoPart"@) == Some(JsonTree::Number(NumberTree::Integer(e.time_nano_part as int)))
            &&& json::field_of(value, "sequence"@) == Some(JsonTree::Number(NumberTree::Integer(e.sequence as int)))
            &&& json::field_of(value, "exchangeCode"@) == Some(JsonTree::Text(e.exchange_code@))
            &&& json::field_of(value, "price"@) == Some(events::double_value(e.price@))
            &&& json::field_of(value, "change"@) == Some(events::double_value(e.change@))
            &&& json::field_of(value, "size"@) == Some(events::double_value(e.size@))
            &&& json::field_of(value, "dayId"@) == Some(JsonTree::Number(NumberTree::Integer(e.day_id as int)))
            &&& json::field_of(value, "dayVolume"@) == Some(events::double_value(e.day_volume@))
            &&& json::field_of(value, "dayTurnover"@) == Some(events::double_value(e.day_turnover@))
            &&& json::field_of(value, "tickDirection"@) == Some(JsonTree::Text(e.tick_direction@))
            &&& json::field_of(value, "extendedTradingHours"@) == Some(JsonTree::Bool(e.extended_trading_hours))
            &&& full::event_of(value) == Some(MarketEvent::TradeETH(e)@)
        }),
{
    let event = MarketEvent::TradeETH(e)@;
    full::events_have_their_columns(MarketEvent::TradeETH(e));
    full::events_round_trip(event);
    a_field_is_written_under_its_name(event, 0);
    a_field_is_written_under_its_name(event, 1);
    a_field_is_written_under_its_name(event, 2);
    a_field_is_written_under_its_name(event, 3);
    a_field_is_written_under_its_name(event, 4);
    a_field_is_written_under_its_name(event, 5);
    a_field_is_written_under_its_name(event, 6);
    a_field_is_written_under_its_name(event, 7);
    a_field_is_written_under_its_name(event, 8);
    a_field_is_written_under_its_name(event, 9);
    a_field_is_written_under_its_name(event, 10);
    a_field_is_written_under_its_name(event, 11);
    a_field_is_written_under_its_name(event, 12);
    a_field_is_written_under_its_name(event, 13);
    a_field_is_written_under_its_name(event, 14);
}

/// A finite double is written as the number that it is, and the others by the
/// words of the protocol.
pub proof fn a_double_is_written_as_it_is(text: Seq<char>)
    ensures
        events::double_value(DoubleTree::Number(text)) == JsonTree::Number(NumberTree::Double(text)),
        events::double_value(DoubleTree::NaN) == JsonTree::Text("NaN"@),
        events::double_value(DoubleTree::Infinity) == JsonTree::Text("Infinity"@),
        events::double_value(DoubleTree::NegInfinity) == JsonTree::Text("-Infinity"@),
{
}

/// A field of an object is read as it stands where it is of its kind, and
/// nothing is put in place of one that is missing or of another kind.
pub proof fn a_field_of_an_object_is_read_as_it_stands(value: JsonTree, name: Seq<char>)
    ensures
        match json::field_of(value, name) {
            Some(JsonTree::Text(text)) => {
                &&& full::object_field(value, name, FieldKind::Text) == Ok::<FieldTree, Seq<char>>(
                    FieldTree::Text(text),
                )
                &&& full::object_field(value, name, FieldKind::Identity) == Ok::<
                    FieldTree,
                    Seq<char>,
                >(FieldTree::Text(text))
                &&& full::object_field(value, name, FieldKind::Whole) is Err
                &&& full::object_field(value, name, FieldKind::Flag) is Err
                &&& text == "NaN"@ ==> full::object_field(value, name, FieldKind::Double) == Ok::<
                    FieldTree,
                    Seq<char>,
                >(FieldTree::Double(DoubleTree::NaN))
                &&& text == "Infinity"@ ==> full::object_field(value, name, FieldKind::Double)
                    == Ok::<FieldTree, Seq<char>>(FieldTree::Double(DoubleTree::Infinity))
                &&& text == "-Infinity"@ ==> full::object_field(value, name, FieldKind::Double)
                    == Ok::<FieldTree, Seq<char>>(FieldTree::Double(DoubleTree::NegInfinity))
                &&& text != "NaN"@ && text != "Infinity"@ && text != "-Infinity"@
                    ==> full::object_field(value, name, FieldKind::Double) is Err
            },
            Some(JsonTree::Number(number)) => {
                &&& full::object_field(value, name, FieldKind::Double) == Ok::<
                    FieldTree,
                    Seq<char>,
                >(FieldTree::Double(DoubleTree::Number(json::double_text(number))))
                &&& full::object_field(value, name, FieldKind::Text) is Err
                &&& full::object_field(value, name, FieldKind::Identity) is Err
                &&& full::object_field(value, name, FieldKind::Flag) is Err
                &&& match number {
                    NumberTree::Integer(n) => if i64::MIN <= n <= i64::MAX {
                        full::object_field(value, name, FieldKind::Whole) == Ok::<
                            FieldTree,
                            Seq<char>,
                        >(FieldTree::Whole(n))
                    } else {
                        full::object_field(value, name, FieldKind::Whole) is Err
                    },
                    NumberTree::Double(_) => full::object_field(value, name, FieldKind::Whole) is Err,
                }
            },
            Some(JsonTree::Bool(flag)) => {
                &&& full::object_field(value, name, FieldKind::Flag) == Ok::<FieldTree, Seq<char>>(
                    FieldTree::Flag(flag),
                )
                &&& forall|kind: FieldKind|
                    kind != FieldKind::Flag ==> #[trigger] full::object_field(
                        value,
                        name,
                        kind,
                    ) is Err
            },
            _ => forall|kind: FieldKind| #[trigger] full::object_field(value, name, kind) is Err,
        },
{
    reveal_strlit("NaN");
    reveal_strlit("Infinity");
    reveal_strlit("-Infinity");
    assert("NaN"@.len() == 3 && "Infinity"@.len() == 8 && "-Infinity"@.len() == 9);
}

// ---------------------------------------------------------------------------
// Messages of the client
// ---------------------------------------------------------------------------
/// What a message says behind its channel and its type is found under its name.
proof fn what_else_is_said_is_found(
    channel: u32,
    message_type: Seq<char>,
    rest: wire::Fields,
    i: int,
)
    requires
        0 <= i < rest.len(),
        rest[i].0 != "channel"@,
        rest[i].0 != "type"@,
        forall|j: int| 0 <= j < i ==> (#[trigger] rest[j]).0 != rest[i].0,
    ensures
        json::field_of(wire::addressed(channel, message_type, rest), rest[i].0) == Some(rest[i].1),
{
    let fields = wire::addressed(channel, message_type, rest)->Object_0;
    assert(fields[i + 2] == rest[i]);
    assert forall|j: int| 0 <= j < i + 2 implies (#[trigger] fields[j]).0 != rest[i].0 by {
        if j >= 2 {
            assert(fields[j] == rest[j - 2]);
        }
    }
    promises::a_field_is_the_first_of_its_name(fields, rest[i].0, i + 2, JsonTree::Null);
}

proof fn what_is_not_said_is_not_found(
    channel: u32,
    message_type: Seq<char>,
    rest: wire::Fields,
    name: Seq<char>,
)
    requires
        name != "channel"@,
        name != "type"@,
        forall|j: int| 0 <= j < rest.len() ==> (#[trigger] rest[j]).0 != name,
    ensures
        json::field_of(wire::addressed(channel, message_type, rest), name) is None,
{
    let fields = wire::addressed(channel, message_type, rest)->Object_0;
    assert forall|j: int| 0 <= j < fields.len() implies (#[trigger] fields[j]).0 != name by {
        if j >= 2 {
            assert(fields[j] == rest[j - 2]);
        }
    }
    promises::a_field_is_the_first_of_its_name(fields, name, 0, JsonTree::Null);
}

/// The set-up of a session says the deadline that the client keeps, the one
/// that it asks of the server and the version, each under its name.
pub proof fn a_setup_says_what_it_means(message: SetupMessage)
    ensures
        ({
            let value = wire::addressed(
                message.channel,
                message.message_type@,
                wire::setup_fields(message),
            );
            &&& json::field_of(value, "keepaliveTimeout"@) == Some(
                JsonTree::Number(NumberTree::Integer(message.keepalive_timeout as int)),
            )
            &&& json::field_of(value, "acceptKeepaliveTimeout"@) == Some(
                JsonTree::Number(NumberTree::Integer(message.accept_keepalive_timeout as int)),
            )
            &&& json::field_of(value, "version"@) == Some(JsonTree::Text(message.version@))
            &&& json::field_of(value, "type"@) == Some(JsonTree::Text(message.message_type@))
            &&& json::field_of(value, "channel"@) == Some(
                JsonTree::Number(NumberTree::Integer(message.channel as int)),
            )
        }),
{
    reveal_strlit("channel");
    reveal_strlit("type");
    reveal_strlit("keepaliveTimeout");
    reveal_strlit("acceptKeepaliveTimeout");
    reveal_strlit("version");
    assert("channel"@.len() == 7 && "type"@.len() == 4 && "version"@.len() == 7);
    assert("keepaliveTimeout"@.len() == 16 && "acceptKeepaliveTimeout"@.len() == 22);
    assert("channel"@[0] != "version"@[0]);
    let rest = wire::setup_fields(message);
    wire::messages_are_addressed(message.channel, message.message_type@, rest);
    what_else_is_said_is_found(message.channel, message.message_type@, rest, 0);
    what_else_is_said_is_found(message.channel, message.message_type@, rest, 1);
    what_else_is_said_is_found(message.channel, message.message_type@, rest, 2);
    let value = wire::addressed(message.channel, message.message_type@, rest);
    promises::a_member_is_read_as_it_stands(value, "channel"@);
    promises::a_member_is_read_as_it_stands(value, "type"@);
}

/// A request for a channel names the service and hands on every parameter, in
/// order and as it is.
pub proof fn a_channel_request_says_what_it_means(message: ChannelRequestMessage, i: int)
    ensures
        ({
            let value = wire::addressed(
                message.channel,
                message.message_type@,
                wire::channel_request_fields(message),
            );
            let parameters = json::field_of(value, "parameters"@);
            &&& json::field_of(value, "service"@) == Some(JsonTree::Text(message.service@))
            &&& parameters is Some && parameters->0 is Object
            &&& parameters->0->Object_0.len() == message.parameters@.len()
            &&& 0 <= i < message.parameters@.len() ==> parameters->0->Object_0[i] == (
                message.parameters@[i].0@,
                JsonTree::Text(message.parameters@[i].1@),
            )
        }),
{
    reveal_strlit("channel");
    reveal_strlit("type");
    reveal_strlit("service");
    reveal_strlit("parameters");
    assert("channel"@.len() == 7 && "type"@.len() == 4 && "parameters"@.len() == 10);
    assert("service"@.len() == 7 && "channel"@[0] != "service"@[0]);
    let rest = wire::channel_request_fields(message);
    what_else_is_said_is_found(message.channel, message.message_type@, rest, 0);
    what_else_is_said_is_found(message.channel, message.message_type@, rest, 1);
}

/// A feed is asked for with the format and the period of the client and with
/// the columns that it reads.
pub proof fn a_feed_setup_says_what_it_means(message: FeedSetupMessage, columns: wire::Fields)
    ensures
        ({
            let value = wire::addressed(
                message.channel,
                message.message_type@,
                wire::feed_setup_fields(message, columns),
            );
            &&& json::field_of(value, "acceptAggregationPeriod"@) == Some(
                JsonTree::Number(message.accept_aggregation_period@),
            )
            &&& json::field_of(value, "acceptDataFormat"@) == Some(
                JsonTree::Text(message.accept_data_format@),
            )
            &&& json::field_of(value, "acceptEventFields"@) == Some(JsonTree::Object(columns))
        }),
{
    reveal_strlit("channel");
    reveal_strlit("type");
    reveal_strlit("acceptAggregationPeriod");
    reveal_strlit("acceptDataFormat");
    reveal_strlit("acceptEventFields");
    assert("channel"@.len() == 7 && "type"@.len() == 4 && "acceptDataFormat"@.len() == 16);
    assert("acceptAggregationPeriod"@.len() == 23 && "acceptEventFields"@.len() == 17);
    let rest = wire::feed_setup_fields(message, columns);
    what_else_is_said_is_found(message.channel, message.message_type@, rest, 0);
    what_else_is_said_is_found(message.channel, message.message_type@, rest, 1);
    what_else_is_said_is_found(message.channel, message.message_type@, rest, 2);
}

/// A feed is asked for in the compact format, with a column of each name that
/// the client reads, for every type that was asked and can be decoded, and for
/// no other.
pub proof fn a_feed_is_asked_for_with_every_column(
    message: FeedSetupMessage,
    channel: u32,
    event_types: Seq<EventType>,
    event_type: EventType,
)
    requires
        client::asks_for_feed(message, channel, event_types),
    ensures
        message.channel == channel,
        message.accept_data_format@ == "COMPACT"@,
        message.accept_event_fields@.contains_key(events::wire_name(event_type))
            <==> event_types.contains(event_type) && events::columns(event_type) is Some,
        event_types.contains(event_type) && events::columns(event_type) is Some ==> {
            let asked = message.accept_event_fields@[events::wire_name(event_type)];
            let columns = events::columns(event_type)->0;
            &&& asked.len() == columns.len()
            &&& forall|i: int| 0 <= i < asked.len() ==> #[trigger] asked[i] == columns[i].0
        },
{
    let name = events::wire_name(event_type);
    schema::requests_are_decodable(event_types, name);
    events::wire_names_round_trip(event_type, name);
    if event_types.contains(event_type) && events::columns(event_type) is Some {
        let i = choose|i: int| 0 <= i < event_types.len() && event_types[i] == event_type;
        assert(events::is_decodable(event_types[i]));
    }
    if message.accept_event_fields@.contains_key(name) {
        let i = choose|i: int|
            0 <= i < event_types.len() && events::is_decodable(#[trigger] event_types[i])
                && events::wire_name(event_types[i]) == name;
        events::wire_names_are_distinct(event_types[i], event_type);
    }
}

/// A subscription says its type and its symbol, and the time and the source
/// exactly where it has them.
pub proof fn a_subscription_says_what_it_means(subscription: SubscriptionTree)
    ensures
        ({
            let value = wire::subscription_value(subscription);
            &&& json::field_of(value, "type"@) == Some(JsonTree::Text(subscription.event_type))
            &&& json::field_of(value, "symbol"@) == Some(JsonTree::Text(subscription.symbol))
            &&& match subscription.from_time {
                Some(time) => json::field_of(value, "fromTime"@) == Some(
                    JsonTree::Number(NumberTree::Integer(time as int)),
                ),
                None => json::field_of(value, "fromTime"@) is None,
            }
            &&& match subscription.source {
                Some(source) => json::field_of(value, "source"@) == Some(JsonTree::Text(source)),
                None => json::field_of(value, "source"@) is None,
            }
        }),
{
    reveal_strlit("type");
    reveal_strlit("symbol");
    reveal_strlit("fromTime");
    reveal_strlit("source");
    assert("type"@.len() == 4 && "symbol"@.len() == 6 && "fromTime"@.len() == 8);
    assert("source"@.len() == 6 && "symbol"@[1] != "source"@[1]);
    let fields = wire::subscription_value(subscription)->Object_0;
    let timed = subscription.from_time is Some;
    let sourced = subscription.source is Some;
    assert(fields[0].0 == "type"@ && fields[1].0 == "symbol"@);
    assert(timed ==> fields[2].0 == "fromTime"@);
    assert(sourced ==> fields[if timed {
        3
    } else {
        2
    }].0 == "source"@);
    promises::a_field_is_the_first_of_its_name(fields, "type"@, 0, JsonTree::Null);
    promises::a_field_is_the_first_of_its_name(fields, "symbol"@, 1, JsonTree::Null);
    promises::a_field_is_the_first_of_its_name(fields, "fromTime"@, 2, JsonTree::Null);
    promises::a_field_is_the_first_of_its_name(
        fields,
        "source"@,
        if timed {
            3
        } else {
            2
        },
        JsonTree::Null,
    );
}

/// A change of subscriptions lists what is added, what is removed and whether
/// everything goes, each under its name and only where there is something to
/// say, every subscription in order.
pub proof fn a_change_says_what_it_means(message: FeedSubscriptionMessage, i: int)
    ensures
        ({
            let value = wire::addressed(
                message.channel,
                message.message_type@,
                wire::feed_subscription_fields(message),
            );
            let add = json::field_of(value, "add"@);
            let remove = json::field_of(value, "remove"@);
            &&& match message.add {
                Some(list) => {
                    &&& add is Some && add->0 is Array && add->0->Array_0.len() == list@.len()
                    &&& 0 <= i < list@.len() ==> add->0->Array_0[i] == wire::subscription_value(
                        list@[i]@,
                    )
                },
                None => add is None,
            }
            &&& match message.remove {
                Some(list) => {
                    &&& remove is Some && remove->0 is Array && remove->0->Array_0.len()
                        == list@.len()
                    &&& 0 <= i < list@.len() ==> remove->0->Array_0[i] == wire::subscription_value(
                        list@[i]@,
                    )
                },
                None => remove is None,
            }
            &&& json::field_of(value, "reset"@) == match message.reset {
                Some(reset) => Some(JsonTree::Bool(reset)),
                None => None,
            }
        }),
{
    reveal_strlit("channel");
    reveal_strlit("type");
    reveal_strlit("add");
    reveal_strlit("remove");
    reveal_strlit("reset");
    assert("channel"@.len() == 7 && "type"@.len() == 4 && "add"@.len() == 3);
    assert("remove"@.len() == 6 && "reset"@.len() == 5);
    let rest = wire::feed_subscription_fields(message);
    let channel = message.channel;
    let message_type = message.message_type@;
    let adds: int = if message.add is Some {
        1
    } else {
        0
    };
    let removes: int = if message.remove is Some {
        1
    } else {
        0
    };
    assert(message.add is Some ==> rest[0].0 == "add"@);
    assert(message.remove is Some ==> rest[adds].0 == "remove"@);
    assert(message.reset is Some ==> rest[adds + removes].0 == "reset"@);
    if message.add is Some {
        what_else_is_said_is_found(channel, message_type, rest, 0);
    } else {
        what_is_not_said_is_not_found(channel, message_type, rest, "add"@);
    }
    if message.remove is Some {
        what_else_is_said_is_found(channel, message_type, rest, adds);
    } else {
        what_is_not_said_is_not_found(channel, message_type, rest, "remove"@);
    }
    if message.reset is Some {
        what_else_is_said_is_found(channel, message_type, rest, adds + removes);
    } else {
        what_is_not_said_is_not_found(channel, message_type, rest, "reset"@);
    }
}

// ---------------------------------------------------------------------------
// Messages of the server
// ---------------------------------------------------------------------------
/// A message is of the type and on the channel that it names. A channel that
/// does not fit is cut down to its width; what is no such number is none.
pub proof fn a_message_is_what_it_names(value: JsonTree, raw: Seq<char>)
    ensures
        ({
            let message = reader::message_tree(value, raw);
            &&& message.value == value
            &&& message.raw == raw
            &&& match json::field_of(value, "type"@) {
                Some(JsonTree::Text(text)) => message.message_type == text,
                _ => message.message_type.len() == 0,
            }
            &&& match json::field_of(value, "channel"@) {
                Some(JsonTree::Number(NumberTree::Integer(n))) => if 0 <= n <= u32::MAX {
                    message.channel == Some(n as u32)
                } else if 0 <= n <= u64::MAX {
                    message.channel is Some && (n - message.channel->0) % 0x1_0000_0000 == 0
                } else {
                    message.channel is None
                },
                _ => message.channel is None,
            }
        }),
{
}

/// An answer is of the kind that the message names, on the channel that it
/// names, and a configuration that cannot be read is an error and no answer.
pub proof fn an_answer_is_what_the_message_says(
    response: ResponseType,
    message: MessageTree,
    refusal: Option<Seq<char>>,
)
    requires
        reader::is_response(response, message, refusal),
    ensures
        response is ChannelOpened <==> message.message_type == "CHANNEL_OPENED"@,
        response is ChannelClosed <==> message.message_type == "CHANNEL_CLOSED"@,
        response is FeedConfig <==> message.message_type == "FEED_CONFIG"@ && refusal is None
            && wire::feed_config_complaint(message.value) is None,
        response is Error <==> message.message_type == "ERROR"@ || message.message_type
            == "FEED_CONFIG"@ && !(response is FeedConfig),
        response matches ResponseType::ChannelOpened(channel) ==> channel == match message.channel {
            Some(named) => named,
            None => 0,
        },
        response matches ResponseType::ChannelClosed(channel) ==> channel == match message.channel {
            Some(named) => named,
            None => 0,
        },
        response matches ResponseType::FeedConfig(config) ==> config.is_said_by(message.value),
        response matches ResponseType::Other(raw) ==> raw@ == message.raw,
        response matches ResponseType::Error(code, words) ==> {
            if message.message_type == "ERROR"@ {
                &&& json::field_of(message.value, "error"@) matches Some(JsonTree::Text(text))
                    ==> code@ == connection::sanitized(text)
                &&& json::field_of(message.value, "message"@) matches Some(JsonTree::Text(text))
                    ==> words@ == connection::sanitized(text)
            } else {
                &&& code@ == "MALFORMED_FEED_CONFIG"@
                &&& refusal matches Some(text) ==> words@ == text
            }
        },
{
    reveal_strlit("CHANNEL_OPENED");
    reveal_strlit("CHANNEL_CLOSED");
    reveal_strlit("FEED_CONFIG");
    reveal_strlit("ERROR");
    assert("CHANNEL_OPENED"@.len() == 14 && "CHANNEL_CLOSED"@.len() == 14);
    assert("CHANNEL_OPENED"@[8] != "CHANNEL_CLOSED"@[8]);
    assert("FEED_CONFIG"@.len() == 11 && "ERROR"@.len() == 5);
}

/// Data is delivered exactly where its channel has a layout and all of it can
/// be read by that layout, and then it is delivered whole. Nothing is delivered
/// on a channel without a layout, and nothing of a message that fails in part.
pub proof fn data_is_delivered_whole_or_not_at_all(
    routed: Routed,
    schemas: Map<u32, schema::SchemaTree>,
    message: MessageTree,
    refusal: Option<Seq<char>>,
)
    requires
        reader::routes_data(routed, schemas, message, refusal),
    ensures
        routed is NoLayout <==> message.channel is None || !schemas.contains_key(
            message.channel->0,
        ),
        routed is Deliver <==> {
            &&& message.channel is Some && schemas.contains_key(message.channel->0)
            &&& refusal is None
            &&& wire::feed_data(message.value) is Some
            &&& compact::decoded(
                wire::feed_data(message.value)->0,
                Some(schemas[message.channel->0]),
                0,
            ).1 is None
        },
        routed matches Routed::Deliver(list) ==> compact::event_trees(list@) == compact::decoded(
            wire::feed_data(message.value)->0,
            Some(schemas[message.channel->0]),
            0,
        ).0,
        routed matches Routed::Malformed(e) ==> e@ is Protocol,
{
}

/// The data of a message is what its array holds, element by element, where it
/// holds names and rows of values and nothing else.
pub proof fn data_is_what_the_array_holds(value: JsonTree, items: Seq<JsonTree>, i: int)
    requires
        json::field_of(value, "data"@) == Some(JsonTree::Array(items)),
        wire::whole_member(value, "channel"@) is Ok,
        wire::text_member(value, "type"@) is Ok,
    ensures
        wire::feed_data(value) is Some <==> forall|j: int|
            0 <= j < items.len() ==> (#[trigger] items[j]) is Text || items[j] is Array,
        wire::feed_data(value) matches Some(data) ==> {
            &&& data.len() == items.len()
            &&& 0 <= i < items.len() ==> match items[i] {
                JsonTree::Text(name) => data[i] == CompactTree::EventType(name),
                JsonTree::Array(values) => data[i] == CompactTree::Values(values),
                _ => false,
            }
        },
{
    if forall|j: int| 0 <= j < items.len() ==> (#[trigger] items[j]) is Text || items[j] is Array {
        assert forall|j: int| 0 <= j < items.len() implies wire::element_of(
            #[trigger] items[j],
        ) is Some by {}
    }
    if wire::feed_data(value) is Some {
        assert forall|j: int| 0 <= j < items.len() implies (#[trigger] items[j]) is Text
            || items[j] is Array by {
            assert(wire::element_of(items[j]) is Some);
        }
        if 0 <= i < items.len() {
            assert(wire::element_of(items[i]) is Some);
        }
    }
}

/// A message without an array of data has no data.
pub proof fn no_array_is_no_data(value: JsonTree)
    ensures
        wire::feed_data(value) is Some ==> json::field_of(value, "data"@) matches Some(
            JsonTree::Array(_),
        ),
{
}

/// The session ends with the transport, with the trust of the server and with
/// its silence, and with no other failure of a read.
pub proof fn what_ends_a_session(failed: DXLinkError)
    ensures
        reader::ends_session(ReadFailure::Silence),
        reader::ends_session(ReadFailure::Failed(failed)) <==> match failed {
            DXLinkError::WebSocket(_) | DXLinkError::Connection(_)
            | DXLinkError::Authentication(_) => true,
            _ => false,
        },
        reader::failure_view(ReadFailure::Failed(failed), 0) == failed@,
        reader::failure_view(ReadFailure::Silence, 0) is Timeout,
{
}

// ---------------------------------------------------------------------------
// What is shown
// ---------------------------------------------------------------------------
/// A field carries a credential exactly where it is named `token`, in any case.
pub proof fn a_token_is_known_in_any_case(name: Seq<char>)
    ensures
        connection::names_credential(name) <==> {
            &&& name.len() == 5
            &&& name[0] == 't' || name[0] == 'T'
            &&& name[1] == 'o' || name[1] == 'O'
            &&& name[2] == 'k' || name[2] == 'K'
            &&& name[3] == 'e' || name[3] == 'E'
            &&& name[4] == 'n' || name[4] == 'N'
        },
{
    reveal_strlit("token");
    let token = "token"@;
    assert(token.len() == 5 && token[0] == 't' && token[1] == 'o' && token[2] == 'k' && token[3]
        == 'e' && token[4] == 'n');
    promises::alike_but_for_case(name, token);
    if connection::names_credential(name) {
        assert(name[0] == name[0] && name[1] == name[1] && name[2] == name[2] && name[3] == name[3]
            && name[4] == name[4]);
    }
}

/// What is logged of a message has its shape: every element and every field in
/// its place and under its name, a credential as the placeholder and every
/// other leaf as it is.
pub proof fn what_is_logged_has_the_shape_of_the_message(
    items: Seq<JsonTree>,
    fields: wire::Fields,
    leaf: JsonTree,
    i: int,
)
    ensures
        ({
            let logged = connection::redacted(JsonTree::Array(items));
            &&& logged is Array && logged->Array_0.len() == items.len()
            &&& 0 <= i < items.len() ==> logged->Array_0[i] == connection::redacted(items[i])
        }),
        ({
            let logged = connection::redacted(JsonTree::Object(fields));
            &&& logged is Object && logged->Object_0.len() == fields.len()
            &&& 0 <= i < fields.len() ==> {
                &&& logged->Object_0[i].0 == fields[i].0
                &&& logged->Object_0[i].1 == if text::ascii_lowered(fields[i].0)
                    == text::ascii_lowered("token"@) {
                    JsonTree::Text("<redacted>"@)
                } else {
                    connection::redacted(fields[i].1)
                }
            }
        }),
        !(leaf is Array) && !(leaf is Object) ==> connection::redacted(leaf) == leaf,
{
}

proof fn printing_goes_through_in_order(a: Seq<char>, b: Seq<char>)
    ensures
        connection::printable(a + b) == connection::printable(a) + connection::printable(b),
    decreases b.len(),
{
    reveal(Seq::filter);
    if b.len() == 0 {
        assert(a + b =~= a);
        assert(connection::printable(a) + connection::printable(b) =~= connection::printable(a));
    } else {
        printing_goes_through_in_order(a, b.drop_last());
        assert((a + b).drop_last() =~= a + b.drop_last());
        assert((a + b).last() == b.last());
        assert(connection::printable(a) + connection::printable(b.drop_last()).push(b.last()) =~= (
        connection::printable(a) + connection::printable(b.drop_last())).push(b.last()));
    }
}

proof fn all_of_it_is_printable(s: Seq<char>)
    requires
        forall|i: int| 0 <= i < s.len() ==> !text::is_control_char(#[trigger] s[i]),
    ensures
        connection::printable(s) == s,
    decreases s.len(),
{
    reveal(Seq::filter);
    if s.len() > 0 {
        let init = s.drop_last();
        assert forall|i: int| 0 <= i < init.len() implies !text::is_control_char(
            #[trigger] init[i],
        ) by {
            assert(init[i] == s[i]);
        }
        all_of_it_is_printable(init);
        assert(!text::is_control_char(s[s.len() - 1]));
        assert(init.push(s.last()) =~= s);
    } else {
        assert(connection::printable(s) =~= s);
    }
}

/// A control character makes no difference to what is shown.
pub proof fn a_control_character_is_not_shown(before: Seq<char>, c: char, behind: Seq<char>)
    requires
        c as u32 <= 0x1f || 0x7f <= c as u32 <= 0x9f,
    ensures
        connection::sanitized(before + seq![c] + behind) == connection::sanitized(before + behind),
{
    reveal(Seq::filter);
    printing_goes_through_in_order(before + seq![c], behind);
    printing_goes_through_in_order(before, seq![c]);
    printing_goes_through_in_order(before, behind);
    let none = Seq::<char>::empty();
    all_of_it_is_printable(none);
    assert(seq![c].drop_last() =~= none);
    assert(seq![c].last() == c);
    assert(connection::printable(seq![c]) =~= connection::printable(none));
    assert(connection::printable(before) + Seq::<char>::empty() =~= connection::printable(before));
}

/// A harmless text of the server is shown as it is: one of at most a hundred
/// and twenty characters, in short words with single spaces between them.
pub proof fn a_harmless_text_is_shown_as_it_is(s: Seq<char>)
    requires
        s.len() <= 120,
        forall|i: int|
            0 <= i < s.len() ==> !(#[trigger] s[i] as u32 <= 0x1f || 0x7f <= s[i] as u32 <= 0x9f),
        text::is_single_spaced(s),
        s.len() > 0 ==> !text::is_white_space(s.last()),
        forall|i: int, j: int|
            0 <= i <= j <= s.len() && #[trigger] text::is_stretch(s, i, j) ==> j - i <= 32,
    ensures
        connection::sanitized(s) == s,
{
    all_of_it_is_printable(s);
    let found = text::words(s);
    text::words_are_stretches(s, 32);
    let masked = found.map_values(|w: Seq<char>| connection::masked_word(w));
    assert(masked =~= found);
    text::single_spaced_text_is_its_words(s);
}

/// A text of the server with the shape of a credential, one stretch of more
/// than thirty-two characters, is shown as the placeholder.
pub proof fn an_overlong_word_is_not_shown(s: Seq<char>)
    requires
        s.len() > 32,
        forall|i: int|
            0 <= i < s.len() ==> !(#[trigger] s[i] as u32 <= 0x1f || 0x7f <= s[i] as u32 <= 0x9f)
                && !text::is_white_space(s[i]),
    ensures
        connection::sanitized(s) == "<redacted>"@,
{
    all_of_it_is_printable(s);
    one_word(s);
    reveal_strlit("<redacted>");
    let masked = text::words(s).map_values(|w: Seq<char>| connection::masked_word(w));
    assert(masked =~= seq!["<redacted>"@]);
    assert("<redacted>"@.len() == 10);
}

proof fn one_word(s: Seq<char>)
    requires
        forall|i: int| 0 <= i < s.len() ==> !text::is_white_space(#[trigger] s[i]),
    ensures
        text::split_words(s) == (Seq::<Seq<char>>::empty(), s),
        s.len() > 0 ==> text::words(s) == seq![s],
    decreases s.len(),
{
    if s.len() > 0 {
        let init = s.drop_last();
        assert forall|i: int| 0 <= i < init.len() implies !text::is_white_space(#[trigger] init[i]) by {
            assert(init[i] == s[i]);
        }
        one_word(init);
        assert(!text::is_white_space(s[s.len() - 1]));
        assert(init.push(s.last()) =~= s);
        assert(Seq::<Seq<char>>::empty().push(s) =~= seq![s]);
    } else {
        assert(s =~= Seq::<char>::empty());
    }
}

/// A long text of the server is shown by its beginning: where it is harmless but
/// for its length, the first hundred and twenty characters of it are shown.
pub proof fn a_long_text_is_shown_by_its_beginning(s: Seq<char>)
    requires
        s.len() > 120,
        forall|i: int|
            0 <= i < s.len() ==> !(#[trigger] s[i] as u32 <= 0x1f || 0x7f <= s[i] as u32 <= 0x9f),
        text::is_single_spaced(s),
        !text::is_white_space(s.last()),
        forall|i: int, j: int|
            0 <= i <= j <= s.len() && #[trigger] text::is_stretch(s, i, j) ==> j - i <= 32,
    ensures
        connection::sanitized(s) == s.take(120),
{
    all_of_it_is_printable(s);
    let found = text::words(s);
    text::words_are_stretches(s, 32);
    let masked = found.map_values(|w: Seq<char>| connection::masked_word(w));
    assert(masked =~= found);
    text::single_spaced_text_is_its_words(s);
}

proof fn words_behind_a_space(before: Seq<char>, c: char, behind: Seq<char>)
    requires
        text::is_white_space(c),
    ensures
        text::split_words(before + seq![c] + behind) == (
            text::words(before) + text::split_words(behind).0,
            text::split_words(behind).1,
        ),
    decreases behind.len(),
{
    let whole = before + seq![c] + behind;
    if behind.len() == 0 {
        assert(whole.drop_last() =~= before);
        assert(whole.last() == c);
        assert(text::words(before) + Seq::<Seq<char>>::empty() =~= text::words(before));
    } else {
        let init = behind.drop_last();
        words_behind_a_space(before, c, init);
        assert(whole.drop_last() =~= before + seq![c] + init);
        assert(whole.last() == behind.last());
        let (done, current) = text::split_words(init);
        assert((text::words(before) + done).push(current) =~= text::words(before) + done.push(
            current,
        ));
    }
}

/// White space ends a word and begins the next one, whatever stands on either
/// side; every other character belongs to a word.
pub proof fn a_word_ends_at_white_space(before: Seq<char>, c: char, behind: Seq<char>)
    ensures
        c as u32 == 0x20 || 0x09 <= c as u32 <= 0x0d || c as u32 == 0x85 || c as u32 == 0xa0 || c as u32
            == 0x1680 || 0x2000 <= c as u32 <= 0x200a || c as u32 == 0x2028 || c as u32 == 0x2029
            || c as u32 == 0x202f || c as u32 == 0x205f || c as u32 == 0x3000
            ==> text::words(before + seq![c] + behind) == text::words(before) + text::words(behind),
        !(c as u32 == 0x20 || 0x09 <= c as u32 <= 0x0d || c as u32 == 0x85 || c as u32 == 0xa0 || c as u32
            == 0x1680 || 0x2000 <= c as u32 <= 0x200a || c as u32 == 0x2028 || c as u32 == 0x2029
            || c as u32 == 0x202f || c as u32 == 0x205f || c as u32 == 0x3000)
            ==> text::words(seq![c]) == seq![seq![c]],
{
    if text::is_white_space(c) {
        words_behind_a_space(before, c, behind);
        let (done, current) = text::split_words(behind);
        assert((text::words(before) + done).push(current) =~= text::words(before) + done.push(
            current,
        ));
    } else {
        one_word(seq![c]);
    }
}

/// However long a text of the server is, no more than a hundred and twenty
/// characters of it are shown.
pub proof fn a_long_text_is_cut(s: Seq<char>)
    ensures
        connection::sanitized(s).len() <= 120,
{
    connection::sanitized_text_is_safe(s);
}

/// How a client reads does not depend on its credential.
pub proof fn a_client_does_not_show_its_credential(
    client: ClientTree,
    token: Seq<char>,
    reader: bool,
    keepalive: bool,
)
    ensures
        client::client_text(ClientTree { token, ..client }, reader, keepalive)
            == client::client_text(client, reader, keepalive),
{
}

/// The digits of a number are those of its tenth part and then the last one, and
/// no number of more than one digit begins with a zero.
pub proof fn digits_are_those_of_the_number(n: int)
    requires
        n >= 0,
    ensures
        text::decimal(n).len() > 0,
        text::decimal(n).last() as int == '0' as int + n % 10,
        n < 10 ==> text::decimal(n).len() == 1,
        n >= 10 ==> text::decimal(n).drop_last() == text::decimal(n / 10),
        n >= 10 ==> text::decimal(n)[0] != '0',
    decreases n,
{
    if n >= 10 {
        digits_are_those_of_the_number(n / 10);
        assert(text::decimal(n).drop_last() =~= text::decimal(n / 10));
        assert(text::decimal(n)[0] == text::decimal(n / 10)[0]);
    }
}

/// Different numbers have different digits.
pub proof fn digits_tell_numbers_apart(a: int, b: int)
    requires
        a >= 0,
        b >= 0,
        text::decimal(a) == text::decimal(b),
    ensures
        a == b,
    decreases a,
{
    digits_are_those_of_the_number(a);
    digits_are_those_of_the_number(b);
    if a >= 10 {
        if b < 10 {
            digits_are_those_of_the_number(a / 10);
            assert(text::decimal(a).len() == text::decimal(a / 10).len() + 1);
        } else {
            digits_tell_numbers_apart(a / 10, b / 10);
        }
    } else if b >= 10 {
        digits_are_those_of_the_number(b / 10);
        assert(text::decimal(b).len() == text::decimal(b / 10).len() + 1);
    }
}

// ---------------------------------------------------------------------------
// Delivery
// ---------------------------------------------------------------------------
/// An event is lost only where the consumer chose that, and the stream is full;
/// a consumer who chose to wait loses none, and one who is gone is spoken of
/// once.
pub proof fn no_event_is_lost_in_silence(delivery: DeliveryTree, outcome: HandOff)
    ensures
        delivery::stream_result(delivery, outcome) == AfterStream::Delivered <==> outcome
            == HandOff::Taken,
        delivery::stream_result(delivery, outcome) == AfterStream::Dropped <==> outcome
            == HandOff::Full && delivery.policy == OverflowPolicy::Drop,
        delivery::stream_result(delivery, outcome) == AfterStream::Wait <==> outcome
            == HandOff::Full && delivery.policy == OverflowPolicy::Block,
        delivery::stream_result(delivery, outcome) == AfterStream::GoneNow <==> outcome
            == HandOff::Closed && !delivery.closed,
        delivery::stream_result(delivery, outcome) == AfterStream::Gone <==> outcome
            == HandOff::Closed && delivery.closed,
{
}

/// One is a power of two, and so is the double of each and of no other; no odd
/// number above one is, and no number below.
pub proof fn a_count_is_told_when_it_has_doubled(n: int)
    ensures
        delivery::is_power_of_two(1),
        delivery::is_power_of_two(2 * n) == delivery::is_power_of_two(n),
        n > 1 && n % 2 == 1 ==> !delivery::is_power_of_two(n),
        n <= 0 ==> !delivery::is_power_of_two(n),
{
    if n > 0 {
        assert(2 * n / 2 == n && (2 * n) % 2 == 0);
    }
}

// ---------------------------------------------------------------------------
// A session that is rebuilt or ended
// ---------------------------------------------------------------------------
/// The types for which a feed is asked again are those of its layout.
pub proof fn a_feed_comes_back_with_its_types(layout: schema::SchemaTree, event_type: EventType)
    ensures
        replay::types_in(layout).contains(event_type) <==> layout.contains_key(
            events::wire_name(event_type),
        ),
{
    let all = replay::TYPES_BY_NAME@;
    let keeps = |t: EventType| layout.contains_key(events::wire_name(t));
    types_that_are_kept(all, keeps, event_type);
    assert(all.contains(event_type)) by {
        match event_type {
            EventType::Candle => assert(all[0] == event_type),
            EventType::Configuration => assert(all[1] == event_type),
            EventType::Greeks => assert(all[2] == event_type),
            EventType::Message => assert(all[3] == event_type),
            EventType::Order => assert(all[4] == event_type),
            EventType::Profile => assert(all[5] == event_type),
            EventType::Quote => assert(all[6] == event_type),
            EventType::Series => assert(all[7] == event_type),
            EventType::SpreadOrder => assert(all[8] == event_type),
            EventType::Summary => assert(all[9] == event_type),
            EventType::TheoPrice => assert(all[10] == event_type),
            EventType::TimeAndSale => assert(all[11] == event_type),
            EventType::Trade => assert(all[12] == event_type),
            EventType::TradeETH => assert(all[13] == event_type),
            EventType::Underlying => assert(all[14] == event_type),
        }
    }
}

proof fn types_that_are_kept(
    all: Seq<EventType>,
    keeps: spec_fn(EventType) -> bool,
    event_type: EventType,
)
    ensures
        all.filter(keeps).contains(event_type) <==> all.contains(event_type) && keeps(event_type),
    decreases all.len(),
{
    reveal(Seq::filter);
    if all.len() > 0 {
        let init = all.drop_last();
        types_that_are_kept(init, keeps, event_type);
        let kept = init.filter(keeps);
        let result = all.filter(keeps);
        assert(all =~= init.push(all.last()));
        if result.contains(event_type) {
            let k = choose|k: int| 0 <= k < result.len() && result[k] == event_type;
            if k < kept.len() {
                assert(kept[k] == event_type);
                let m = choose|m: int| 0 <= m < init.len() && init[m] == event_type;
                assert(all[m] == event_type);
            } else {
                assert(all[all.len() - 1] == event_type);
            }
        }
        if all.contains(event_type) && keeps(event_type) {
            let m = choose|m: int| 0 <= m < all.len() && all[m] == event_type;
            if m < init.len() {
                assert(init[m] == event_type);
                let k = choose|k: int| 0 <= k < kept.len() && kept[k] == event_type;
                assert(result[k] == event_type);
            } else {
                assert(result[result.len() - 1] == event_type);
            }
        }
    }
}

/// While there is a channel left, a connected session asks for it again, with
/// its own number, service and contract, and waits for the answer on it; after
/// the last one the session is back.
pub proof fn a_channel_is_asked_for_again(
    result: DXLinkResult<ReplayAction>,
    after: ClientTree,
    before: ClientTree,
    replay: ReplayTree,
)
    requires
        replay::goes_on(result, after, before, replay),
        0 <= replay.at,
    ensures
        result matches Ok(ReplayAction::Done) <==> replay.at >= replay.known.len(),
        replay.at < replay.known.len() && before.connected ==> {
            let known = replay.known[replay.at];
            &&& result matches Ok(ReplayAction::Open(message, ticket))
            &&& message.channel == known.channel
            &&& message.service@ == known.service
            &&& message.parameters@.len() == 1
            &&& message.parameters@[0].0@ == "contract"@
            &&& message.parameters@[0].1@ == known.contract
            &&& ticket@.expected_type == "CHANNEL_OPENED"@
            &&& ticket@.channel == known.channel
        },
        replay.at < replay.known.len() && !before.connected ==> result is Err,
        after.channels == before.channels,
        after.subscriptions == before.subscriptions,
        after.schemas == before.schemas,
{
}

/// A channel that was configured gets its feed back, with the types that it
/// had; one that never was is passed over.
pub proof fn a_feed_is_asked_for_again(
    result: DXLinkResult<ReplayAction>,
    after: ClientTree,
    replay_after: ReplayTree,
    before: ClientTree,
    replay: ReplayTree,
    channel: u32,
)
    requires
        replay::reopened(result, after, replay_after, before, replay, channel),
        before.connected,
        before.schemas.contains_key(channel),
        forall|name: Seq<char>| #[trigger]
            before.schemas[channel].contains_key(name) ==> events::named(name) is Some,
    ensures
        result matches Ok(ReplayAction::Configure(message, ticket)) && {
            &&& message.channel == channel
            &&& message.accept_event_fields@ == schema::requested(
                replay::types_in(before.schemas[channel]),
            )
            &&& ticket@.expected_type == "FEED_CONFIG"@
            &&& ticket@.channel == channel
        },
        replay_after.at == replay.at,
        replay_after.known == replay.known,
        replay_after.types == replay::types_in(before.schemas[channel]),
        !after.schemas.contains_key(channel),
        after.subscriptions == before.subscriptions,
{
}

/// Everything that was live on a channel is subscribed again, in order, and
/// nothing is removed.
pub proof fn what_was_live_is_subscribed_again(
    result: DXLinkResult<ReplayAction>,
    after: ClientTree,
    configured: ClientTree,
    replay_after: ReplayTree,
    channel: u32,
    i: int,
)
    requires
        replay::reconfigured(result, after, configured, replay_after, channel),
        0 <= i < configured.subscriptions.len(),
        configured.subscriptions[i].channel == channel,
    ensures
        result matches Ok(ReplayAction::Subscribe(message)) && {
            &&& message.channel == channel
            &&& message.remove is None
            &&& message.reset is None
            &&& message.add is Some
            &&& messages::subscription_trees(message.add->0@).contains(
                configured.subscriptions[i].subscription,
            )
        },
        after == configured,
{
    let entry = configured.subscriptions[i];
    let mine = subscriptions::on_channel(configured.subscriptions, channel);
    promises::channels_are_kept_apart(configured.subscriptions, Seq::empty(), channel, entry);
    assert(configured.subscriptions.contains(entry));
    assert(mine.contains(entry));
    let k = choose|k: int| 0 <= k < mine.len() && mine[k] == entry;
    let asked = subscriptions::asked_on(configured.subscriptions, channel);
    assert(asked[k] == entry.subscription);
}

/// A shutdown goes through its steps in order, each once, and stays where it
/// ends.
pub proof fn a_shutdown_goes_through_every_step()
    ensures
        shutdown::progress_after(Progress::Begun) == Progress::Unsupervised,
        shutdown::progress_after(Progress::Unsupervised) == Progress::Quiet,
        shutdown::progress_after(Progress::Quiet) == Progress::Closed,
        shutdown::progress_after(Progress::Closed) == Progress::Stopped,
        shutdown::progress_after(Progress::Stopped) == Progress::Over,
        shutdown::progress_after(Progress::Over) == Progress::Over,
{
}

// ---------------------------------------------------------------------------
// Names and texts
// ---------------------------------------------------------------------------
/// The types of the protocol go by these names, and those with columns are the
/// ones that can be decoded.
pub proof fn the_protocol_names_its_types()
    ensures
        events::wire_name(EventType::Quote) == "Quote"@,
        events::wire_name(EventType::Trade) == "Trade"@,
        events::wire_name(EventType::Summary) == "Summary"@,
        events::wire_name(EventType::Profile) == "Profile"@,
        events::wire_name(EventType::Order) == "Order"@,
        events::wire_name(EventType::TimeAndSale) == "TimeAndSale"@,
        events::wire_name(EventType::Candle) == "Candle"@,
        events::wire_name(EventType::TradeETH) == "TradeETH"@,
        events::wire_name(EventType::SpreadOrder) == "SpreadOrder"@,
        events::wire_name(EventType::Greeks) == "Greeks"@,
        events::wire_name(EventType::TheoPrice) == "TheoPrice"@,
        events::wire_name(EventType::Underlying) == "Underlying"@,
        events::wire_name(EventType::Series) == "Series"@,
        events::wire_name(EventType::Configuration) == "Configuration"@,
        events::wire_name(EventType::Message) == "Message"@,
        forall|t: EventType| #[trigger]
            events::columns(t) is None <==> t == EventType::Order || t == EventType::SpreadOrder || t
                == EventType::Configuration || t == EventType::Message,
{
}

proof fn items_are_joined(items: Seq<JsonTree>)
    ensures
        json::rendered_items(items) == text::joined(
            items.map_values(|item: JsonTree| json::rendered(item)),
            ","@,
        ),
    decreases items.len(),
{
    let parts = items.map_values(|item: JsonTree| json::rendered(item));
    if items.len() > 1 {
        items_are_joined(items.drop_last());
        assert(parts.drop_last() =~= items.drop_last().map_values(
            |item: JsonTree| json::rendered(item),
        ));
    }
}

proof fn fields_are_joined(fields: wire::Fields)
    ensures
        json::rendered_fields(fields) == text::joined(
            fields.map_values(
                |f: (Seq<char>, JsonTree)| json::quoted(f.0) + ":"@ + json::rendered(f.1),
            ),
            ","@,
        ),
    decreases fields.len(),
{
    let one = |f: (Seq<char>, JsonTree)| json::quoted(f.0) + ":"@ + json::rendered(f.1);
    let parts = fields.map_values(one);
    if fields.len() > 1 {
        let init = fields.drop_last();
        fields_are_joined(init);
        assert(parts.drop_last() =~= init.map_values(one));
        let front = json::rendered_fields(init) + ","@;
        let last = fields.last();
        assert(front + json::quoted(last.0) + ":"@ + json::rendered(last.1) =~= front + (
        json::quoted(last.0) + ":"@ + json::rendered(last.1)));
    }
}

/// A value is written whole: every element of an array and every field of an
/// object, in order, with commas between them and nothing else.
pub proof fn a_value_is_written_whole(items: Seq<JsonTree>, fields: wire::Fields, n: int)
    ensures
        json::rendered(JsonTree::Array(items)) == "["@ + text::joined(
            items.map_values(|item: JsonTree| json::rendered(item)),
            ","@,
        ) + "]"@,
        json::rendered(JsonTree::Object(fields)) == "{"@ + text::joined(
            fields.map_values(
                |f: (Seq<char>, JsonTree)| json::quoted(f.0) + ":"@ + json::rendered(f.1),
            ),
            ","@,
        ) + "}"@,
        json::rendered(JsonTree::Null) == "null"@,
        json::rendered(JsonTree::Bool(true)) == "true"@,
        json::rendered(JsonTree::Bool(false)) == "false"@,
        n >= 0 ==> json::rendered(JsonTree::Number(NumberTree::Integer(n))) == text::decimal(n),
        n < 0 ==> json::rendered(JsonTree::Number(NumberTree::Integer(n))) == "-"@ + text::decimal(
            -n,
        ),
{
    items_are_joined(items);
    fields_are_joined(fields);
}

/// Texts are joined with a separator between neighbours, and with none before
/// the first or behind the last.
pub proof fn joining_puts_a_separator_between(
    parts: Seq<Seq<char>>,
    last: Seq<char>,
    separator: Seq<char>,
)
    ensures
        text::joined(Seq::empty(), separator) == Seq::<char>::empty(),
        text::joined(seq![last], separator) == last,
        parts.len() > 0 ==> text::joined(parts.push(last), separator) == text::joined(
            parts,
            separator,
        ) + separator + last,
{
    assert(parts.push(last).drop_last() =~= parts);
}

/// A text is written between quotation marks with every character that needs no
/// escape as it is.
pub proof fn a_plain_text_is_quoted_as_it_is(s: Seq<char>)
    requires
        forall|i: int|
            0 <= i < s.len() ==> #[trigger] s[i] != '"' && s[i] != '\\' && s[i] as u32 >= 0x20,
    ensures
        json::quoted(s) == seq!['"'] + s + seq!['"'],
{
    plain_characters(s);
}

proof fn plain_characters(s: Seq<char>)
    requires
        forall|i: int|
            0 <= i < s.len() ==> #[trigger] s[i] != '"' && s[i] != '\\' && s[i] as u32 >= 0x20,
    ensures
        text::concatenated(s.map_values(|c: char| json::escaped(c))) == s,
    decreases s.len(),
{
    let parts = s.map_values(|c: char| json::escaped(c));
    if s.len() > 0 {
        let init = s.drop_last();
        assert forall|i: int| 0 <= i < init.len() implies #[trigger] init[i] != '"' && init[i]
            != '\\' && init[i] as u32 >= 0x20 by {
            assert(init[i] == s[i]);
        }
        plain_characters(init);
        assert(parts.drop_last() =~= init.map_values(|c: char| json::escaped(c)));
        assert(s[s.len() - 1] == s.last());
        assert(parts.last() == seq![s.last()]);
        assert(init + seq![s.last()] =~= s);
    } else {
        assert(text::concatenated(parts) =~= s);
    }
}

// ---------------------------------------------------------------------------
// What a caller gets
// ---------------------------------------------------------------------------
/// A caller gets the answer exactly where one came that is no error, and gets it
/// as it came; what kept a request from going out is handed on as it is.
pub proof fn a_caller_gets_the_answer(
    result: DXLinkResult<ResponseType>,
    ticket: TicketTree,
    outcome: Outcome,
)
    requires
        requests::settles(result, ticket, outcome),
    ensures
        match outcome {
            Outcome::Answered(ResponseType::Error(code, message)) => result is Err
                && result->Err_0@ == requests::server_error(ticket, code@, message@),
            Outcome::Answered(response) => result == Ok::<ResponseType, DXLinkError>(response),
            Outcome::NotSent(e) => result == Err::<ResponseType, DXLinkError>(e),
            Outcome::Abandoned => result is Err && result->Err_0@ is Protocol,
            Outcome::TimedOut => result is Err && result->Err_0@ is Timeout,
        },
        result matches Err(e) ==> client::failure(ticket, outcome) == Some(e@),
        result is Ok ==> client::failure(ticket, outcome) is None,
{
}

/// A message is taken as one of its type exactly where neither the JSON library
/// nor the reader here objects, and an objection is one of reading.
pub proof fn an_objection_of_either_counts(
    refusal: Option<serde_json::Error>,
    complaint: Option<Seq<char>>,
)
    ensures
        handshake::refused(refusal, complaint) is None <==> refusal is None && complaint is None,
        handshake::refused(refusal, complaint) matches Some(e) ==> e is Serialization,
        refusal matches Some(e) ==> handshake::refused(refusal, complaint) == Some(
            ErrorView::Serialization(e),
        ),
{
}

/// A configuration that nobody waited for touches the channel that it names and
/// no other, and one that cannot be read leaves that channel without a layout.
pub proof fn a_late_configuration_is_local(
    message: MessageTree,
    refusal: Option<Seq<char>>,
    before: Map<u32, schema::SchemaTree>,
    after: Map<u32, schema::SchemaTree>,
    other: u32,
)
    requires
        reader::leaves_schemas(message, refusal, before, after),
    ensures
        message.channel is None ==> after == before,
        message.channel != Some(other) ==> after.contains_key(other) == before.contains_key(other)
            && (before.contains_key(other) ==> after[other] == before[other]),
        message.channel matches Some(channel) ==> {
            &&& refusal is Some || wire::feed_config_complaint(message.value) is Some
                ==> !after.contains_key(channel)
            &&& !before.contains_key(channel) ==> after == before
        },
{
    if let Some(channel) = message.channel {
        if !before.contains_key(channel) {
            assert(before.remove(channel) =~= before);
        }
    }
}

/// A feed is configured by the answer on its own channel and by no other; a
/// refused one leaves the client as it was.
pub proof fn a_feed_is_configured_by_its_own_answer(
    result: DXLinkResult<()>,
    after: ClientTree,
    before: ClientTree,
    channel: u32,
    event_types: Seq<EventType>,
    response: ResponseType,
    other: u32,
)
    requires
        client::feed_answered(result, after, before, channel, event_types, response),
    ensures
        result is Ok <==> response is FeedConfig && response->FeedConfig_0.channel == channel
            && schema::is_agreeable(response->FeedConfig_0, event_types),
        result is Ok ==> after.schemas.contains_key(channel) && after.schemas[channel]
            == schema::agreed(response->FeedConfig_0, event_types),
        result is Err ==> after == before,
        other != channel ==> after.schemas.contains_key(other) == before.schemas.contains_key(other)
            && (before.schemas.contains_key(other) ==> after.schemas[other]
            == before.schemas[other]),
        after.channels == before.channels,
        after.subscriptions == before.subscriptions,
        after.pending == before.pending,
{
}

/// A rebuilt session brings back every channel that was open, once each and
/// lowest first, with the service and the contract that it had.
pub proof fn every_channel_is_brought_back(
    list: Seq<client::KnownTree>,
    client: ClientTree,
    channel: u32,
)
    requires
        client::lists_known(list, client),
    ensures
        client.channels.contains_key(channel) <==> exists|i: int|
            0 <= i < list.len() && (#[trigger] list[i]).channel == channel,
        forall|i: int, j: int|
            0 <= i < j < list.len() ==> (#[trigger] list[i]).channel < (#[trigger] list[j]).channel,
        forall|i: int|
            0 <= i < list.len() ==> {
                let known = #[trigger] list[i];
                &&& known.service == client.channels[known.channel]
                &&& client.contracts.contains_key(known.channel) ==> known.contract
                    == client.contracts[known.channel]
                &&& !client.contracts.contains_key(known.channel) ==> known.contract == "AUTO"@
            },
{
    let ids = list.map_values(|k: client::KnownTree| k.channel);
    assert(ids.contains(channel) <==> client.channels.dom().contains(channel));
    if client.channels.contains_key(channel) {
        let i = choose|i: int| 0 <= i < ids.len() && ids[i] == channel;
        assert(list[i].channel == channel);
    }
    if exists|i: int| 0 <= i < list.len() && (#[trigger] list[i]).channel == channel {
        let i = choose|i: int| 0 <= i < list.len() && (#[trigger] list[i]).channel == channel;
        assert(ids[i] == channel);
    }
    assert forall|i: int, j: int| 0 <= i < j < list.len() implies (#[trigger] list[i]).channel < (
    #[trigger] list[j]).channel by {
        assert(ids[i] < ids[j]);
    }
}

/// A channel is subscribed exactly where something on it is live, and something
/// is live exactly where an entry has its channel, its type, its symbol and its
/// source.
pub proof fn what_is_live(
    entries: Seq<TrackedTree>,
    channel: u32,
    event_type: EventType,
    subscription: SubscriptionTree,
)
    ensures
        subscriptions::is_subscribed(entries, channel) <==> exists|e: TrackedTree| #[trigger]
            entries.contains(e) && e.channel == channel,
        subscriptions::is_live(entries, channel, event_type, subscription) <==> exists|
            e: TrackedTree,
        | #[trigger]
            entries.contains(e) && e.channel == channel && e.event_type == event_type
                && e.subscription.symbol == subscription.symbol && e.subscription.source
                == subscription.source,
{
    if subscriptions::is_subscribed(entries, channel) {
        let i = choose|i: int| 0 <= i < entries.len() && (#[trigger] entries[i]).channel == channel;
        assert(entries.contains(entries[i]));
    }
    if exists|e: TrackedTree| #[trigger] entries.contains(e) && e.channel == channel {
        let e = choose|e: TrackedTree| #[trigger] entries.contains(e) && e.channel == channel;
        let i = choose|i: int| 0 <= i < entries.len() && entries[i] == e;
        assert(entries[i].channel == channel);
    }
    if subscriptions::is_live(entries, channel, event_type, subscription) {
        let i = choose|i: int|
            0 <= i < entries.len() && subscriptions::is_subscription(
                #[trigger] entries[i],
                channel,
                event_type,
                subscription,
            );
        assert(entries.contains(entries[i]));
    }
    if exists|e: TrackedTree| #[trigger]
        entries.contains(e) && e.channel == channel && e.event_type == event_type
            && e.subscription.symbol == subscription.symbol && e.subscription.source
            == subscription.source {
        let e = choose|e: TrackedTree| #[trigger]
            entries.contains(e) && e.channel == channel && e.event_type == event_type
                && e.subscription.symbol == subscription.symbol && e.subscription.source
                == subscription.source;
        let i = choose|i: int| 0 <= i < entries.len() && entries[i] == e;
        assert(subscriptions::is_subscription(entries[i], channel, event_type, subscription));
    }
}

} // verus!
