//! Market events, and the columns in which they arrive.

use crate::error::{DXLinkError, DXLinkResult, ErrorView};
use crate::json;
use crate::json::{copy_items, JsonNumber, JsonTree, JsonValue, NumberTree};
use crate::text::same_text;
use vstd::prelude::*;

verus! {

// ---------------------------------------------------------------------------
// Event types
// ---------------------------------------------------------------------------
/// The event types that the protocol declares.
#[derive(Debug, Clone, Copy, PartialEq, Eq, Hash, Structural)]
pub enum EventType {
    /// Quote event.
    Quote,
    /// Trade event.
    Trade,
    /// Summary event.
    Summary,
    /// Profile event.
    Profile,
    /// Order event.
    Order,
    /// Time and Sale event.
    TimeAndSale,
    /// Candle event.
    Candle,
    /// TradeETH event.
    TradeETH,
    /// Spread Order event.
    SpreadOrder,
    /// Greeks event.
    Greeks,
    /// Theoretical Price event.
    TheoPrice,
    /// Underlying event.
    Underlying,
    /// Series event.
    Series,
    /// Configuration event.
    Configuration,
    /// Message event.
    Message,
}

/// Every event type that the protocol declares.
pub const ALL_EVENT_TYPES: [EventType; 15] = [
    EventType::Quote,
    EventType::Trade,
    EventType::Summary,
    EventType::Profile,
    EventType::Order,
    EventType::TimeAndSale,
    EventType::Candle,
    EventType::TradeETH,
    EventType::SpreadOrder,
    EventType::Greeks,
    EventType::TheoPrice,
    EventType::Underlying,
    EventType::Series,
    EventType::Configuration,
    EventType::Message,
];

/// The name of an event type on the wire.
pub open spec fn wire_name(event_type: EventType) -> Seq<char> {
    match event_type {
        EventType::Quote => "Quote"@,
        EventType::Trade => "Trade"@,
        EventType::Summary => "Summary"@,
        EventType::Profile => "Profile"@,
        EventType::Order => "Order"@,
        EventType::TimeAndSale => "TimeAndSale"@,
        EventType::Candle => "Candle"@,
        EventType::TradeETH => "TradeETH"@,
        EventType::SpreadOrder => "SpreadOrder"@,
        EventType::Greeks => "Greeks"@,
        EventType::TheoPrice => "TheoPrice"@,
        EventType::Underlying => "Underlying"@,
        EventType::Series => "Series"@,
        EventType::Configuration => "Configuration"@,
        EventType::Message => "Message"@,
    }
}

/// The event type of a name, if the protocol declares one of that name.
pub open spec fn named(name: Seq<char>) -> Option<EventType> {
    if name == "Quote"@ {
        Some(EventType::Quote)
    } else if name == "Trade"@ {
        Some(EventType::Trade)
    } else if name == "Summary"@ {
        Some(EventType::Summary)
    } else if name == "Profile"@ {
        Some(EventType::Profile)
    } else if name == "Order"@ {
        Some(EventType::Order)
    } else if name == "TimeAndSale"@ {
        Some(EventType::TimeAndSale)
    } else if name == "Candle"@ {
        Some(EventType::Candle)
    } else if name == "TradeETH"@ {
        Some(EventType::TradeETH)
    } else if name == "SpreadOrder"@ {
        Some(EventType::SpreadOrder)
    } else if name == "Greeks"@ {
        Some(EventType::Greeks)
    } else if name == "TheoPrice"@ {
        Some(EventType::TheoPrice)
    } else if name == "Underlying"@ {
        Some(EventType::Underlying)
    } else if name == "Series"@ {
        Some(EventType::Series)
    } else if name == "Configuration"@ {
        Some(EventType::Configuration)
    } else if name == "Message"@ {
        Some(EventType::Message)
    } else {
        None
    }
}

/// What the protocol error of an unknown name says.
pub open spec fn unknown_type(name: Seq<char>) -> Seq<char> {
    "`"@ + name
        + "` is not a DXLink event type; the protocol declares Quote, Trade, Summary, Profile, Order, TimeAndSale, Candle, TradeETH, SpreadOrder, Greeks, TheoPrice, Underlying, Series, Configuration and Message"@
}

/// How a column is read.
#[derive(Debug, Clone, Copy, PartialEq, Eq, Structural)]
pub enum FieldKind {
    /// Text without which the row means nothing.
    Identity,
    /// Text.
    Text,
    /// A whole number, such as an epoch millisecond.
    Whole,
    /// A double.
    Double,
    /// A boolean.
    Flag,
}

/// The columns of a Quote row that this library reads.
pub open spec fn quote_columns() -> Seq<(Seq<char>, FieldKind)> {
    seq![
        ("eventType"@, FieldKind::Identity),
        ("eventSymbol"@, FieldKind::Identity),
        ("bidPrice"@, FieldKind::Double),
        ("askPrice"@, FieldKind::Double),
        ("bidSize"@, FieldKind::Double),
        ("askSize"@, FieldKind::Double),
    ]
}

/// The columns of a Trade row that this library reads.
pub open spec fn trade_columns() -> Seq<(Seq<char>, FieldKind)> {
    seq![
        ("eventType"@, FieldKind::Identity),
        ("eventSymbol"@, FieldKind::Identity),
        ("price"@, FieldKind::Double),
        ("size"@, FieldKind::Double),
        ("dayVolume"@, FieldKind::Double),
    ]
}

/// The columns of a Greeks row that this library reads.
pub open spec fn greeks_columns() -> Seq<(Seq<char>, FieldKind)> {
    seq![
        ("eventType"@, FieldKind::Identity),
        ("eventSymbol"@, FieldKind::Identity),
        ("delta"@, FieldKind::Double),
        ("gamma"@, FieldKind::Double),
        ("theta"@, FieldKind::Double),
        ("vega"@, FieldKind::Double),
        ("rho"@, FieldKind::Double),
        ("volatility"@, FieldKind::Double),
    ]
}

/// The columns of a Candle row that this library reads.
pub open spec fn candle_columns() -> Seq<(Seq<char>, FieldKind)> {
    seq![
        ("eventType"@, FieldKind::Identity),
        ("eventSymbol"@, FieldKind::Identity),
        ("eventTime"@, FieldKind::Whole),
        ("eventFlags"@, FieldKind::Whole),
        ("index"@, FieldKind::Whole),
        ("time"@, FieldKind::Whole),
        ("sequence"@, FieldKind::Whole),
        ("count"@, FieldKind::Whole),
        ("open"@, FieldKind::Double),
        ("high"@, FieldKind::Double),
        ("low"@, FieldKind::Double),
        ("close"@, FieldKind::Double),
        ("volume"@, FieldKind::Double),
        ("VWAP"@, FieldKind::Double),
        ("bidVolume"@, FieldKind::Double),
        ("askVolume"@, FieldKind::Double),
        ("impVolatility"@, FieldKind::Double),
        ("openInterest"@, FieldKind::Double),
    ]
}

/// The columns of a Summary row that this library reads.
pub open spec fn summary_columns() -> Seq<(Seq<char>, FieldKind)> {
    seq![
        ("eventType"@, FieldKind::Identity),
        ("eventSymbol"@, FieldKind::Identity),
        ("eventTime"@, FieldKind::Whole),
        ("dayId"@, FieldKind::Whole),
        ("dayOpenPrice"@, FieldKind::Double),
        ("dayHighPrice"@, FieldKind::Double),
        ("dayLowPrice"@, FieldKind::Double),
        ("dayClosePrice"@, FieldKind::Double),
        ("dayClosePriceType"@, FieldKind::Text),
        ("prevDayId"@, FieldKind::Whole),
        ("prevDayClosePrice"@, FieldKind::Double),
        ("prevDayClosePriceType"@, FieldKind::Text),
        ("prevDayVolume"@, FieldKind::Double),
        ("openInterest"@, FieldKind::Double),
    ]
}

/// The columns of a TimeAndSale row that this library reads.
pub open spec fn time_and_sale_columns() -> Seq<(Seq<char>, FieldKind)> {
    seq![
        ("eventType"@, FieldKind::Identity),
        ("eventSymbol"@, FieldKind::Identity),
        ("eventTime"@, FieldKind::Whole),
        ("eventFlags"@, FieldKind::Whole),
        ("index"@, FieldKind::Whole),
        ("time"@, FieldKind::Whole),
        ("timeNanoPart"@, FieldKind::Whole),
        ("sequence"@, FieldKind::Whole),
        ("exchangeCode"@, FieldKind::Text),
        ("price"@, FieldKind::Double),
        ("size"@, FieldKind::Double),
        ("bidPrice"@, FieldKind::Double),
        ("askPrice"@, FieldKind::Double),
        ("exchangeSaleConditions"@, FieldKind::Text),
        ("tradeThroughExempt"@, FieldKind::Text),
        ("aggressorSide"@, FieldKind::Text),
        ("spreadLeg"@, FieldKind::Flag),
        ("extendedTradingHours"@, FieldKind::Flag),
        ("validTick"@, FieldKind::Flag),
        ("type"@, FieldKind::Text),
        ("buyer"@, FieldKind::Text),
        ("seller"@, FieldKind::Text),
    ]
}

/// The columns of a Profile row that this library reads.
pub open spec fn profile_columns() -> Seq<(Seq<char>, FieldKind)> {
    seq![
        ("eventType"@, FieldKind::Identity),
        ("eventSymbol"@, FieldKind::Identity),
        ("eventTime"@, FieldKind::Whole),
        ("description"@, FieldKind::Text),
        ("shortSaleRestriction"@, FieldKind::Text),
        ("tradingStatus"@, FieldKind::Text),
        ("statusReason"@, FieldKind::Text),
        ("haltStartTime"@, FieldKind::Whole),
        ("haltEndTime"@, FieldKind::Whole),
        ("highLimitPrice"@, FieldKind::Double),
        ("lowLimitPrice"@, FieldKind::Double),
        ("high52WeekPrice"@, FieldKind::Double),
        ("low52WeekPrice"@, FieldKind::Double),
        ("beta"@, FieldKind::Double),
        ("earningsPerShare"@, FieldKind::Double),
        ("dividendFrequency"@, FieldKind::Double),
        ("exDividendAmount"@, FieldKind::Double),
        ("exDividendDayId"@, FieldKind::Whole),
        ("shares"@, FieldKind::Double),
        ("freeFloat"@, FieldKind::Double),
    ]
}

/// The columns of a Underlying row that this library reads.
pub open spec fn underlying_columns() -> Seq<(Seq<char>, FieldKind)> {
    seq![
        ("eventType"@, FieldKind::Identity),
        ("eventSymbol"@, FieldKind::Identity),
        ("eventTime"@, FieldKind::Whole),
        ("eventFlags"@, FieldKind::Whole),
        ("index"@, FieldKind::Whole),
        ("time"@, FieldKind::Whole),
        ("sequence"@, FieldKind::Whole),
        ("volatility"@, FieldKind::Double),
        ("frontVolatility"@, FieldKind::Double),
        ("backVolatility"@, FieldKind::Double),
        ("callVolume"@, FieldKind::Double),
        ("putVolume"@, FieldKind::Double),
        ("putCallRatio"@, FieldKind::Double),
    ]
}

/// The columns of a TheoPrice row that this library reads.
pub open spec fn theo_price_columns() -> Seq<(Seq<char>, FieldKind)> {
    seq![
        ("eventType"@, FieldKind::Identity),
        ("eventSymbol"@, FieldKind::Identity),
        ("eventTime"@, FieldKind::Whole),
        ("eventFlags"@, FieldKind::Whole),
        ("index"@, FieldKind::Whole),
        ("time"@, FieldKind::Whole),
        ("sequence"@, FieldKind::Whole),
        ("price"@, FieldKind::Double),
        ("underlyingPrice"@, FieldKind::Double),
        ("delta"@, FieldKind::Double),
        ("gamma"@, FieldKind::Double),
        ("dividend"@, FieldKind::Double),
        ("interest"@, FieldKind::Double),
    ]
}

/// The columns of a Series row that this library reads.
pub open spec fn series_columns() -> Seq<(Seq<char>, FieldKind)> {
    seq![
        ("eventType"@, FieldKind::Identity),
        ("eventSymbol"@, FieldKind::Identity),
        ("eventTime"@, FieldKind::Whole),
        ("eventFlags"@, FieldKind::Whole),
        ("index"@, FieldKind::Whole),
        ("time"@, FieldKind::Whole),
        ("sequence"@, FieldKind::Whole),
        ("expiration"@, FieldKind::Whole),
        ("volatility"@, FieldKind::Double),
        ("callVolume"@, FieldKind::Double),
        ("putVolume"@, FieldKind::Double),
        ("putCallRatio"@, FieldKind::Double),
        ("forwardPrice"@, FieldKind::Double),
        ("dividend"@, FieldKind::Double),
        ("interest"@, FieldKind::Double),
    ]
}

/// The columns of a TradeETH row that this library reads.
pub open spec fn trade_eth_columns() -> Seq<(Seq<char>, FieldKind)> {
    seq![
        ("eventType"@, FieldKind::Identity),
        ("eventSymbol"@, FieldKind::Identity),
        ("eventTime"@, FieldKind::Whole),
        ("time"@, FieldKind::Whole),
        ("timeNanoPart"@, FieldKind::Whole),
        ("sequence"@, FieldKind::Whole),
        ("exchangeCode"@, FieldKind::Text),
        ("price"@, FieldKind::Double),
        ("change"@, FieldKind::Double),
        ("size"@, FieldKind::Double),
        ("dayId"@, FieldKind::Whole),
        ("dayVolume"@, FieldKind::Double),
        ("dayTurnover"@, FieldKind::Double),
        ("tickDirection"@, FieldKind::Text),
        ("extendedTradingHours"@, FieldKind::Flag),
    ]
}

/// The columns that this library reads of a type, in the order in which it
/// asks for them. There are none for a type that it cannot decode.
pub open spec fn columns(event_type: EventType) -> Option<Seq<(Seq<char>, FieldKind)>> {
    match event_type {
        EventType::Quote => Some(quote_columns()),
        EventType::Trade => Some(trade_columns()),
        EventType::Greeks => Some(greeks_columns()),
        EventType::Candle => Some(candle_columns()),
        EventType::Summary => Some(summary_columns()),
        EventType::TimeAndSale => Some(time_and_sale_columns()),
        EventType::Profile => Some(profile_columns()),
        EventType::Underlying => Some(underlying_columns()),
        EventType::TheoPrice => Some(theo_price_columns()),
        EventType::Series => Some(series_columns()),
        EventType::TradeETH => Some(trade_eth_columns()),
        EventType::Order | EventType::SpreadOrder | EventType::Configuration
        | EventType::Message => None,
    }
}

/// Whether this library can decode the events of a type.
pub open spec fn is_decodable(event_type: EventType) -> bool {
    columns(event_type) is Some
}

/// The names of the columns that this library asks for.
pub open spec fn field_names(event_type: EventType) -> Seq<Seq<char>> {
    match columns(event_type) {
        Some(columns) => columns.map_values(|c: (Seq<char>, FieldKind)| c.0),
        None => Seq::empty(),
    }
}

/// The contents of a list of names.
pub open spec fn names_of(names: Seq<&'static str>) -> Seq<Seq<char>> {
    names.map_values(|n: &'static str| n@)
}

impl EventType {
    /// The name of the type on the wire.
    pub fn name(&self) -> (r: &'static str)
        ensures
            r@ == wire_name(*self),
    {
        match self {
            EventType::Quote => "Quote",
            EventType::Trade => "Trade",
            EventType::Summary => "Summary",
            EventType::Profile => "Profile",
            EventType::Order => "Order",
            EventType::TimeAndSale => "TimeAndSale",
            EventType::Candle => "Candle",
            EventType::TradeETH => "TradeETH",
            EventType::SpreadOrder => "SpreadOrder",
            EventType::Greeks => "Greeks",
            EventType::TheoPrice => "TheoPrice",
            EventType::Underlying => "Underlying",
            EventType::Series => "Series",
            EventType::Configuration => "Configuration",
            EventType::Message => "Message",
        }
    }

    /// The name of the type on the wire.
    pub fn to_string(&self) -> (r: String)
        ensures
            r@ == wire_name(*self),
    {
        self.name().to_owned()
    }

    /// The type of a name, or nothing where the protocol declares no such name.
    ///
    /// A decoder cannot use a lenient conversion: to take an unknown type for
    /// another one is to read its row with the wrong layout.
    pub fn from_wire_name(value: &str) -> (r: Option<Self>)
        ensures
            r == named(value@),
    {
        if same_text(value, "Quote") {
            Some(EventType::Quote)
        } else if same_text(value, "Trade") {
            Some(EventType::Trade)
        } else if same_text(value, "Summary") {
            Some(EventType::Summary)
        } else if same_text(value, "Profile") {
            Some(EventType::Profile)
        } else if same_text(value, "Order") {
            Some(EventType::Order)
        } else if same_text(value, "TimeAndSale") {
            Some(EventType::TimeAndSale)
        } else if same_text(value, "Candle") {
            Some(EventType::Candle)
        } else if same_text(value, "TradeETH") {
            Some(EventType::TradeETH)
        } else if same_text(value, "SpreadOrder") {
            Some(EventType::SpreadOrder)
        } else if same_text(value, "Greeks") {
            Some(EventType::Greeks)
        } else if same_text(value, "TheoPrice") {
            Some(EventType::TheoPrice)
        } else if same_text(value, "Underlying") {
            Some(EventType::Underlying)
        } else if same_text(value, "Series") {
            Some(EventType::Series)
        } else if same_text(value, "Configuration") {
            Some(EventType::Configuration)
        } else if same_text(value, "Message") {
            Some(EventType::Message)
        } else {
            None
        }
    }

    /// The type of a name, or the error that names what is not one.
    pub fn parse(s: &str) -> (r: DXLinkResult<Self>)
        ensures
            match r {
                Ok(event_type) => named(s@) == Some(event_type),
                Err(e) => named(s@) is None && e@ == ErrorView::Protocol(unknown_type(s@)),
            },
    {
        match EventType::from_wire_name(s) {
            Some(event_type) => Ok(event_type),
            None => {
                let mut message = "`".to_owned();
                message.append(s);
                message.append(
                    "` is not a DXLink event type; the protocol declares Quote, Trade, Summary, Profile, Order, TimeAndSale, Candle, TradeETH, SpreadOrder, Greeks, TheoPrice, Underlying, Series, Configuration and Message",
                );
                Err(DXLinkError::Protocol(message))
            },
        }
    }

    /// The names of the columns to ask for, in the order in which the decoder
    /// reads them; nothing for a type that cannot be decoded.
    pub fn compact_fields(&self) -> (r: Option<&'static [&'static str]>)
        ensures
            match r {
                Some(names) => is_decodable(*self) && names_of(names@) == field_names(*self),
                None => !is_decodable(*self),
            },
    {
        match self {
            EventType::Quote => {
                let names: &'static [&'static str] = &[
                    "eventType",
                    "eventSymbol",
                    "bidPrice",
                    "askPrice",
                    "bidSize",
                    "askSize",
                ];
                assert(names_of(names@) =~= field_names(*self));
                Some(names)
            },
            EventType::Trade => {
                let names: &'static [&'static str] = &[
                    "eventType",
                    "eventSymbol",
                    "price",
                    "size",
                    "dayVolume",
                ];
                assert(names_of(names@) =~= field_names(*self));
                Some(names)
            },
            EventType::Greeks => {
                let names: &'static [&'static str] = &[
                    "eventType",
                    "eventSymbol",
                    "delta",
                    "gamma",
                    "theta",
                    "vega",
                    "rho",
                    "volatility",
                ];
                assert(names_of(names@) =~= field_names(*self));
                Some(names)
            },
            EventType::Candle => {
                let names: &'static [&'static str] = &[
                    "eventType",
                    "eventSymbol",
                    "eventTime",
                    "eventFlags",
                    "index",
                    "time",
                    "sequence",
                    "count",
                    "open",
                    "high",
                    "low",
                    "close",
                    "volume",
                    "VWAP",
                    "bidVolume",
                    "askVolume",
                    "impVolatility",
                    "openInterest",
                ];
                assert(names_of(names@) =~= field_names(*self));
                Some(names)
            },
            EventType::Summary => {
                let names: &'static [&'static str] = &[
                    "eventType",
                    "eventSymbol",
                    "eventTime",
                    "dayId",
                    "dayOpenPrice",
                    "dayHighPrice",
                    "dayLowPrice",
                    "dayClosePrice",
                    "dayClosePriceType",
                    "prevDayId",
                    "prevDayClosePrice",
                    "prevDayClosePriceType",
                    "prevDayVolume",
                    "openInterest",
                ];
                assert(names_of(names@) =~= field_names(*self));
                Some(names)
            },
            EventType::TimeAndSale => {
                let names: &'static [&'static str] = &[
                    "eventType",
                    "eventSymbol",
                    "eventTime",
                    "eventFlags",
                    "index",
                    "time",
                    "timeNanoPart",
                    "sequence",
                    "exchangeCode",
                    "price",
                    "size",
                    "bidPrice",
                    "askPrice",
                    "exchangeSaleConditions",
                    "tradeThroughExempt",
                    "aggressorSide",
                    "spreadLeg",
                    "extendedTradingHours",
                    "validTick",
                    "type",
                    "buyer",
                    "seller",
                ];
                assert(names_of(names@) =~= field_names(*self));
                Some(names)
            },
            EventType::Profile => {
                let names: &'static [&'static str] = &[
                    "eventType",
                    "eventSymbol",
                    "eventTime",
                    "description",
                    "shortSaleRestriction",
                    "tradingStatus",
                    "statusReason",
                    "haltStartTime",
                    "haltEndTime",
                    "highLimitPrice",
                    "lowLimitPrice",
                    "high52WeekPrice",
                    "low52WeekPrice",
                    "beta",
                    "earningsPerShare",
                    "dividendFrequency",
                    "exDividendAmount",
                    "exDividendDayId",
                    "shares",
                    "freeFloat",
                ];
                assert(names_of(names@) =~= field_names(*self));
                Some(names)
            },
            EventType::Underlying => {
                let names: &'static [&'static str] = &[
                    "eventType",
                    "eventSymbol",
                    "eventTime",
                    "eventFlags",
                    "index",
                    "time",
                    "sequence",
                    "volatility",
                    "frontVolatility",
                    "backVolatility",
                    "callVolume",
                    "putVolume",
                    "putCallRatio",
                ];
                assert(names_of(names@) =~= field_names(*self));
                Some(names)
            },
            EventType::TheoPrice => {
                let names: &'static [&'static str] = &[
                    "eventType",
                    "eventSymbol",
                    "eventTime",
                    "eventFlags",
                    "index",
                    "time",
                    "sequence",
                    "price",
                    "underlyingPrice",
                    "delta",
                    "gamma",
                    "dividend",
                    "interest",
                ];
                assert(names_of(names@) =~= field_names(*self));
                Some(names)
            },
            EventType::Series => {
                let names: &'static [&'static str] = &[
                    "eventType",
                    "eventSymbol",
                    "eventTime",
                    "eventFlags",
                    "index",
                    "time",
                    "sequence",
                    "expiration",
                    "volatility",
                    "callVolume",
                    "putVolume",
                    "putCallRatio",
                    "forwardPrice",
                    "dividend",
                    "interest",
                ];
                assert(names_of(names@) =~= field_names(*self));
                Some(names)
            },
            EventType::TradeETH => {
                let names: &'static [&'static str] = &[
                    "eventType",
                    "eventSymbol",
                    "eventTime",
                    "time",
                    "timeNanoPart",
                    "sequence",
                    "exchangeCode",
                    "price",
                    "change",
                    "size",
                    "dayId",
                    "dayVolume",
                    "dayTurnover",
                    "tickDirection",
                    "extendedTradingHours",
                ];
                assert(names_of(names@) =~= field_names(*self));
                Some(names)
            },
            EventType::Order | EventType::SpreadOrder | EventType::Configuration
            | EventType::Message => None,
        }
    }

    /// How each of the columns is read.
    pub fn field_kinds(&self) -> (r: Option<&'static [FieldKind]>)
        ensures
            match r {
                Some(kinds) => is_decodable(*self) && kinds@ == columns(*self)->0.map_values(
                    |c: (Seq<char>, FieldKind)| c.1,
                ),
                None => !is_decodable(*self),
            },
    {
        match self {
            EventType::Quote => {
                let kinds: &'static [FieldKind] = &[
                    FieldKind::Identity,
                    FieldKind::Identity,
                    FieldKind::Double,
                    FieldKind::Double,
                    FieldKind::Double,
                    FieldKind::Double,
                ];
                assert(kinds@ =~= quote_columns().map_values(|c: (Seq<char>, FieldKind)| c.1));
                Some(kinds)
            },
            EventType::Trade => {
                let kinds: &'static [FieldKind] = &[
                    FieldKind::Identity,
                    FieldKind::Identity,
                    FieldKind::Double,
                    FieldKind::Double,
                    FieldKind::Double,
                ];
                assert(kinds@ =~= trade_columns().map_values(|c: (Seq<char>, FieldKind)| c.1));
                Some(kinds)
            },
            EventType::Greeks => {
                let kinds: &'static [FieldKind] = &[
                    FieldKind::Identity,
                    FieldKind::Identity,
                    FieldKind::Double,
                    FieldKind::Double,
                    FieldKind::Double,
                    FieldKind::Double,
                    FieldKind::Double,
                    FieldKind::Double,
                ];
                assert(kinds@ =~= greeks_columns().map_values(|c: (Seq<char>, FieldKind)| c.1));
                Some(kinds)
            },
            EventType::Candle => {
                let kinds: &'static [FieldKind] = &[
                    FieldKind::Identity,
                    FieldKind::Identity,
                    FieldKind::Whole,
                    FieldKind::Whole,
                    FieldKind::Whole,
                    FieldKind::Whole,
                    FieldKind::Whole,
                    FieldKind::Whole,
                    FieldKind::Double,
                    FieldKind::Double,
                    FieldKind::Double,
                    FieldKind::Double,
                    FieldKind::Double,
                    FieldKind::Double,
                    FieldKind::Double,
                    FieldKind::Double,
                    FieldKind::Double,
                    FieldKind::Double,
                ];
                assert(kinds@ =~= candle_columns().map_values(|c: (Seq<char>, FieldKind)| c.1));
                Some(kinds)
            },
            EventType::Summary => {
                let kinds: &'static [FieldKind] = &[
                    FieldKind::Identity,
                    FieldKind::Identity,
                    FieldKind::Whole,
                    FieldKind::Whole,
                    FieldKind::Double,
                    FieldKind::Double,
                    FieldKind::Double,
                    FieldKind::Double,
                    FieldKind::Text,
                    FieldKind::Whole,
                    FieldKind::Double,
                    FieldKind::Text,
                    FieldKind::Double,
                    FieldKind::Double,
                ];
                assert(kinds@ =~= summary_columns().map_values(|c: (Seq<char>, FieldKind)| c.1));
                Some(kinds)
            },
            EventType::TimeAndSale => {
                let kinds: &'static [FieldKind] = &[
                    FieldKind::Identity,
                    FieldKind::Identity,
                    FieldKind::Whole,
                    FieldKind::Whole,
                    FieldKind::Whole,
                    FieldKind::Whole,
                    FieldKind::Whole,
                    FieldKind::Whole,
                    FieldKind::Text,
                    FieldKind::Double,
                    FieldKind::Double,
                    FieldKind::Double,
                    FieldKind::Double,
                    FieldKind::Text,
                    FieldKind::Text,
                    FieldKind::Text,
                    FieldKind::Flag,
                    FieldKind::Flag,
                    FieldKind::Flag,
                    FieldKind::Text,
                    FieldKind::Text,
                    FieldKind::Text,
                ];
                assert(kinds@ =~= time_and_sale_columns().map_values(|c: (Seq<char>, FieldKind)| c.1));
                Some(kinds)
            },
            EventType::Profile => {
                let kinds: &'static [FieldKind] = &[
                    FieldKind::Identity,
                    FieldKind::Identity,
                    FieldKind::Whole,
                    FieldKind::Text,
                    FieldKind::Text,
                    FieldKind::Text,
                    FieldKind::Text,
                    FieldKind::Whole,
                    FieldKind::Whole,
                    FieldKind::Double,
                    FieldKind::Double,
                    FieldKind::Double,
                    FieldKind::Double,
                    FieldKind::Double,
                    FieldKind::Double,
                    FieldKind::Double,
                    FieldKind::Double,
                    FieldKind::Whole,
                    FieldKind::Double,
                    FieldKind::Double,
                ];
                assert(kinds@ =~= profile_columns().map_values(|c: (Seq<char>, FieldKind)| c.1));
                Some(kinds)
            },
            EventType::Underlying => {
                let kinds: &'static [FieldKind] = &[
                    FieldKind::Identity,
                    FieldKind::Identity,
                    FieldKind::Whole,
                    FieldKind::Whole,
                    FieldKind::Whole,
                    FieldKind::Whole,
                    FieldKind::Whole,
                    FieldKind::Double,
                    FieldKind::Double,
                    FieldKind::Double,
                    FieldKind::Double,
                    FieldKind::Double,
                    FieldKind::Double,
                ];
                assert(kinds@ =~= underlying_columns().map_values(|c: (Seq<char>, FieldKind)| c.1));
                Some(kinds)
            },
            EventType::TheoPrice => {
                let kinds: &'static [FieldKind] = &[
                    FieldKind::Identity,
                    FieldKind::Identity,
                    FieldKind::Whole,
                    FieldKind::Whole,
                    FieldKind::Whole,
                    FieldKind::Whole,
                    FieldKind::Whole,
                    FieldKind::Double,
                    FieldKind::Double,
                    FieldKind::Double,
                    FieldKind::Double,
                    FieldKind::Double,
                    FieldKind::Double,
                ];
                assert(kinds@ =~= theo_price_columns().map_values(|c: (Seq<char>, FieldKind)| c.1));
                Some(kinds)
            },
            EventType::Series => {
                let kinds: &'static [FieldKind] = &[
                    FieldKind::Identity,
                    FieldKind::Identity,
                    FieldKind::Whole,
                    FieldKind::Whole,
                    FieldKind::Whole,
                    FieldKind::Whole,
                    FieldKind::Whole,
                    FieldKind::Whole,
                    FieldKind::Double,
                    FieldKind::Double,
                    FieldKind::Double,
                    FieldKind::Double,
                    FieldKind::Double,
                    FieldKind::Double,
                    FieldKind::Double,
                ];
                assert(kinds@ =~= series_columns().map_values(|c: (Seq<char>, FieldKind)| c.1));
                Some(kinds)
            },
            EventType::TradeETH => {
                let kinds: &'static [FieldKind] = &[
                    FieldKind::Identity,
                    FieldKind::Identity,
                    FieldKind::Whole,
                    FieldKind::Whole,
                    FieldKind::Whole,
                    FieldKind::Whole,
                    FieldKind::Text,
                    FieldKind::Double,
                    FieldKind::Double,
                    FieldKind::Double,
                    FieldKind::Whole,
                    FieldKind::Double,
                    FieldKind::Double,
                    FieldKind::Text,
                    FieldKind::Flag,
                ];
                assert(kinds@ =~= trade_eth_columns().map_values(|c: (Seq<char>, FieldKind)| c.1));
                Some(kinds)
            },
            EventType::Order | EventType::SpreadOrder | EventType::Configuration
            | EventType::Message => None,
        }
    }
}

/// The type of a name, and `Quote` for anything that is not one.
///
/// This loses information and has no place on a protocol path: a typo such as
/// `Qutoe` becomes `Quote`. [`EventType::parse`] and
/// [`EventType::from_wire_name`] say that they do not know the name.
impl<'a> From<&'a str> for EventType {
    fn from(s: &'a str) -> (r: Self) {
        match EventType::from_wire_name(s) {
            Some(event_type) => event_type,
            None => EventType::Quote,
        }
    }
}

impl<'a> vstd::std_specs::convert::FromSpecImpl<&'a str> for EventType {
    open spec fn obeys_from_spec() -> bool {
        true
    }

    open spec fn from_spec(s: &'a str) -> Self {
        match named(s@) {
            Some(event_type) => event_type,
            None => EventType::Quote,
        }
    }
}

impl std::str::FromStr for EventType {
    type Err = DXLinkError;

    fn from_str(s: &str) -> (r: Result<Self, DXLinkError>)
        ensures
            match r {
                Ok(event_type) => named(s@) == Some(event_type),
                Err(e) => named(s@) is None && e@ == ErrorView::Protocol(unknown_type(s@)),
            },
    {
        EventType::parse(s)
    }
}

/// The wire name of a type leads back to the type, and a name that leads to a
/// type is the wire name of that type.
pub proof fn wire_names_round_trip(event_type: EventType, name: Seq<char>)
    ensures
        named(wire_name(event_type)) == Some(event_type),
        named(name) == Some(event_type) <==> name == wire_name(event_type),
{
    wire_names_start();
}

/// No two types have the same name on the wire.
pub proof fn wire_names_are_distinct(a: EventType, b: EventType)
    requires
        wire_name(a) == wire_name(b),
    ensures
        a == b,
{
    wire_names_round_trip(a, wire_name(b));
    wire_names_round_trip(b, wire_name(b));
}

/// The length and the first letter tell the names apart.
proof fn wire_names_start()
    ensures
        "Quote"@.len() == 5 && "Quote"@[0] == 'Q',
        "Trade"@.len() == 5 && "Trade"@[0] == 'T',
        "Summary"@.len() == 7 && "Summary"@[0] == 'S',
        "Profile"@.len() == 7 && "Profile"@[0] == 'P',
        "Order"@.len() == 5 && "Order"@[0] == 'O',
        "TimeAndSale"@.len() == 11 && "TimeAndSale"@[0] == 'T',
        "Candle"@.len() == 6 && "Candle"@[0] == 'C',
        "TradeETH"@.len() == 8 && "TradeETH"@[0] == 'T',
        "SpreadOrder"@.len() == 11 && "SpreadOrder"@[0] == 'S',
        "Greeks"@.len() == 6 && "Greeks"@[0] == 'G',
        "TheoPrice"@.len() == 9 && "TheoPrice"@[0] == 'T',
        "Underlying"@.len() == 10 && "Underlying"@[0] == 'U',
        "Series"@.len() == 6 && "Series"@[0] == 'S',
        "Configuration"@.len() == 13 && "Configuration"@[0] == 'C',
        "Message"@.len() == 7 && "Message"@[0] == 'M',
{
    reveal_strlit("Quote");
    reveal_strlit("Trade");
    reveal_strlit("Summary");
    reveal_strlit("Profile");
    reveal_strlit("Order");
    reveal_strlit("TimeAndSale");
    reveal_strlit("Candle");
    reveal_strlit("TradeETH");
    reveal_strlit("SpreadOrder");
    reveal_strlit("Greeks");
    reveal_strlit("TheoPrice");
    reveal_strlit("Underlying");
    reveal_strlit("Series");
    reveal_strlit("Configuration");
    reveal_strlit("Message");
}

/// The list of all types holds every type.
pub proof fn all_event_types_are_listed(event_type: EventType)
    ensures
        ALL_EVENT_TYPES@.contains(event_type),
{
    match event_type {
        EventType::Quote => assert(ALL_EVENT_TYPES@[0] == event_type),
        EventType::Trade => assert(ALL_EVENT_TYPES@[1] == event_type),
        EventType::Summary => assert(ALL_EVENT_TYPES@[2] == event_type),
        EventType::Profile => assert(ALL_EVENT_TYPES@[3] == event_type),
        EventType::Order => assert(ALL_EVENT_TYPES@[4] == event_type),
        EventType::TimeAndSale => assert(ALL_EVENT_TYPES@[5] == event_type),
        EventType::Candle => assert(ALL_EVENT_TYPES@[6] == event_type),
        EventType::TradeETH => assert(ALL_EVENT_TYPES@[7] == event_type),
        EventType::SpreadOrder => assert(ALL_EVENT_TYPES@[8] == event_type),
        EventType::Greeks => assert(ALL_EVENT_TYPES@[9] == event_type),
        EventType::TheoPrice => assert(ALL_EVENT_TYPES@[10] == event_type),
        EventType::Underlying => assert(ALL_EVENT_TYPES@[11] == event_type),
        EventType::Series => assert(ALL_EVENT_TYPES@[12] == event_type),
        EventType::Configuration => assert(ALL_EVENT_TYPES@[13] == event_type),
        EventType::Message => assert(ALL_EVENT_TYPES@[14] == event_type),
    }
}

/// The two columns that identify a row are asked for first, whatever the type.
pub proof fn every_type_asks_for_its_identity(event_type: EventType)
    requires
        is_decodable(event_type),
    ensures
        field_names(event_type).len() >= 2,
        field_names(event_type)[0] == "eventType"@,
        field_names(event_type)[1] == "eventSymbol"@,
{
}

// ---------------------------------------------------------------------------
// Doubles
// ---------------------------------------------------------------------------
/// A double of the protocol.
///
/// JSON has no literal for a number that is not finite, so the protocol sends
/// those as strings. They are ordinary values: an option without a bid has no
/// price.
#[derive(Debug)]
pub enum JsonDouble {
    /// Not a number.
    NaN,
    /// Positive infinity.
    Infinity,
    /// Negative infinity.
    NegInfinity,
    /// A finite number, as decimal text.
    Number(String),
}

/// What a double is.
#[verifier::ext_equal]
pub enum DoubleTree {
    NaN,
    Infinity,
    NegInfinity,
    Number(Seq<char>),
}

impl View for JsonDouble {
    type V = DoubleTree;

    open spec fn view(&self) -> DoubleTree {
        match *self {
            JsonDouble::NaN => DoubleTree::NaN,
            JsonDouble::Infinity => DoubleTree::Infinity,
            JsonDouble::NegInfinity => DoubleTree::NegInfinity,
            JsonDouble::Number(text) => DoubleTree::Number(text@),
        }
    }
}

/// The double that a JSON value stands for: a number, or one of the strings of
/// the protocol.
pub open spec fn double_of(value: JsonTree) -> Option<DoubleTree> {
    match value {
        JsonTree::Number(n) => Some(DoubleTree::Number(json::double_text(n))),
        JsonTree::Text(text) => if text == "NaN"@ {
            Some(DoubleTree::NaN)
        } else if text == "Infinity"@ {
            Some(DoubleTree::Infinity)
        } else if text == "-Infinity"@ {
            Some(DoubleTree::NegInfinity)
        } else {
            None
        },
        _ => None,
    }
}

/// The JSON value that stands for a double.
pub open spec fn double_value(double: DoubleTree) -> JsonTree {
    match double {
        DoubleTree::NaN => JsonTree::Text("NaN"@),
        DoubleTree::Infinity => JsonTree::Text("Infinity"@),
        DoubleTree::NegInfinity => JsonTree::Text("-Infinity"@),
        DoubleTree::Number(text) => JsonTree::Number(NumberTree::Double(text)),
    }
}

impl JsonDouble {
    /// The double that a JSON value stands for, if it stands for one.
    pub fn from_value(value: &JsonValue) -> (r: Option<JsonDouble>)
        ensures
            match r {
                Some(double) => double_of(value@) == Some(double@),
                None => double_of(value@) is None,
            },
    {
        match value {
            JsonValue::Number(n) => Some(JsonDouble::Number(n.double_text())),
            JsonValue::Text(text) => {
                if same_text(text.as_str(), "NaN") {
                    Some(JsonDouble::NaN)
                } else if same_text(text.as_str(), "Infinity") {
                    Some(JsonDouble::Infinity)
                } else if same_text(text.as_str(), "-Infinity") {
                    Some(JsonDouble::NegInfinity)
                } else {
                    None
                }
            },
            _ => None,
        }
    }

    /// The JSON value that stands for the double.
    pub fn to_value(&self) -> (r: JsonValue)
        ensures
            r@ == double_value(self@),
    {
        match self {
            JsonDouble::NaN => JsonValue::Text("NaN".to_owned()),
            JsonDouble::Infinity => JsonValue::Text("Infinity".to_owned()),
            JsonDouble::NegInfinity => JsonValue::Text("-Infinity".to_owned()),
            JsonDouble::Number(text) => JsonValue::Number(
                JsonNumber::Double(text.as_str().to_owned()),
            ),
        }
    }

    /// An exact copy.
    pub fn copied(&self) -> (r: JsonDouble)
        ensures
            r@ == self@,
    {
        match self {
            JsonDouble::NaN => JsonDouble::NaN,
            JsonDouble::Infinity => JsonDouble::Infinity,
            JsonDouble::NegInfinity => JsonDouble::NegInfinity,
            JsonDouble::Number(text) => JsonDouble::Number(text.as_str().to_owned()),
        }
    }
}

impl Clone for JsonDouble {
    fn clone(&self) -> (r: Self)
        ensures
            r@ == self@,
    {
        self.copied()
    }
}

/// A double written out as JSON is read back as the same double, the ones that
/// are not finite among them.
pub proof fn doubles_round_trip(double: DoubleTree)
    ensures
        double_of(double_value(double)) == Some(double),
{
    reveal_strlit("NaN");
    reveal_strlit("Infinity");
    reveal_strlit("-Infinity");
    assert("NaN"@.len() == 3);
    assert("Infinity"@.len() == 8);
    assert("-Infinity"@.len() == 9);
}

// ---------------------------------------------------------------------------
// Events
// ---------------------------------------------------------------------------
/// What one field of an event holds.
#[verifier::ext_equal]
pub enum FieldTree {
    Text(Seq<char>),
    Whole(int),
    Double(DoubleTree),
    Flag(bool),
}

/// What an event is: its type, and its fields in the order of
/// [`field_names`].
#[verifier::ext_equal]
pub struct EventTree {
    pub event_type: EventType,
    pub fields: Seq<FieldTree>,
}

/// The best bid and ask of an instrument.
#[derive(Debug, Clone)]
pub struct QuoteEvent {
    /// The type of the event, as the row states it.
    pub event_type: String,
    /// The symbol that the event is about.
    pub event_symbol: String,
    /// The column `bidPrice`.
    pub bid_price: JsonDouble,
    /// The column `askPrice`.
    pub ask_price: JsonDouble,
    /// The column `bidSize`.
    pub bid_size: JsonDouble,
    /// The column `askSize`.
    pub ask_size: JsonDouble,
}

impl QuoteEvent {
    /// The fields, in the order of the columns.
    pub open spec fn fields(self) -> Seq<FieldTree> {
        seq![
            FieldTree::Text(self.event_type@),
            FieldTree::Text(self.event_symbol@),
            FieldTree::Double(self.bid_price@),
            FieldTree::Double(self.ask_price@),
            FieldTree::Double(self.bid_size@),
            FieldTree::Double(self.ask_size@),
        ]
    }
}

/// The last trade of an instrument.
#[derive(Debug, Clone)]
pub struct TradeEvent {
    /// The type of the event, as the row states it.
    pub event_type: String,
    /// The symbol that the event is about.
    pub event_symbol: String,
    /// The column `price`.
    pub price: JsonDouble,
    /// The column `size`.
    pub size: JsonDouble,
    /// The column `dayVolume`.
    pub day_volume: JsonDouble,
}

impl TradeEvent {
    /// The fields, in the order of the columns.
    pub open spec fn fields(self) -> Seq<FieldTree> {
        seq![
            FieldTree::Text(self.event_type@),
            FieldTree::Text(self.event_symbol@),
            FieldTree::Double(self.price@),
            FieldTree::Double(self.size@),
            FieldTree::Double(self.day_volume@),
        ]
    }
}

/// The greeks of an option.
#[derive(Debug, Clone)]
pub struct GreeksEvent {
    /// The type of the event, as the row states it.
    pub event_type: String,
    /// The symbol that the event is about.
    pub event_symbol: String,
    /// The column `delta`.
    pub delta: JsonDouble,
    /// The column `gamma`.
    pub gamma: JsonDouble,
    /// The column `theta`.
    pub theta: JsonDouble,
    /// The column `vega`.
    pub vega: JsonDouble,
    /// The column `rho`.
    pub rho: JsonDouble,
    /// The column `volatility`.
    pub volatility: JsonDouble,
}

impl GreeksEvent {
    /// The fields, in the order of the columns.
    pub open spec fn fields(self) -> Seq<FieldTree> {
        seq![
            FieldTree::Text(self.event_type@),
            FieldTree::Text(self.event_symbol@),
            FieldTree::Double(self.delta@),
            FieldTree::Double(self.gamma@),
            FieldTree::Double(self.theta@),
            FieldTree::Double(self.vega@),
            FieldTree::Double(self.rho@),
            FieldTree::Double(self.volatility@),
        ]
    }
}

/// One bar of a period, the shape in which history comes back.
///
/// The symbol carries the period, such as `AAPL{=5m}` for five minute bars.
#[derive(Debug, Clone)]
pub struct CandleEvent {
    /// The type of the event, as the row states it.
    pub event_type: String,
    /// The symbol that the event is about.
    pub event_symbol: String,
    /// The column `eventTime`.
    pub event_time: i64,
    /// The column `eventFlags`.
    pub event_flags: i64,
    /// The column `index`.
    pub index: i64,
    /// The column `time`.
    pub time: i64,
    /// The column `sequence`.
    pub sequence: i64,
    /// The column `count`.
    pub count: i64,
    /// The column `open`.
    pub open: JsonDouble,
    /// The column `high`.
    pub high: JsonDouble,
    /// The column `low`.
    pub low: JsonDouble,
    /// The column `close`.
    pub close: JsonDouble,
    /// The column `volume`.
    pub volume: JsonDouble,
    /// The column `VWAP`.
    pub vwap: JsonDouble,
    /// The column `bidVolume`.
    pub bid_volume: JsonDouble,
    /// The column `askVolume`.
    pub ask_volume: JsonDouble,
    /// The column `impVolatility`.
    pub imp_volatility: JsonDouble,
    /// The column `openInterest`.
    pub open_interest: JsonDouble,
}

impl CandleEvent {
    /// The fields, in the order of the columns.
    pub open spec fn fields(self) -> Seq<FieldTree> {
        seq![
            FieldTree::Text(self.event_type@),
            FieldTree::Text(self.event_symbol@),
            FieldTree::Whole(self.event_time as int),
            FieldTree::Whole(self.event_flags as int),
            FieldTree::Whole(self.index as int),
            FieldTree::Whole(self.time as int),
            FieldTree::Whole(self.sequence as int),
            FieldTree::Whole(self.count as int),
            FieldTree::Double(self.open@),
            FieldTree::Double(self.high@),
            FieldTree::Double(self.low@),
            FieldTree::Double(self.close@),
            FieldTree::Double(self.volume@),
            FieldTree::Double(self.vwap@),
            FieldTree::Double(self.bid_volume@),
            FieldTree::Double(self.ask_volume@),
            FieldTree::Double(self.imp_volatility@),
            FieldTree::Double(self.open_interest@),
        ]
    }
}

/// The state of a trading day.
#[derive(Debug, Clone)]
pub struct SummaryEvent {
    /// The type of the event, as the row states it.
    pub event_type: String,
    /// The symbol that the event is about.
    pub event_symbol: String,
    /// The column `eventTime`.
    pub event_time: i64,
    /// The column `dayId`.
    pub day_id: i64,
    /// The column `dayOpenPrice`.
    pub day_open_price: JsonDouble,
    /// The column `dayHighPrice`.
    pub day_high_price: JsonDouble,
    /// The column `dayLowPrice`.
    pub day_low_price: JsonDouble,
    /// The column `dayClosePrice`.
    pub day_close_price: JsonDouble,
    /// The column `dayClosePriceType`.
    pub day_close_price_type: String,
    /// The column `prevDayId`.
    pub prev_day_id: i64,
    /// The column `prevDayClosePrice`.
    pub prev_day_close_price: JsonDouble,
    /// The column `prevDayClosePriceType`.
    pub prev_day_close_price_type: String,
    /// The column `prevDayVolume`.
    pub prev_day_volume: JsonDouble,
    /// The column `openInterest`.
    pub open_interest: JsonDouble,
}

impl SummaryEvent {
    /// The fields, in the order of the columns.
    pub open spec fn fields(self) -> Seq<FieldTree> {
        seq![
            FieldTree::Text(self.event_type@),
            FieldTree::Text(self.event_symbol@),
            FieldTree::Whole(self.event_time as int),
            FieldTree::Whole(self.day_id as int),
            FieldTree::Double(self.day_open_price@),
            FieldTree::Double(self.day_high_price@),
            FieldTree::Double(self.day_low_price@),
            FieldTree::Double(self.day_close_price@),
            FieldTree::Text(self.day_close_price_type@),
            FieldTree::Whole(self.prev_day_id as int),
            FieldTree::Double(self.prev_day_close_price@),
            FieldTree::Text(self.prev_day_close_price_type@),
            FieldTree::Double(self.prev_day_volume@),
            FieldTree::Double(self.open_interest@),
        ]
    }
}

/// One print of the tape.
#[derive(Debug, Clone)]
pub struct TimeAndSaleEvent {
    /// The type of the event, as the row states it.
    pub event_type: String,
    /// The symbol that the event is about.
    pub event_symbol: String,
    /// The column `eventTime`.
    pub event_time: i64,
    /// The column `eventFlags`.
    pub event_flags: i64,
    /// The column `index`.
    pub index: i64,
    /// The column `time`.
    pub time: i64,
    /// The column `timeNanoPart`.
    pub time_nano_part: i64,
    /// The column `sequence`.
    pub sequence: i64,
    /// The column `exchangeCode`.
    pub exchange_code: String,
    /// The column `price`.
    pub price: JsonDouble,
    /// The column `size`.
    pub size: JsonDouble,
    /// The column `bidPrice`.
    pub bid_price: JsonDouble,
    /// The column `askPrice`.
    pub ask_price: JsonDouble,
    /// The column `exchangeSaleConditions`.
    pub exchange_sale_conditions: String,
    /// The column `tradeThroughExempt`.
    pub trade_through_exempt: String,
    /// The column `aggressorSide`.
    pub aggressor_side: String,
    /// The column `spreadLeg`.
    pub spread_leg: bool,
    /// The column `extendedTradingHours`.
    pub extended_trading_hours: bool,
    /// The column `validTick`.
    pub valid_tick: bool,
    /// The column `type`.
    pub sale_type: String,
    /// The column `buyer`.
    pub buyer: String,
    /// The column `seller`.
    pub seller: String,
}

impl TimeAndSaleEvent {
    /// The fields, in the order of the columns.
    pub open spec fn fields(self) -> Seq<FieldTree> {
        seq![
            FieldTree::Text(self.event_type@),
            FieldTree::Text(self.event_symbol@),
            FieldTree::Whole(self.event_time as int),
            FieldTree::Whole(self.event_flags as int),
            FieldTree::Whole(self.index as int),
            FieldTree::Whole(self.time as int),
            FieldTree::Whole(self.time_nano_part as int),
            FieldTree::Whole(self.sequence as int),
            FieldTree::Text(self.exchange_code@),
            FieldTree::Double(self.price@),
            FieldTree::Double(self.size@),
            FieldTree::Double(self.bid_price@),
            FieldTree::Double(self.ask_price@),
            FieldTree::Text(self.exchange_sale_conditions@),
            FieldTree::Text(self.trade_through_exempt@),
            FieldTree::Text(self.aggressor_side@),
            FieldTree::Flag(self.spread_leg),
            FieldTree::Flag(self.extended_trading_hours),
            FieldTree::Flag(self.valid_tick),
            FieldTree::Text(self.sale_type@),
            FieldTree::Text(self.buyer@),
            FieldTree::Text(self.seller@),
        ]
    }
}

/// What an instrument is, and whether it trades.
#[derive(Debug, Clone)]
pub struct ProfileEvent {
    /// The type of the event, as the row states it.
    pub event_type: String,
    /// The symbol that the event is about.
    pub event_symbol: String,
    /// The column `eventTime`.
    pub event_time: i64,
    /// The column `description`.
    pub description: String,
    /// The column `shortSaleRestriction`.
    pub short_sale_restriction: String,
    /// The column `tradingStatus`.
    pub trading_status: String,
    /// The column `statusReason`.
    pub status_reason: String,
    /// The column `haltStartTime`.
    pub halt_start_time: i64,
    /// The column `haltEndTime`.
    pub halt_end_time: i64,
    /// The column `highLimitPrice`.
    pub high_limit_price: JsonDouble,
    /// The column `lowLimitPrice`.
    pub low_limit_price: JsonDouble,
    /// The column `high52WeekPrice`.
    pub high_52_week_price: JsonDouble,
    /// The column `low52WeekPrice`.
    pub low_52_week_price: JsonDouble,
    /// The column `beta`.
    pub beta: JsonDouble,
    /// The column `earningsPerShare`.
    pub earnings_per_share: JsonDouble,
    /// The column `dividendFrequency`.
    pub dividend_frequency: JsonDouble,
    /// The column `exDividendAmount`.
    pub ex_dividend_amount: JsonDouble,
    /// The column `exDividendDayId`.
    pub ex_dividend_day_id: i64,
    /// The column `shares`.
    pub shares: JsonDouble,
    /// The column `freeFloat`.
    pub free_float: JsonDouble,
}

impl ProfileEvent {
    /// The fields, in the order of the columns.
    pub open spec fn fields(self) -> Seq<FieldTree> {
        seq![
            FieldTree::Text(self.event_type@),
            FieldTree::Text(self.event_symbol@),
            FieldTree::Whole(self.event_time as int),
            FieldTree::Text(self.description@),
            FieldTree::Text(self.short_sale_restriction@),
            FieldTree::Text(self.trading_status@),
            FieldTree::Text(self.status_reason@),
            FieldTree::Whole(self.halt_start_time as int),
            FieldTree::Whole(self.halt_end_time as int),
            FieldTree::Double(self.high_limit_price@),
            FieldTree::Double(self.low_limit_price@),
            FieldTree::Double(self.high_52_week_price@),
            FieldTree::Double(self.low_52_week_price@),
            FieldTree::Double(self.beta@),
            FieldTree::Double(self.earnings_per_share@),
            FieldTree::Double(self.dividend_frequency@),
            FieldTree::Double(self.ex_dividend_amount@),
            FieldTree::Whole(self.ex_dividend_day_id as int),
            FieldTree::Double(self.shares@),
            FieldTree::Double(self.free_float@),
        ]
    }
}

/// Computed values of an option's underlying.
#[derive(Debug, Clone)]
pub struct UnderlyingEvent {
    /// The type of the event, as the row states it.
    pub event_type: String,
    /// The symbol that the event is about.
    pub event_symbol: String,
    /// The column `eventTime`.
    pub event_time: i64,
    /// The column `eventFlags`.
    pub event_flags: i64,
    /// The column `index`.
    pub index: i64,
    /// The column `time`.
    pub time: i64,
    /// The column `sequence`.
    pub sequence: i64,
    /// The column `volatility`.
    pub volatility: JsonDouble,
    /// The column `frontVolatility`.
    pub front_volatility: JsonDouble,
    /// The column `backVolatility`.
    pub back_volatility: JsonDouble,
    /// The column `callVolume`.
    pub call_volume: JsonDouble,
    /// The column `putVolume`.
    pub put_volume: JsonDouble,
    /// The column `putCallRatio`.
    pub put_call_ratio: JsonDouble,
}

impl UnderlyingEvent {
    /// The fields, in the order of the columns.
    pub open spec fn fields(self) -> Seq<FieldTree> {
        seq![
            FieldTree::Text(self.event_type@),
            FieldTree::Text(self.event_symbol@),
            FieldTree::Whole(self.event_time as int),
            FieldTree::Whole(self.event_flags as int),
            FieldTree::Whole(self.index as int),
            FieldTree::Whole(self.time as int),
            FieldTree::Whole(self.sequence as int),
            FieldTree::Double(self.volatility@),
            FieldTree::Double(self.front_volatility@),
            FieldTree::Double(self.back_volatility@),
            FieldTree::Double(self.call_volume@),
            FieldTree::Double(self.put_volume@),
            FieldTree::Double(self.put_call_ratio@),
        ]
    }
}

/// The theoretical price of an option.
#[derive(Debug, Clone)]
pub struct TheoPriceEvent {
    /// The type of the event, as the row states it.
    pub event_type: String,
    /// The symbol that the event is about.
    pub event_symbol: String,
    /// The column `eventTime`.
    pub event_time: i64,
    /// The column `eventFlags`.
    pub event_flags: i64,
    /// The column `index`.
    pub index: i64,
    /// The column `time`.
    pub time: i64,
    /// The column `sequence`.
    pub sequence: i64,
    /// The column `price`.
    pub price: JsonDouble,
    /// The column `underlyingPrice`.
    pub underlying_price: JsonDouble,
    /// The column `delta`.
    pub delta: JsonDouble,
    /// The column `gamma`.
    pub gamma: JsonDouble,
    /// The column `dividend`.
    pub dividend: JsonDouble,
    /// The column `interest`.
    pub interest: JsonDouble,
}

impl TheoPriceEvent {
    /// The fields, in the order of the columns.
    pub open spec fn fields(self) -> Seq<FieldTree> {
        seq![
            FieldTree::Text(self.event_type@),
            FieldTree::Text(self.event_symbol@),
            FieldTree::Whole(self.event_time as int),
            FieldTree::Whole(self.event_flags as int),
            FieldTree::Whole(self.index as int),
            FieldTree::Whole(self.time as int),
            FieldTree::Whole(self.sequence as int),
            FieldTree::Double(self.price@),
            FieldTree::Double(self.underlying_price@),
            FieldTree::Double(self.delta@),
            FieldTree::Double(self.gamma@),
            FieldTree::Double(self.dividend@),
            FieldTree::Double(self.interest@),
        ]
    }
}

/// Computed values of an option series.
#[derive(Debug, Clone)]
pub struct SeriesEvent {
    /// The type of the event, as the row states it.
    pub event_type: String,
    /// The symbol that the event is about.
    pub event_symbol: String,
    /// The column `eventTime`.
    pub event_time: i64,
    /// The column `eventFlags`.
    pub event_flags: i64,
    /// The column `index`.
    pub index: i64,
    /// The column `time`.
    pub time: i64,
    /// The column `sequence`.
    pub sequence: i64,
    /// The column `expiration`.
    pub expiration: i64,
    /// The column `volatility`.
    pub volatility: JsonDouble,
    /// The column `callVolume`.
    pub call_volume: JsonDouble,
    /// The column `putVolume`.
    pub put_volume: JsonDouble,
    /// The column `putCallRatio`.
    pub put_call_ratio: JsonDouble,
    /// The column `forwardPrice`.
    pub forward_price: JsonDouble,
    /// The column `dividend`.
    pub dividend: JsonDouble,
    /// The column `interest`.
    pub interest: JsonDouble,
}

impl SeriesEvent {
    /// The fields, in the order of the columns.
    pub open spec fn fields(self) -> Seq<FieldTree> {
        seq![
            FieldTree::Text(self.event_type@),
            FieldTree::Text(self.event_symbol@),
            FieldTree::Whole(self.event_time as int),
            FieldTree::Whole(self.event_flags as int),
            FieldTree::Whole(self.index as int),
            FieldTree::Whole(self.time as int),
            FieldTree::Whole(self.sequence as int),
            FieldTree::Whole(self.expiration as int),
            FieldTree::Double(self.volatility@),
            FieldTree::Double(self.call_volume@),
            FieldTree::Double(self.put_volume@),
            FieldTree::Double(self.put_call_ratio@),
            FieldTree::Double(self.forward_price@),
            FieldTree::Double(self.dividend@),
            FieldTree::Double(self.interest@),
        ]
    }
}

/// A trade in extended hours.
#[derive(Debug, Clone)]
pub struct TradeETHEvent {
    /// The type of the event, as the row states it.
    pub event_type: String,
    /// The symbol that the event is about.
    pub event_symbol: String,
    /// The column `eventTime`.
    pub event_time: i64,
    /// The column `time`.
    pub time: i64,
    /// The column `timeNanoPart`.
    pub time_nano_part: i64,
    /// The column `sequence`.
    pub sequence: i64,
    /// The column `exchangeCode`.
    pub exchange_code: String,
    /// The column `price`.
    pub price: JsonDouble,
    /// The column `change`.
    pub change: JsonDouble,
    /// The column `size`.
    pub size: JsonDouble,
    /// The column `dayId`.
    pub day_id: i64,
    /// The column `dayVolume`.
    pub day_volume: JsonDouble,
    /// The column `dayTurnover`.
    pub day_turnover: JsonDouble,
    /// The column `tickDirection`.
    pub tick_direction: String,
    /// The column `extendedTradingHours`.
    pub extended_trading_hours: bool,
}

impl TradeETHEvent {
    /// The fields, in the order of the columns.
    pub open spec fn fields(self) -> Seq<FieldTree> {
        seq![
            FieldTree::Text(self.event_type@),
            FieldTree::Text(self.event_symbol@),
            FieldTree::Whole(self.event_time as int),
            FieldTree::Whole(self.time as int),
            FieldTree::Whole(self.time_nano_part as int),
            FieldTree::Whole(self.sequence as int),
            FieldTree::Text(self.exchange_code@),
            FieldTree::Double(self.price@),
            FieldTree::Double(self.change@),
            FieldTree::Double(self.size@),
            FieldTree::Whole(self.day_id as int),
            FieldTree::Double(self.day_volume@),
            FieldTree::Double(self.day_turnover@),
            FieldTree::Text(self.tick_direction@),
            FieldTree::Flag(self.extended_trading_hours),
        ]
    }
}

/// An event of the market.
#[derive(Debug, Clone)]
pub enum MarketEvent {
    /// The best bid and ask of an instrument.
    Quote(QuoteEvent),
    /// The last trade of an instrument.
    Trade(TradeEvent),
    /// The greeks of an option.
    Greeks(GreeksEvent),
    /// One bar of a period, the shape in which history comes back.
    Candle(CandleEvent),
    /// The state of a trading day.
    Summary(SummaryEvent),
    /// One print of the tape.
    TimeAndSale(TimeAndSaleEvent),
    /// What an instrument is, and whether it trades.
    Profile(ProfileEvent),
    /// Computed values of an option's underlying.
    Underlying(UnderlyingEvent),
    /// The theoretical price of an option.
    TheoPrice(TheoPriceEvent),
    /// Computed values of an option series.
    Series(SeriesEvent),
    /// A trade in extended hours.
    TradeETH(TradeETHEvent),
}

impl View for MarketEvent {
    type V = EventTree;

    open spec fn view(&self) -> EventTree {
        match *self {
            MarketEvent::Quote(e) => EventTree { event_type: EventType::Quote, fields: e.fields() },
            MarketEvent::Trade(e) => EventTree { event_type: EventType::Trade, fields: e.fields() },
            MarketEvent::Greeks(e) => EventTree { event_type: EventType::Greeks, fields: e.fields() },
            MarketEvent::Candle(e) => EventTree { event_type: EventType::Candle, fields: e.fields() },
            MarketEvent::Summary(e) => EventTree { event_type: EventType::Summary, fields: e.fields() },
            MarketEvent::TimeAndSale(e) => EventTree { event_type: EventType::TimeAndSale, fields: e.fields() },
            MarketEvent::Profile(e) => EventTree { event_type: EventType::Profile, fields: e.fields() },
            MarketEvent::Underlying(e) => EventTree { event_type: EventType::Underlying, fields: e.fields() },
            MarketEvent::TheoPrice(e) => EventTree { event_type: EventType::TheoPrice, fields: e.fields() },
            MarketEvent::Series(e) => EventTree { event_type: EventType::Series, fields: e.fields() },
            MarketEvent::TradeETH(e) => EventTree { event_type: EventType::TradeETH, fields: e.fields() },
        }
    }
}

/// The symbol that an event is about.
pub fn symbol_of(event: &MarketEvent) -> (r: &str)
    ensures
        event@.fields[1] == FieldTree::Text(r@),
{
    match event {
        MarketEvent::Quote(e) => e.event_symbol.as_str(),
        MarketEvent::Trade(e) => e.event_symbol.as_str(),
        MarketEvent::Greeks(e) => e.event_symbol.as_str(),
        MarketEvent::Candle(e) => e.event_symbol.as_str(),
        MarketEvent::Summary(e) => e.event_symbol.as_str(),
        MarketEvent::TimeAndSale(e) => e.event_symbol.as_str(),
        MarketEvent::Profile(e) => e.event_symbol.as_str(),
        MarketEvent::Underlying(e) => e.event_symbol.as_str(),
        MarketEvent::TheoPrice(e) => e.event_symbol.as_str(),
        MarketEvent::Series(e) => e.event_symbol.as_str(),
        MarketEvent::TradeETH(e) => e.event_symbol.as_str(),
    }
}

// ---------------------------------------------------------------------------
// Compact data
// ---------------------------------------------------------------------------
/// One element of the data of a feed: the type of the rows that follow, or the
/// values of those rows, one after the other.
#[derive(Debug)]
pub enum CompactData {
    /// The type of the rows that follow.
    EventType(String),
    /// The values of the rows.
    Values(Vec<JsonValue>),
}

/// What one element of the data of a feed holds.
#[verifier::ext_equal]
pub enum CompactTree {
    EventType(Seq<char>),
    Values(Seq<JsonTree>),
}

impl View for CompactData {
    type V = CompactTree;

    open spec fn view(&self) -> CompactTree {
        match *self {
            CompactData::EventType(name) => CompactTree::EventType(name@),
            CompactData::Values(values) => CompactTree::Values(json::trees(values@)),
        }
    }
}

impl Clone for CompactData {
    fn clone(&self) -> (r: Self)
        ensures
            r@ == self@,
    {
        match self {
            CompactData::EventType(name) => CompactData::EventType(name.as_str().to_owned()),
            CompactData::Values(values) => CompactData::Values(copy_items(values)),
        }
    }
}

} // verus!
