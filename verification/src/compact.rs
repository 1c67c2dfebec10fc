//! The decoder of COMPACT data.
//!
//! A batch is a type and the values of its rows, one row after the other. A
//! row is read by the names of its columns, never by position: a server may
//! serve fewer columns than it was asked for, or serve them in another order.

use crate::error::{DXLinkError, DXLinkResult, ErrorView};
use crate::events;
use crate::events::{
    CandleEvent, CompactData, CompactTree, DoubleTree, EventTree, EventType, FieldKind, FieldTree,
    GreeksEvent, JsonDouble, MarketEvent, ProfileEvent, QuoteEvent, SeriesEvent, SummaryEvent,
    TheoPriceEvent, TimeAndSaleEvent, TradeETHEvent, TradeEvent, UnderlyingEvent,
};
use crate::json;
use crate::json::{JsonTree, JsonValue};
use crate::layout::FieldLists;
use crate::text;
use crate::text::{copy_texts, decimal_text, same_text};
use vstd::prelude::*;

verus! {

// ---------------------------------------------------------------------------
// What a row says
// ---------------------------------------------------------------------------
/// The first column of a name, from a position on.
pub open spec fn column_from(names: Seq<Seq<char>>, name: Seq<char>, from: int) -> Option<int>
    decreases names.len() - from,
{
    if from >= names.len() {
        None
    } else if names[from] == name {
        Some(from)
    } else {
        column_from(names, name, from + 1)
    }
}

/// One row of a batch.
pub struct RowTree {
    /// The type that the batch claims to be of.
    pub header: Seq<char>,
    /// The position of the row in its batch.
    pub row: int,
    /// The names of the columns.
    pub names: Seq<Seq<char>>,
    /// The values of the row, one for each column.
    pub cells: Seq<JsonTree>,
}

/// The value of a column, if the row has it. Where a name occurs twice, the
/// first column counts.
pub open spec fn cell(row: RowTree, name: Seq<char>) -> Option<JsonTree> {
    match column_from(row.names, name, 0) {
        Some(i) => Some(row.cells[i]),
        None => None,
    }
}

/// The error of a column that holds something else than it should.
pub open spec fn wrong_kind(row: RowTree, name: Seq<char>, kind: Seq<char>, value: JsonTree) -> Seq<
    char,
> {
    row.header + " row "@ + text::decimal(row.row) + ": field `"@ + name + "` should be "@ + kind
        + ", got "@ + json::rendered(value)
}

/// The error of a row that cannot be identified.
pub open spec fn no_identity(row: RowTree, name: Seq<char>) -> Seq<char> {
    row.header + " row "@ + text::decimal(row.row) + ": the negotiated layout has no `"@ + name
        + "` column, so the row cannot be identified"@
}

/// What a column that must identify the row holds.
pub open spec fn identity_field(row: RowTree, name: Seq<char>) -> Result<Seq<char>, Seq<char>> {
    match cell(row, name) {
        None => Err(no_identity(row, name)),
        Some(JsonTree::Text(text)) => Ok(text),
        Some(value) => Err(wrong_kind(row, name, "a string"@, value)),
    }
}

/// What a text column holds; nothing where the server does not serve it.
pub open spec fn text_field(row: RowTree, name: Seq<char>) -> Result<Seq<char>, Seq<char>> {
    match cell(row, name) {
        None => Ok(Seq::empty()),
        Some(JsonTree::Text(text)) => Ok(text),
        Some(value) => Err(wrong_kind(row, name, "a string"@, value)),
    }
}

/// What a column of whole numbers holds; zero where the server does not serve
/// it, which is what it sends for a time that it did not populate.
pub open spec fn whole_field(row: RowTree, name: Seq<char>) -> Result<int, Seq<char>> {
    match cell(row, name) {
        None => Ok(0),
        Some(value) => match json::integer_of(value, i64::MIN as int, i64::MAX as int) {
            Some(n) => Ok(n),
            None => Err(wrong_kind(row, name, "a whole number"@, value)),
        },
    }
}

/// What a column of doubles holds; not a number where the server does not
/// serve it.
pub open spec fn double_field(row: RowTree, name: Seq<char>) -> Result<DoubleTree, Seq<char>> {
    match cell(row, name) {
        None => Ok(DoubleTree::NaN),
        Some(value) => match events::double_of(value) {
            Some(double) => Ok(double),
            None => Err(wrong_kind(row, name, "a number"@, value)),
        },
    }
}

/// What a column of booleans holds; false where the server does not serve it.
pub open spec fn flag_field(row: RowTree, name: Seq<char>) -> Result<bool, Seq<char>> {
    match cell(row, name) {
        None => Ok(false),
        Some(value) => match json::bool_of(value) {
            Some(flag) => Ok(flag),
            None => Err(wrong_kind(row, name, "a boolean"@, value)),
        },
    }
}

/// What a column holds, read as its kind asks.
pub open spec fn read_field(row: RowTree, name: Seq<char>, kind: FieldKind) -> Result<
    FieldTree,
    Seq<char>,
> {
    match kind {
        FieldKind::Identity => match identity_field(row, name) {
            Ok(text) => Ok(FieldTree::Text(text)),
            Err(e) => Err(e),
        },
        FieldKind::Text => match text_field(row, name) {
            Ok(text) => Ok(FieldTree::Text(text)),
            Err(e) => Err(e),
        },
        FieldKind::Whole => match whole_field(row, name) {
            Ok(n) => Ok(FieldTree::Whole(n)),
            Err(e) => Err(e),
        },
        FieldKind::Double => match double_field(row, name) {
            Ok(double) => Ok(FieldTree::Double(double)),
            Err(e) => Err(e),
        },
        FieldKind::Flag => match flag_field(row, name) {
            Ok(flag) => Ok(FieldTree::Flag(flag)),
            Err(e) => Err(e),
        },
    }
}

/// What the columns of a type hold in a row, or the first thing that cannot be
/// read.
pub open spec fn read_fields(row: RowTree, columns: Seq<(Seq<char>, FieldKind)>) -> Result<
    Seq<FieldTree>,
    Seq<char>,
>
    decreases columns.len(),
{
    if columns.len() == 0 {
        Ok(Seq::empty())
    } else {
        match read_fields(row, columns.drop_last()) {
            Err(e) => Err(e),
            Ok(fields) => match read_field(row, columns.last().0, columns.last().1) {
                Err(e) => Err(e),
                Ok(field) => Ok(fields.push(field)),
            },
        }
    }
}

/// The event that a row is, or the first thing that cannot be read.
pub open spec fn built_event(event_type: EventType, row: RowTree) -> Result<EventTree, Seq<char>> {
    match events::columns(event_type) {
        Some(columns) => match read_fields(row, columns) {
            Ok(fields) => Ok(EventTree { event_type, fields }),
            Err(e) => Err(e),
        },
        None => match read_fields(
            row,
            seq![
                ("eventType"@, FieldKind::Identity),
                ("eventSymbol"@, FieldKind::Identity),
            ],
        ) {
            Ok(_) => Err(
                "event type `"@ + events::wire_name(event_type)
                    + "` has a field layout but no decoder arm"@,
            ),
            Err(e) => Err(e),
        },
    }
}

/// The event of a row of a batch. A row must be of the type that its batch
/// claims.
pub open spec fn row_event(event_type: EventType, row: RowTree) -> Result<EventTree, Seq<char>> {
    match identity_field(row, "eventType"@) {
        Err(e) => Err(e),
        Ok(inner) => if inner != row.header {
            Err(
                row.header + " row "@ + text::decimal(row.row) + ": the row says it is a `"@ + inner
                    + "`, so it is not laid out the way this batch claims"@,
            )
        } else {
            built_event(event_type, row)
        },
    }
}

// ---------------------------------------------------------------------------
// What a batch says
// ---------------------------------------------------------------------------
/// The events of the rows that are left of a batch, up to the first row that
/// cannot be read.
pub open spec fn rows_events(
    event_type: EventType,
    header: Seq<char>,
    names: Seq<Seq<char>>,
    row: int,
    rest: Seq<JsonTree>,
) -> (Seq<EventTree>, Option<Seq<char>>)
    decreases rest.len(),
{
    if names.len() == 0 || rest.len() < names.len() {
        (Seq::empty(), None)
    } else {
        match row_event(
            event_type,
            RowTree { header, row, names, cells: rest.take(names.len() as int) },
        ) {
            Err(e) => (Seq::empty(), Some(e)),
            Ok(event) => {
                let (events, error) = rows_events(
                    event_type,
                    header,
                    names,
                    row + 1,
                    rest.skip(names.len() as int),
                );
                (seq![event] + events, error)
            },
        }
    }
}

/// The layouts that a batch is read against: what a channel agreed to, or
/// nothing where no channel is in play.
pub type Layouts = Option<Map<Seq<char>, Seq<Seq<char>>>>;

/// The error of a type that cannot be decoded.
pub open spec fn no_decoder(header: Seq<char>) -> Seq<char> {
    "event type `"@ + header + "` has no decoder in this client, so its rows cannot be read"@
}

/// The names of the columns to read a batch against, or why there are none.
///
/// What was agreed wins. A type that is missing from it is refused rather than
/// read against what this library asks for.
pub open spec fn batch_names(event_type: EventType, header: Seq<char>, layouts: Layouts) -> Result<
    Seq<Seq<char>>,
    Seq<char>,
> {
    match layouts {
        Some(agreed) => if !agreed.contains_key(header) {
            Err(
                "event type `"@ + header
                    + "` is not in the layout this channel negotiated, so there is nothing to read its rows against"@,
            )
        } else if !events::is_decodable(event_type) {
            Err(no_decoder(header))
        } else {
            Ok(agreed[header])
        },
        None => if !events::is_decodable(event_type) {
            Err(no_decoder(header))
        } else {
            Ok(events::field_names(event_type))
        },
    }
}

/// The events of a batch, and what stopped it.
pub open spec fn batch_events(header: Seq<char>, values: Seq<JsonTree>, layouts: Layouts) -> (
    Seq<EventTree>,
    Option<Seq<char>>,
) {
    match events::named(header) {
        None => (
            Seq::empty(),
            Some("unknown event type `"@ + header + "` in COMPACT data"@),
        ),
        Some(event_type) => match batch_names(event_type, header, layouts) {
            Err(e) => (Seq::empty(), Some(e)),
            Ok(names) => if names.len() == 0 {
                (
                    Seq::empty(),
                    Some(header + ": the negotiated layout has no columns at all"@),
                )
            } else if values.len() % names.len() != 0 {
                (
                    Seq::empty(),
                    Some(
                        header + ": "@ + text::decimal(values.len() as int)
                            + " value(s) is not a whole number of rows of "@ + text::decimal(
                            names.len() as int,
                        ) + " field(s); a truncated row would shift every field that follows"@,
                    ),
                )
            } else {
                rows_events(event_type, header, names, 0, values)
            },
        },
    }
}

/// The events of the data from a position on, and the first thing that stopped
/// the decoder.
pub open spec fn decoded(data: Seq<CompactTree>, layouts: Layouts, from: int) -> (
    Seq<EventTree>,
    Option<Seq<char>>,
)
    decreases data.len() - from,
{
    if from >= data.len() {
        (Seq::empty(), None)
    } else {
        match data[from] {
            CompactTree::Values(_) => (
                Seq::empty(),
                Some(
                    "expected an event type at position "@ + text::decimal(from)
                        + ", got a value array"@,
                ),
            ),
            CompactTree::EventType(header) => if from + 1 >= data.len() || !(data[from
                + 1] is Values) {
                (
                    Seq::empty(),
                    Some(
                        "event type `"@ + header + "` at position "@ + text::decimal(from)
                            + " has no values after it"@,
                    ),
                )
            } else {
                let (first, stopped) = batch_events(header, data[from + 1]->Values_0, layouts);
                if stopped is Some {
                    (first, stopped)
                } else {
                    let (rest, error) = decoded(data, layouts, from + 2);
                    (first + rest, error)
                }
            },
        }
    }
}

/// The trees of the elements of some data.
pub open spec fn data_trees(data: Seq<CompactData>) -> Seq<CompactTree> {
    data.map_values(|d: CompactData| d@)
}

/// The trees of some events.
pub open spec fn event_trees(events: Seq<MarketEvent>) -> Seq<EventTree> {
    events.map_values(|e: MarketEvent| e@)
}

// ---------------------------------------------------------------------------
// Reading a row
// ---------------------------------------------------------------------------
/// One row of a batch, addressed by the names of its columns.
pub struct Row<'a> {
    /// The values of the whole batch.
    pub values: &'a Vec<JsonValue>,
    /// Where the row starts.
    pub offset: usize,
    /// The names of the columns.
    pub names: &'a Vec<String>,
    /// The type that the batch claims to be of.
    pub header: &'a str,
    /// The position of the row in its batch.
    pub row: usize,
}

impl<'a> Row<'a> {
    /// Whether the values of the row are all there.
    pub open spec fn is_whole(self) -> bool {
        self.offset + self.names@.len() <= self.values@.len()
    }

    /// What the row holds.
    pub open spec fn tree(self) -> RowTree {
        RowTree {
            header: self.header@,
            row: self.row as int,
            names: text::texts(self.names@),
            cells: json::trees(self.values@).subrange(
                self.offset as int,
                self.offset + self.names@.len(),
            ),
        }
    }

    /// The value of a column, if the row has it.
    pub fn value(&self, field: &str) -> (r: Option<&'a JsonValue>)
        requires
            self.is_whole(),
        ensures
            match r {
                Some(value) => cell(self.tree(), field@) == Some(value@),
                None => cell(self.tree(), field@) is None,
            },
    {
        let total: usize = self.values.len();
        let mut i: usize = 0;
        while i < self.names.len()
            invariant
                self.is_whole(),
                total == self.values@.len(),
                i <= self.names.len(),
                column_from(self.tree().names, field@, 0) == column_from(
                    self.tree().names,
                    field@,
                    i as int,
                ),
            decreases self.names.len() - i,
        {
            assert(self.tree().names[i as int] == self.names@[i as int]@);
            if same_text(self.names[i].as_str(), field) {
                assert(self.tree().cells[i as int] == json::trees(self.values@)[self.offset + i]);
                return Some(&self.values[self.offset + i]);
            }
            i += 1;
        }
        None
    }

    fn wrong_kind(&self, field: &str, kind: &str, value: &JsonValue) -> (r: DXLinkError)
        ensures
            r@ == ErrorView::Protocol(wrong_kind(self.tree(), field@, kind@, value@)),
    {
        let mut message = self.header.to_owned();
        message.append(" row ");
        message.append(decimal_text(self.row as u64).as_str());
        message.append(": field `");
        message.append(field);
        message.append("` should be ");
        message.append(kind);
        message.append(", got ");
        message.append(value.render().as_str());
        DXLinkError::Protocol(message)
    }

    /// A column that must be text where it is served.
    pub fn text(&self, field: &str) -> (r: DXLinkResult<String>)
        requires
            self.is_whole(),
        ensures
            match r {
                Ok(text) => text_field(self.tree(), field@) == Ok::<Seq<char>, Seq<char>>(text@),
                Err(e) => e@ is Protocol && text_field(self.tree(), field@) == Err::<
                    Seq<char>,
                    Seq<char>,
                >(e@->Protocol_0),
            },
    {
        match self.value(field) {
            None => Ok(String::new()),
            Some(value) => match value.as_str() {
                Some(text) => Ok(text.to_owned()),
                None => Err(self.wrong_kind(field, "a string", value)),
            },
        }
    }

    /// A column that has to be there for the event to mean anything.
    pub fn required_text(&self, field: &str) -> (r: DXLinkResult<String>)
        requires
            self.is_whole(),
        ensures
            match r {
                Ok(text) => identity_field(self.tree(), field@) == Ok::<Seq<char>, Seq<char>>(
                    text@,
                ),
                Err(e) => e@ is Protocol && identity_field(self.tree(), field@) == Err::<
                    Seq<char>,
                    Seq<char>,
                >(e@->Protocol_0),
            },
    {
        match self.value(field) {
            None => {
                let mut message = self.header.to_owned();
                message.append(" row ");
                message.append(decimal_text(self.row as u64).as_str());
                message.append(": the negotiated layout has no `");
                message.append(field);
                message.append("` column, so the row cannot be identified");
                Err(DXLinkError::Protocol(message))
            },
            Some(value) => match value.as_str() {
                Some(text) => Ok(text.to_owned()),
                None => Err(self.wrong_kind(field, "a string", value)),
            },
        }
    }

    /// A column that must be a whole number where it is served.
    pub fn whole(&self, field: &str) -> (r: DXLinkResult<i64>)
        requires
            self.is_whole(),
        ensures
            match r {
                Ok(n) => whole_field(self.tree(), field@) == Ok::<int, Seq<char>>(n as int),
                Err(e) => e@ is Protocol && whole_field(self.tree(), field@) == Err::<
                    int,
                    Seq<char>,
                >(e@->Protocol_0),
            },
    {
        match self.value(field) {
            None => Ok(0),
            Some(value) => match value.as_i64() {
                Some(n) => Ok(n),
                None => Err(self.wrong_kind(field, "a whole number", value)),
            },
        }
    }

    /// A column that must be a double where it is served.
    pub fn double(&self, field: &str) -> (r: DXLinkResult<JsonDouble>)
        requires
            self.is_whole(),
        ensures
            match r {
                Ok(double) => double_field(self.tree(), field@) == Ok::<DoubleTree, Seq<char>>(
                    double@,
                ),
                Err(e) => e@ is Protocol && double_field(self.tree(), field@) == Err::<
                    DoubleTree,
                    Seq<char>,
                >(e@->Protocol_0),
            },
            cell(self.tree(), field@) matches Some(JsonTree::Number(n)) ==> r is Ok
                && r->Ok_0@ == DoubleTree::Number(json::double_text(n)),
            r is Ok && r->Ok_0@ is NaN ==> cell(self.tree(), field@) is None || cell(
                self.tree(),
                field@,
            ) == Some(JsonTree::Text("NaN"@)),
    {
        match self.value(field) {
            None => Ok(JsonDouble::NaN),
            Some(value) => match JsonDouble::from_value(value) {
                Some(double) => Ok(double),
                None => Err(self.wrong_kind(field, "a number", value)),
            },
        }
    }

    /// A column that must be a boolean where it is served.
    ///
    /// To take `0` or `"false"` for false would turn an error of the layout
    /// into a plausible flag.
    pub fn flag(&self, field: &str) -> (r: DXLinkResult<bool>)
        requires
            self.is_whole(),
        ensures
            match r {
                Ok(flag) => flag_field(self.tree(), field@) == Ok::<bool, Seq<char>>(flag),
                Err(e) => e@ is Protocol && flag_field(self.tree(), field@) == Err::<
                    bool,
                    Seq<char>,
                >(e@->Protocol_0),
            },
    {
        match self.value(field) {
            None => Ok(false),
            Some(value) => match value.as_bool() {
                Some(flag) => Ok(flag),
                None => Err(self.wrong_kind(field, "a boolean", value)),
            },
        }
    }

    fn field(&self, name: &str, kind: FieldKind) -> (r: DXLinkResult<FieldValue>)
        requires
            self.is_whole(),
        ensures
            match r {
                Ok(value) => read_field(self.tree(), name@, kind) == Ok::<FieldTree, Seq<char>>(
                    value@,
                ),
                Err(e) => e@ is Protocol && read_field(self.tree(), name@, kind) == Err::<
                    FieldTree,
                    Seq<char>,
                >(e@->Protocol_0),
            },
    {
        match kind {
            FieldKind::Identity => match self.required_text(name) {
                Ok(text) => Ok(FieldValue::Text(text)),
                Err(e) => Err(e),
            },
            FieldKind::Text => match self.text(name) {
                Ok(text) => Ok(FieldValue::Text(text)),
                Err(e) => Err(e),
            },
            FieldKind::Whole => match self.whole(name) {
                Ok(n) => Ok(FieldValue::Whole(n)),
                Err(e) => Err(e),
            },
            FieldKind::Double => match self.double(name) {
                Ok(double) => Ok(FieldValue::Double(double)),
                Err(e) => Err(e),
            },
            FieldKind::Flag => match self.flag(name) {
                Ok(flag) => Ok(FieldValue::Flag(flag)),
                Err(e) => Err(e),
            },
        }
    }

    fn fields(&self, event_type: EventType) -> (r: DXLinkResult<Vec<FieldValue>>)
        requires
            self.is_whole(),
            events::is_decodable(event_type),
        ensures
            match r {
                Ok(values) => read_fields(self.tree(), events::columns(event_type)->0) == Ok::<
                    Seq<FieldTree>,
                    Seq<char>,
                >(field_values(values@)),
                Err(e) => e@ is Protocol && read_fields(
                    self.tree(),
                    events::columns(event_type)->0,
                ) == Err::<Seq<FieldTree>, Seq<char>>(e@->Protocol_0),
            },
    {
        let names = event_type.compact_fields().unwrap();
        let kinds = event_type.field_kinds().unwrap();
        let ghost columns = events::columns(event_type)->0;
        let ghost row = self.tree();
        let mut out: Vec<FieldValue> = Vec::new();
        let mut i: usize = 0;
        assert(columns.take(0) =~= Seq::<(Seq<char>, FieldKind)>::empty());
        assert(events::names_of(names@).len() == columns.len());
        assert(field_values(out@) =~= Seq::<FieldTree>::empty());
        while i < names.len()
            invariant
                self.is_whole(),
                row == self.tree(),
                i <= names.len(),
                events::names_of(names@) == events::field_names(event_type),
                events::columns(event_type) == Some(columns),
                kinds@ == columns.map_values(|c: (Seq<char>, FieldKind)| c.1),
                names@.len() == columns.len(),
                read_fields(row, columns.take(i as int)) == Ok::<Seq<FieldTree>, Seq<char>>(
                    field_values(out@),
                ),
            decreases names.len() - i,
        {
            let ghost before = out@;
            proof {
                assert(columns.take(i + 1).drop_last() =~= columns.take(i as int));
                assert(columns.take(i + 1).last() == columns[i as int]);
                assert(events::names_of(names@)[i as int] == names@[i as int]@);
                assert(events::field_names(event_type)[i as int] == columns[i as int].0);
                assert(kinds@[i as int] == columns[i as int].1);
            }
            match self.field(names[i], kinds[i]) {
                Ok(value) => {
                    out.push(value);
                    assert(field_values(out@) =~= field_values(before).push(value@));
                },
                Err(e) => {
                    proof {
                        first_error_stands(row, columns, i + 1);
                    }
                    return Err(e);
                },
            }
            i += 1;
        }
        assert(columns.take(columns.len() as int) =~= columns);
        Ok(out)
    }
}

/// An error in the first columns is the error of the row.
proof fn first_error_stands(row: RowTree, columns: Seq<(Seq<char>, FieldKind)>, upto: int)
    requires
        0 <= upto <= columns.len(),
        read_fields(row, columns.take(upto)) is Err,
    ensures
        read_fields(row, columns) == read_fields(row, columns.take(upto)),
    decreases columns.len(),
{
    if upto < columns.len() {
        assert(columns.drop_last().take(upto) =~= columns.take(upto));
        first_error_stands(row, columns.drop_last(), upto);
    } else {
        assert(columns.take(upto) =~= columns);
    }
}

/// What one column of a row holds.
#[derive(Debug)]
pub enum FieldValue {
    /// Text.
    Text(String),
    /// A whole number.
    Whole(i64),
    /// A double.
    Double(JsonDouble),
    /// A boolean.
    Flag(bool),
}

impl View for FieldValue {
    type V = FieldTree;

    open spec fn view(&self) -> FieldTree {
        match *self {
            FieldValue::Text(text) => FieldTree::Text(text@),
            FieldValue::Whole(n) => FieldTree::Whole(n as int),
            FieldValue::Double(double) => FieldTree::Double(double@),
            FieldValue::Flag(flag) => FieldTree::Flag(flag),
        }
    }
}

/// The trees of some column values.
pub open spec fn field_values(values: Seq<FieldValue>) -> Seq<FieldTree> {
    values.map_values(|v: FieldValue| v@)
}

/// Whether a value is of the kind that its column asks for.
pub open spec fn is_of_kind(field: FieldTree, kind: FieldKind) -> bool {
    match kind {
        FieldKind::Identity | FieldKind::Text => field is Text,
        FieldKind::Whole => field is Whole,
        FieldKind::Double => field is Double,
        FieldKind::Flag => field is Flag,
    }
}

/// Whether the values are those of a row of a type.
pub open spec fn are_fields_of(values: Seq<FieldValue>, event_type: EventType) -> bool {
    &&& events::is_decodable(event_type)
    &&& values.len() == events::columns(event_type)->0.len()
    &&& forall|i: int|
        0 <= i < values.len() ==> is_of_kind(
            (#[trigger] values[i])@,
            events::columns(event_type)->0[i].1,
        )
}

proof fn read_fields_are_of_their_kind(row: RowTree, columns: Seq<(Seq<char>, FieldKind)>)
    ensures
        read_fields(row, columns) matches Ok(fields) ==> fields.len() == columns.len() && forall|
            i: int,
        |
            0 <= i < fields.len() ==> is_of_kind(#[trigger] fields[i], columns[i].1),
    decreases columns.len(),
{
    if columns.len() > 0 {
        read_fields_are_of_their_kind(row, columns.drop_last());
    }
}

fn text_at(values: &Vec<FieldValue>, i: usize) -> (r: String)
    requires
        i < values@.len(),
        values@[i as int]@ is Text,
    ensures
        FieldTree::Text(r@) == values@[i as int]@,
{
    match &values[i] {
        FieldValue::Text(text) => text.as_str().to_owned(),
        _ => String::new(),
    }
}

fn whole_at(values: &Vec<FieldValue>, i: usize) -> (r: i64)
    requires
        i < values@.len(),
        values@[i as int]@ is Whole,
    ensures
        FieldTree::Whole(r as int) == values@[i as int]@,
{
    match &values[i] {
        FieldValue::Whole(n) => *n,
        _ => 0,
    }
}

fn double_at(values: &Vec<FieldValue>, i: usize) -> (r: JsonDouble)
    requires
        i < values@.len(),
        values@[i as int]@ is Double,
    ensures
        FieldTree::Double(r@) == values@[i as int]@,
{
    match &values[i] {
        FieldValue::Double(double) => double.copied(),
        _ => JsonDouble::NaN,
    }
}

fn flag_at(values: &Vec<FieldValue>, i: usize) -> (r: bool)
    requires
        i < values@.len(),
        values@[i as int]@ is Flag,
    ensures
        FieldTree::Flag(r) == values@[i as int]@,
{
    match &values[i] {
        FieldValue::Flag(flag) => *flag,
        _ => false,
    }
}

fn quote_from(v: &Vec<FieldValue>) -> (r: MarketEvent)
    requires
        are_fields_of(v@, EventType::Quote),
    ensures
        r@ == (EventTree { event_type: EventType::Quote, fields: field_values(v@) }),
{
    let ghost kinds = events::quote_columns();
    assert(v@.len() == 6);
    let event = QuoteEvent {
        event_type: text_at(v, 0),
        event_symbol: text_at(v, 1),
        bid_price: double_at(v, 2),
        ask_price: double_at(v, 3),
        bid_size: double_at(v, 4),
        ask_size: double_at(v, 5),
    };
    assert(event.fields() =~= field_values(v@));
    MarketEvent::Quote(event)
}

fn trade_from(v: &Vec<FieldValue>) -> (r: MarketEvent)
    requires
        are_fields_of(v@, EventType::Trade),
    ensures
        r@ == (EventTree { event_type: EventType::Trade, fields: field_values(v@) }),
{
    let ghost kinds = events::trade_columns();
    assert(v@.len() == 5);
    let event = TradeEvent {
        event_type: text_at(v, 0),
        event_symbol: text_at(v, 1),
        price: double_at(v, 2),
        size: double_at(v, 3),
        day_volume: double_at(v, 4),
    };
    assert(event.fields() =~= field_values(v@));
    MarketEvent::Trade(event)
}

fn greeks_from(v: &Vec<FieldValue>) -> (r: MarketEvent)
    requires
        are_fields_of(v@, EventType::Greeks),
    ensures
        r@ == (EventTree { event_type: EventType::Greeks, fields: field_values(v@) }),
{
    let ghost kinds = events::greeks_columns();
    assert(v@.len() == 8);
    let event = GreeksEvent {
        event_type: text_at(v, 0),
        event_symbol: text_at(v, 1),
        delta: double_at(v, 2),
        gamma: double_at(v, 3),
        theta: double_at(v, 4),
        vega: double_at(v, 5),
        rho: double_at(v, 6),
        volatility: double_at(v, 7),
    };
    assert(event.fields() =~= field_values(v@));
    MarketEvent::Greeks(event)
}

fn candle_from(v: &Vec<FieldValue>) -> (r: MarketEvent)
    requires
        are_fields_of(v@, EventType::Candle),
    ensures
        r@ == (EventTree { event_type: EventType::Candle, fields: field_values(v@) }),
{
    let ghost kinds = events::candle_columns();
    assert(v@.len() == 18);
    let event = CandleEvent {
        event_type: text_at(v, 0),
        event_symbol: text_at(v, 1),
        event_time: whole_at(v, 2),
        event_flags: whole_at(v, 3),
        index: whole_at(v, 4),
        time: whole_at(v, 5),
        sequence: whole_at(v, 6),
        count: whole_at(v, 7),
        open: double_at(v, 8),
        high: double_at(v, 9),
        low: double_at(v, 10),
        close: double_at(v, 11),
        volume: double_at(v, 12),
        vwap: double_at(v, 13),
        bid_volume: double_at(v, 14),
        ask_volume: double_at(v, 15),
        imp_volatility: double_at(v, 16),
        open_interest: double_at(v, 17),
    };
    assert(event.fields() =~= field_values(v@));
    MarketEvent::Candle(event)
}

fn summary_from(v: &Vec<FieldValue>) -> (r: MarketEvent)
    requires
        are_fields_of(v@, EventType::Summary),
    ensures
        r@ == (EventTree { event_type: EventType::Summary, fields: field_values(v@) }),
{
    let ghost kinds = events::summary_columns();
    assert(v@.len() == 14);
    let event = SummaryEvent {
        event_type: text_at(v, 0),
        event_symbol: text_at(v, 1),
        event_time: whole_at(v, 2),
        day_id: whole_at(v, 3),
        day_open_price: double_at(v, 4),
        day_high_price: double_at(v, 5),
        day_low_price: double_at(v, 6),
        day_close_price: double_at(v, 7),
        day_close_price_type: text_at(v, 8),
        prev_day_id: whole_at(v, 9),
        prev_day_close_price: double_at(v, 10),
        prev_day_close_price_type: text_at(v, 11),
        prev_day_volume: double_at(v, 12),
        open_interest: double_at(v, 13),
    };
    assert(event.fields() =~= field_values(v@));
    MarketEvent::Summary(event)
}

fn time_and_sale_from(v: &Vec<FieldValue>) -> (r: MarketEvent)
    requires
        are_fields_of(v@, EventType::TimeAndSale),
    ensures
        r@ == (EventTree { event_type: EventType::TimeAndSale, fields: field_values(v@) }),
{
    let ghost kinds = events::time_and_sale_columns();
    assert(v@.len() == 22);
    let event = TimeAndSaleEvent {
        event_type: text_at(v, 0),
        event_symbol: text_at(v, 1),
        event_time: whole_at(v, 2),
        event_flags: whole_at(v, 3),
        index: whole_at(v, 4),
        time: whole_at(v, 5),
        time_nano_part: whole_at(v, 6),
        sequence: whole_at(v, 7),
        exchange_code: text_at(v, 8),
        price: double_at(v, 9),
        size: double_at(v, 10),
        bid_price: double_at(v, 11),
        ask_price: double_at(v, 12),
        exchange_sale_conditions: text_at(v, 13),
        trade_through_exempt: text_at(v, 14),
        aggressor_side: text_at(v, 15),
        spread_leg: flag_at(v, 16),
        extended_trading_hours: flag_at(v, 17),
        valid_tick: flag_at(v, 18),
        sale_type: text_at(v, 19),
        buyer: text_at(v, 20),
        seller: text_at(v, 21),
    };
    assert(event.fields() =~= field_values(v@));
    MarketEvent::TimeAndSale(event)
}

fn profile_from(v: &Vec<FieldValue>) -> (r: MarketEvent)
    requires
        are_fields_of(v@, EventType::Profile),
    ensures
        r@ == (EventTree { event_type: EventType::Profile, fields: field_values(v@) }),
{
    let ghost kinds = events::profile_columns();
    assert(v@.len() == 20);
    let event = ProfileEvent {
        event_type: text_at(v, 0),
        event_symbol: text_at(v, 1),
        event_time: whole_at(v, 2),
        description: text_at(v, 3),
        short_sale_restriction: text_at(v, 4),
        trading_status: text_at(v, 5),
        status_reason: text_at(v, 6),
        halt_start_time: whole_at(v, 7),
        halt_end_time: whole_at(v, 8),
        high_limit_price: double_at(v, 9),
        low_limit_price: double_at(v, 10),
        high_52_week_price: double_at(v, 11),
        low_52_week_price: double_at(v, 12),
        beta: double_at(v, 13),
        earnings_per_share: double_at(v, 14),
        dividend_frequency: double_at(v, 15),
        ex_dividend_amount: double_at(v, 16),
        ex_dividend_day_id: whole_at(v, 17),
        shares: double_at(v, 18),
        free_float: double_at(v, 19),
    };
    assert(event.fields() =~= field_values(v@));
    MarketEvent::Profile(event)
}

fn underlying_from(v: &Vec<FieldValue>) -> (r: MarketEvent)
    requires
        are_fields_of(v@, EventType::Underlying),
    ensures
        r@ == (EventTree { event_type: EventType::Underlying, fields: field_values(v@) }),
{
    let ghost kinds = events::underlying_columns();
    assert(v@.len() == 13);
    let event = UnderlyingEvent {
        event_type: text_at(v, 0),
        event_symbol: text_at(v, 1),
        event_time: whole_at(v, 2),
        event_flags: whole_at(v, 3),
        index: whole_at(v, 4),
        time: whole_at(v, 5),
        sequence: whole_at(v, 6),
        volatility: double_at(v, 7),
        front_volatility: double_at(v, 8),
        back_volatility: double_at(v, 9),
        call_volume: double_at(v, 10),
        put_volume: double_at(v, 11),
        put_call_ratio: double_at(v, 12),
    };
    assert(event.fields() =~= field_values(v@));
    MarketEvent::Underlying(event)
}

fn theo_price_from(v: &Vec<FieldValue>) -> (r: MarketEvent)
    requires
        are_fields_of(v@, EventType::TheoPrice),
    ensures
        r@ == (EventTree { event_type: EventType::TheoPrice, fields: field_values(v@) }),
{
    let ghost kinds = events::theo_price_columns();
    assert(v@.len() == 13);
    let event = TheoPriceEvent {
        event_type: text_at(v, 0),
        event_symbol: text_at(v, 1),
        event_time: whole_at(v, 2),
        event_flags: whole_at(v, 3),
        index: whole_at(v, 4),
        time: whole_at(v, 5),
        sequence: whole_at(v, 6),
        price: double_at(v, 7),
        underlying_price: double_at(v, 8),
        delta: double_at(v, 9),
        gamma: double_at(v, 10),
        dividend: double_at(v, 11),
        interest: double_at(v, 12),
    };
    assert(event.fields() =~= field_values(v@));
    MarketEvent::TheoPrice(event)
}

fn series_from(v: &Vec<FieldValue>) -> (r: MarketEvent)
    requires
        are_fields_of(v@, EventType::Series),
    ensures
        r@ == (EventTree { event_type: EventType::Series, fields: field_values(v@) }),
{
    let ghost kinds = events::series_columns();
    assert(v@.len() == 15);
    let event = SeriesEvent {
        event_type: text_at(v, 0),
        event_symbol: text_at(v, 1),
        event_time: whole_at(v, 2),
        event_flags: whole_at(v, 3),
        index: whole_at(v, 4),
        time: whole_at(v, 5),
        sequence: whole_at(v, 6),
        expiration: whole_at(v, 7),
        volatility: double_at(v, 8),
        call_volume: double_at(v, 9),
        put_volume: double_at(v, 10),
        put_call_ratio: double_at(v, 11),
        forward_price: double_at(v, 12),
        dividend: double_at(v, 13),
        interest: double_at(v, 14),
    };
    assert(event.fields() =~= field_values(v@));
    MarketEvent::Series(event)
}

fn trade_eth_from(v: &Vec<FieldValue>) -> (r: MarketEvent)
    requires
        are_fields_of(v@, EventType::TradeETH),
    ensures
        r@ == (EventTree { event_type: EventType::TradeETH, fields: field_values(v@) }),
{
    let ghost kinds = events::trade_eth_columns();
    assert(v@.len() == 15);
    let event = TradeETHEvent {
        event_type: text_at(v, 0),
        event_symbol: text_at(v, 1),
        event_time: whole_at(v, 2),
        time: whole_at(v, 3),
        time_nano_part: whole_at(v, 4),
        sequence: whole_at(v, 5),
        exchange_code: text_at(v, 6),
        price: double_at(v, 7),
        change: double_at(v, 8),
        size: double_at(v, 9),
        day_id: whole_at(v, 10),
        day_volume: double_at(v, 11),
        day_turnover: double_at(v, 12),
        tick_direction: text_at(v, 13),
        extended_trading_hours: flag_at(v, 14),
    };
    assert(event.fields() =~= field_values(v@));
    MarketEvent::TradeETH(event)
}

/// The event of a type that has some fields.
pub fn assemble(event_type: EventType, values: &Vec<FieldValue>) -> (r: MarketEvent)
    requires
        are_fields_of(values@, event_type),
    ensures
        r@ == (EventTree { event_type, fields: field_values(values@) }),
{
    match event_type {
        EventType::Quote => quote_from(values),
        EventType::Trade => trade_from(values),
        EventType::Greeks => greeks_from(values),
        EventType::Candle => candle_from(values),
        EventType::Summary => summary_from(values),
        EventType::TimeAndSale => time_and_sale_from(values),
        EventType::Profile => profile_from(values),
        EventType::Underlying => underlying_from(values),
        EventType::TheoPrice => theo_price_from(values),
        EventType::Series => series_from(values),
        _ => trade_eth_from(values),
    }
}

/// Builds the event of a row, every column read by its name.
pub fn build_event(event_type: EventType, row: &Row<'_>) -> (r: DXLinkResult<MarketEvent>)
    requires
        row.is_whole(),
    ensures
        match r {
            Ok(event) => built_event(event_type, row.tree()) == Ok::<EventTree, Seq<char>>(event@),
            Err(e) => e@ is Protocol && built_event(event_type, row.tree()) == Err::<
                EventTree,
                Seq<char>,
            >(e@->Protocol_0),
        },
{
    if event_type.compact_fields().is_none() {
        return Err(undecodable_row(event_type, row));
    }
    let values = match row.fields(event_type) {
        Ok(values) => values,
        Err(e) => return Err(e),
    };
    proof {
        let columns = events::columns(event_type)->0;
        read_fields_are_of_their_kind(row.tree(), columns);
        assert forall|i: int| 0 <= i < values@.len() implies is_of_kind(
            (#[trigger] values@[i])@,
            columns[i].1,
        ) by {
            assert(field_values(values@)[i] == values@[i]@);
        }
    }
    Ok(assemble(event_type, &values))
}

fn undecodable_row(event_type: EventType, row: &Row<'_>) -> (e: DXLinkError)
    requires
        row.is_whole(),
        !events::is_decodable(event_type),
    ensures
        e@ is Protocol,
        built_event(event_type, row.tree()) == Err::<EventTree, Seq<char>>(e@->Protocol_0),
{
    proof {
        let one = seq![("eventType"@, FieldKind::Identity)];
        let two = seq![
            ("eventType"@, FieldKind::Identity),
            ("eventSymbol"@, FieldKind::Identity),
        ];
        assert(one.drop_last() =~= Seq::<(Seq<char>, FieldKind)>::empty());
        assert(two.drop_last() =~= one);
        assert(read_fields(row.tree(), one.drop_last()) == Ok::<Seq<FieldTree>, Seq<char>>(
            Seq::empty(),
        ));
        assert(read_fields(row.tree(), one) is Ok <==> identity_field(
            row.tree(),
            "eventType"@,
        ) is Ok);
    }
    match row.required_text("eventType") {
        Err(e) => e,
        Ok(_) => match row.required_text("eventSymbol") {
            Err(e) => e,
            Ok(_) => {
                let mut message = "event type `".to_owned();
                message.append(event_type.name());
                message.append("` has a field layout but no decoder arm");
                DXLinkError::Protocol(message)
            },
        },
    }
}

// ---------------------------------------------------------------------------
// Decoding
// ---------------------------------------------------------------------------
/// Whether an outcome is the one that the text tells.
pub open spec fn stopped_by(error: Option<DXLinkError>, text: Option<Seq<char>>) -> bool {
    match error {
        Some(e) => text is Some && e@ == ErrorView::Protocol(text->0),
        None => text is None,
    }
}

fn decode_rows(
    event_type: EventType,
    header: &str,
    names: &Vec<String>,
    values: &Vec<JsonValue>,
) -> (r: (Vec<MarketEvent>, Option<DXLinkError>))
    requires
        names@.len() > 0,
    ensures
        event_trees(r.0@) == rows_events(
            event_type,
            header@,
            text::texts(names@),
            0,
            json::trees(values@),
        ).0,
        stopped_by(
            r.1,
            rows_events(event_type, header@, text::texts(names@), 0, json::trees(values@)).1,
        ),
{
    let ghost listed = text::texts(names@);
    let ghost cells = json::trees(values@);
    let ghost whole = rows_events(event_type, header@, listed, 0, cells);
    let mut events: Vec<MarketEvent> = Vec::new();
    let mut row: usize = 0;
    let mut offset: usize = 0;
    let stride: usize = names.len();
    let total: usize = values.len();
    assert(cells.skip(0) =~= cells);
    assert(event_trees(events@) + whole.0 =~= whole.0);
    while total - offset >= stride
        invariant
            stride == names@.len(),
            stride > 0,
            total == values@.len(),
            offset <= total,
            row <= offset,
            listed == text::texts(names@),
            cells == json::trees(values@),
            whole.0 == event_trees(events@) + rows_events(
                event_type,
                header@,
                listed,
                row as int,
                cells.skip(offset as int),
            ).0,
            whole.1 == rows_events(
                event_type,
                header@,
                listed,
                row as int,
                cells.skip(offset as int),
            ).1,
            whole == rows_events(event_type, header@, listed, 0, cells),
        decreases total - offset,
    {
        let current = Row { values, offset, names, header, row };
        let ghost rest = cells.skip(offset as int);
        let ghost next = cells.skip(offset + stride);
        let ghost later = rows_events(event_type, header@, listed, row + 1, next);
        let ghost before = events@;
        proof {
            assert(current.tree().cells =~= rest.take(stride as int));
            assert(rest.skip(stride as int) =~= next);
        }
        let inner = match current.required_text("eventType") {
            Ok(inner) => inner,
            Err(e) => {
                assert(event_trees(events@) + Seq::<EventTree>::empty() =~= event_trees(events@));
                return (events, Some(e));
            },
        };
        if !same_text(inner.as_str(), header) {
            let mut message = header.to_owned();
            message.append(" row ");
            message.append(decimal_text(row as u64).as_str());
            message.append(": the row says it is a `");
            message.append(inner.as_str());
            message.append("`, so it is not laid out the way this batch claims");
            assert(event_trees(events@) + Seq::<EventTree>::empty() =~= event_trees(events@));
            return (events, Some(DXLinkError::Protocol(message)));
        }
        match build_event(event_type, &current) {
            Ok(event) => {
                events.push(event);
                proof {
                    assert(event_trees(events@) =~= event_trees(before).push(event@));
                    assert(event_trees(before) + (seq![event@] + later.0) =~= event_trees(events@)
                        + later.0);
                }
            },
            Err(e) => {
                assert(event_trees(events@) + Seq::<EventTree>::empty() =~= event_trees(events@));
                return (events, Some(e));
            },
        }
        row += 1;
        offset += stride;
    }
    assert(event_trees(events@) + Seq::<EventTree>::empty() =~= event_trees(events@));
    (events, None)
}

/// The layouts behind a reference to field lists.
pub open spec fn layouts_of(layout: Option<&FieldLists>) -> Layouts {
    match layout {
        Some(lists) => Some(lists@),
        None => None,
    }
}

fn protocol_error(before: &str, name: &str, after: &str) -> (r: DXLinkError)
    ensures
        r@ == ErrorView::Protocol(before@ + name@ + after@),
{
    let mut message = before.to_owned();
    message.append(name);
    message.append(after);
    DXLinkError::Protocol(message)
}

/// The names of the columns to ask for, where the type can be decoded.
pub fn asked_names(event_type: EventType) -> (r: Option<Vec<String>>)
    ensures
        match r {
            Some(names) => events::is_decodable(event_type) && text::texts(names@)
                == events::field_names(event_type),
            None => !events::is_decodable(event_type),
        },
{
    match event_type.compact_fields() {
        None => None,
        Some(fields) => {
            let mut names: Vec<String> = Vec::new();
            let mut i: usize = 0;
            while i < fields.len()
                invariant
                    i <= fields.len(),
                    names@.len() == i,
                    forall|j: int| 0 <= j < i ==> (#[trigger] names@[j])@ == fields@[j]@,
                decreases fields.len() - i,
            {
                names.push(fields[i].to_owned());
                i += 1;
            }
            assert(text::texts(names@) =~= events::names_of(fields@));
            Some(names)
        },
    }
}

fn decode_batch(header: &str, values: &Vec<JsonValue>, layout: Option<&FieldLists>) -> (r: (
    Vec<MarketEvent>,
    Option<DXLinkError>,
))
    ensures
        event_trees(r.0@) == batch_events(header@, json::trees(values@), layouts_of(layout)).0,
        stopped_by(r.1, batch_events(header@, json::trees(values@), layouts_of(layout)).1),
{
    let none: Vec<MarketEvent> = Vec::new();
    assert(event_trees(none@) =~= Seq::<EventTree>::empty());
    let event_type = match EventType::from_wire_name(header) {
        Some(event_type) => event_type,
        None => return (
            none,
            Some(protocol_error("unknown event type `", header, "` in COMPACT data")),
        ),
    };
    let names = match layout {
        Some(lists) => match lists.get(header) {
            Some(fields) => {
                if event_type.compact_fields().is_none() {
                    return (none, Some(no_decoder_error(header)));
                }
                copy_texts(fields)
            },
            None => return (
                none,
                Some(
                    protocol_error(
                        "event type `",
                        header,
                        "` is not in the layout this channel negotiated, so there is nothing to read its rows against",
                    ),
                ),
            ),
        },
        None => match asked_names(event_type) {
            Some(names) => names,
            None => return (none, Some(no_decoder_error(header))),
        },
    };
    if names.len() == 0 {
        let mut message = header.to_owned();
        message.append(": the negotiated layout has no columns at all");
        return (none, Some(DXLinkError::Protocol(message)));
    }
    if values.len() % names.len() != 0 {
        let mut message = header.to_owned();
        message.append(": ");
        message.append(decimal_text(values.len() as u64).as_str());
        message.append(" value(s) is not a whole number of rows of ");
        message.append(decimal_text(names.len() as u64).as_str());
        message.append(" field(s); a truncated row would shift every field that follows");
        return (none, Some(DXLinkError::Protocol(message)));
    }
    decode_rows(event_type, header, &names, values)
}

fn no_decoder_error(header: &str) -> (r: DXLinkError)
    ensures
        r@ == ErrorView::Protocol(no_decoder(header@)),
{
    protocol_error(
        "event type `",
        header,
        "` has no decoder in this client, so its rows cannot be read",
    )
}

/// Decodes what it can, and says what stopped it.
///
/// The layout is what a channel agreed to, which is not always what it was
/// asked for. Without one, rows are read against what this library asks for.
pub fn decode(data: &[CompactData], layout: Option<&FieldLists>) -> (r: (
    Vec<MarketEvent>,
    Option<DXLinkError>,
))
    ensures
        event_trees(r.0@) == decoded(data_trees(data@), layouts_of(layout), 0).0,
        stopped_by(r.1, decoded(data_trees(data@), layouts_of(layout), 0).1),
{
    let ghost all = data_trees(data@);
    let ghost layouts = layouts_of(layout);
    let ghost whole = decoded(all, layouts, 0);
    let mut events: Vec<MarketEvent> = Vec::new();
    let mut index: usize = 0;
    assert(event_trees(events@) + whole.0 =~= whole.0);
    while index < data.len()
        invariant
            index <= data@.len(),
            all == data_trees(data@),
            layouts == layouts_of(layout),
            whole == decoded(all, layouts, 0),
            whole.0 == event_trees(events@) + decoded(all, layouts, index as int).0,
            whole.1 == decoded(all, layouts, index as int).1,
        decreases data.len() - index,
    {
        let ghost before = events@;
        assert(all[index as int] == data@[index as int]@);
        let header = match &data[index] {
            CompactData::EventType(header) => header.as_str(),
            CompactData::Values(_) => {
                let mut message = "expected an event type at position ".to_owned();
                message.append(decimal_text(index as u64).as_str());
                message.append(", got a value array");
                assert(event_trees(events@) + Seq::<EventTree>::empty() =~= event_trees(events@));
                return (events, Some(DXLinkError::Protocol(message)));
            },
        };
        let values = if index + 1 < data.len() {
            assert(all[index + 1] == data@[index + 1]@);
            match &data[index + 1] {
                CompactData::Values(values) => Some(values),
                CompactData::EventType(_) => None,
            }
        } else {
            None
        };
        let values = match values {
            Some(values) => values,
            None => {
                let mut message = "event type `".to_owned();
                message.append(header);
                message.append("` at position ");
                message.append(decimal_text(index as u64).as_str());
                message.append(" has no values after it");
                assert(event_trees(events@) + Seq::<EventTree>::empty() =~= event_trees(events@));
                return (events, Some(DXLinkError::Protocol(message)));
            },
        };
        let (batch, stopped) = decode_batch(header, values, layout);
        let ghost first = batch@;
        let mut batch = batch;
        events.append(&mut batch);
        proof {
            assert(event_trees(events@) =~= event_trees(before) + event_trees(first));
        }
        if stopped.is_some() {
            return (events, stopped);
        }
        proof {
            let later = decoded(all, layouts, index + 2);
            assert(event_trees(before) + (event_trees(first) + later.0) =~= event_trees(events@)
                + later.0);
        }
        index += 2;
    }
    assert(event_trees(events@) + Seq::<EventTree>::empty() =~= event_trees(events@));
    (events, None)
}

/// Decodes data, keeping what comes before the first thing that cannot be
/// read.
///
/// A consumer cannot tell corrupt data from a quiet market by this;
/// [`try_parse_compact_data`] says what is wrong.
pub fn parse_compact_data(data: &[CompactData]) -> (r: Vec<MarketEvent>)
    ensures
        event_trees(r@) == decoded(data_trees(data@), None, 0).0,
{
    let (events, _) = decode(data, None);
    events
}

/// Decodes data, or says what the first thing is that cannot be read.
pub fn try_parse_compact_data(data: &[CompactData]) -> (r: DXLinkResult<Vec<MarketEvent>>)
    ensures
        match r {
            Ok(events) => decoded(data_trees(data@), None, 0) == (
                event_trees(events@),
                None::<Seq<char>>,
            ),
            Err(e) => e@ is Protocol && decoded(data_trees(data@), None, 0).1 == Some(
                e@->Protocol_0,
            ),
        },
{
    match decode(data, None) {
        (events, None) => Ok(events),
        (_, Some(error)) => Err(error),
    }
}

/// Decodes data against the layout that a channel agreed to, or says what the
/// first thing is that cannot be read.
pub fn try_parse_negotiated(data: &[CompactData], layout: &FieldLists) -> (r: DXLinkResult<
    Vec<MarketEvent>,
>)
    ensures
        match r {
            Ok(events) => decoded(data_trees(data@), Some(layout@), 0) == (
                event_trees(events@),
                None::<Seq<char>>,
            ),
            Err(e) => e@ is Protocol && decoded(data_trees(data@), Some(layout@), 0).1 == Some(
                e@->Protocol_0,
            ),
        },
{
    match decode(data, Some(layout)) {
        (events, None) => Ok(events),
        (_, Some(error)) => Err(error),
    }
}

// ---------------------------------------------------------------------------
// What holds of every batch
// ---------------------------------------------------------------------------
/// Only what stands under a name counts, not where the column stands: two rows
/// that agree on every column of a type are the same event, or fail in the
/// same way.
pub proof fn rows_are_read_by_name(event_type: EventType, a: RowTree, b: RowTree)
    requires
        events::is_decodable(event_type),
        a.header == b.header,
        a.row == b.row,
        forall|i: int|
            0 <= i < events::field_names(event_type).len() ==> cell(
                a,
                #[trigger] events::field_names(event_type)[i],
            ) == cell(b, events::field_names(event_type)[i]),
    ensures
        row_event(event_type, a) == row_event(event_type, b),
{
    let columns = events::columns(event_type)->0;
    let names = events::field_names(event_type);
    assert(names[0] == "eventType"@);
    assert forall|i: int| 0 <= i < columns.len() implies cell(a, (#[trigger] columns[i]).0) == cell(
        b,
        columns[i].0,
    ) by {
        assert(names[i] == columns[i].0);
    }
    agreeing_rows_read_alike(a, b, columns);
}

proof fn agreeing_rows_read_alike(
    a: RowTree,
    b: RowTree,
    columns: Seq<(Seq<char>, FieldKind)>,
)
    requires
        a.header == b.header,
        a.row == b.row,
        forall|i: int|
            0 <= i < columns.len() ==> cell(a, (#[trigger] columns[i]).0) == cell(b, columns[i].0),
    ensures
        read_fields(a, columns) == read_fields(b, columns),
    decreases columns.len(),
{
    if columns.len() > 0 {
        let init = columns.drop_last();
        assert forall|i: int| 0 <= i < init.len() implies cell(a, (#[trigger] init[i]).0) == cell(
            b,
            init[i].0,
        ) by {
            assert(init[i] == columns[i]);
        }
        agreeing_rows_read_alike(a, b, init);
        assert(columns[columns.len() - 1] == columns.last());
    }
}

/// A column that the server adds behind the others changes nothing, unless it
/// is one that the type reads.
pub proof fn an_added_column_changes_nothing(
    event_type: EventType,
    row: RowTree,
    name: Seq<char>,
    value: JsonTree,
)
    requires
        events::is_decodable(event_type),
        row.names.len() == row.cells.len(),
        !events::field_names(event_type).contains(name),
    ensures
        row_event(
            event_type,
            RowTree { names: row.names.push(name), cells: row.cells.push(value), ..row },
        ) == row_event(event_type, row),
{
    let wider = RowTree { names: row.names.push(name), cells: row.cells.push(value), ..row };
    let names = events::field_names(event_type);
    assert forall|i: int| 0 <= i < names.len() implies cell(wider, #[trigger] names[i]) == cell(
        row,
        names[i],
    ) by {
        assert(names.contains(names[i]));
        added_column_is_passed_over(row.names, name, names[i], 0);
        column_is_in_range(row.names, names[i], 0);
    }
    rows_are_read_by_name(event_type, wider, row);
}

proof fn added_column_is_passed_over(
    names: Seq<Seq<char>>,
    added: Seq<char>,
    wanted: Seq<char>,
    from: int,
)
    requires
        0 <= from <= names.len(),
        added != wanted,
    ensures
        column_from(names.push(added), wanted, from) == column_from(names, wanted, from),
    decreases names.len() - from,
{
    if from < names.len() {
        assert(names.push(added)[from] == names[from]);
        added_column_is_passed_over(names, added, wanted, from + 1);
    } else {
        assert(names.push(added)[from] == added);
        assert(column_from(names.push(added), wanted, from + 1) is None);
    }
}

proof fn column_is_in_range(names: Seq<Seq<char>>, wanted: Seq<char>, from: int)
    requires
        0 <= from,
    ensures
        match column_from(names, wanted, from) {
            Some(i) => from <= i < names.len() && names[i] == wanted,
            None => forall|i: int| from <= i < names.len() ==> names[i] != wanted,
        },
    decreases names.len() - from,
{
    if from < names.len() {
        column_is_in_range(names, wanted, from + 1);
    }
}

/// What a column reads as that the server does not serve.
pub open spec fn not_provided(kind: FieldKind) -> FieldTree {
    match kind {
        FieldKind::Identity | FieldKind::Text => FieldTree::Text(Seq::empty()),
        FieldKind::Whole => FieldTree::Whole(0),
        FieldKind::Double => FieldTree::Double(DoubleTree::NaN),
        FieldKind::Flag => FieldTree::Flag(false),
    }
}

/// A column that the server does not serve reads as not provided, and never as
/// its neighbour; only a row that cannot be identified is refused.
pub proof fn a_missing_column_is_not_provided(row: RowTree, name: Seq<char>, kind: FieldKind)
    requires
        !row.names.contains(name),
    ensures
        kind != FieldKind::Identity ==> read_field(row, name, kind) == Ok::<FieldTree, Seq<char>>(
            not_provided(kind),
        ),
        kind == FieldKind::Identity ==> read_field(row, name, kind) is Err,
{
    column_is_in_range(row.names, name, 0);
}

/// Decoding goes piece by piece: where some data decodes, the data that follows
/// it is decoded from there on, and it is decoded as it would be alone. Only the
/// positions that an error names are counted from the front of the whole.
pub proof fn data_is_decoded_piece_by_piece(
    first: Seq<CompactTree>,
    second: Seq<CompactTree>,
    layouts: Layouts,
)
    requires
        decoded(first, layouts, 0).1 is None,
    ensures
        ({
            let whole = decoded(first + second, layouts, 0);
            let from_there = decoded(first + second, layouts, first.len() as int);
            let alone = decoded(second, layouts, 0);
            &&& whole.0 == decoded(first, layouts, 0).0 + alone.0
            &&& whole.1 == from_there.1
            &&& whole.1 is None <==> alone.1 is None
        }),
{
    a_decoded_piece_is_passed(first, second, layouts, 0);
    later_data_is_decoded_alike(first, second, layouts, 0);
}

proof fn a_decoded_piece_is_passed(
    first: Seq<CompactTree>,
    second: Seq<CompactTree>,
    layouts: Layouts,
    from: int,
)
    requires
        0 <= from <= first.len(),
        decoded(first, layouts, from).1 is None,
    ensures
        ({
            let rest = decoded(first + second, layouts, first.len() as int);
            let whole = decoded(first + second, layouts, from);
            whole.0 == decoded(first, layouts, from).0 + rest.0 && whole.1 == rest.1
        }),
    decreases first.len() - from,
{
    let all = first + second;
    let rest = decoded(all, layouts, first.len() as int);
    if from >= first.len() {
        assert(decoded(first, layouts, from).0 + rest.0 =~= rest.0);
    } else {
        assert(all[from] == first[from]);
        assert(all[from + 1] == first[from + 1]);
        a_decoded_piece_is_passed(first, second, layouts, from + 2);
        let header = first[from]->EventType_0;
        let batch = batch_events(header, first[from + 1]->Values_0, layouts);
        let later = decoded(first, layouts, from + 2);
        assert(batch.0 + (later.0 + rest.0) =~= (batch.0 + later.0) + rest.0);
    }
}

proof fn later_data_is_decoded_alike(
    first: Seq<CompactTree>,
    second: Seq<CompactTree>,
    layouts: Layouts,
    from: int,
)
    requires
        0 <= from,
    ensures
        ({
            let shifted = decoded(first + second, layouts, first.len() + from);
            let alone = decoded(second, layouts, from);
            shifted.0 == alone.0 && (shifted.1 is None <==> alone.1 is None)
        }),
    decreases second.len() - from,
{
    let all = first + second;
    if from < second.len() {
        assert(all[first.len() + from] == second[from]);
        if from + 1 < second.len() {
            assert(all[first.len() + from + 1] == second[from + 1]);
            later_data_is_decoded_alike(first, second, layouts, from + 2);
        }
    }
}

/// A batch that is decoded without an error is decoded whole: there is one
/// event for each row, and no value is left over.
pub proof fn a_batch_is_decoded_whole(
    event_type: EventType,
    header: Seq<char>,
    names: Seq<Seq<char>>,
    row: int,
    rest: Seq<JsonTree>,
)
    requires
        names.len() > 0,
        rows_events(event_type, header, names, row, rest).1 is None,
        rest.len() % names.len() == 0,
    ensures
        rows_events(event_type, header, names, row, rest).0.len() * names.len() == rest.len(),
    decreases rest.len(),
{
    let stride = names.len() as int;
    if rest.len() < names.len() {
        assert(rest.len() == 0) by (nonlinear_arith)
            requires
                rest.len() % names.len() == 0,
                rest.len() < names.len(),
        ;
        let all = rows_events(event_type, header, names, row, rest).0;
        assert(all.len() * names.len() == 0) by (nonlinear_arith)
            requires
                all.len() == 0,
        ;
    } else {
        let next = rest.skip(stride);
        assert(next.len() % names.len() == 0) by (nonlinear_arith)
            requires
                next.len() == rest.len() - names.len(),
                rest.len() % names.len() == 0,
                rest.len() >= names.len(),
                names.len() > 0,
        ;
        a_batch_is_decoded_whole(event_type, header, names, row + 1, next);
        let more = rows_events(event_type, header, names, row + 1, next).0;
        let all = rows_events(event_type, header, names, row, rest).0;
        assert(all.len() == more.len() + 1);
        assert(all.len() * names.len() == more.len() * names.len() + names.len())
            by (nonlinear_arith)
            requires
                all.len() == more.len() + 1,
        ;
    }
}

/// Every event that comes out of a batch is of the type that the batch claims,
/// and says so itself.
pub proof fn events_are_of_their_batch(
    event_type: EventType,
    header: Seq<char>,
    names: Seq<Seq<char>>,
    row: int,
    rest: Seq<JsonTree>,
)
    requires
        events::is_decodable(event_type),
    ensures
        forall|i: int|
            0 <= i < rows_events(event_type, header, names, row, rest).0.len() ==> {
                let event = #[trigger] rows_events(event_type, header, names, row, rest).0[i];
                event.event_type == event_type && event.fields.len() == events::field_names(
                    event_type,
                ).len() && event.fields[0] == FieldTree::Text(header)
            },
    decreases rest.len(),
{
    if names.len() > 0 && rest.len() >= names.len() {
        let first = RowTree { header, row, names, cells: rest.take(names.len() as int) };
        let columns = events::columns(event_type)->0;
        if row_event(event_type, first) is Ok {
            events_are_of_their_batch(
                event_type,
                header,
                names,
                row + 1,
                rest.skip(names.len() as int),
            );
            read_fields_are_of_their_kind(first, columns);
            read_fields_start_with(first, columns);
            let event = row_event(event_type, first)->Ok_0;
            let more = rows_events(
                event_type,
                header,
                names,
                row + 1,
                rest.skip(names.len() as int),
            ).0;
            let all = rows_events(event_type, header, names, row, rest).0;
            assert(all =~= seq![event] + more);
            assert forall|i: int| 0 <= i < all.len() implies {
                let event = #[trigger] all[i];
                event.event_type == event_type && event.fields.len() == events::field_names(
                    event_type,
                ).len() && event.fields[0] == FieldTree::Text(header)
            } by {
                if i > 0 {
                    assert(all[i] == more[i - 1]);
                }
            }
        }
    }
}

proof fn read_fields_start_with(row: RowTree, columns: Seq<(Seq<char>, FieldKind)>)
    requires
        columns.len() > 0,
        read_fields(row, columns) is Ok,
    ensures
        read_fields(row, columns)->Ok_0.len() == columns.len(),
        read_field(row, columns[0].0, columns[0].1) == Ok::<FieldTree, Seq<char>>(
            read_fields(row, columns)->Ok_0[0],
        ),
    decreases columns.len(),
{
    let init = columns.drop_last();
    if init.len() > 0 {
        read_fields_start_with(row, init);
    } else {
        assert(read_fields(row, init) == Ok::<Seq<FieldTree>, Seq<char>>(Seq::empty()));
        assert(columns.last() == columns[0]);
    }
}

} // verus!
