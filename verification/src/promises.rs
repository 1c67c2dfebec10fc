//! What the operations promise, said of what goes in and what comes out.
//!
//! Each promise spans the steps between an input and its result, and holds for
//! every input that it admits.

#![allow(unused_imports)]

use crate::client;
use crate::client::{ChangeKind, ClientTree, SubscriptionChange};
use crate::compact;
use crate::compact::RowTree;
use crate::connection;
use crate::delivery;
use crate::delivery::{AfterStream, DeliveryTree, HandOff, OverflowPolicy};
use crate::error;
use crate::error::{DXLinkError, DXLinkResult, ErrorView};
use crate::events;
use crate::events::{CompactTree, DoubleTree, EventTree, EventType, FieldKind, FieldTree};
use crate::full;
use crate::handshake;
use crate::handshake::{DueTree, HandshakeStep, HandshakeTree, Phase};
use crate::json;
use crate::json::{JsonTree, NumberTree};
use crate::messages;
use crate::messages::{FeedConfigMessage, SubscriptionTree};
use crate::reader;
use crate::reader::{MessageTree, ReadFailure, Routed};
use crate::reconnect;
use crate::reconnect::ReconnectPolicy;
use crate::replay;
use crate::replay::{ReplayAction, ReplayTree};
use crate::requests;
use crate::requests::{Outcome, PendingTree, RequestTree, ResponseType, TicketTree};
use crate::schema;
use crate::subscriptions;
use crate::subscriptions::TrackedTree;
use crate::supervisor;
use crate::supervisor::{Next, StateTree, Step, SupervisorTree, Watching};
use crate::text;
use crate::wire;
use vstd::prelude::*;

verus! {

// ---------------------------------------------------------------------------
// Decoding
// ---------------------------------------------------------------------------
/// The first column of a name is the one that is read.
proof fn the_first_column_is_found(names: Seq<Seq<char>>, name: Seq<char>, from: int, i: int)
    requires
        0 <= from <= i < names.len(),
        names[i] == name,
        forall|j: int| from <= j < i ==> #[trigger] names[j] != name,
    ensures
        compact::column_from(names, name, from) == Some(i),
    decreases i - from,
{
    if from < i {
        assert(names[from] != name);
        the_first_column_is_found(names, name, from + 1, i);
    }
}

proof fn no_column_is_found(names: Seq<Seq<char>>, name: Seq<char>, from: int)
    requires
        0 <= from,
        forall|j: int| from <= j < names.len() ==> #[trigger] names[j] != name,
    ensures
        compact::column_from(names, name, from) is None,
    decreases names.len() - from,
{
    if from < names.len() {
        assert(names[from] != name);
        no_column_is_found(names, name, from + 1);
    }
}

/// A column that the row has is read as it stands there. Of a column of doubles
/// that is every number, zero among them, and the three words of the protocol;
/// of a column of whole numbers every whole number that fits; of a column of
/// text every text; of a column of booleans both of them. Anything else in the
/// column is an error, and never a value.
pub proof fn a_served_column_is_read_as_it_stands(row: RowTree, name: Seq<char>, i: int)
    requires
        0 <= i < row.names.len(),
        row.names[i] == name,
        forall|j: int| 0 <= j < i ==> #[trigger] row.names[j] != name,
    ensures
        match row.cells[i] {
            JsonTree::Number(n) => compact::read_field(row, name, FieldKind::Double) == Ok::<
                FieldTree,
                Seq<char>,
            >(FieldTree::Double(DoubleTree::Number(json::double_text(n)))),
            JsonTree::Text(word) => compact::read_field(row, name, FieldKind::Double) == (if word
                == "NaN"@ {
                Ok(FieldTree::Double(DoubleTree::NaN))
            } else if word == "Infinity"@ {
                Ok(FieldTree::Double(DoubleTree::Infinity))
            } else if word == "-Infinity"@ {
                Ok(FieldTree::Double(DoubleTree::NegInfinity))
            } else {
                Err(compact::read_field(row, name, FieldKind::Double)->Err_0)
            }),
            _ => compact::read_field(row, name, FieldKind::Double) is Err,
        },
        match row.cells[i] {
            JsonTree::Number(NumberTree::Integer(n)) => if i64::MIN <= n <= i64::MAX {
                compact::read_field(row, name, FieldKind::Whole) == Ok::<FieldTree, Seq<char>>(
                    FieldTree::Whole(n),
                )
            } else {
                compact::read_field(row, name, FieldKind::Whole) is Err
            },
            _ => compact::read_field(row, name, FieldKind::Whole) is Err,
        },
        match row.cells[i] {
            JsonTree::Text(text) => {
                &&& compact::read_field(row, name, FieldKind::Text) == Ok::<FieldTree, Seq<char>>(
                    FieldTree::Text(text),
                )
                &&& compact::read_field(row, name, FieldKind::Identity) == Ok::<
                    FieldTree,
                    Seq<char>,
                >(FieldTree::Text(text))
            },
            _ => {
                &&& compact::read_field(row, name, FieldKind::Text) is Err
                &&& compact::read_field(row, name, FieldKind::Identity) is Err
            },
        },
        match row.cells[i] {
            JsonTree::Bool(flag) => compact::read_field(row, name, FieldKind::Flag) == Ok::<
                FieldTree,
                Seq<char>,
            >(FieldTree::Flag(flag)),
            _ => compact::read_field(row, name, FieldKind::Flag) is Err,
        },
{
    the_first_column_is_found(row.names, name, 0, i);
}

/// A column that the row does not have reads as not provided: no number, zero,
/// no text, or false. Only what identifies the row has to be there.
pub proof fn a_column_that_is_not_served_is_not_invented(row: RowTree, name: Seq<char>)
    requires
        !row.names.contains(name),
    ensures
        compact::read_field(row, name, FieldKind::Double) == Ok::<FieldTree, Seq<char>>(
            FieldTree::Double(DoubleTree::NaN),
        ),
        compact::read_field(row, name, FieldKind::Whole) == Ok::<FieldTree, Seq<char>>(
            FieldTree::Whole(0),
        ),
        compact::read_field(row, name, FieldKind::Text) == Ok::<FieldTree, Seq<char>>(
            FieldTree::Text(Seq::empty()),
        ),
        compact::read_field(row, name, FieldKind::Flag) == Ok::<FieldTree, Seq<char>>(
            FieldTree::Flag(false),
        ),
        compact::read_field(row, name, FieldKind::Identity) is Err,
{
    assert forall|j: int| 0 <= j < row.names.len() implies #[trigger] row.names[j] != name by {
        assert(row.names.contains(row.names[j]));
    }
    no_column_is_found(row.names, name, 0);
}

/// Not a number is never made up: a column of doubles reads as that only where
/// the row does not have the column, or where the column says so.
pub proof fn no_number_is_lost(row: RowTree, name: Seq<char>, i: int)
    requires
        compact::read_field(row, name, FieldKind::Double) == Ok::<FieldTree, Seq<char>>(
            FieldTree::Double(DoubleTree::NaN),
        ),
        0 <= i < row.names.len(),
        row.names[i] == name,
        forall|j: int| 0 <= j < i ==> #[trigger] row.names[j] != name,
    ensures
        row.cells[i] == JsonTree::Text("NaN"@),
{
    a_served_column_is_read_as_it_stands(row, name, i);
}

/// What the columns of a row are read as, one by one.
proof fn each_column_is_read(row: RowTree, columns: Seq<(Seq<char>, FieldKind)>)
    ensures
        match compact::read_fields(row, columns) {
            Ok(fields) => fields.len() == columns.len() && forall|c: int|
                0 <= c < columns.len() ==> compact::read_field(
                    row,
                    (#[trigger] columns[c]).0,
                    columns[c].1,
                ) == Ok::<FieldTree, Seq<char>>(fields[c]),
            Err(e) => exists|c: int|
                0 <= c < columns.len() && compact::read_field(
                    row,
                    (#[trigger] columns[c]).0,
                    columns[c].1,
                ) == Err::<FieldTree, Seq<char>>(e) && forall|d: int|
                    0 <= d < c ==> compact::read_field(
                        row,
                        (#[trigger] columns[d]).0,
                        columns[d].1,
                    ) is Ok,
        },
    decreases columns.len(),
{
    if columns.len() > 0 {
        let init = columns.drop_last();
        each_column_is_read(row, init);
        assert(columns[columns.len() - 1] == columns.last());
        match compact::read_fields(row, init) {
            Ok(before) => {
                assert forall|c: int| 0 <= c < init.len() implies compact::read_field(
                    row,
                    (#[trigger] columns[c]).0,
                    columns[c].1,
                ) == Ok::<FieldTree, Seq<char>>(before[c]) by {
                    assert(init[c] == columns[c]);
                }
            },
            Err(e) => {
                let c = choose|c: int|
                    0 <= c < init.len() && compact::read_field(
                        row,
                        (#[trigger] init[c]).0,
                        init[c].1,
                    ) == Err::<FieldTree, Seq<char>>(e) && forall|d: int|
                        0 <= d < c ==> compact::read_field(
                            row,
                            (#[trigger] init[d]).0,
                            init[d].1,
                        ) is Ok;
                assert(columns[c] == init[c]);
                assert forall|d: int| 0 <= d < c implies compact::read_field(
                    row,
                    (#[trigger] columns[d]).0,
                    columns[d].1,
                ) is Ok by {
                    assert(init[d] == columns[d]);
                }
            },
        }
    }
}

/// A row becomes an event exactly where it says that it is of the type that its
/// batch claims and every column can be read. The event then holds what each
/// column of its type is read as, in the place of that column; otherwise the
/// first column that cannot be read says why.
pub proof fn a_row_becomes_the_event_that_it_spells(event_type: EventType, row: RowTree)
    requires
        events::columns(event_type) is Some,
    ensures
        ({
            let columns = events::columns(event_type)->0;
            let says = compact::read_field(row, "eventType"@, FieldKind::Identity);
            match compact::row_event(event_type, row) {
                Ok(event) => {
                    &&& says == Ok::<FieldTree, Seq<char>>(FieldTree::Text(row.header))
                    &&& event.event_type == event_type
                    &&& event.fields.len() == columns.len()
                    &&& forall|c: int|
                        0 <= c < columns.len() ==> compact::read_field(
                            row,
                            (#[trigger] columns[c]).0,
                            columns[c].1,
                        ) == Ok::<FieldTree, Seq<char>>(event.fields[c])
                },
                Err(e) => {
                    ||| says == Err::<FieldTree, Seq<char>>(e)
                    ||| says is Ok && says != Ok::<FieldTree, Seq<char>>(
                        FieldTree::Text(row.header),
                    )
                    ||| exists|c: int|
                        0 <= c < columns.len() && compact::read_field(
                            row,
                            (#[trigger] columns[c]).0,
                            columns[c].1,
                        ) == Err::<FieldTree, Seq<char>>(e)
                },
            }
        }),
{
    each_column_is_read(row, events::columns(event_type)->0);
}

proof fn rows_follow_each_other(
    event_type: EventType,
    header: Seq<char>,
    names: Seq<Seq<char>>,
    row: int,
    rest: Seq<JsonTree>,
    k: int,
)
    requires
        names.len() > 0,
        0 <= k < compact::rows_events(event_type, header, names, row, rest).0.len(),
    ensures
        (k + 1) * names.len() <= rest.len(),
        compact::row_event(
            event_type,
            RowTree {
                header,
                row: row + k,
                names,
                cells: rest.subrange(k * names.len(), (k + 1) * names.len()),
            },
        ) == Ok::<EventTree, Seq<char>>(
            compact::rows_events(event_type, header, names, row, rest).0[k],
        ),
    decreases rest.len(),
{
    let width = names.len() as int;
    let cells = rest.take(width);
    let later = rest.skip(width);
    let (after, error) = compact::rows_events(event_type, header, names, row + 1, later);
    let all = compact::rows_events(event_type, header, names, row, rest).0;
    let first = compact::row_event(event_type, RowTree { header, row, names, cells });
    assert(first is Ok);
    assert(all == seq![first->Ok_0] + after);
    if k == 0 {
        assert(rest.subrange(0, width) =~= cells);
        assert(k * names.len() == 0 && (k + 1) * names.len() == width) by (nonlinear_arith)
            requires
                k == 0,
                width == names.len(),
        ;
    } else {
        rows_follow_each_other(event_type, header, names, row + 1, later, k - 1);
        assert((k - 1) * names.len() + width == k * names.len()) by (nonlinear_arith)
            requires
                width == names.len(),
        ;
        assert((k - 1 + 1) * names.len() + width == (k + 1) * names.len()) by (nonlinear_arith)
            requires
                width == names.len(),
        ;
        assert((k - 1) * names.len() >= 0) by (nonlinear_arith)
            requires
                k >= 1,
        ;
        assert(later.subrange((k - 1) * names.len(), (k - 1 + 1) * names.len())
            =~= rest.subrange(k * names.len(), (k + 1) * names.len()));
        assert(all[k] == after[k - 1]);
    }
}

/// What is served is what is delivered. Where a batch decodes, there is one
/// event for each row, in order and of the type that the batch names; and each
/// column of the type holds what stands in the row under the name of the
/// column, whatever the place that the layout gives it.
pub proof fn what_is_served_is_delivered(
    header: Seq<char>,
    event_type: EventType,
    names: Seq<Seq<char>>,
    values: Seq<JsonTree>,
    layouts: compact::Layouts,
    k: int,
    c: int,
    i: int,
)
    requires
        header == events::wire_name(event_type),
        events::columns(event_type) is Some,
        match layouts {
            Some(agreed) => agreed.contains_key(header) && agreed[header] == names,
            None => names == events::columns(event_type)->0.map_values(
                |column: (Seq<char>, FieldKind)| column.0,
            ),
        },
        compact::decoded(
            seq![CompactTree::EventType(header), CompactTree::Values(values)],
            layouts,
            0,
        ).1 is None,
        0 <= k && (k + 1) * names.len() <= values.len(),
        0 <= c < events::columns(event_type)->0.len(),
        0 <= i < names.len(),
        names[i] == events::columns(event_type)->0[c].0,
        forall|j: int| 0 <= j < i ==> #[trigger] names[j] != names[i],
    ensures
        ({
            let delivered = compact::decoded(
                seq![CompactTree::EventType(header), CompactTree::Values(values)],
                layouts,
                0,
            ).0;
            let field = delivered[k].fields[c];
            &&& delivered.len() * names.len() == values.len()
            &&& k < delivered.len()
            &&& delivered[k].event_type == event_type
            &&& delivered[k].fields.len() == events::columns(event_type)->0.len()
            &&& match events::columns(event_type)->0[c].1 {
                FieldKind::Double => match values[k * names.len() + i] {
                    JsonTree::Number(n) => field == FieldTree::Double(
                        DoubleTree::Number(json::double_text(n)),
                    ),
                    JsonTree::Text(word) => {
                        ||| word == "NaN"@ && field == FieldTree::Double(DoubleTree::NaN)
                        ||| word == "Infinity"@ && field == FieldTree::Double(DoubleTree::Infinity)
                        ||| word == "-Infinity"@ && field == FieldTree::Double(
                            DoubleTree::NegInfinity,
                        )
                    },
                    _ => false,
                },
                FieldKind::Whole => match values[k * names.len() + i] {
                    JsonTree::Number(NumberTree::Integer(n)) => field == FieldTree::Whole(n),
                    _ => false,
                },
                FieldKind::Text | FieldKind::Identity => match values[k * names.len() + i] {
                    JsonTree::Text(text) => field == FieldTree::Text(text),
                    _ => false,
                },
                FieldKind::Flag => match values[k * names.len() + i] {
                    JsonTree::Bool(flag) => field == FieldTree::Flag(flag),
                    _ => false,
                },
            }
        }),
{
    let data = seq![CompactTree::EventType(header), CompactTree::Values(values)];
    let delivered = compact::decoded(data, layouts, 0).0;
    let width = names.len() as int;
    events::wire_names_round_trip(event_type, header);
    reveal_with_fuel(compact::decoded, 2);
    assert(data[0] == CompactTree::EventType(header) && data[1] == CompactTree::Values(values));
    let batch = compact::batch_events(header, values, layouts);
    assert(batch.0 + Seq::<EventTree>::empty() =~= batch.0);
    assert(delivered == batch.0);
    assert(names =~= events::field_names(event_type) || layouts is Some);
    let rows = compact::rows_events(event_type, header, names, 0, values);
    assert(batch == rows);
    compact::a_batch_is_decoded_whole(event_type, header, names, 0, values);
    assert(k < delivered.len()) by (nonlinear_arith)
        requires
            (k + 1) * names.len() <= values.len(),
            delivered.len() * names.len() == values.len(),
            names.len() > 0,
    ;
    rows_follow_each_other(event_type, header, names, 0, values, k);
    let row = RowTree {
        header,
        row: 0 + k,
        names,
        cells: values.subrange(k * names.len(), (k + 1) * names.len()),
    };
    assert((k + 1) * names.len() == k * names.len() + width) by (nonlinear_arith)
        requires
            width == names.len(),
    ;
    assert(k * names.len() >= 0) by (nonlinear_arith)
        requires
            k >= 0,
    ;
    assert(row.cells[i] == values[k * names.len() + i]);
    a_row_becomes_the_event_that_it_spells(event_type, row);
    let column = events::columns(event_type)->0[c];
    a_served_column_is_read_as_it_stands(row, column.0, i);
}

/// Data that can be read is read: where a batch is of a type that can be
/// decoded, there is a layout for it, the values make up whole rows, and every
/// row can be read, nothing stops the decoder.
pub proof fn data_that_can_be_read_is_read(
    header: Seq<char>,
    event_type: EventType,
    names: Seq<Seq<char>>,
    values: Seq<JsonTree>,
    layouts: compact::Layouts,
)
    requires
        header == events::wire_name(event_type),
        events::columns(event_type) is Some,
        match layouts {
            Some(agreed) => agreed.contains_key(header) && agreed[header] == names,
            None => names == events::columns(event_type)->0.map_values(
                |column: (Seq<char>, FieldKind)| column.0,
            ),
        },
        names.len() > 0,
        values.len() % names.len() == 0,
        forall|k: int|
            0 <= k && (k + 1) * names.len() <= values.len() ==> compact::row_event(
                event_type,
                #[trigger] row_at(header, names, 0, values, k),
            ) is Ok,
    ensures
        compact::decoded(
            seq![CompactTree::EventType(header), CompactTree::Values(values)],
            layouts,
            0,
        ).1 is None,
{
    let data = seq![CompactTree::EventType(header), CompactTree::Values(values)];
    events::wire_names_round_trip(event_type, header);
    reveal_with_fuel(compact::decoded, 2);
    assert(data[0] == CompactTree::EventType(header) && data[1] == CompactTree::Values(values));
    assert(names =~= events::field_names(event_type) || layouts is Some);
    readable_rows_are_read(event_type, header, names, 0, values);
}

/// A row of a batch: so many values from its place on.
pub open spec fn row_at(
    header: Seq<char>,
    names: Seq<Seq<char>>,
    first: int,
    values: Seq<JsonTree>,
    k: int,
) -> RowTree {
    RowTree {
        header,
        row: first + k,
        names,
        cells: values.subrange(k * names.len(), (k + 1) * names.len()),
    }
}

proof fn readable_rows_are_read(
    event_type: EventType,
    header: Seq<char>,
    names: Seq<Seq<char>>,
    row: int,
    rest: Seq<JsonTree>,
)
    requires
        names.len() > 0,
        forall|k: int|
            0 <= k && (k + 1) * names.len() <= rest.len() ==> compact::row_event(
                event_type,
                #[trigger] row_at(header, names, row, rest, k),
            ) is Ok,
    ensures
        compact::rows_events(event_type, header, names, row, rest).1 is None,
    decreases rest.len(),
{
    let width = names.len() as int;
    if rest.len() >= names.len() {
        let later = rest.skip(width);
        assert((0 + 1) * names.len() == width && 0 * names.len() == 0) by (nonlinear_arith)
            requires
                width == names.len(),
        ;
        let first = row_at(header, names, row, rest, 0);
        assert(first.cells =~= rest.take(width));
        assert(first == (RowTree { header, row, names, cells: rest.take(width) }));
        assert forall|k: int| 0 <= k && (k + 1) * names.len() <= later.len() implies compact::row_event(
            event_type,
            #[trigger] row_at(header, names, row + 1, later, k),
        ) is Ok by {
            assert((k + 1) * names.len() + width == (k + 1 + 1) * names.len()) by (nonlinear_arith)
                requires
                    width == names.len(),
            ;
            assert(k * names.len() + width == (k + 1) * names.len() && k * names.len() >= 0)
                by (nonlinear_arith)
                requires
                    width == names.len(),
                    k >= 0,
            ;
            let here = row_at(header, names, row, rest, k + 1);
            let there = row_at(header, names, row + 1, later, k);
            assert(here.cells =~= there.cells);
            assert(here == there);
        }
        readable_rows_are_read(event_type, header, names, row + 1, later);
    }
}

/// The first row that cannot be read stops the decoder, and what came before it
/// is kept: as many events as there were rows.
pub proof fn what_came_before_an_error_is_kept(
    header: Seq<char>,
    event_type: EventType,
    names: Seq<Seq<char>>,
    values: Seq<JsonTree>,
    layouts: compact::Layouts,
    k: int,
)
    requires
        header == events::wire_name(event_type),
        events::columns(event_type) is Some,
        match layouts {
            Some(agreed) => agreed.contains_key(header) && agreed[header] == names,
            None => names == events::columns(event_type)->0.map_values(
                |column: (Seq<char>, FieldKind)| column.0,
            ),
        },
        names.len() > 0,
        values.len() % names.len() == 0,
        0 <= k && (k + 1) * names.len() <= values.len(),
        forall|j: int|
            0 <= j < k ==> compact::row_event(
                event_type,
                #[trigger] row_at(header, names, 0, values, j),
            ) is Ok,
        compact::row_event(event_type, row_at(header, names, 0, values, k)) is Err,
    ensures
        ({
            let batch = compact::decoded(
                seq![CompactTree::EventType(header), CompactTree::Values(values)],
                layouts,
                0,
            );
            &&& batch.0.len() == k
            &&& batch.1 is Some
            &&& forall|j: int|
                0 <= j < k ==> Ok::<EventTree, Seq<char>>(#[trigger] batch.0[j])
                    == compact::row_event(event_type, row_at(header, names, 0, values, j))
        }),
{
    let data = seq![CompactTree::EventType(header), CompactTree::Values(values)];
    events::wire_names_round_trip(event_type, header);
    reveal_with_fuel(compact::decoded, 2);
    assert(data[0] == CompactTree::EventType(header) && data[1] == CompactTree::Values(values));
    assert(names =~= events::field_names(event_type) || layouts is Some);
    rows_before_an_error(event_type, header, names, 0, values, k);
}

proof fn rows_before_an_error(
    event_type: EventType,
    header: Seq<char>,
    names: Seq<Seq<char>>,
    row: int,
    rest: Seq<JsonTree>,
    k: int,
)
    requires
        names.len() > 0,
        0 <= k && (k + 1) * names.len() <= rest.len(),
        forall|j: int|
            0 <= j < k ==> compact::row_event(
                event_type,
                #[trigger] row_at(header, names, row, rest, j),
            ) is Ok,
        compact::row_event(event_type, row_at(header, names, row, rest, k)) is Err,
    ensures
        ({
            let found = compact::rows_events(event_type, header, names, row, rest);
            &&& found.0.len() == k
            &&& found.1 is Some
            &&& forall|j: int|
                0 <= j < k ==> Ok::<EventTree, Seq<char>>(#[trigger] found.0[j])
                    == compact::row_event(event_type, row_at(header, names, row, rest, j))
        }),
    decreases k,
{
    let width = names.len() as int;
    assert(rest.len() >= width && 1 * width == width && 0 * width == 0) by (nonlinear_arith)
        requires
            (k + 1) * names.len() <= rest.len(),
            width == names.len(),
            k >= 0,
    ;
    let first = row_at(header, names, row, rest, 0);
    assert((0 + 1) * names.len() == width && 0 * names.len() == 0) by (nonlinear_arith)
        requires
            width == names.len(),
    ;
    assert(first.cells =~= rest.take(width));
    assert(first == (RowTree { header, row, names, cells: rest.take(width) }));
    if k > 0 {
        let later = rest.skip(width);
        assert forall|j: int| 0 <= j < k implies #[trigger] row_at(
            header,
            names,
            row + 1,
            later,
            j,
        ) == row_at(header, names, row, rest, j + 1) by {
            assert(j * names.len() + width == (j + 1) * names.len() && (j + 1) * names.len() + width
                == (j + 1 + 1) * names.len() && j * names.len() >= 0 && (j + 1 + 1) * names.len()
                <= (k + 1) * names.len()) by (nonlinear_arith)
                requires
                    width == names.len(),
                    0 <= j < k,
            ;
            let here = row_at(header, names, row, rest, j + 1);
            let there = row_at(header, names, row + 1, later, j);
            assert(here.cells =~= there.cells);
        }
        assert((k - 1 + 1) * names.len() + width == (k + 1) * names.len()) by (nonlinear_arith)
            requires
                width == names.len(),
        ;
        assert(row_at(header, names, row + 1, later, k - 1) == row_at(header, names, row, rest, k));
        rows_before_an_error(event_type, header, names, row + 1, later, k - 1);
        let found = compact::rows_events(event_type, header, names, row, rest);
        let after = compact::rows_events(event_type, header, names, row + 1, later);
        assert forall|j: int| 0 <= j < k implies Ok::<EventTree, Seq<char>>(#[trigger] found.0[j])
            == compact::row_event(event_type, row_at(header, names, row, rest, j)) by {
            if j > 0 {
                assert(found.0[j] == after.0[j - 1]);
                assert(row_at(header, names, row + 1, later, j - 1) == row_at(
                    header,
                    names,
                    row,
                    rest,
                    j,
                ));
            }
        }
    }
}

/// What cannot be read is refused, and nothing of it is delivered: values
/// without a type, a type without values, a type that the protocol does not
/// declare, one that cannot be decoded, one that the channel did not agree to,
/// and values that do not make up whole rows.
pub proof fn what_cannot_be_read_is_refused(
    header: Seq<char>,
    values: Seq<JsonTree>,
    layouts: compact::Layouts,
)
    ensures
        compact::decoded(seq![CompactTree::Values(values)], layouts, 0).1 is Some,
        compact::decoded(seq![CompactTree::EventType(header)], layouts, 0).1 is Some,
        ({
            let batch = compact::decoded(
                seq![CompactTree::EventType(header), CompactTree::Values(values)],
                layouts,
                0,
            );
            &&& (forall|t: EventType| #[trigger] events::wire_name(t) != header)
                ==> batch.1 is Some && batch.0.len() == 0
            &&& forall|t: EventType|
                #[trigger] events::wire_name(t) == header && events::columns(t) is None
                    ==> batch.1 is Some && batch.0.len() == 0
            &&& layouts matches Some(agreed) ==> {
                &&& !agreed.contains_key(header) ==> batch.1 is Some && batch.0.len() == 0
                &&& agreed.contains_key(header) && (agreed[header].len() == 0 || values.len()
                    % agreed[header].len() != 0) ==> batch.1 is Some && batch.0.len() == 0
            }
        }),
{
    let data = seq![CompactTree::EventType(header), CompactTree::Values(values)];
    reveal_with_fuel(compact::decoded, 2);
    assert(data[0] == CompactTree::EventType(header) && data[1] == CompactTree::Values(values));
    assert forall|t: EventType| #[trigger] events::wire_name(t) == header implies events::named(header)
        == Some(t) by {
        events::wire_names_round_trip(t, header);
    }
    if events::named(header) is Some {
        events::wire_names_round_trip(events::named(header)->0, header);
    }
    let batch = compact::batch_events(header, values, layouts);
    assert(batch.0 + Seq::<EventTree>::empty() =~= batch.0);
}

/// The double that a number is read as: a double stays as it is written, and a
/// whole number is what its digits with an exponent of zero are.
pub proof fn a_number_is_read_as_its_double(number: NumberTree, text: Seq<char>)
    ensures
        number == NumberTree::Double(text) ==> json::double_text(number) == text,
        forall|n: int|
            number == NumberTree::Integer(n) && n >= 0 && #[trigger] json::parsed(
                text::decimal(n) + "e0"@,
            ) == Ok::<JsonTree, Seq<char>>(JsonTree::Number(NumberTree::Double(text)))
                ==> json::double_text(number) == text,
        forall|n: int|
            number == NumberTree::Integer(-n) && n > 0 && #[trigger] json::parsed(
                "-"@ + text::decimal(n) + "e0"@,
            ) == Ok::<JsonTree, Seq<char>>(JsonTree::Number(NumberTree::Double(text)))
                ==> json::double_text(number) == text,
{
}

// ---------------------------------------------------------------------------
// Text
// ---------------------------------------------------------------------------
/// The lower case of a capital of ASCII stands 32 places behind it; everything
/// else is its own lower case.
pub proof fn lowering_moves_a_letter(c: char)
    ensures
        'A' <= c <= 'Z' ==> text::ascii_lower(c) as int == c as int + 32,
        !('A' <= c <= 'Z') ==> text::ascii_lower(c) == c,
{
    let n = c as u32;
    if 0x41 <= n <= 0x5a {
        let m = (n + 0x20) as u32;
        assert(m as char as u32 == m);
    }
}

/// Two texts are alike but for case exactly where they have the same length and
/// differ, if at all, in the case of a letter of ASCII.
pub proof fn alike_but_for_case(a: Seq<char>, b: Seq<char>)
    ensures
        text::ascii_lowered(a) == text::ascii_lowered(b) <==> a.len() == b.len() && forall|i: int|
            0 <= i < a.len() ==> {
                ||| #[trigger] a[i] == b[i]
                ||| 'A' <= a[i] <= 'Z' && b[i] as int == a[i] as int + 32
                ||| 'A' <= b[i] <= 'Z' && a[i] as int == b[i] as int + 32
            },
{
    let la = text::ascii_lowered(a);
    let lb = text::ascii_lowered(b);
    if la == lb {
        assert(a.len() == la.len() && b.len() == lb.len());
        assert forall|i: int| 0 <= i < a.len() implies {
            ||| #[trigger] a[i] == b[i]
            ||| 'A' <= a[i] <= 'Z' && b[i] as int == a[i] as int + 32
            ||| 'A' <= b[i] <= 'Z' && a[i] as int == b[i] as int + 32
        } by {
            assert(la[i] == text::ascii_lower(a[i]));
            assert(lb[i] == text::ascii_lower(b[i]));
            lowering_moves_a_letter(a[i]);
            lowering_moves_a_letter(b[i]);
        }
    }
    if a.len() == b.len() && forall|i: int|
        0 <= i < a.len() ==> {
            ||| #[trigger] a[i] == b[i]
            ||| 'A' <= a[i] <= 'Z' && b[i] as int == a[i] as int + 32
            ||| 'A' <= b[i] <= 'Z' && a[i] as int == b[i] as int + 32
        } {
        assert forall|i: int| 0 <= i < la.len() implies la[i] == lb[i] by {
            assert(a[i] == a[i]);
            assert(la[i] == text::ascii_lower(a[i]));
            assert(lb[i] == text::ascii_lower(b[i]));
            lowering_moves_a_letter(a[i]);
            lowering_moves_a_letter(b[i]);
        }
        assert(la =~= lb);
    }
}

// ---------------------------------------------------------------------------
// Layouts
// ---------------------------------------------------------------------------
/// A data format is the one that can be decoded where it says COMPACT, letter
/// by letter and in any case.
pub proof fn compact_is_known_in_any_case(format: Seq<char>)
    ensures
        schema::is_compact(format) <==> format.len() == 7 && forall|i: int|
            0 <= i < 7 ==> #[trigger] format[i] == "COMPACT"@[i] || format[i] == "compact"@[i],
{
    reveal_strlit("COMPACT");
    reveal_strlit("compact");
    alike_but_for_case(format, "COMPACT"@);
    if schema::is_compact(format) {
        assert forall|i: int| 0 <= i < 7 implies #[trigger] format[i] == "COMPACT"@[i] || format[i]
            == "compact"@[i] by {}
    }
    if format.len() == 7 && forall|i: int|
        0 <= i < 7 ==> #[trigger] format[i] == "COMPACT"@[i] || format[i] == "compact"@[i] {
        assert forall|i: int| 0 <= i < format.len() implies {
            ||| #[trigger] format[i] == "COMPACT"@[i]
            ||| 'A' <= format[i] <= 'Z' && "COMPACT"@[i] as int == format[i] as int + 32
            ||| 'A' <= "COMPACT"@[i] <= 'Z' && format[i] as int == "COMPACT"@[i] as int + 32
        } by {}
    }
}

/// What the server names is what is decoded. A type that was asked for is
/// decoded against exactly the columns that the server names for it, in the
/// server's order; where the server names none for it, against what was asked;
/// and what was not asked for is not decoded.
pub proof fn what_the_server_names_is_decoded(
    config: FeedConfigMessage,
    event_types: Seq<EventType>,
    name: Seq<char>,
)
    ensures
        schema::agreed(config, event_types).contains_key(name) <==> exists|i: int|
            0 <= i < event_types.len() && events::columns(#[trigger] event_types[i]) is Some
                && events::wire_name(event_types[i]) == name,
        schema::agreed(config, event_types).contains_key(name) ==> match config.event_fields {
            Some(fields) => if fields@.contains_key(name) {
                schema::agreed(config, event_types)[name] == fields@[name]
            } else {
                schema::agreed(config, event_types)[name] == schema::requested(event_types)[name]
            },
            None => schema::agreed(config, event_types)[name] == schema::requested(
                event_types,
            )[name],
        },
        forall|i: int|
            0 <= i < event_types.len() && events::columns(#[trigger] event_types[i]) is Some
                && events::wire_name(event_types[i]) == name ==> schema::requested(
                event_types,
            )[name] == events::columns(event_types[i])->0.map_values(
                |column: (Seq<char>, FieldKind)| column.0,
            ),
{
    schema::requests_are_decodable(event_types, name);
    let asked = schema::requested(event_types);
    if exists|i: int|
        0 <= i < event_types.len() && events::columns(#[trigger] event_types[i]) is Some
            && events::wire_name(event_types[i]) == name {
        let i = choose|i: int|
            0 <= i < event_types.len() && events::columns(#[trigger] event_types[i]) is Some
                && events::wire_name(event_types[i]) == name;
        assert(events::is_decodable(event_types[i]));
    }
    if asked.contains_key(name) {
        let i = choose|i: int|
            0 <= i < event_types.len() && events::is_decodable(#[trigger] event_types[i])
                && events::wire_name(event_types[i]) == name;
        assert(events::columns(event_types[i]) is Some);
    }
    assert forall|i: int|
        0 <= i < event_types.len() && events::columns(#[trigger] event_types[i]) is Some
            && events::wire_name(event_types[i]) == name implies schema::requested(event_types)[name]
        == events::columns(event_types[i])->0.map_values(
        |column: (Seq<char>, FieldKind)| column.0,
    ) by {
        assert(events::is_decodable(event_types[i]));
        events::wire_names_round_trip(event_types[i], name);
        assert(schema::requested(event_types)[name] == events::field_names(event_types[i]));
    }
}

/// A configuration is agreed to exactly where its format is COMPACT and every
/// layout that it names for a type that was asked for has the two columns that
/// identify a row.
pub proof fn what_is_agreed_to(config: FeedConfigMessage, event_types: Seq<EventType>)
    ensures
        schema::is_agreeable(config, event_types) <==> {
            &&& schema::is_compact(config.data_format@)
            &&& config.event_fields matches Some(fields) ==> forall|name: Seq<char>|
                #[trigger] fields@.contains_key(name) && schema::requested(event_types).contains_key(
                    name,
                ) ==> fields@[name].contains("eventType"@) && fields@[name].contains(
                    "eventSymbol"@,
                )
        },
{
    let named = schema::named_fields(config);
    let asked = schema::requested(event_types);
    if schema::is_agreeable(config, event_types) {
        if let Some(fields) = config.event_fields {
            assert forall|name: Seq<char>|
                #[trigger] fields@.contains_key(name) && asked.contains_key(
                    name,
                ) implies fields@[name].contains("eventType"@) && fields@[name].contains(
                "eventSymbol"@,
            ) by {
                assert(!schema::names_unidentifiable(asked, named, name));
            }
        }
    }
    if schema::is_compact(config.data_format@) && (config.event_fields matches Some(fields)
        ==> forall|name: Seq<char>|
        #[trigger] fields@.contains_key(name) && asked.contains_key(name)
            ==> fields@[name].contains("eventType"@) && fields@[name].contains("eventSymbol"@)) {
        assert forall|name: Seq<char>| !schema::names_unidentifiable(asked, named, name) by {}
    }
}

/// A feed that the server configures is decoded, from then on, against what the
/// server says; one that it cannot be agreed with is not decoded.
pub proof fn a_configured_feed_follows_the_server(
    result: DXLinkResult<()>,
    after: ClientTree,
    before: ClientTree,
    channel: u32,
    event_types: Seq<EventType>,
    config: FeedConfigMessage,
    name: Seq<char>,
)
    requires
        client::feed_answered(
            result,
            after,
            before,
            channel,
            event_types,
            ResponseType::FeedConfig(config),
        ),
    ensures
        result is Ok <==> config.channel == channel && schema::is_agreeable(config, event_types),
        result is Err ==> after == before,
        result is Ok ==> {
            &&& after.schemas.contains_key(channel)
            &&& config.event_fields matches Some(fields) ==> (fields@.contains_key(name)
                && after.schemas[channel].contains_key(name) ==> after.schemas[channel][name]
                == fields@[name])
            &&& after.channels == before.channels
            &&& after.subscriptions == before.subscriptions
            &&& forall|other: u32|
                other != channel ==> (#[trigger] after.schemas.contains_key(other)
                    == before.schemas.contains_key(other)) && (before.schemas.contains_key(other)
                    ==> after.schemas[other] == before.schemas[other])
        },
{
    what_the_server_names_is_decoded(config, event_types, name);
}

/// A layout that the server reports later takes the place of the one before:
/// a type that the channel has is decoded against exactly the columns that are
/// named for it now, a type that is not named keeps its columns, and no type is
/// taken on. Where the format is another one, or a layout that is named for a
/// type of the channel does not identify its rows, the channel is not decoded
/// any more.
pub proof fn a_later_layout_takes_the_place_of_the_earlier(
    schemas: Map<u32, schema::SchemaTree>,
    channel: u32,
    config: FeedConfigMessage,
    name: Seq<char>,
)
    requires
        schemas.contains_key(channel),
    ensures
        ({
            let after = schema::after_config(schemas, channel, config);
            &&& after.contains_key(channel) <==> {
                &&& schema::is_compact(config.data_format@)
                &&& config.event_fields matches Some(fields) ==> forall|n: Seq<char>|
                    #[trigger] fields@.contains_key(n) && schemas[channel].contains_key(n)
                        ==> fields@[n].contains("eventType"@) && fields@[n].contains(
                        "eventSymbol"@,
                    )
            }
            &&& after.contains_key(channel) ==> {
                &&& after[channel].contains_key(name) <==> schemas[channel].contains_key(name)
                &&& schemas[channel].contains_key(name) ==> match config.event_fields {
                    Some(fields) => if fields@.contains_key(name) {
                        after[channel][name] == fields@[name]
                    } else {
                        after[channel][name] == schemas[channel][name]
                    },
                    None => after[channel][name] == schemas[channel][name],
                }
            }
        }),
{
    let stored = schemas[channel];
    let named = schema::named_fields(config);
    let after = schema::after_config(schemas, channel, config);
    if after.contains_key(channel) {
        if let Some(fields) = config.event_fields {
            assert forall|n: Seq<char>|
                #[trigger] fields@.contains_key(n) && stored.contains_key(
                    n,
                ) implies fields@[n].contains("eventType"@) && fields@[n].contains(
                "eventSymbol"@,
            ) by {
                assert(!schema::names_unidentifiable(stored, named, n));
            }
        }
    } else if schema::is_compact(config.data_format@) {
        let n = choose|n: Seq<char>| #[trigger] schema::names_unidentifiable(stored, named, n);
        assert(schema::names_unidentifiable(stored, named, n));
        assert(config.event_fields is Some);
        assert(config.event_fields->0@.contains_key(n));
    }
}

/// A channel that was never configured has nothing to follow the server with.
pub proof fn an_unconfigured_channel_stays_so(
    schemas: Map<u32, schema::SchemaTree>,
    channel: u32,
    config: FeedConfigMessage,
)
    requires
        !schemas.contains_key(channel),
    ensures
        schema::after_config(schemas, channel, config) == schemas,
{
}

/// A subscription may be sent exactly where its type is one that the protocol
/// declares and that can be decoded, and the channel is configured for it.
pub proof fn what_may_be_subscribed(subscription: SubscriptionTree, configured: schema::SchemaTree)
    ensures
        schema::is_accepted(subscription, configured) <==> configured.contains_key(
            subscription.event_type,
        ) && exists|t: EventType| #[trigger]
            events::wire_name(t) == subscription.event_type && events::columns(t) is Some,
{
    let name = subscription.event_type;
    if events::named(name) is Some {
        events::wire_names_round_trip(events::named(name)->0, name);
    }
    if exists|t: EventType| #[trigger] events::wire_name(t) == name && events::columns(t) is Some {
        let t = choose|t: EventType| #[trigger]
            events::wire_name(t) == name && events::columns(t) is Some;
        events::wire_names_round_trip(t, name);
    }
}

// ---------------------------------------------------------------------------
// Subscriptions
// ---------------------------------------------------------------------------
proof fn what_a_filter_keeps(
    entries: Seq<TrackedTree>,
    keeps: spec_fn(TrackedTree) -> bool,
    entry: TrackedTree,
)
    ensures
        entries.filter(keeps).contains(entry) <==> entries.contains(entry) && keeps(entry),
    decreases entries.len(),
{
    reveal(Seq::filter);
    if entries.len() > 0 {
        let init = entries.drop_last();
        what_a_filter_keeps(init, keeps, entry);
        let kept = init.filter(keeps);
        let all = entries.filter(keeps);
        if all.contains(entry) {
            let k = choose|k: int| 0 <= k < all.len() && all[k] == entry;
            if k < kept.len() {
                assert(kept[k] == entry);
                assert(kept.contains(entry));
                let m = choose|m: int| 0 <= m < init.len() && init[m] == entry;
                assert(entries[m] == entry);
            } else {
                assert(entries[entries.len() - 1] == entry);
            }
        }
        if entries.contains(entry) && keeps(entry) {
            let m = choose|m: int| 0 <= m < entries.len() && entries[m] == entry;
            if m < init.len() {
                assert(init[m] == entry);
                assert(init.contains(entry));
                let k = choose|k: int| 0 <= k < kept.len() && kept[k] == entry;
                assert(all[k] == entry);
            } else {
                assert(all[all.len() - 1] == entry);
            }
        }
    }
}

proof fn a_filter_goes_through_in_order(
    a: Seq<TrackedTree>,
    b: Seq<TrackedTree>,
    keeps: spec_fn(TrackedTree) -> bool,
)
    ensures
        (a + b).filter(keeps) == a.filter(keeps) + b.filter(keeps),
    decreases b.len(),
{
    reveal(Seq::filter);
    if b.len() == 0 {
        assert(a + b =~= a);
        assert(a.filter(keeps) + b.filter(keeps) =~= a.filter(keeps));
    } else {
        a_filter_goes_through_in_order(a, b.drop_last(), keeps);
        assert((a + b).drop_last() =~= a + b.drop_last());
        assert((a + b).last() == b.last());
        if keeps(b.last()) {
            assert(a.filter(keeps) + b.drop_last().filter(keeps).push(b.last()) =~= (a.filter(keeps)
                + b.drop_last().filter(keeps)).push(b.last()));
        }
    }
}

proof fn a_filter_keeps_all_of_these(
    entries: Seq<TrackedTree>,
    keeps: spec_fn(TrackedTree) -> bool,
)
    requires
        forall|i: int| 0 <= i < entries.len() ==> keeps(#[trigger] entries[i]),
    ensures
        entries.filter(keeps) == entries,
    decreases entries.len(),
{
    reveal(Seq::filter);
    if entries.len() > 0 {
        assert(keeps(entries[entries.len() - 1]));
        a_filter_keeps_all_of_these(entries.drop_last(), keeps);
        assert(entries.drop_last().push(entries.last()) =~= entries);
    } else {
        assert(entries.filter(keeps) =~= entries);
    }
}

/// What differs survives: a live subscription on another channel, of another
/// type, for another symbol or from another source is still live after another
/// one is added or removed. What is removed is gone, and what is added is live
/// as it was asked for.
pub proof fn a_subscription_that_differs_survives(
    entries: Seq<TrackedTree>,
    channel: u32,
    event_type: EventType,
    subscription: SubscriptionTree,
    entry: TrackedTree,
)
    ensures
        ({
            let differs = entry.channel != channel || entry.event_type != event_type
                || entry.subscription.symbol != subscription.symbol || entry.subscription.source
                != subscription.source;
            let removed = subscriptions::without(entries, channel, event_type, subscription);
            let added = subscriptions::inserted(entries, channel, event_type, subscription);
            let asked = TrackedTree { channel, event_type, subscription };
            &&& removed.contains(entry) <==> entries.contains(entry) && differs
            &&& added.contains(entry) <==> (entries.contains(entry) && differs) || entry == asked
            &&& added.len() > 0 && added.last() == asked
        }),
{
    let keeps = |e: TrackedTree|
        !subscriptions::is_subscription(e, channel, event_type, subscription);
    what_a_filter_keeps(entries, keeps, entry);
    let removed = subscriptions::without(entries, channel, event_type, subscription);
    let added = subscriptions::inserted(entries, channel, event_type, subscription);
    let asked = TrackedTree { channel, event_type, subscription };
    if added.contains(entry) && entry != asked {
        let k = choose|k: int| 0 <= k < added.len() && added[k] == entry;
        assert(removed[k] == entry);
    }
    if removed.contains(entry) {
        let k = choose|k: int| 0 <= k < removed.len() && removed[k] == entry;
        assert(added[k] == entry);
    }
    assert(added[added.len() - 1] == asked);
}

/// To remove a subscription takes it out from between the others, which stay in
/// their order; to add it again puts it behind them.
pub proof fn a_subscription_is_taken_out_of_its_place(
    before: Seq<TrackedTree>,
    entry: TrackedTree,
    behind: Seq<TrackedTree>,
    again: SubscriptionTree,
)
    requires
        again.symbol == entry.subscription.symbol,
        again.source == entry.subscription.source,
        forall|i: int|
            0 <= i < before.len() ==> (#[trigger] before[i]).channel != entry.channel
                || before[i].event_type != entry.event_type || before[i].subscription.symbol
                != entry.subscription.symbol || before[i].subscription.source
                != entry.subscription.source,
        forall|i: int|
            0 <= i < behind.len() ==> (#[trigger] behind[i]).channel != entry.channel
                || behind[i].event_type != entry.event_type || behind[i].subscription.symbol
                != entry.subscription.symbol || behind[i].subscription.source
                != entry.subscription.source,
    ensures
        subscriptions::without(
            before + seq![entry] + behind,
            entry.channel,
            entry.event_type,
            again,
        ) == before + behind,
        subscriptions::inserted(
            before + seq![entry] + behind,
            entry.channel,
            entry.event_type,
            again,
        ) == before + behind + seq![
            TrackedTree {
                channel: entry.channel,
                event_type: entry.event_type,
                subscription: again,
            },
        ],
{
    let keeps = |e: TrackedTree|
        !subscriptions::is_subscription(e, entry.channel, entry.event_type, again);
    let one = seq![entry];
    a_filter_goes_through_in_order(before + one, behind, keeps);
    a_filter_goes_through_in_order(before, one, keeps);
    a_filter_keeps_all_of_these(before, keeps);
    a_filter_keeps_all_of_these(behind, keeps);
    reveal(Seq::filter);
    a_filter_keeps_all_of_these(Seq::<TrackedTree>::empty(), keeps);
    assert(one.drop_last() =~= Seq::<TrackedTree>::empty());
    assert(one.last() == entry);
    assert(one.filter(keeps) =~= Seq::<TrackedTree>::empty());
    assert(before + Seq::<TrackedTree>::empty() + behind =~= before + behind);
    let added = TrackedTree {
        channel: entry.channel,
        event_type: entry.event_type,
        subscription: again,
    };
    assert((before + behind).push(added) =~= before + behind + seq![added]);
}

/// To forget a channel forgets what is on it and nothing else, and a channel
/// lists what is on it and nothing else, both in order.
pub proof fn channels_are_kept_apart(
    entries: Seq<TrackedTree>,
    more: Seq<TrackedTree>,
    channel: u32,
    entry: TrackedTree,
)
    ensures
        subscriptions::without_channel(entries, channel).contains(entry) <==> entries.contains(entry)
            && entry.channel != channel,
        subscriptions::on_channel(entries, channel).contains(entry) <==> entries.contains(entry)
            && entry.channel == channel,
        subscriptions::without_channel(entries + more, channel) == subscriptions::without_channel(
            entries,
            channel,
        ) + subscriptions::without_channel(more, channel),
        subscriptions::on_channel(entries + more, channel) == subscriptions::on_channel(
            entries,
            channel,
        ) + subscriptions::on_channel(more, channel),
        subscriptions::asked_on(seq![entry], channel) == if entry.channel == channel {
            seq![entry.subscription]
        } else {
            Seq::empty()
        },
        subscriptions::asked_on(entries + more, channel) == subscriptions::asked_on(
            entries,
            channel,
        ) + subscriptions::asked_on(more, channel),
{
    let here = |e: TrackedTree| e.channel == channel;
    let elsewhere = |e: TrackedTree| e.channel != channel;
    what_a_filter_keeps(entries, here, entry);
    what_a_filter_keeps(entries, elsewhere, entry);
    a_filter_goes_through_in_order(entries, more, here);
    a_filter_goes_through_in_order(entries, more, elsewhere);
    reveal(Seq::filter);
    let one = seq![entry];
    a_filter_keeps_all_of_these(Seq::<TrackedTree>::empty(), here);
    assert(one.drop_last() =~= Seq::<TrackedTree>::empty());
    assert(one.last() == entry);
    assert(one.filter(here) =~= if here(entry) {
        one
    } else {
        Seq::empty()
    });
    assert(subscriptions::asked_on(one, channel) =~= if entry.channel == channel {
        seq![entry.subscription]
    } else {
        Seq::empty()
    });
    assert(subscriptions::asked_on(entries + more, channel) =~= subscriptions::asked_on(
        entries,
        channel,
    ) + subscriptions::asked_on(more, channel));
}

proof fn one_more_is_added(
    entries: Seq<TrackedTree>,
    channel: u32,
    types: Seq<EventType>,
    list: Seq<SubscriptionTree>,
    entry: TrackedTree,
)
    requires
        types.len() == list.len(),
    ensures
        client::all_inserted(entries, channel, types, list).contains(entry) <==> {
            ||| entries.contains(entry) && (entry.channel != channel || forall|i: int|
                0 <= i < list.len() ==> entry.event_type != types[i] || entry.subscription.symbol
                    != (#[trigger] list[i]).symbol || entry.subscription.source != list[i].source)
            ||| entry.channel == channel && exists|i: int|
                0 <= i < list.len() && entry.event_type == types[i] && entry.subscription
                    == #[trigger] list[i] && forall|j: int|
                    i < j < list.len() ==> types[j] != types[i] || (#[trigger] list[j]).symbol
                        != list[i].symbol || list[j].source != list[i].source
        },
    decreases list.len(),
{
    if list.len() > 0 {
        let init = list.drop_last();
        let kinds = types.drop_last();
        let n = list.len() - 1;
        let earlier = client::all_inserted(entries, channel, kinds, init);
        one_more_is_added(entries, channel, kinds, init, entry);
        a_subscription_that_differs_survives(earlier, channel, types.last(), list.last(), entry);
        assert(list[n] == list.last() && types[n] == types.last());
        assert forall|i: int| 0 <= i < init.len() implies #[trigger] init[i] == list[i] && kinds[i]
            == types[i] by {}
        let all = client::all_inserted(entries, channel, types, list);
        let untouched = entries.contains(entry) && (entry.channel != channel || forall|i: int|
            0 <= i < list.len() ==> entry.event_type != types[i] || entry.subscription.symbol
                != (#[trigger] list[i]).symbol || entry.subscription.source != list[i].source);
        let asked = entry.channel == channel && exists|i: int|
            0 <= i < list.len() && entry.event_type == types[i] && entry.subscription
                == #[trigger] list[i] && forall|j: int|
                i < j < list.len() ==> types[j] != types[i] || (#[trigger] list[j]).symbol
                    != list[i].symbol || list[j].source != list[i].source;
        if all.contains(entry) {
            let last = TrackedTree {
                channel,
                event_type: types.last(),
                subscription: list.last(),
            };
            if entry == last {
                assert(list[n] == entry.subscription);
                assert(asked);
            } else {
                assert(earlier.contains(entry));
                if entries.contains(entry) && (entry.channel != channel || forall|i: int|
                    0 <= i < init.len() ==> entry.event_type != kinds[i]
                        || entry.subscription.symbol != (#[trigger] init[i]).symbol
                        || entry.subscription.source != init[i].source) {
                    assert forall|i: int| 0 <= i < list.len() && entry.channel == channel implies entry.event_type
                        != types[i] || entry.subscription.symbol != (#[trigger] list[i]).symbol
                        || entry.subscription.source != list[i].source by {
                        if i < init.len() {
                            assert(init[i] == list[i]);
                        }
                    }
                    assert(untouched);
                } else {
                    let i = choose|i: int|
                        0 <= i < init.len() && entry.event_type == kinds[i] && entry.subscription
                            == #[trigger] init[i] && forall|j: int|
                            i < j < init.len() ==> kinds[j] != kinds[i] || (
                            #[trigger] init[j]).symbol != init[i].symbol || init[j].source
                                != init[i].source;
                    assert(list[i] == init[i]);
                    assert forall|j: int| i < j < list.len() implies types[j] != types[i] || (
                    #[trigger] list[j]).symbol != list[i].symbol || list[j].source
                        != list[i].source by {
                        if j < init.len() {
                            assert(init[j] == list[j]);
                        }
                    }
                    assert(asked);
                }
            }
        }
        if untouched {
            if entry.channel == channel {
                assert forall|i: int| 0 <= i < init.len() implies entry.event_type != kinds[i]
                    || entry.subscription.symbol != (#[trigger] init[i]).symbol
                    || entry.subscription.source != init[i].source by {
                    assert(list[i] == init[i]);
                }
                assert(entry.event_type != types[n] || entry.subscription.symbol != list[n].symbol
                    || entry.subscription.source != list[n].source);
            }
            assert(all.contains(entry));
        }
        if asked {
            let i = choose|i: int|
                0 <= i < list.len() && entry.event_type == types[i] && entry.subscription
                    == #[trigger] list[i] && forall|j: int|
                    i < j < list.len() ==> types[j] != types[i] || (#[trigger] list[j]).symbol
                        != list[i].symbol || list[j].source != list[i].source;
            if i < n {
                assert(init[i] == list[i]);
                assert forall|j: int| i < j < init.len() implies kinds[j] != kinds[i] || (
                #[trigger] init[j]).symbol != init[i].symbol || init[j].source
                    != init[i].source by {
                    assert(list[j] == init[j]);
                }
                assert(earlier.contains(entry));
                assert(list[n] == list.last());
            }
            assert(all.contains(entry));
        }
    }
}

proof fn some_are_removed(
    entries: Seq<TrackedTree>,
    channel: u32,
    types: Seq<EventType>,
    list: Seq<SubscriptionTree>,
    entry: TrackedTree,
)
    requires
        types.len() == list.len(),
    ensures
        client::all_removed(entries, channel, types, list).contains(entry) <==> entries.contains(
            entry,
        ) && (entry.channel != channel || forall|i: int|
            0 <= i < list.len() ==> entry.event_type != types[i] || entry.subscription.symbol != (
            #[trigger] list[i]).symbol || entry.subscription.source != list[i].source),
    decreases list.len(),
{
    if list.len() > 0 {
        let init = list.drop_last();
        let kinds = types.drop_last();
        let n = list.len() - 1;
        some_are_removed(entries, channel, kinds, init, entry);
        a_subscription_that_differs_survives(
            client::all_removed(entries, channel, kinds, init),
            channel,
            types.last(),
            list.last(),
            entry,
        );
        assert(list[n] == list.last() && types[n] == types.last());
        if forall|i: int|
            0 <= i < list.len() ==> entry.event_type != types[i] || entry.subscription.symbol != (
            #[trigger] list[i]).symbol || entry.subscription.source != list[i].source {
            assert forall|i: int| 0 <= i < init.len() implies entry.event_type != kinds[i]
                || entry.subscription.symbol != (#[trigger] init[i]).symbol
                || entry.subscription.source != init[i].source by {
                assert(list[i] == init[i]);
            }
        }
        if (forall|i: int|
            0 <= i < init.len() ==> entry.event_type != kinds[i] || entry.subscription.symbol != (
            #[trigger] init[i]).symbol || entry.subscription.source != init[i].source) && (
        entry.event_type != types.last() || entry.subscription.symbol != list.last().symbol
            || entry.subscription.source != list.last().source) {
            assert forall|i: int| 0 <= i < list.len() implies entry.event_type != types[i]
                || entry.subscription.symbol != (#[trigger] list[i]).symbol
                || entry.subscription.source != list[i].source by {
                if i < init.len() {
                    assert(init[i] == list[i]);
                }
            }
        }
    }
}

/// A change that went out is what is live afterwards. What was added is live as
/// it was asked for last; what was removed is not; a reset leaves nothing on its
/// channel; and whatever the change does not name is live as before.
pub proof fn a_change_does_what_it_says(
    change: SubscriptionChange,
    entries: Seq<TrackedTree>,
    entry: TrackedTree,
)
    requires
        change.types@.len() == change.subscriptions@.len(),
    ensures
        ({
            let list = change.subscriptions@;
            let types = change.types@;
            let after = change.applied(entries);
            let unnamed = entry.channel != change.channel || forall|i: int|
                0 <= i < list.len() ==> entry.event_type != types[i] || entry.subscription.symbol
                    != (#[trigger] list[i])@.symbol || entry.subscription.source
                    != list[i]@.source;
            match change.kind {
                ChangeKind::Add => after.contains(entry) <==> {
                    ||| entries.contains(entry) && unnamed
                    ||| entry.channel == change.channel && exists|i: int|
                        0 <= i < list.len() && entry.event_type == types[i] && entry.subscription
                            == (#[trigger] list[i])@ && forall|j: int|
                            i < j < list.len() ==> types[j] != types[i] || (
                            #[trigger] list[j])@.symbol != list[i]@.symbol || list[j]@.source
                                != list[i]@.source
                },
                ChangeKind::Remove => after.contains(entry) <==> entries.contains(entry) && unnamed,
                ChangeKind::Reset => after.contains(entry) <==> entries.contains(entry)
                    && entry.channel != change.channel,
            }
        }),
{
    let list = change.subscriptions@;
    let types = change.types@;
    let trees = messages::subscription_trees(list);
    assert forall|i: int| 0 <= i < list.len() implies #[trigger] trees[i] == list[i]@ by {}
    assert(trees.len() == list.len());
    let unnamed = entry.channel != change.channel || forall|i: int|
        0 <= i < list.len() ==> entry.event_type != types[i] || entry.subscription.symbol != (
        #[trigger] list[i])@.symbol || entry.subscription.source != list[i]@.source;
    let untouched = entry.channel != change.channel || forall|i: int|
        0 <= i < trees.len() ==> entry.event_type != types[i] || entry.subscription.symbol != (
        #[trigger] trees[i]).symbol || entry.subscription.source != trees[i].source;
    assert(unnamed == untouched) by {
        if unnamed && entry.channel == change.channel {
            assert forall|i: int| 0 <= i < trees.len() implies entry.event_type != types[i]
                || entry.subscription.symbol != (#[trigger] trees[i]).symbol
                || entry.subscription.source != trees[i].source by {
                assert(trees[i] == list[i]@);
            }
        }
        if untouched && entry.channel == change.channel {
            assert forall|i: int| 0 <= i < list.len() implies entry.event_type != types[i]
                || entry.subscription.symbol != (#[trigger] list[i])@.symbol
                || entry.subscription.source != list[i]@.source by {
                assert(trees[i] == list[i]@);
            }
        }
    }
    match change.kind {
        ChangeKind::Add => {
            one_more_is_added(entries, change.channel, types, trees, entry);
            let named = exists|i: int|
                0 <= i < trees.len() && entry.event_type == types[i] && entry.subscription
                    == #[trigger] trees[i] && forall|j: int|
                    i < j < trees.len() ==> types[j] != types[i] || (#[trigger] trees[j]).symbol
                        != trees[i].symbol || trees[j].source != trees[i].source;
            let asked = exists|i: int|
                0 <= i < list.len() && entry.event_type == types[i] && entry.subscription == (
                #[trigger] list[i])@ && forall|j: int|
                    i < j < list.len() ==> types[j] != types[i] || (#[trigger] list[j])@.symbol
                        != list[i]@.symbol || list[j]@.source != list[i]@.source;
            if named {
                let i = choose|i: int|
                    0 <= i < trees.len() && entry.event_type == types[i] && entry.subscription
                        == #[trigger] trees[i] && forall|j: int|
                        i < j < trees.len() ==> types[j] != types[i] || (#[trigger] trees[j]).symbol
                            != trees[i].symbol || trees[j].source != trees[i].source;
                assert(trees[i] == list[i]@);
                assert forall|j: int| i < j < list.len() implies types[j] != types[i] || (
                #[trigger] list[j])@.symbol != list[i]@.symbol || list[j]@.source
                    != list[i]@.source by {
                    assert(trees[j] == list[j]@);
                }
                assert(asked);
            }
            if asked {
                let i = choose|i: int|
                    0 <= i < list.len() && entry.event_type == types[i] && entry.subscription == (
                    #[trigger] list[i])@ && forall|j: int|
                        i < j < list.len() ==> types[j] != types[i] || (#[trigger] list[j])@.symbol
                            != list[i]@.symbol || list[j]@.source != list[i]@.source;
                assert(trees[i] == list[i]@);
                assert forall|j: int| i < j < trees.len() implies types[j] != types[i] || (
                #[trigger] trees[j]).symbol != trees[i].symbol || trees[j].source
                    != trees[i].source by {
                    assert(trees[j] == list[j]@);
                }
                assert(named);
            }
        },
        ChangeKind::Remove => some_are_removed(entries, change.channel, types, trees, entry),
        ChangeKind::Reset => channels_are_kept_apart(entries, Seq::empty(), change.channel, entry),
    }
}

// ---------------------------------------------------------------------------
// Reconnecting
// ---------------------------------------------------------------------------
/// Whether an attempt is made again goes by what failed: the transport, the
/// connection, the time or a channel are tried again, whatever the words; a
/// credential, the protocol, a message and anything else are not.
pub proof fn a_failure_of_the_transport_is_tried_again(failed: DXLinkError)
    ensures
        reconnect::is_worth_retrying(failed@) == match failed {
            DXLinkError::WebSocket(_) => true,
            DXLinkError::Connection(_) => true,
            DXLinkError::Timeout(_) => true,
            DXLinkError::Channel(_) => true,
            DXLinkError::Authentication(_) => false,
            DXLinkError::Protocol(_) => false,
            DXLinkError::Serialization(_) => false,
            DXLinkError::UnexpectedMessage(_) => false,
            DXLinkError::Unknown(_) => false,
        },
{
}

/// An error ends the connection exactly where the transport or the connection
/// is gone, or the credential is refused.
pub proof fn what_ends_a_connection(failed: DXLinkError)
    ensures
        error::ends_connection(failed@) == match failed {
            DXLinkError::WebSocket(_) => true,
            DXLinkError::Connection(_) => true,
            DXLinkError::Authentication(_) => true,
            DXLinkError::Timeout(_) => false,
            DXLinkError::Channel(_) => false,
            DXLinkError::Protocol(_) => false,
            DXLinkError::Serialization(_) => false,
            DXLinkError::UnexpectedMessage(_) => false,
            DXLinkError::Unknown(_) => false,
        },
{
}

/// While attempts are left the supervisor waits, counts the attempt, and tells
/// of it with the delay that it waits; once they are used up it stops and says
/// that it gave up. A policy without a limit never runs out.
pub proof fn the_supervisor_goes_on_while_it_may(
    step: Step,
    told: Seq<StateTree>,
    after: SupervisorTree,
    before: SupervisorTree,
)
    requires
        supervisor::tries_again(step, told, after, before),
        before.attempt < u32::MAX,
    ensures
        ({
            let left = before.policy.max_attempts matches Some(limit) ==> before.attempt < limit;
            &&& left ==> {
                &&& step.next is Wait
                &&& after.attempt == before.attempt + 1
                &&& after.watching == Watching::Backoff
                &&& step.states@.len() == told.len() + 1
                &&& step.states@.last()@ == StateTree::Reconnecting(
                    (before.attempt + 1) as u32,
                    reconnect::nanos_of(step.next->Wait_0),
                )
            }
            &&& !left ==> {
                &&& step.next is Stop
                &&& after.attempt == before.attempt
                &&& after.watching == Watching::Over
                &&& step.states@.len() == told.len() + 1
                &&& step.states@.last()@ is GaveUp
            }
            &&& forall|i: int| 0 <= i < told.len() ==> (#[trigger] step.states@[i])@ == told[i]
            &&& after.policy == before.policy
            &&& after.reason == before.reason
            &&& !before.policy.jitter ==> after.seed == before.seed
        }),
{
    let trees = supervisor::state_trees(step.states@);
    assert(trees.len() == step.states@.len());
    assert(trees[trees.len() - 1] == step.states@.last()@);
    assert forall|i: int| 0 <= i < told.len() implies (#[trigger] step.states@[i])@ == told[i] by {
        assert(trees[i] == step.states@[i]@);
    }
}

/// Without jitter the wait before an attempt is the first wait doubled once for
/// each attempt before, no shorter than 50 milliseconds and no longer than the
/// longest wait of the policy: the supervisor waits exactly so long.
pub proof fn the_wait_is_the_doubled_one_within_its_bounds(
    policy: ReconnectPolicy,
    attempt: u32,
    before: SupervisorTree,
)
    ensures
        ({
            let shortest = 50_000_000int;
            let longest = if reconnect::nanos_of(policy.max_delay) < shortest {
                shortest
            } else {
                reconnect::nanos_of(policy.max_delay) as int
            };
            let full = reconnect::full_delay(policy, attempt);
            let wait = reconnect::backoff(policy, attempt);
            &&& shortest <= wait <= longest
            &&& shortest <= full <= longest ==> wait == full
            &&& full < shortest ==> wait == shortest
            &&& full > longest ==> wait == longest
        }),
        reconnect::full_delay(policy, 0) == reconnect::nanos_of(policy.initial_delay),
        reconnect::full_delay(policy, 1) == reconnect::nanos_of(policy.initial_delay),
        1 <= attempt < 32 ==> reconnect::full_delay(policy, (attempt + 1) as u32) == 2
            * reconnect::full_delay(policy, attempt),
        attempt >= 32 ==> reconnect::full_delay(policy, attempt) == reconnect::full_delay(
            policy,
            32,
        ),
        !before.policy.jitter && before.attempt < u32::MAX ==> supervisor::next_delay(before)
            == reconnect::backoff(before.policy, (before.attempt + 1) as u32),
{
}

/// A wait that is spread can be any wait between the shortest one and the full
/// one, and nothing else.
pub proof fn every_wait_can_be_drawn(delay: int, wait: int, random: u64)
    requires
        50_000_000 <= delay < u64::MAX,
        50_000_000 <= wait <= delay,
    ensures
        reconnect::spread(delay, wait as u64) == wait,
        50_000_000 <= reconnect::spread(delay, random) <= delay,
        random <= delay ==> reconnect::spread(delay, random) == if random < 50_000_000 {
            50_000_000int
        } else {
            random as int
        },
{
    assert(delay % 0x1_0000_0000_0000_0000 == delay);
    let range = delay + 1;
    assert(wait % range == wait) by (nonlinear_arith)
        requires
            0 <= wait < range,
    ;
    let drawn = random as int;
    assert(0 <= drawn % range < range) by (nonlinear_arith)
        requires
            range > 0,
    ;
    if drawn <= delay {
        assert(drawn % range == drawn) by (nonlinear_arith)
            requires
                0 <= drawn < range,
        ;
    }
}

/// Maintenance is sent three times within the deadline, and no more often than
/// that needs: the interval is the fewest whole seconds, at least one, of which
/// three reach the deadline. The deadline is what the server asked for, and
/// what the client advertised only where the server asked for nothing.
pub proof fn maintenance_is_sent_three_times_within_the_deadline(
    advertised: u32,
    negotiated: Option<u32>,
    fewer: int,
)
    ensures
        ({
            let deadline = match negotiated {
                Some(asked) => asked as int,
                None => advertised as int,
            };
            let every = reconnect::keepalive_secs(advertised, negotiated);
            &&& every >= 1
            &&& 3 * every >= deadline
            &&& 1 <= fewer < every ==> 3 * fewer < deadline
        }),
{
}

/// A seed that a time gives is odd and next to the time.
pub proof fn a_seed_is_odd(nanos: u32)
    ensures
        reconnect::seed_of(Some(nanos)) % 2 == 1,
        reconnect::seed_of(Some(nanos)) == nanos || reconnect::seed_of(Some(nanos)) == nanos + 1,
{
    let wide = nanos as u64;
    assert((wide | 1) % 2 == 1) by (bit_vector);
    assert((wide | 1) == wide || (wide | 1) == wide + 1) by (bit_vector);
}

/// Two generators that stand apart stay apart: no two states lead to the same
/// one.
pub proof fn generators_stay_apart(one: u64, other: u64)
    ensures
        one != other ==> reconnect::xorshift(one) != reconnect::xorshift(other),
{
    let a = one ^ (one << 13);
    let b = other ^ (other << 13);
    assert(one != other ==> a != b) by (bit_vector)
        requires
            a == one ^ (one << 13),
            b == other ^ (other << 13),
    ;
    let c = a ^ (a >> 7);
    let d = b ^ (b >> 7);
    assert(a != b ==> c != d) by (bit_vector)
        requires
            c == a ^ (a >> 7),
            d == b ^ (b >> 7),
    ;
    assert(c != d ==> c ^ (c << 17) != d ^ (d << 17)) by (bit_vector);
}

// ---------------------------------------------------------------------------
// Fields of a message
// ---------------------------------------------------------------------------
/// A field of an object is the first one of its name; an object without one has
/// none, and what is no object has no fields.
pub proof fn a_field_is_the_first_of_its_name(
    fields: wire::Fields,
    name: Seq<char>,
    i: int,
    other: JsonTree,
)
    ensures
        0 <= i < fields.len() && fields[i].0 == name && (forall|j: int|
            0 <= j < i ==> (#[trigger] fields[j]).0 != name) ==> json::field_of(
            JsonTree::Object(fields),
            name,
        ) == Some(fields[i].1),
        (forall|j: int| 0 <= j < fields.len() ==> (#[trigger] fields[j]).0 != name)
            ==> json::field_of(JsonTree::Object(fields), name) is None,
        !(other is Object) ==> json::field_of(other, name) is None,
    decreases fields.len(),
{
    if fields.len() > 0 && fields[0].0 != name {
        let rest = fields.drop_first();
        assert forall|j: int| 0 <= j < rest.len() implies #[trigger] rest[j] == fields[j + 1] by {}
        a_field_is_the_first_of_its_name(rest, name, i - 1, other);
        if 0 <= i < fields.len() && fields[i].0 == name && (forall|j: int|
            0 <= j < i ==> (#[trigger] fields[j]).0 != name) {
            assert forall|j: int| 0 <= j < i - 1 implies (#[trigger] rest[j]).0 != name by {
                assert(fields[j + 1].0 != name);
            }
        }
        if forall|j: int| 0 <= j < fields.len() ==> (#[trigger] fields[j]).0 != name {
            assert forall|j: int| 0 <= j < rest.len() implies (#[trigger] rest[j]).0 != name by {
                assert(fields[j + 1].0 != name);
            }
        }
    } else if fields.len() > 0 && 0 <= i < fields.len() && fields[i].0 == name {
        if i > 0 {
            assert(fields[0].0 == name);
        }
    }
}

/// A member of a message is read where it is of its kind, as it stands; one
/// that may be left out is nothing where it is missing or null; anything else
/// keeps the message from being read.
pub proof fn a_member_is_read_as_it_stands(value: JsonTree, name: Seq<char>)
    ensures
        match json::field_of(value, name) {
            Some(JsonTree::Text(text)) => {
                &&& wire::text_member(value, name) == Ok::<Seq<char>, Seq<char>>(text)
                &&& wire::maybe_text_member(value, name) == Ok::<Option<Seq<char>>, Seq<char>>(
                    Some(text),
                )
            },
            Some(JsonTree::Null) | None => {
                &&& wire::text_member(value, name) is Err
                &&& wire::maybe_text_member(value, name) == Ok::<Option<Seq<char>>, Seq<char>>(
                    None,
                )
            },
            Some(_) => {
                &&& wire::text_member(value, name) is Err
                &&& wire::maybe_text_member(value, name) is Err
            },
        },
        match json::field_of(value, name) {
            Some(JsonTree::Number(NumberTree::Integer(n))) => if 0 <= n <= u32::MAX {
                &&& wire::whole_member(value, name) == Ok::<u32, Seq<char>>(n as u32)
                &&& wire::maybe_whole_member(value, name) == Ok::<Option<u32>, Seq<char>>(
                    Some(n as u32),
                )
            } else {
                &&& wire::whole_member(value, name) is Err
                &&& wire::maybe_whole_member(value, name) is Err
            },
            Some(JsonTree::Null) | None => {
                &&& wire::whole_member(value, name) is Err
                &&& wire::maybe_whole_member(value, name) == Ok::<Option<u32>, Seq<char>>(None)
            },
            Some(_) => {
                &&& wire::whole_member(value, name) is Err
                &&& wire::maybe_whole_member(value, name) is Err
            },
        },
        match json::field_of(value, name) {
            Some(JsonTree::Number(n)) => wire::number_member(value, name) == Ok::<
                NumberTree,
                Seq<char>,
            >(NumberTree::Double(json::double_text(n))),
            _ => wire::number_member(value, name) is Err,
        },
{
}

/// What a configuration says is what stands in its message: the channel, the
/// format, and for each type the columns that are listed for it, in order.
pub proof fn a_configuration_says_what_it_names(
    config: FeedConfigMessage,
    value: JsonTree,
    listed: wire::Fields,
    lists: Map<Seq<char>, Seq<Seq<char>>>,
)
    requires
        config.is_said_by(value),
    ensures
        json::field_of(value, "channel"@) == Some(
            JsonTree::Number(NumberTree::Integer(config.channel as int)),
        ),
        json::field_of(value, "type"@) == Some(JsonTree::Text(config.message_type@)),
        json::field_of(value, "dataFormat"@) == Some(JsonTree::Text(config.data_format@)),
        json::field_of(value, "aggregationPeriod"@) is Some,
        config.event_fields is None <==> json::field_of(value, "eventFields"@) is None
            || json::field_of(value, "eventFields"@) == Some(JsonTree::Null),
        json::field_of(value, "eventFields"@) == Some(JsonTree::Object(listed))
            && wire::lists_columns(listed, lists) ==> config.event_fields is Some
            && config.event_fields->0@ == lists,
{
    a_member_is_read_as_it_stands(value, "channel"@);
    a_member_is_read_as_it_stands(value, "type"@);
    a_member_is_read_as_it_stands(value, "dataFormat"@);
    if wire::lists_columns(listed, lists) {
        wire::columns_round_trip(listed, lists);
    }
}

/// An object lists the columns of each type where every field is an array of
/// the texts of those columns, in order.
pub proof fn columns_are_listed_in_order(columns: Seq<Seq<char>>, i: int)
    requires
        0 <= i < columns.len(),
    ensures
        wire::text_array(columns) is Array,
        wire::text_array(columns)->Array_0.len() == columns.len(),
        wire::text_array(columns)->Array_0[i] == JsonTree::Text(columns[i]),
        wire::texts_of(wire::text_array(columns)) == Some(columns),
{
    wire::texts_round_trip(columns);
}

/// A message can be read as one of its type exactly where the members that the
/// type needs are there and each is of its kind.
pub proof fn what_a_message_needs(value: JsonTree)
    ensures
        wire::server_setup_complaint(value) is None <==> wire::whole_member(value, "channel"@) is Ok
            && wire::text_member(value, "type"@) is Ok && wire::maybe_text_member(
            value,
            "version"@,
        ) is Ok && wire::maybe_whole_member(value, "keepaliveTimeout"@) is Ok,
        wire::auth_state_complaint(value) is None <==> wire::whole_member(value, "channel"@) is Ok
            && wire::text_member(value, "type"@) is Ok && wire::text_member(value, "state"@) is Ok
            && wire::maybe_text_member(value, "userId"@) is Ok,
        wire::error_complaint(value) is None <==> wire::whole_member(value, "channel"@) is Ok
            && wire::text_member(value, "type"@) is Ok && wire::text_member(value, "error"@) is Ok
            && wire::text_member(value, "message"@) is Ok,
        wire::feed_config_complaint(value) is None <==> wire::whole_member(value, "channel"@) is Ok
            && wire::text_member(value, "type"@) is Ok && wire::number_member(
            value,
            "aggregationPeriod"@,
        ) is Ok && wire::text_member(value, "dataFormat"@) is Ok && wire::maybe_lists_member(
            value,
            "eventFields"@,
        ) is Ok,
{
}

// ---------------------------------------------------------------------------
// The handshake
// ---------------------------------------------------------------------------
/// A deadline that the server names is honoured: every number of seconds from
/// one on is what is negotiated, and maintenance is then sent at least once
/// within it. A zero, a null and silence are no deadline.
pub proof fn a_deadline_that_is_named_is_honoured(value: JsonTree, advertised: u32)
    ensures
        ({
            let asked = wire::maybe_whole_member(value, "keepaliveTimeout"@);
            match json::field_of(value, "keepaliveTimeout"@) {
                Some(JsonTree::Number(NumberTree::Integer(n))) => if 1 <= n <= u32::MAX {
                    &&& asked is Ok
                    &&& handshake::asked_deadline(asked->Ok_0) == Some(n as u32)
                    &&& 1 <= reconnect::keepalive_secs(
                        advertised,
                        handshake::asked_deadline(asked->Ok_0),
                    ) <= n
                } else if n == 0 {
                    asked is Ok && handshake::asked_deadline(asked->Ok_0) is None
                } else {
                    asked is Err
                },
                Some(JsonTree::Null) | None => asked is Ok && handshake::asked_deadline(
                    asked->Ok_0,
                ) is None,
                Some(_) => asked is Err,
            }
        }),
        forall|seconds: u32|
            seconds >= 1 ==> #[trigger] handshake::asked_deadline(Some(seconds)) == Some(seconds),
        handshake::asked_deadline(Some(0)) is None,
        handshake::asked_deadline(None) is None,
{
}

/// Each point of the handshake waits for one message, all of them on channel
/// zero: first the server's set-up, then its word on the authorization.
pub proof fn what_the_handshake_waits_for()
    ensures
        handshake::due_in(Phase::Setup) == (DueTree {
            state: "SETUP"@,
            expected_type: "SETUP"@,
            channel: 0,
        }),
        handshake::due_in(Phase::AuthState) == (DueTree {
            state: "SETUP"@,
            expected_type: "AUTH_STATE"@,
            channel: 0,
        }),
        handshake::due_in(Phase::Authorization) == (DueTree {
            state: "AUTH"@,
            expected_type: "AUTH_STATE"@,
            channel: 0,
        }),
{
}

/// An answer is taken exactly where it is the message that is due, on the
/// channel on which it is due. An error of the server is reported as such, and
/// as a matter of the credential where the server says UNAUTHORIZED in any
/// case; anything else is a breach of the protocol.
pub proof fn only_what_is_due_is_taken(phase: Phase, value: JsonTree)
    requires
        phase != Phase::Established,
    ensures
        ({
            let due = handshake::due_in(phase);
            let says = json::field_of(value, "type"@);
            let objection = handshake::objection(due, value);
            &&& objection is None <==> says == Some(
                JsonTree::Text(
                    if phase == Phase::Setup {
                        "SETUP"@
                    } else {
                        "AUTH_STATE"@
                    },
                ),
            ) && json::field_of(value, "channel"@) == Some(
                JsonTree::Number(NumberTree::Integer(0)),
            )
            &&& says == Some(JsonTree::Text("ERROR"@)) ==> {
                let code = match json::field_of(value, "error"@) {
                    Some(JsonTree::Text(code)) => code,
                    _ => "unknown"@,
                };
                &&& objection is Some
                &&& if text::ascii_lowered(connection::sanitized(code)) == text::ascii_lowered(
                    "UNAUTHORIZED"@,
                ) {
                    objection->0 is Authentication
                } else {
                    objection->0 is Protocol
                }
            }
            &&& says != Some(JsonTree::Text("ERROR"@)) && objection is Some
                ==> objection->0 is Protocol
        }),
{
    reveal_strlit("SETUP");
    reveal_strlit("AUTH_STATE");
    reveal_strlit("ERROR");
    reveal_strlit("<missing type>");
    assert("SETUP"@.len() == 5 && "AUTH_STATE"@.len() == 10 && "ERROR"@.len() == 5);
    assert("SETUP"@[0] != "ERROR"@[0]);
    assert("<missing type>"@.len() == 14);
}

/// An answer that does not come in time is a timeout, and one that is no JSON
/// is a breach of the protocol.
pub proof fn silence_and_noise_end_the_handshake(due: DueTree, raw: Seq<char>)
    ensures
        handshake::reply_objection(due, None) is Some,
        handshake::reply_objection(due, None)->0 is Timeout,
        json::parsed(raw) is Err ==> handshake::reply_objection(due, Some(raw)) is Some
            && handshake::reply_objection(due, Some(raw))->0 is Protocol,
        json::parsed(raw) is Ok ==> handshake::reply_objection(due, Some(raw))
            == handshake::objection(due, json::parsed(raw)->Ok_0),
{
}

/// The session is established exactly where the server says AUTHORIZED. The
/// credential goes out once: where the server says UNAUTHORIZED before any was
/// sent, and then it is the credential of the client, on channel zero. After it
/// went out, anything but AUTHORIZED is a matter of the credential.
pub proof fn the_credential_goes_out_once(
    state: Seq<char>,
    token: Seq<char>,
    before: HandshakeTree,
    after: HandshakeTree,
    r: DXLinkResult<HandshakeStep>,
)
    requires
        handshake::answers_state(state, token, before, after, r),
        before.phase == Phase::AuthState || before.phase == Phase::Authorization,
    ensures
        r matches Ok(HandshakeStep::Established) <==> state == "AUTHORIZED"@,
        after.phase == Phase::Established <==> state == "AUTHORIZED"@,
        r is Ok && r->Ok_0 is Authenticate <==> before.phase == Phase::AuthState && state
            == "UNAUTHORIZED"@,
        r is Ok && r->Ok_0 is Authenticate ==> {
            let auth = r->Ok_0->Authenticate_0;
            &&& auth.channel == 0
            &&& auth.message_type@ == "AUTH"@
            &&& auth.token@ == token
            &&& after.phase == Phase::Authorization
        },
        r is Err ==> after == before,
        r is Err && before.phase == Phase::Authorization ==> r->Err_0@ is Authentication,
        r is Err && before.phase == Phase::AuthState ==> r->Err_0@ is Protocol,
        after.negotiated == before.negotiated,
        after.keepalive_timeout == before.keepalive_timeout,
{
    reveal_strlit("AUTHORIZED");
    reveal_strlit("UNAUTHORIZED");
    assert("AUTHORIZED"@.len() == 10 && "UNAUTHORIZED"@.len() == 12);
}

// ---------------------------------------------------------------------------
// Requests
// ---------------------------------------------------------------------------
/// A message answers the first request that waits for its type on its channel;
/// an error on a channel answers the first that waits on that channel, whatever
/// it waits for. Nobody who waits for something else gets it.
pub proof fn an_answer_finds_the_first_who_waits(
    before: Seq<RequestTree>,
    request: RequestTree,
    behind: Seq<RequestTree>,
    message_type: Seq<char>,
    channel: u32,
)
    requires
        request.channel_id is None || request.channel_id == Some(channel),
        request.expected_type == message_type || message_type == "ERROR"@,
        forall|i: int|
            0 <= i < before.len() ==> {
                ||| (#[trigger] before[i]).channel_id matches Some(other) && other != channel
                ||| before[i].expected_type != message_type && message_type != "ERROR"@
            },
    ensures
        requests::answered(before + seq![request] + behind, message_type, Some(channel)) == Some(
            before.len() as int,
        ),
        requests::answered(before, message_type, Some(channel)) is None,
{
    let all = before + seq![request] + behind;
    requests::the_first_in_line_is_answered(all, message_type, Some(channel));
    requests::the_first_in_line_is_answered(before, message_type, Some(channel));
    let n = before.len() as int;
    assert(all[n] == request);
    assert(requests::answers(all[n], message_type, Some(channel)));
    assert forall|i: int| 0 <= i < n implies !requests::answers(
        #[trigger] all[i],
        message_type,
        Some(channel),
    ) by {
        assert(all[i] == before[i]);
    }
    assert forall|i: int| 0 <= i < n implies !requests::answers(
        #[trigger] before[i],
        message_type,
        Some(channel),
    ) by {}
}

/// A message without a channel answers only who waits for its type on any
/// channel.
pub proof fn a_message_without_a_channel_answers_few(
    request: RequestTree,
    message_type: Seq<char>,
)
    ensures
        requests::answers(request, message_type, None) <==> request.channel_id is None
            && request.expected_type == message_type,
{
}

/// What a request comes to: an error that kept it from going out is handed on;
/// an error of the server is one of its kind, by its code in any case; whoever
/// waited in vain times out; and any other answer is no failure.
pub proof fn what_a_request_comes_to(
    ticket: TicketTree,
    outcome: Outcome,
    code: Seq<char>,
    message: Seq<char>,
)
    ensures
        match outcome {
            Outcome::NotSent(e) => client::failure(ticket, outcome) == Some(e@),
            Outcome::Answered(ResponseType::Error(c, m)) => client::failure(ticket, outcome)
                == Some(requests::server_error(ticket, c@, m@)),
            Outcome::Answered(_) => client::failure(ticket, outcome) is None,
            Outcome::Abandoned => client::failure(ticket, outcome) is Some && client::failure(
                ticket,
                outcome,
            )->0 is Protocol,
            Outcome::TimedOut => client::failure(ticket, outcome) is Some && client::failure(
                ticket,
                outcome,
            )->0 is Timeout,
        },
        ({
            let kind = requests::server_error(ticket, code, message);
            let lowered = text::ascii_lowered(code);
            &&& kind is Authentication <==> lowered == text::ascii_lowered("UNAUTHORIZED"@)
            &&& kind is Channel <==> lowered == text::ascii_lowered("INVALID_CHANNEL"@) || lowered
                == text::ascii_lowered("UNKNOWN_CHANNEL"@)
            &&& kind is Timeout <==> lowered == text::ascii_lowered("TIMEOUT"@)
            &&& kind is Authentication || kind is Channel || kind is Timeout || kind is Protocol
        }),
{
    reveal_strlit("UNAUTHORIZED");
    reveal_strlit("INVALID_CHANNEL");
    reveal_strlit("UNKNOWN_CHANNEL");
    reveal_strlit("TIMEOUT");
    assert(text::ascii_lowered("UNAUTHORIZED"@).len() == 12);
    assert(text::ascii_lowered("INVALID_CHANNEL"@).len() == 15);
    assert(text::ascii_lowered("UNKNOWN_CHANNEL"@).len() == 15);
    assert(text::ascii_lowered("TIMEOUT"@).len() == 7);
}

/// A request that is made waits behind the others, for its own type on its own
/// channel; once it ends it waits no more, and the others still do.
pub proof fn a_request_waits_until_it_ends(
    client: ClientTree,
    ticket: TicketTree,
    other: RequestTree,
)
    ensures
        ({
            let made = client::registered(client, ticket);
            let ended = client::settled(client, ticket.id);
            &&& made.pending.requests == client.pending.requests.push(
                RequestTree {
                    id: ticket.id,
                    expected_type: ticket.expected_type,
                    channel_id: Some(ticket.channel),
                },
            )
            &&& made.pending.last_id == ticket.id
            &&& made == (ClientTree { pending: made.pending, ..client })
            &&& ended == (ClientTree { pending: ended.pending, ..client })
            &&& ended.pending.last_id == client.pending.last_id
            &&& requests::has_distinct_ids(client.pending) ==> (ended.pending.requests.contains(
                other,
            ) <==> client.pending.requests.contains(other) && other.id != ticket.id)
        }),
{
    if requests::has_distinct_ids(client.pending) {
        requests::forgetting_removes_one_request(client.pending, ticket.id, other);
    }
}

// ---------------------------------------------------------------------------
// Channels and feeds
// ---------------------------------------------------------------------------
/// A channel can be used exactly where it is open for the service that is
/// meant; otherwise it is the channel that is at fault.
pub proof fn an_open_channel_can_be_used(
    channels: Map<u32, Seq<char>>,
    channel: u32,
    service: Seq<char>,
)
    ensures
        client::channel_error(channels, channel, service) is None <==> channels.contains_key(channel)
            && channels[channel] == service,
        client::channel_error(channels, channel, service) matches Some(e) ==> e is Channel,
{
}

/// A channel that the server opens can be used from then on, with the contract
/// that it was asked for with, and the others are as before. One that the server
/// closes is gone, with its contract, its layout and its subscriptions.
pub proof fn a_channel_opens_and_closes(
    client: ClientTree,
    channel: u32,
    contract: Seq<char>,
    other: u32,
    entry: TrackedTree,
)
    ensures
        ({
            let opened = client::with_channel(client, channel, contract);
            let closed = client::without_channel(client, channel);
            &&& client::channel_error(opened.channels, channel, "FEED"@) is None
            &&& client::known_channel(opened, channel) == (client::KnownTree {
                channel,
                service: "FEED"@,
                contract,
            })
            &&& other != channel ==> (opened.channels.contains_key(other)
                == client.channels.contains_key(other)) && (client.channels.contains_key(other)
                ==> client::known_channel(opened, other) == client::known_channel(client, other))
            &&& opened.schemas == client.schemas
            &&& opened.subscriptions == client.subscriptions
            &&& opened.next_channel_id == client.next_channel_id
            &&& client::channel_error(closed.channels, channel, "FEED"@) is Some
            &&& !closed.contracts.contains_key(channel)
            &&& !closed.schemas.contains_key(channel)
            &&& closed.subscriptions.contains(entry) <==> client.subscriptions.contains(entry)
                && entry.channel != channel
            &&& closed.pending == client.pending
            &&& closed.next_channel_id == client.next_channel_id
            &&& closed.connected == client.connected
        }),
{
    channels_are_kept_apart(client.subscriptions, Seq::empty(), channel, entry);
}

/// A channel is opened or closed only by the answer that says so of that
/// channel.
pub proof fn only_its_own_answer_settles_a_channel(response: ResponseType, channel: u32)
    ensures
        client::channel_answer(response, channel) is None <==> response
            == ResponseType::ChannelOpened(channel),
        client::close_answer(response, channel) is None <==> response
            == ResponseType::ChannelClosed(channel),
        client::channel_answer(response, channel) matches Some(e) ==> e is Channel || e is Protocol,
        client::close_answer(response, channel) matches Some(e) ==> e is Channel || e is Protocol,
{
}

/// A feed can be asked for exactly where there is something to ask for and all
/// of it can be decoded.
pub proof fn what_a_feed_can_be_asked_for(channel: u32, event_types: Seq<EventType>)
    ensures
        client::feed_error(channel, event_types) is None <==> event_types.len() > 0 && forall|i: int|
            0 <= i < event_types.len() ==> events::columns(#[trigger] event_types[i]) is Some,
        client::feed_error(channel, event_types) matches Some(e) ==> e is Protocol,
{
    undecodable_from(channel, event_types, 0);
}

proof fn undecodable_from(channel: u32, event_types: Seq<EventType>, from: int)
    requires
        0 <= from,
    ensures
        client::undecodable_error(channel, event_types, from) is None <==> forall|i: int|
            from <= i < event_types.len() ==> events::columns(#[trigger] event_types[i]) is Some,
        client::undecodable_error(channel, event_types, from) matches Some(e) ==> e is Protocol,
    decreases event_types.len() - from,
{
    if from < event_types.len() {
        undecodable_from(channel, event_types, from + 1);
        if !events::is_decodable(event_types[from]) {
            assert(events::columns(event_types[from]) is None);
        }
    }
}

/// A change of subscriptions may be sent exactly where the channel is open for
/// a feed and configured, every subscription is of a type that the channel is
/// configured for and that can be decoded, and there is a connection. What is
/// then sent is what was asked, with the type that each subscription names.
pub proof fn a_change_is_sent_as_it_was_asked(
    result: DXLinkResult<SubscriptionChange>,
    client: ClientTree,
    channel: u32,
    list: Seq<messages::FeedSubscription>,
    kind: ChangeKind,
)
    requires
        client::prepares(result, client, channel, list, kind),
    ensures
        result is Ok <==> {
            &&& client.channels.contains_key(channel) && client.channels[channel] == "FEED"@
            &&& client.schemas.contains_key(channel)
            &&& client.connected
            &&& forall|i: int|
                0 <= i < list.len() ==> client.schemas[channel].contains_key(
                    (#[trigger] list[i])@.event_type,
                ) && exists|t: EventType| #[trigger]
                    events::wire_name(t) == list[i]@.event_type && events::columns(t) is Some
        },
        result matches Ok(change) ==> {
            &&& change.channel == channel
            &&& change.kind == kind
            &&& change.subscriptions@ == list
            &&& change.types@.len() == list.len()
            &&& forall|i: int|
                0 <= i < list.len() ==> events::wire_name(change.types@[i]) == (
                #[trigger] list[i])@.event_type
        },
{
    if client.schemas.contains_key(channel) {
        let configured = client.schemas[channel];
        assert forall|i: int| 0 <= i < list.len() implies schema::is_accepted(
            (#[trigger] list[i])@,
            configured,
        ) == (configured.contains_key(list[i]@.event_type) && exists|t: EventType| #[trigger]
            events::wire_name(t) == list[i]@.event_type && events::columns(t) is Some) by {
            what_may_be_subscribed(list[i]@, configured);
        }
        if client::accepts_all(list, configured) {
            assert forall|i: int| 0 <= i < list.len() implies configured.contains_key(
                (#[trigger] list[i])@.event_type,
            ) && exists|t: EventType| #[trigger]
                events::wire_name(t) == list[i]@.event_type && events::columns(t) is Some by {
                assert(schema::is_accepted(list[i]@, configured));
            }
        }
        if forall|i: int|
            0 <= i < list.len() ==> configured.contains_key((#[trigger] list[i])@.event_type)
                && exists|t: EventType| #[trigger]
                events::wire_name(t) == list[i]@.event_type && events::columns(t) is Some {
            assert(client::accepts_all(list, configured));
        }
    }
    if let Ok(change) = result {
        assert forall|i: int| 0 <= i < list.len() implies events::wire_name(change.types@[i]) == (
        #[trigger] list[i])@.event_type by {
            events::wire_names_round_trip(change.types@[i], list[i]@.event_type);
        }
    }
}

/// To disconnect forgets the session and keeps the client: what was set on it,
/// what it counted, and the numbers that it has handed out.
pub proof fn a_disconnect_keeps_what_was_set(client: ClientTree)
    ensures
        ({
            let after = client::after_disconnect(client);
            &&& !after.connected
            &&& after.server_keepalive_timeout is None
            &&& after.channels == Map::<u32, Seq<char>>::empty()
            &&& after.contracts == Map::<u32, Seq<char>>::empty()
            &&& after.schemas == Map::<u32, schema::SchemaTree>::empty()
            &&& after.subscriptions == Seq::<TrackedTree>::empty()
            &&& after.pending.requests == Seq::<RequestTree>::empty()
            &&& after.disconnect_reason is None
            &&& after.state_stream is None
            &&& !after.event_stream_taken
            &&& after.url == client.url
            &&& after.token == client.token
            &&& after.keepalive_timeout == client.keepalive_timeout
            &&& after.reconnect == client.reconnect
            &&& after.event_buffer == client.event_buffer
            &&& after.overflow == client.overflow
            &&& after.dropped_events == client.dropped_events
            &&& after.next_channel_id == client.next_channel_id
            &&& after.pending.last_id == client.pending.last_id
            &&& after.streams_opened == client.streams_opened
        }),
{
}

/// To connect marks the connection and takes on what the server asked for, and
/// leaves the rest of the client as it is.
pub proof fn a_connect_takes_on_what_was_negotiated(client: ClientTree, negotiated: Option<u32>)
    ensures
        ({
            let after = client::after_connect(client::before_connect(client), negotiated);
            &&& after.connected
            &&& after.server_keepalive_timeout == negotiated
            &&& after.event_stream_taken
            &&& after.disconnect_reason is None
            &&& after == (ClientTree {
                connected: true,
                server_keepalive_timeout: negotiated,
                event_stream_taken: true,
                disconnect_reason: None,
                state_stream: after.state_stream,
                streams_opened: after.streams_opened,
                ..client
            })
        }),
{
}

} // verus!
