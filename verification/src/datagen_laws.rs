//! What a data generation log gives back of what it was given.

use vstd::prelude::*;

use crate::batch::{
    cell_text, column_names, fit_failure, has_null, lemma_columns_fit, scanned, BatchView,
};
use crate::collect::lemma_all_succeed;
use crate::datagen_codec::{datagen_cell, datagen_cells, events_encoded};
use crate::datagen_columns::{
    datagen_columns, datagen_field, datagen_name, datagen_position, datagen_table, datagen_type,
    law_datagen_names_are_distinct, lemma_datagen_positions, DatagenColumn,
};
use crate::datagen_decode::{
    checked_event, event_header_failure, event_of, event_read, events_decoded, value_read,
    words_failure, VerdictView,
};
use crate::datagen_event::{BlobView, EventView, ValueView};
use crate::error::Failure;
use crate::outside::{json_compact, timestamp_in_range};
use crate::read::{large_text_field, text_field};
use crate::schema::{
    find_name, lemma_find_name, lemma_find_name_exists, lemma_find_name_is, lemma_find_name_none,
    names_of, DataType, Scalar,
};

verus! {

/// The names of a log's columns.
pub open spec fn log_names() -> Seq<Seq<char>> {
    names_of(datagen_table().fields)
}

/// The names of a log's columns without the blobs.
pub open spec fn log_names_without_blobs() -> Seq<Seq<char>> {
    log_names().filter(|name: Seq<char>| name != "value_blob"@)
}

/// A value whose blob was left behind.
pub open spec fn value_without_bytes(value: Option<ValueView>) -> Option<ValueView> {
    match value {
        Some(ValueView::Blob(blob)) => Some(ValueView::Blob(BlobView { bytes: None, ..blob })),
        _ => value,
    }
}

/// An event whose blob was left behind.
pub open spec fn without_bytes(event: EventView) -> EventView {
    EventView { value: value_without_bytes(event.value), ..event }
}

/// An event as the log keeps it: its time is cut to the microsecond.
pub open spec fn as_kept(event: EventView) -> EventView {
    EventView { event_ts_below: 0, ..event }
}

/// A JSON text as it is written.
pub open spec fn is_compact(text: Seq<char>) -> bool {
    json_compact(text) == Ok::<Seq<char>, Seq<char>>(text)
}

/// The event's time is a point in time, and its JSON is as it is written.
pub open spec fn event_readable(event: EventView) -> bool {
    &&& timestamp_in_range(event.event_ts)
    &&& event.query_tags is Some ==> is_compact(event.query_tags->Some_0)
    &&& match event.value {
        Some(ValueView::Json(text)) => is_compact(text),
        _ => true,
    }
}

/// The vocabulary accepts every row.
pub open spec fn all_accepted(verdicts: Seq<VerdictView>) -> bool {
    forall|i: int|
        0 <= i < verdicts.len() ==> #[trigger] verdicts[i] == (VerdictView {
            event_type: None,
            step_kind: None,
            status: None,
            validity: None,
        })
}

/// Whether a column is read.
spec fn is_read(column: DatagenColumn, blobs: bool) -> bool {
    blobs || column != DatagenColumn::ValueBlob
}

/// The batch holds the columns of the events, with or without the blobs.
#[verifier::opaque]
spec fn holds(batch: BatchView, events: Seq<EventView>, blobs: bool) -> bool {
    forall|column: DatagenColumn|
        {
            let found = batch.find(#[trigger] datagen_name(column));
            if is_read(column, blobs) {
                &&& found is Some
                &&& 0 <= found->Some_0 < batch.columns.len()
                &&& batch.columns[found->Some_0] == datagen_cells(events, column)
            } else {
                found is None
            }
        }
}

proof fn lemma_whole_batch(events: Seq<EventView>, column: DatagenColumn)
    ensures
        column_names(events_encoded(events).columns) == log_names(),
        events_encoded(events).find(datagen_name(column)) == Some(datagen_position(column)),
        find_name(log_names(), datagen_name(column)) == Some(datagen_position(column)),
        0 <= datagen_position(column) < events_encoded(events).columns.len(),
        events_encoded(events).columns[datagen_position(column)] == datagen_cells(events, column),
{
    let names = log_names();
    lemma_datagen_positions();
    assert(column_names(events_encoded(events).columns) =~= names);
    let at = datagen_position(column);
    assert(datagen_columns()[at] == column);
    assert(names[at] == datagen_name(column));
    assert forall|j: int| 0 <= j < at implies #[trigger] names[j] != datagen_name(column) by {
        assert(names[j] == datagen_name(datagen_columns()[j]));
        assert(datagen_position(datagen_columns()[j]) == j);
        if names[j] == datagen_name(column) {
            law_datagen_names_are_distinct(datagen_columns()[j], column);
        }
    }
    lemma_find_name_is(names, datagen_name(column), at);
}

proof fn lemma_whole_holds(events: Seq<EventView>)
    ensures
        holds(events_encoded(events), events, true),
{
    reveal(holds);
    assert forall|column: DatagenColumn| #![trigger datagen_name(column)] {
        let found = events_encoded(events).find(datagen_name(column));
        &&& found is Some
        &&& 0 <= found->Some_0 < events_encoded(events).columns.len()
        &&& events_encoded(events).columns[found->Some_0] == datagen_cells(events, column)
    } by {
        lemma_whole_batch(events, column);
    }
}

proof fn lemma_names_without_blobs(column: DatagenColumn)
    ensures
        log_names_without_blobs().contains(datagen_name(column)) == (column
            != DatagenColumn::ValueBlob),
{
    let keep = |name: Seq<char>| name != "value_blob"@;
    let names = log_names();
    let kept = log_names_without_blobs();
    lemma_datagen_positions();
    let at = datagen_position(column);
    assert(names[at] == datagen_name(column));
    if column != DatagenColumn::ValueBlob {
        if datagen_name(column) == datagen_name(DatagenColumn::ValueBlob) {
            law_datagen_names_are_distinct(column, DatagenColumn::ValueBlob);
        }
        names.lemma_filter_contains(keep, at);
    } else if kept.contains(datagen_name(column)) {
        let i = choose|i: int| 0 <= i < kept.len() && kept[i] == datagen_name(column);
        names.lemma_filter_pred(keep, i);
    }
}

proof fn lemma_scan_holds(events: Seq<EventView>)
    ensures
        holds(scanned(events_encoded(events), log_names_without_blobs()), events, false),
{
    let whole = events_encoded(events);
    let names = log_names_without_blobs();
    let batch = scanned(whole, names);
    let keep = |name: Seq<char>| name != "value_blob"@;
    lemma_whole_batch(events, DatagenColumn::EventId);
    assert forall|i: int| 0 <= i < names.len() implies #[trigger] column_names(batch.columns)[i]
        == names[i] by {
        assert(names.contains(names[i]));
        log_names().lemma_filter_contains_rev(keep, names[i]);
        let j = choose|j: int| 0 <= j < log_names().len() && log_names()[j] == names[i];
        lemma_find_name_exists(log_names(), names[i], j);
        lemma_find_name(log_names(), names[i]);
    }
    assert(column_names(batch.columns) =~= names);
    reveal(holds);
    assert forall|column: DatagenColumn| #![trigger datagen_name(column)] {
        let found = batch.find(datagen_name(column));
        if is_read(column, false) {
            &&& found is Some
            &&& 0 <= found->Some_0 < batch.columns.len()
            &&& batch.columns[found->Some_0] == datagen_cells(events, column)
        } else {
            found is None
        }
    } by {
        let name = datagen_name(column);
        lemma_names_without_blobs(column);
        if column != DatagenColumn::ValueBlob {
            let at = choose|at: int| 0 <= at < names.len() && names[at] == name;
            lemma_find_name_exists(names, name, at);
            lemma_find_name(names, name);
            lemma_whole_batch(events, column);
        } else {
            assert forall|j: int| 0 <= j < names.len() implies #[trigger] names[j] != name by {
                assert(names.contains(names[j]));
            }
            lemma_find_name_none(names, name);
        }
    }
}

proof fn lemma_column(batch: BatchView, events: Seq<EventView>, blobs: bool, column: DatagenColumn)
    requires
        holds(batch, events, blobs),
    ensures
        ({
            let found = batch.find(datagen_name(column));
            if is_read(column, blobs) {
                &&& found is Some
                &&& 0 <= found->Some_0 < batch.columns.len()
                &&& batch.columns[found->Some_0].data_type == datagen_type(column)
                &&& batch.columns[found->Some_0].cells.len() == events.len()
                &&& forall|row: int|
                    0 <= row < events.len() ==> #[trigger] batch.columns[found->Some_0].cells[row]
                        == datagen_cell(events[row], column)
            } else {
                found is None
            }
        }),
{
    reveal(holds);
}

proof fn lemma_header(batch: BatchView, events: Seq<EventView>, blobs: bool)
    requires
        holds(batch, events, blobs),
    ensures
        event_header_failure(batch) is None,
{
    lemma_column(batch, events, blobs, DatagenColumn::EventId);
    lemma_column(batch, events, blobs, DatagenColumn::ItemId);
    lemma_column(batch, events, blobs, DatagenColumn::RootItemId);
    lemma_column(batch, events, blobs, DatagenColumn::ItemSeq);
    lemma_column(batch, events, blobs, DatagenColumn::CheckpointId);
    lemma_column(batch, events, blobs, DatagenColumn::EventType);
    lemma_column(batch, events, blobs, DatagenColumn::Attempt);
    lemma_column(batch, events, blobs, DatagenColumn::RunId);
    lemma_column(batch, events, blobs, DatagenColumn::WriterEpoch);
    lemma_column(batch, events, blobs, DatagenColumn::EventTs);
    lemma_column(batch, events, blobs, DatagenColumn::SchemaVersion);
}

proof fn lemma_text(
    batch: BatchView,
    events: Seq<EventView>,
    blobs: bool,
    column: DatagenColumn,
    row: int,
)
    requires
        holds(batch, events, blobs),
        datagen_type(column) == DataType::Scalar(Scalar::Utf8),
        0 <= row < events.len(),
    ensures
        text_field(batch, datagen_name(column), row) == cell_text(
            datagen_cell(events[row], column),
        ),
{
    lemma_column(batch, events, blobs, column);
}

proof fn lemma_large_text(
    batch: BatchView,
    events: Seq<EventView>,
    blobs: bool,
    column: DatagenColumn,
    row: int,
)
    requires
        holds(batch, events, blobs),
        datagen_type(column) == DataType::Scalar(Scalar::LargeUtf8),
        0 <= row < events.len(),
    ensures
        large_text_field(batch, datagen_name(column), row) == cell_text(
            datagen_cell(events[row], column),
        ),
{
    lemma_column(batch, events, blobs, column);
}

/// No two kinds of value share a word.
proof fn lemma_kind_words()
    ensures
        "int"@ != "float"@,
        "int"@ != "bool"@,
        "int"@ != "str"@,
        "int"@ != "json"@,
        "int"@ != "blob"@,
        "float"@ != "bool"@,
        "float"@ != "str"@,
        "float"@ != "json"@,
        "float"@ != "blob"@,
        "bool"@ != "str"@,
        "bool"@ != "json"@,
        "bool"@ != "blob"@,
        "str"@ != "json"@,
        "str"@ != "blob"@,
        "json"@ != "blob"@,
{
    reveal_strlit("int");
    assert("int"@.len() == 3 && "int"@[0] == 'i');
    reveal_strlit("float");
    assert("float"@.len() == 5);
    reveal_strlit("bool");
    assert("bool"@.len() == 4 && "bool"@[0] == 'b' && "bool"@[1] == 'o');
    reveal_strlit("str");
    assert("str"@.len() == 3 && "str"@[0] == 's');
    reveal_strlit("json");
    assert("json"@.len() == 4 && "json"@[0] == 'j');
    reveal_strlit("blob");
    assert("blob"@.len() == 4 && "blob"@[0] == 'b' && "blob"@[1] == 'l');
}

/// The value that a read gives back.
spec fn kept_value(value: Option<ValueView>, blobs: bool) -> Option<ValueView> {
    if blobs {
        value
    } else {
        value_without_bytes(value)
    }
}

proof fn lemma_value(batch: BatchView, events: Seq<EventView>, blobs: bool, row: int)
    requires
        holds(batch, events, blobs),
        0 <= row < events.len(),
        event_readable(events[row]),
    ensures
        value_read(batch, row) == Ok::<Option<ValueView>, Failure>(
            kept_value(events[row].value, blobs),
        ),
{
    lemma_kind_words();
    lemma_text(batch, events, blobs, DatagenColumn::ValueKind, row);
    match events[row].value {
        None => {},
        Some(ValueView::Int(_)) => {
            lemma_column(batch, events, blobs, DatagenColumn::ValueI64);
        },
        Some(ValueView::Float(_)) => {
            lemma_column(batch, events, blobs, DatagenColumn::ValueF64);
        },
        Some(ValueView::Bool(_)) => {
            lemma_column(batch, events, blobs, DatagenColumn::ValueBool);
        },
        Some(ValueView::Str(_)) => {
            lemma_large_text(batch, events, blobs, DatagenColumn::ValueStr, row);
        },
        Some(ValueView::Json(_)) => {
            lemma_large_text(batch, events, blobs, DatagenColumn::ValueJson, row);
        },
        Some(ValueView::Blob(_)) => {
            lemma_column(batch, events, blobs, DatagenColumn::ValueBlob);
            lemma_column(batch, events, blobs, DatagenColumn::PayloadSize);
            lemma_text(batch, events, blobs, DatagenColumn::PayloadChecksum, row);
        },
    }
}

/// The event that a read gives back.
spec fn kept_event(event: EventView, blobs: bool) -> EventView {
    if blobs {
        as_kept(event)
    } else {
        without_bytes(as_kept(event))
    }
}

proof fn lemma_plain(batch: BatchView, events: Seq<EventView>, blobs: bool, row: int)
    requires
        holds(batch, events, blobs),
        0 <= row < events.len(),
    ensures
        ({
            let kept = kept_event(events[row], blobs);
            event_of(batch, row, kept.value, kept.query_tags, kept.event_ts) == kept
        }),
{
    lemma_text(batch, events, blobs, DatagenColumn::EventId, row);
    lemma_text(batch, events, blobs, DatagenColumn::ItemId, row);
    lemma_text(batch, events, blobs, DatagenColumn::RootItemId, row);
    lemma_text(batch, events, blobs, DatagenColumn::ParentItemId, row);
    lemma_column(batch, events, blobs, DatagenColumn::ItemSeq);
    lemma_text(batch, events, blobs, DatagenColumn::CheckpointId, row);
    lemma_text(batch, events, blobs, DatagenColumn::EventType, row);
    lemma_text(batch, events, blobs, DatagenColumn::StepName, row);
    lemma_text(batch, events, blobs, DatagenColumn::StepKind, row);
    lemma_column(batch, events, blobs, DatagenColumn::StepIndex);
    lemma_text(batch, events, blobs, DatagenColumn::EnclosingStep, row);
    lemma_text(batch, events, blobs, DatagenColumn::SelectorStep, row);
    lemma_column(batch, events, blobs, DatagenColumn::Attempt);
    lemma_text(batch, events, blobs, DatagenColumn::RunId, row);
    lemma_text(batch, events, blobs, DatagenColumn::WriterEpoch, row);
    lemma_text(batch, events, blobs, DatagenColumn::FieldName, row);
    lemma_text(batch, events, blobs, DatagenColumn::FieldType, row);
    lemma_column(batch, events, blobs, DatagenColumn::CodecVersion);
    lemma_text(batch, events, blobs, DatagenColumn::Status, row);
    lemma_text(batch, events, blobs, DatagenColumn::ErrorType, row);
    lemma_large_text(batch, events, blobs, DatagenColumn::ErrorDump, row);
    lemma_large_text(batch, events, blobs, DatagenColumn::Traceback, row);
    lemma_column(batch, events, blobs, DatagenColumn::SchemaVersion);
    let kept = kept_event(events[row], blobs);
    assert(event_of(batch, row, kept.value, kept.query_tags, kept.event_ts) =~= kept);
}

proof fn lemma_read(
    batch: BatchView,
    events: Seq<EventView>,
    verdicts: Seq<VerdictView>,
    blobs: bool,
)
    requires
        holds(batch, events, blobs),
        batch.rows == events.len(),
        verdicts.len() == events.len(),
        all_accepted(verdicts),
        forall|i: int| 0 <= i < events.len() ==> event_readable(#[trigger] events[i]),
    ensures
        events_decoded(batch, verdicts) == Ok::<Seq<EventView>, Failure>(
            Seq::new(events.len(), |i: int| kept_event(events[i], blobs)),
        ),
{
    let step = checked_event(batch, verdicts);
    let kept = Seq::new(events.len(), |i: int| kept_event(events[i], blobs));
    lemma_header(batch, events, blobs);
    assert forall|i: int| 0 <= i < events.len() implies #[trigger] step(i) == Ok::<
        EventView,
        Failure,
    >(kept[i]) by {
        assert(event_readable(events[i]));
        assert(verdicts[i].event_type is None);
        lemma_value(batch, events, blobs, i);
        lemma_large_text(batch, events, blobs, DatagenColumn::QueryTagsJson, i);
        lemma_column(batch, events, blobs, DatagenColumn::EventTs);
        lemma_plain(batch, events, blobs, i);
        assert(words_failure(batch, i, verdicts[i]) is None);
        assert(event_read(batch, i, verdicts[i]) == Ok::<EventView, Failure>(kept[i]));
    }
    lemma_all_succeed(step, events.len(), kept);
}

/// What is written reads back: events written to a log come back as they were,
/// in order, when all columns are read. Of their times the log keeps the
/// microseconds.
///
/// Left out are times outside the range that a point in time can have, and
/// JSON that is not in its compact form, which no writer produces.
pub proof fn law_events_read_back(events: Seq<EventView>, verdicts: Seq<VerdictView>)
    requires
        verdicts.len() == events.len(),
        all_accepted(verdicts),
    ensures
        (forall|i: int| 0 <= i < events.len() ==> event_readable(#[trigger] events[i]))
            ==> events_decoded(events_encoded(events), verdicts) == Ok::<Seq<EventView>, Failure>(
            Seq::new(events.len(), |i: int| as_kept(events[i])),
        ),
{
    if forall|i: int| 0 <= i < events.len() ==> event_readable(#[trigger] events[i]) {
        lemma_whole_holds(events);
        lemma_read(events_encoded(events), events, verdicts, true);
        assert(Seq::new(events.len(), |i: int| kept_event(events[i], true)) =~= Seq::new(
            events.len(),
            |i: int| as_kept(events[i]),
        ));
    }
}

/// A read that leaves the blobs behind gives the same events, each blob with
/// its size and checksum but without its bytes.
pub proof fn law_events_read_back_without_blobs(
    events: Seq<EventView>,
    verdicts: Seq<VerdictView>,
)
    requires
        verdicts.len() == events.len(),
        all_accepted(verdicts),
    ensures
        (forall|i: int| 0 <= i < events.len() ==> event_readable(#[trigger] events[i]))
            ==> events_decoded(
            scanned(events_encoded(events), log_names_without_blobs()),
            verdicts,
        ) == Ok::<Seq<EventView>, Failure>(
            Seq::new(events.len(), |i: int| without_bytes(as_kept(events[i]))),
        ),
{
    if forall|i: int| 0 <= i < events.len() ==> event_readable(#[trigger] events[i]) {
        lemma_scan_holds(events);
        lemma_read(
            scanned(events_encoded(events), log_names_without_blobs()),
            events,
            verdicts,
            false,
        );
        assert(Seq::new(events.len(), |i: int| kept_event(events[i], false)) =~= Seq::new(
            events.len(),
            |i: int| without_bytes(as_kept(events[i])),
        ));
    }
}

/// A log takes every event: the columns of events have the log's types, and
/// nulls only where the log takes them.
pub proof fn law_a_log_takes_every_event(events: Seq<EventView>)
    ensures
        fit_failure(events_encoded(events).columns, datagen_table().fields) is None,
{
    let columns = events_encoded(events).columns;
    let fields = datagen_table().fields;
    assert forall|j: int| 0 <= j < fields.len() implies (#[trigger] columns[j]).data_type
        == fields[j].data_type by {
        assert(fields[j] == datagen_field(datagen_columns()[j]));
    }
    assert forall|j: int| 0 <= j < fields.len() implies (#[trigger] fields[j]).nullable
        || !has_null(columns[j]) by {
        assert(fields[j] == datagen_field(datagen_columns()[j]));
    }
    lemma_columns_fit(columns, fields);
}

} // verus!
