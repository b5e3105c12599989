//! Events turned into rows of a data generation log.

use vstd::prelude::*;

use crate::batch::{
    bytes_cell, cell_views, column_views, int32_cell, int_cell, text_cell, Batch, BatchView, Cell,
    CellView, Column, ColumnView,
};
use crate::datagen_columns::{
    datagen_column_at, datagen_column_count, datagen_column_name, datagen_columns,
    datagen_data_type, datagen_name, datagen_type, law_datagen_names_are_distinct, DatagenColumn,
};
use crate::datagen_event::{event_views, DatagenEvent, DatagenValue, EventView, ValueView};

verus! {

/// The word that says which value column an event uses.
pub open spec fn kind_word(value: ValueView) -> Seq<char> {
    match value {
        ValueView::Int(_) => "int"@,
        ValueView::Float(_) => "float"@,
        ValueView::Bool(_) => "bool"@,
        ValueView::Str(_) => "str"@,
        ValueView::Json(_) => "json"@,
        ValueView::Blob(_) => "blob"@,
    }
}

/// What an event's value puts into a value column. Each value fills the
/// columns of its kind and leaves the others null.
pub open spec fn value_cell(value: Option<ValueView>, column: DatagenColumn) -> CellView {
    match (column, value) {
        (DatagenColumn::ValueKind, Some(value)) => CellView::Text(kind_word(value)),
        (DatagenColumn::ValueI64, Some(ValueView::Int(number))) => CellView::Int(number),
        (DatagenColumn::ValueF64, Some(ValueView::Float(bits))) => CellView::Float64(bits),
        (DatagenColumn::ValueBool, Some(ValueView::Bool(flag))) => CellView::Flag(flag),
        (DatagenColumn::ValueStr, Some(ValueView::Str(text))) => CellView::Text(text),
        (DatagenColumn::ValueJson, Some(ValueView::Json(text))) => CellView::Text(text),
        (DatagenColumn::ValueBlob, Some(ValueView::Blob(blob))) => bytes_cell(blob.bytes),
        (DatagenColumn::PayloadSize, Some(ValueView::Blob(blob))) => CellView::Int(blob.size),
        (DatagenColumn::PayloadChecksum, Some(ValueView::Blob(blob))) => text_cell(blob.checksum),
        _ => CellView::Null,
    }
}

/// What an event puts into a column.
pub open spec fn datagen_cell(event: EventView, column: DatagenColumn) -> CellView {
    match column {
        DatagenColumn::EventId => CellView::Text(event.event_id),
        DatagenColumn::ItemId => CellView::Text(event.item_id),
        DatagenColumn::RootItemId => CellView::Text(event.root_item_id),
        DatagenColumn::ParentItemId => text_cell(event.parent_item_id),
        DatagenColumn::ItemSeq => CellView::Int(event.item_seq),
        DatagenColumn::CheckpointId => CellView::Text(event.checkpoint_id),
        DatagenColumn::EventType => CellView::Text(event.event_type),
        DatagenColumn::StepName => text_cell(event.step_name),
        DatagenColumn::StepKind => text_cell(event.step_kind),
        DatagenColumn::StepIndex => int_cell(event.step_index),
        DatagenColumn::EnclosingStep => text_cell(event.enclosing_step),
        DatagenColumn::SelectorStep => text_cell(event.selector_step),
        DatagenColumn::Attempt => int32_cell(Some(event.attempt)),
        DatagenColumn::RunId => CellView::Text(event.run_id),
        DatagenColumn::WriterEpoch => CellView::Text(event.writer_epoch),
        DatagenColumn::FieldName => text_cell(event.field_name),
        DatagenColumn::FieldType => text_cell(event.field_type),
        DatagenColumn::CodecVersion => int32_cell(event.codec_version),
        DatagenColumn::QueryTagsJson => text_cell(event.query_tags),
        DatagenColumn::Status => text_cell(event.status),
        DatagenColumn::ErrorType => text_cell(event.error_type),
        DatagenColumn::ErrorDump => text_cell(event.error_dump),
        DatagenColumn::Traceback => text_cell(event.traceback),
        DatagenColumn::EventTs => CellView::Int(event.event_ts),
        DatagenColumn::SchemaVersion => int32_cell(Some(event.schema_version)),
        _ => value_cell(event.value, column),
    }
}

/// The column a log gets for a batch of events.
pub open spec fn datagen_cells(events: Seq<EventView>, column: DatagenColumn) -> ColumnView {
    ColumnView {
        name: datagen_name(column),
        data_type: datagen_type(column),
        cells: Seq::new(events.len(), |i: int| datagen_cell(events[i], column)),
    }
}

/// The batch a log gets for events.
pub open spec fn events_encoded(events: Seq<EventView>) -> BatchView {
    BatchView {
        columns: Seq::new(
            datagen_columns().len(),
            |j: int| datagen_cells(events, datagen_columns()[j]),
        ),
        rows: events.len(),
    }
}

impl DatagenValue {
    /// The word that says which value column an event uses.
    pub fn kind(&self) -> (word: &'static str)
        ensures
            word@ == kind_word(self@),
    {
        match self {
            DatagenValue::Int(_) => "int",
            DatagenValue::Float(_) => "float",
            DatagenValue::Bool(_) => "bool",
            DatagenValue::Str(_) => "str",
            DatagenValue::Json(_) => "json",
            DatagenValue::Blob(_) => "blob",
        }
    }
}

fn value_cell_of(value: &Option<DatagenValue>, column: DatagenColumn) -> (cell: Cell)
    ensures
        cell@ == value_cell(crate::datagen_event::opt_value(*value), column),
{
    match (column, value) {
        (DatagenColumn::ValueKind, Some(value)) => Cell::Text(value.kind().to_owned()),
        (DatagenColumn::ValueI64, Some(DatagenValue::Int(number))) => Cell::Int(*number),
        (DatagenColumn::ValueF64, Some(DatagenValue::Float(bits))) => Cell::Float64(*bits),
        (DatagenColumn::ValueBool, Some(DatagenValue::Bool(flag))) => Cell::Flag(*flag),
        (DatagenColumn::ValueStr, Some(DatagenValue::Str(text))) => Cell::Text(text.clone()),
        (DatagenColumn::ValueJson, Some(DatagenValue::Json(text))) => Cell::Text(text.clone()),
        (DatagenColumn::ValueBlob, Some(DatagenValue::Blob(blob))) => Cell::from_bytes(&blob.bytes),
        (DatagenColumn::PayloadSize, Some(DatagenValue::Blob(blob))) => Cell::Int(blob.size),
        (DatagenColumn::PayloadChecksum, Some(DatagenValue::Blob(blob))) => Cell::from_text(
            &blob.checksum,
        ),
        _ => Cell::Null,
    }
}

fn cell_of(event: &DatagenEvent, column: DatagenColumn) -> (cell: Cell)
    ensures
        cell@ == datagen_cell(event@, column),
{
    match column {
        DatagenColumn::EventId => Cell::Text(event.event_id.clone()),
        DatagenColumn::ItemId => Cell::Text(event.item_id.clone()),
        DatagenColumn::RootItemId => Cell::Text(event.root_item_id.clone()),
        DatagenColumn::ParentItemId => Cell::from_text(&event.parent_item_id),
        DatagenColumn::ItemSeq => Cell::Int(event.item_seq),
        DatagenColumn::CheckpointId => Cell::Text(event.checkpoint_id.clone()),
        DatagenColumn::EventType => Cell::Text(event.event_type.clone()),
        DatagenColumn::StepName => Cell::from_text(&event.step_name),
        DatagenColumn::StepKind => Cell::from_text(&event.step_kind),
        DatagenColumn::StepIndex => Cell::from_int(event.step_index),
        DatagenColumn::EnclosingStep => Cell::from_text(&event.enclosing_step),
        DatagenColumn::SelectorStep => Cell::from_text(&event.selector_step),
        DatagenColumn::Attempt => Cell::from_int32(Some(event.attempt)),
        DatagenColumn::RunId => Cell::Text(event.run_id.clone()),
        DatagenColumn::WriterEpoch => Cell::Text(event.writer_epoch.clone()),
        DatagenColumn::FieldName => Cell::from_text(&event.field_name),
        DatagenColumn::FieldType => Cell::from_text(&event.field_type),
        DatagenColumn::CodecVersion => Cell::from_int32(event.codec_version),
        DatagenColumn::QueryTagsJson => Cell::from_text(&event.query_tags),
        DatagenColumn::Status => Cell::from_text(&event.status),
        DatagenColumn::ErrorType => Cell::from_text(&event.error_type),
        DatagenColumn::ErrorDump => Cell::from_text(&event.error_dump),
        DatagenColumn::Traceback => Cell::from_text(&event.traceback),
        DatagenColumn::EventTs => Cell::Int(event.event_ts),
        DatagenColumn::SchemaVersion => Cell::from_int32(Some(event.schema_version)),
        _ => value_cell_of(&event.value, column),
    }
}

fn build_column(events: &Vec<DatagenEvent>, column: DatagenColumn) -> (result: Column)
    ensures
        result@ == datagen_cells(event_views(events@), column),
{
    let ghost views = event_views(events@);
    let ghost wanted = datagen_cells(views, column).cells;
    let mut cells: Vec<Cell> = Vec::new();
    let mut index: usize = 0;
    while index < events.len()
        invariant
            index <= events.len(),
            cells.len() == index,
            views == event_views(events@),
            wanted == datagen_cells(views, column).cells,
            forall|k: int| 0 <= k < index ==> (#[trigger] cells@[k])@ == wanted[k],
        decreases events.len() - index,
    {
        cells.push(cell_of(&events[index], column));
        index = index + 1;
    }
    assert(cell_views(cells@) =~= wanted);
    Column {
        name: datagen_column_name(column).to_owned(),
        data_type: datagen_data_type(column),
        cells,
    }
}

/// Turns events into the batch that a log takes.
pub fn events_to_batch(events: &Vec<DatagenEvent>) -> (batch: Batch)
    ensures
        batch@ == events_encoded(event_views(events@)),
        batch@.well_formed(),
{
    let ghost views = event_views(events@);
    let ghost wanted = events_encoded(views).columns;
    let count = datagen_column_count();
    let mut columns: Vec<Column> = Vec::new();
    let mut index: usize = 0;
    while index < count
        invariant
            index <= count,
            count == datagen_columns().len(),
            columns.len() == index,
            views == event_views(events@),
            wanted == events_encoded(views).columns,
            forall|k: int| 0 <= k < index ==> (#[trigger] columns@[k])@ == wanted[k],
        decreases count - index,
    {
        columns.push(build_column(events, datagen_column_at(index)));
        index = index + 1;
    }
    assert(column_views(columns@) =~= wanted);
    Batch { columns, rows: events.len() }
}

/// An event is written field by field: a row of the column of a name holds the
/// event's field of that name.
pub proof fn law_an_event_is_written_field_by_field(events: Seq<EventView>, at: int, row: int)
    requires
        0 <= at < events_encoded(events).columns.len(),
        0 <= row < events.len(),
    ensures
        ({
            let batch = events_encoded(events);
            let name = batch.columns[at].name;
            let cell = batch.columns[at].cells[row];
            let event = events[row];
            &&& batch.rows == events.len()
            &&& batch.columns[at].cells.len() == events.len()
            &&& name == "event_id"@ ==> cell == CellView::Text(event.event_id)
            &&& name == "item_id"@ ==> cell == CellView::Text(event.item_id)
            &&& name == "root_item_id"@ ==> cell == CellView::Text(event.root_item_id)
            &&& name == "parent_item_id"@ ==> cell == text_cell(event.parent_item_id)
            &&& name == "item_seq"@ ==> cell == CellView::Int(event.item_seq)
            &&& name == "checkpoint_id"@ ==> cell == CellView::Text(event.checkpoint_id)
            &&& name == "event_type"@ ==> cell == CellView::Text(event.event_type)
            &&& name == "step_name"@ ==> cell == text_cell(event.step_name)
            &&& name == "step_kind"@ ==> cell == text_cell(event.step_kind)
            &&& name == "step_index"@ ==> cell == int_cell(event.step_index)
            &&& name == "enclosing_step"@ ==> cell == text_cell(event.enclosing_step)
            &&& name == "selector_step"@ ==> cell == text_cell(event.selector_step)
            &&& name == "attempt"@ ==> cell == CellView::Int(event.attempt as i64)
            &&& name == "run_id"@ ==> cell == CellView::Text(event.run_id)
            &&& name == "writer_epoch"@ ==> cell == CellView::Text(event.writer_epoch)
            &&& name == "field_name"@ ==> cell == text_cell(event.field_name)
            &&& name == "field_type"@ ==> cell == text_cell(event.field_type)
            &&& name == "codec_version"@ ==> cell == int32_cell(event.codec_version)
            &&& name == "query_tags_json"@ ==> cell == text_cell(event.query_tags)
            &&& name == "status"@ ==> cell == text_cell(event.status)
            &&& name == "error_type"@ ==> cell == text_cell(event.error_type)
            &&& name == "error_dump"@ ==> cell == text_cell(event.error_dump)
            &&& name == "traceback"@ ==> cell == text_cell(event.traceback)
            &&& name == "event_ts"@ ==> cell == CellView::Int(event.event_ts)
            &&& name == "schema_version"@ ==> cell == CellView::Int(event.schema_version as i64)
        }),
{
    let column = datagen_columns()[at];
    if datagen_name(column) == "event_id"@ {
        law_datagen_names_are_distinct(column, DatagenColumn::EventId);
    }
    if datagen_name(column) == "item_id"@ {
        law_datagen_names_are_distinct(column, DatagenColumn::ItemId);
    }
    if datagen_name(column) == "root_item_id"@ {
        law_datagen_names_are_distinct(column, DatagenColumn::RootItemId);
    }
    if datagen_name(column) == "parent_item_id"@ {
        law_datagen_names_are_distinct(column, DatagenColumn::ParentItemId);
    }
    if datagen_name(column) == "item_seq"@ {
        law_datagen_names_are_distinct(column, DatagenColumn::ItemSeq);
    }
    if datagen_name(column) == "checkpoint_id"@ {
        law_datagen_names_are_distinct(column, DatagenColumn::CheckpointId);
    }
    if datagen_name(column) == "event_type"@ {
        law_datagen_names_are_distinct(column, DatagenColumn::EventType);
    }
    if datagen_name(column) == "step_name"@ {
        law_datagen_names_are_distinct(column, DatagenColumn::StepName);
    }
    if datagen_name(column) == "step_kind"@ {
        law_datagen_names_are_distinct(column, DatagenColumn::StepKind);
    }
    if datagen_name(column) == "step_index"@ {
        law_datagen_names_are_distinct(column, DatagenColumn::StepIndex);
    }
    if datagen_name(column) == "enclosing_step"@ {
        law_datagen_names_are_distinct(column, DatagenColumn::EnclosingStep);
    }
    if datagen_name(column) == "selector_step"@ {
        law_datagen_names_are_distinct(column, DatagenColumn::SelectorStep);
    }
    if datagen_name(column) == "attempt"@ {
        law_datagen_names_are_distinct(column, DatagenColumn::Attempt);
    }
    if datagen_name(column) == "run_id"@ {
        law_datagen_names_are_distinct(column, DatagenColumn::RunId);
    }
    if datagen_name(column) == "writer_epoch"@ {
        law_datagen_names_are_distinct(column, DatagenColumn::WriterEpoch);
    }
    if datagen_name(column) == "field_name"@ {
        law_datagen_names_are_distinct(column, DatagenColumn::FieldName);
    }
    if datagen_name(column) == "field_type"@ {
        law_datagen_names_are_distinct(column, DatagenColumn::FieldType);
    }
    if datagen_name(column) == "codec_version"@ {
        law_datagen_names_are_distinct(column, DatagenColumn::CodecVersion);
    }
    if datagen_name(column) == "query_tags_json"@ {
        law_datagen_names_are_distinct(column, DatagenColumn::QueryTagsJson);
    }
    if datagen_name(column) == "status"@ {
        law_datagen_names_are_distinct(column, DatagenColumn::Status);
    }
    if datagen_name(column) == "error_type"@ {
        law_datagen_names_are_distinct(column, DatagenColumn::ErrorType);
    }
    if datagen_name(column) == "error_dump"@ {
        law_datagen_names_are_distinct(column, DatagenColumn::ErrorDump);
    }
    if datagen_name(column) == "traceback"@ {
        law_datagen_names_are_distinct(column, DatagenColumn::Traceback);
    }
    if datagen_name(column) == "event_ts"@ {
        law_datagen_names_are_distinct(column, DatagenColumn::EventTs);
    }
    if datagen_name(column) == "schema_version"@ {
        law_datagen_names_are_distinct(column, DatagenColumn::SchemaVersion);
    }
}

/// A value is written to the column of its kind, together with the kind's word,
/// and the columns of the other kinds stay empty.
pub proof fn law_a_value_is_written_to_the_column_of_its_kind(
    events: Seq<EventView>,
    at: int,
    row: int,
)
    requires
        0 <= at < events_encoded(events).columns.len(),
        0 <= row < events.len(),
    ensures
        ({
            let batch = events_encoded(events);
            let name = batch.columns[at].name;
            let cell = batch.columns[at].cells[row];
            let event = events[row];
            &&& batch.rows == events.len()
            &&& batch.columns[at].cells.len() == events.len()
            &&& name == "value_kind"@ ==> cell == (match event.value {
                Some(ValueView::Int(_)) => CellView::Text("int"@),
                Some(ValueView::Float(_)) => CellView::Text("float"@),
                Some(ValueView::Bool(_)) => CellView::Text("bool"@),
                Some(ValueView::Str(_)) => CellView::Text("str"@),
                Some(ValueView::Json(_)) => CellView::Text("json"@),
                Some(ValueView::Blob(_)) => CellView::Text("blob"@),
                None => CellView::Null,
            })
            &&& name == "value_i64"@ ==> cell == (match event.value {
                Some(ValueView::Int(number)) => CellView::Int(number),
                _ => CellView::Null,
            })
            &&& name == "value_f64"@ ==> cell == (match event.value {
                Some(ValueView::Float(bits)) => CellView::Float64(bits),
                _ => CellView::Null,
            })
            &&& name == "value_bool"@ ==> cell == (match event.value {
                Some(ValueView::Bool(flag)) => CellView::Flag(flag),
                _ => CellView::Null,
            })
            &&& name == "value_str"@ ==> cell == (match event.value {
                Some(ValueView::Str(text)) => CellView::Text(text),
                _ => CellView::Null,
            })
            &&& name == "value_json"@ ==> cell == (match event.value {
                Some(ValueView::Json(text)) => CellView::Text(text),
                _ => CellView::Null,
            })
            &&& name == "value_blob"@ ==> cell == (match event.value {
                Some(ValueView::Blob(blob)) => bytes_cell(blob.bytes),
                _ => CellView::Null,
            })
            &&& name == "payload_size"@ ==> cell == (match event.value {
                Some(ValueView::Blob(blob)) => CellView::Int(blob.size),
                _ => CellView::Null,
            })
            &&& name == "payload_checksum"@ ==> cell == (match event.value {
                Some(ValueView::Blob(blob)) => text_cell(blob.checksum),
                _ => CellView::Null,
            })
        }),
{
    let column = datagen_columns()[at];
    if datagen_name(column) == "value_kind"@ {
        law_datagen_names_are_distinct(column, DatagenColumn::ValueKind);
    }
    if datagen_name(column) == "value_i64"@ {
        law_datagen_names_are_distinct(column, DatagenColumn::ValueI64);
    }
    if datagen_name(column) == "value_f64"@ {
        law_datagen_names_are_distinct(column, DatagenColumn::ValueF64);
    }
    if datagen_name(column) == "value_bool"@ {
        law_datagen_names_are_distinct(column, DatagenColumn::ValueBool);
    }
    if datagen_name(column) == "value_str"@ {
        law_datagen_names_are_distinct(column, DatagenColumn::ValueStr);
    }
    if datagen_name(column) == "value_json"@ {
        law_datagen_names_are_distinct(column, DatagenColumn::ValueJson);
    }
    if datagen_name(column) == "value_blob"@ {
        law_datagen_names_are_distinct(column, DatagenColumn::ValueBlob);
    }
    if datagen_name(column) == "payload_size"@ {
        law_datagen_names_are_distinct(column, DatagenColumn::PayloadSize);
    }
    if datagen_name(column) == "payload_checksum"@ {
        law_datagen_names_are_distinct(column, DatagenColumn::PayloadChecksum);
    }
}

/// A batch of events has these columns, in this order.
pub proof fn law_a_batch_of_events_has_every_column(events: Seq<EventView>)
    ensures
        events_encoded(events).columns.len() == 34,
        events_encoded(events).columns[0].name == "event_id"@,
        events_encoded(events).columns[1].name == "item_id"@,
        events_encoded(events).columns[2].name == "root_item_id"@,
        events_encoded(events).columns[3].name == "parent_item_id"@,
        events_encoded(events).columns[4].name == "item_seq"@,
        events_encoded(events).columns[5].name == "checkpoint_id"@,
        events_encoded(events).columns[6].name == "event_type"@,
        events_encoded(events).columns[7].name == "step_name"@,
        events_encoded(events).columns[8].name == "step_kind"@,
        events_encoded(events).columns[9].name == "step_index"@,
        events_encoded(events).columns[10].name == "enclosing_step"@,
        events_encoded(events).columns[11].name == "selector_step"@,
        events_encoded(events).columns[12].name == "attempt"@,
        events_encoded(events).columns[13].name == "run_id"@,
        events_encoded(events).columns[14].name == "writer_epoch"@,
        events_encoded(events).columns[15].name == "field_name"@,
        events_encoded(events).columns[16].name == "field_type"@,
        events_encoded(events).columns[17].name == "codec_version"@,
        events_encoded(events).columns[18].name == "value_kind"@,
        events_encoded(events).columns[19].name == "value_i64"@,
        events_encoded(events).columns[20].name == "value_f64"@,
        events_encoded(events).columns[21].name == "value_bool"@,
        events_encoded(events).columns[22].name == "value_str"@,
        events_encoded(events).columns[23].name == "value_json"@,
        events_encoded(events).columns[24].name == "value_blob"@,
        events_encoded(events).columns[25].name == "payload_size"@,
        events_encoded(events).columns[26].name == "payload_checksum"@,
        events_encoded(events).columns[27].name == "query_tags_json"@,
        events_encoded(events).columns[28].name == "status"@,
        events_encoded(events).columns[29].name == "error_type"@,
        events_encoded(events).columns[30].name == "error_dump"@,
        events_encoded(events).columns[31].name == "traceback"@,
        events_encoded(events).columns[32].name == "event_ts"@,
        events_encoded(events).columns[33].name == "schema_version"@,
{
}

} // verus!
