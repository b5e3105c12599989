//! The columns of a data generation log.

use vstd::prelude::*;

use crate::schema::{
    field_views, key_field, law_a_key_column_is_marked, plain, primary_key_field, push_field,
    value_of, DataType, Field, FieldView, Scalar, Schema, SchemaView,
};

verus! {

/// How many columns a log has.
const COLUMN_COUNT: usize = 34;

/// A column of a data generation log.
#[derive(Debug, Clone, Copy, PartialEq, Eq, Structural)]
pub enum DatagenColumn {
    EventId,
    ItemId,
    RootItemId,
    ParentItemId,
    ItemSeq,
    CheckpointId,
    EventType,
    StepName,
    StepKind,
    StepIndex,
    EnclosingStep,
    SelectorStep,
    Attempt,
    RunId,
    WriterEpoch,
    FieldName,
    FieldType,
    CodecVersion,
    ValueKind,
    ValueI64,
    ValueF64,
    ValueBool,
    ValueStr,
    ValueJson,
    ValueBlob,
    PayloadSize,
    PayloadChecksum,
    QueryTagsJson,
    Status,
    ErrorType,
    ErrorDump,
    Traceback,
    EventTs,
    SchemaVersion,
}

/// The name a column stands under.
pub open spec fn datagen_name(column: DatagenColumn) -> Seq<char> {
    match column {
        DatagenColumn::EventId => "event_id"@,
        DatagenColumn::ItemId => "item_id"@,
        DatagenColumn::RootItemId => "root_item_id"@,
        DatagenColumn::ParentItemId => "parent_item_id"@,
        DatagenColumn::ItemSeq => "item_seq"@,
        DatagenColumn::CheckpointId => "checkpoint_id"@,
        DatagenColumn::EventType => "event_type"@,
        DatagenColumn::StepName => "step_name"@,
        DatagenColumn::StepKind => "step_kind"@,
        DatagenColumn::StepIndex => "step_index"@,
        DatagenColumn::EnclosingStep => "enclosing_step"@,
        DatagenColumn::SelectorStep => "selector_step"@,
        DatagenColumn::Attempt => "attempt"@,
        DatagenColumn::RunId => "run_id"@,
        DatagenColumn::WriterEpoch => "writer_epoch"@,
        DatagenColumn::FieldName => "field_name"@,
        DatagenColumn::FieldType => "field_type"@,
        DatagenColumn::CodecVersion => "codec_version"@,
        DatagenColumn::ValueKind => "value_kind"@,
        DatagenColumn::ValueI64 => "value_i64"@,
        DatagenColumn::ValueF64 => "value_f64"@,
        DatagenColumn::ValueBool => "value_bool"@,
        DatagenColumn::ValueStr => "value_str"@,
        DatagenColumn::ValueJson => "value_json"@,
        DatagenColumn::ValueBlob => "value_blob"@,
        DatagenColumn::PayloadSize => "payload_size"@,
        DatagenColumn::PayloadChecksum => "payload_checksum"@,
        DatagenColumn::QueryTagsJson => "query_tags_json"@,
        DatagenColumn::Status => "status"@,
        DatagenColumn::ErrorType => "error_type"@,
        DatagenColumn::ErrorDump => "error_dump"@,
        DatagenColumn::Traceback => "traceback"@,
        DatagenColumn::EventTs => "event_ts"@,
        DatagenColumn::SchemaVersion => "schema_version"@,
    }
}

/// No two columns share a name.
pub proof fn law_datagen_names_are_distinct(left: DatagenColumn, right: DatagenColumn)
    requires
        datagen_name(left) == datagen_name(right),
    ensures
        left == right,
{
    reveal_strlit("event_id");
    assert("event_id"@.len() == 8 && "event_id"@[0] == 'e' && "event_id"@[6] == 'i');
    reveal_strlit("item_id");
    assert("item_id"@.len() == 7 && "item_id"@[0] == 'i');
    reveal_strlit("root_item_id");
    assert("root_item_id"@.len() == 12 && "root_item_id"@[0] == 'r');
    reveal_strlit("parent_item_id");
    assert("parent_item_id"@.len() == 14 && "parent_item_id"@[0] == 'p');
    reveal_strlit("item_seq");
    assert("item_seq"@.len() == 8 && "item_seq"@[0] == 'i');
    reveal_strlit("checkpoint_id");
    assert("checkpoint_id"@.len() == 13 && "checkpoint_id"@[0] == 'c' && "checkpoint_id"@[1] == 'h');
    reveal_strlit("event_type");
    assert("event_type"@.len() == 10 && "event_type"@[0] == 'e' && "event_type"@[1] == 'v' && "event_type"@[6] == 't');
    reveal_strlit("step_name");
    assert("step_name"@.len() == 9 && "step_name"@[0] == 's' && "step_name"@[5] == 'n');
    reveal_strlit("step_kind");
    assert("step_kind"@.len() == 9 && "step_kind"@[0] == 's' && "step_kind"@[5] == 'k');
    reveal_strlit("step_index");
    assert("step_index"@.len() == 10 && "step_index"@[0] == 's');
    reveal_strlit("enclosing_step");
    assert("enclosing_step"@.len() == 14 && "enclosing_step"@[0] == 'e');
    reveal_strlit("selector_step");
    assert("selector_step"@.len() == 13 && "selector_step"@[0] == 's');
    reveal_strlit("attempt");
    assert("attempt"@.len() == 7 && "attempt"@[0] == 'a');
    reveal_strlit("run_id");
    assert("run_id"@.len() == 6 && "run_id"@[0] == 'r');
    reveal_strlit("writer_epoch");
    assert("writer_epoch"@.len() == 12 && "writer_epoch"@[0] == 'w');
    reveal_strlit("field_name");
    assert("field_name"@.len() == 10 && "field_name"@[0] == 'f' && "field_name"@[6] == 'n');
    reveal_strlit("field_type");
    assert("field_type"@.len() == 10 && "field_type"@[0] == 'f' && "field_type"@[6] == 't');
    reveal_strlit("codec_version");
    assert("codec_version"@.len() == 13 && "codec_version"@[0] == 'c' && "codec_version"@[1] == 'o');
    reveal_strlit("value_kind");
    assert("value_kind"@.len() == 10 && "value_kind"@[0] == 'v' && "value_kind"@[7] == 'i');
    reveal_strlit("value_i64");
    assert("value_i64"@.len() == 9 && "value_i64"@[0] == 'v' && "value_i64"@[6] == 'i');
    reveal_strlit("value_f64");
    assert("value_f64"@.len() == 9 && "value_f64"@[0] == 'v' && "value_f64"@[6] == 'f');
    reveal_strlit("value_bool");
    assert("value_bool"@.len() == 10 && "value_bool"@[0] == 'v' && "value_bool"@[7] == 'o');
    reveal_strlit("value_str");
    assert("value_str"@.len() == 9 && "value_str"@[0] == 'v' && "value_str"@[6] == 's');
    reveal_strlit("value_json");
    assert("value_json"@.len() == 10 && "value_json"@[0] == 'v' && "value_json"@[7] == 's');
    reveal_strlit("value_blob");
    assert("value_blob"@.len() == 10 && "value_blob"@[0] == 'v' && "value_blob"@[7] == 'l');
    reveal_strlit("payload_size");
    assert("payload_size"@.len() == 12 && "payload_size"@[0] == 'p');
    reveal_strlit("payload_checksum");
    assert("payload_checksum"@.len() == 16 && "payload_checksum"@[0] == 'p');
    reveal_strlit("query_tags_json");
    assert("query_tags_json"@.len() == 15 && "query_tags_json"@[0] == 'q');
    reveal_strlit("status");
    assert("status"@.len() == 6 && "status"@[0] == 's');
    reveal_strlit("error_type");
    assert("error_type"@.len() == 10 && "error_type"@[0] == 'e' && "error_type"@[1] == 'r' && "error_type"@[6] == 't');
    reveal_strlit("error_dump");
    assert("error_dump"@.len() == 10 && "error_dump"@[0] == 'e' && "error_dump"@[1] == 'r' && "error_dump"@[6] == 'd');
    reveal_strlit("traceback");
    assert("traceback"@.len() == 9 && "traceback"@[0] == 't');
    reveal_strlit("event_ts");
    assert("event_ts"@.len() == 8 && "event_ts"@[0] == 'e' && "event_ts"@[6] == 't');
    reveal_strlit("schema_version");
    assert("schema_version"@.len() == 14 && "schema_version"@[0] == 's');
}

/// The type a column has.
pub open spec fn datagen_type(column: DatagenColumn) -> DataType {
    match column {
        DatagenColumn::ItemSeq
        | DatagenColumn::StepIndex
        | DatagenColumn::ValueI64
        | DatagenColumn::PayloadSize => DataType::Scalar(Scalar::Int64),
        DatagenColumn::Attempt
        | DatagenColumn::CodecVersion
        | DatagenColumn::SchemaVersion => DataType::Scalar(Scalar::Int32),
        DatagenColumn::ValueF64 => DataType::Scalar(Scalar::Float64),
        DatagenColumn::ValueBool => DataType::Scalar(Scalar::Boolean),
        DatagenColumn::ValueStr
        | DatagenColumn::ValueJson
        | DatagenColumn::QueryTagsJson
        | DatagenColumn::ErrorDump
        | DatagenColumn::Traceback => DataType::Scalar(Scalar::LargeUtf8),
        DatagenColumn::ValueBlob => DataType::Scalar(Scalar::LargeBinary),
        DatagenColumn::EventTs => DataType::Scalar(Scalar::TimestampUtc),
        _ => DataType::Scalar(Scalar::Utf8),
    }
}

/// Whether a column may hold nulls.
pub open spec fn datagen_nullable(column: DatagenColumn) -> bool {
    match column {
        DatagenColumn::EventId
        | DatagenColumn::ItemId
        | DatagenColumn::RootItemId
        | DatagenColumn::ItemSeq
        | DatagenColumn::CheckpointId
        | DatagenColumn::EventType
        | DatagenColumn::Attempt
        | DatagenColumn::RunId
        | DatagenColumn::WriterEpoch
        | DatagenColumn::EventTs
        | DatagenColumn::SchemaVersion => false,
        _ => true,
    }
}

/// The field of a column. The event id is the log's primary key.
pub open spec fn datagen_field(column: DatagenColumn) -> FieldView {
    if column == DatagenColumn::EventId {
        key_field("event_id"@)
    } else {
        plain(datagen_name(column), datagen_type(column), datagen_nullable(column))
    }
}

/// The columns of a log, in order.
pub open spec fn datagen_columns() -> Seq<DatagenColumn> {
    seq![
        DatagenColumn::EventId,
        DatagenColumn::ItemId,
        DatagenColumn::RootItemId,
        DatagenColumn::ParentItemId,
        DatagenColumn::ItemSeq,
        DatagenColumn::CheckpointId,
        DatagenColumn::EventType,
        DatagenColumn::StepName,
        DatagenColumn::StepKind,
        DatagenColumn::StepIndex,
        DatagenColumn::EnclosingStep,
        DatagenColumn::SelectorStep,
        DatagenColumn::Attempt,
        DatagenColumn::RunId,
        DatagenColumn::WriterEpoch,
        DatagenColumn::FieldName,
        DatagenColumn::FieldType,
        DatagenColumn::CodecVersion,
        DatagenColumn::ValueKind,
        DatagenColumn::ValueI64,
        DatagenColumn::ValueF64,
        DatagenColumn::ValueBool,
        DatagenColumn::ValueStr,
        DatagenColumn::ValueJson,
        DatagenColumn::ValueBlob,
        DatagenColumn::PayloadSize,
        DatagenColumn::PayloadChecksum,
        DatagenColumn::QueryTagsJson,
        DatagenColumn::Status,
        DatagenColumn::ErrorType,
        DatagenColumn::ErrorDump,
        DatagenColumn::Traceback,
        DatagenColumn::EventTs,
        DatagenColumn::SchemaVersion,
    ]
}

/// Where a column stands in a log.
pub open spec fn datagen_position(column: DatagenColumn) -> int {
    match column {
        DatagenColumn::EventId => 0,
        DatagenColumn::ItemId => 1,
        DatagenColumn::RootItemId => 2,
        DatagenColumn::ParentItemId => 3,
        DatagenColumn::ItemSeq => 4,
        DatagenColumn::CheckpointId => 5,
        DatagenColumn::EventType => 6,
        DatagenColumn::StepName => 7,
        DatagenColumn::StepKind => 8,
        DatagenColumn::StepIndex => 9,
        DatagenColumn::EnclosingStep => 10,
        DatagenColumn::SelectorStep => 11,
        DatagenColumn::Attempt => 12,
        DatagenColumn::RunId => 13,
        DatagenColumn::WriterEpoch => 14,
        DatagenColumn::FieldName => 15,
        DatagenColumn::FieldType => 16,
        DatagenColumn::CodecVersion => 17,
        DatagenColumn::ValueKind => 18,
        DatagenColumn::ValueI64 => 19,
        DatagenColumn::ValueF64 => 20,
        DatagenColumn::ValueBool => 21,
        DatagenColumn::ValueStr => 22,
        DatagenColumn::ValueJson => 23,
        DatagenColumn::ValueBlob => 24,
        DatagenColumn::PayloadSize => 25,
        DatagenColumn::PayloadChecksum => 26,
        DatagenColumn::QueryTagsJson => 27,
        DatagenColumn::Status => 28,
        DatagenColumn::ErrorType => 29,
        DatagenColumn::ErrorDump => 30,
        DatagenColumn::Traceback => 31,
        DatagenColumn::EventTs => 32,
        DatagenColumn::SchemaVersion => 33,
    }
}

/// Each column stands at its place.
pub proof fn lemma_datagen_positions()
    ensures
        forall|column: DatagenColumn|
            {
                &&& 0 <= #[trigger] datagen_position(column) < datagen_columns().len()
                &&& datagen_columns()[datagen_position(column)] == column
            },
        forall|i: int|
            0 <= i < datagen_columns().len() ==> datagen_position(#[trigger] datagen_columns()[i])
                == i,
{
}

/// The schema of a data generation log.
pub open spec fn datagen_table() -> SchemaView {
    SchemaView {
        fields: Seq::new(datagen_columns().len(), |i: int| datagen_field(datagen_columns()[i])),
        metadata: Seq::empty(),
    }
}

/// The column at a place.
pub fn datagen_column_at(index: usize) -> (column: DatagenColumn)
    requires
        index < datagen_columns().len(),
    ensures
        column == datagen_columns()[index as int],
{
    match index {
        0 => DatagenColumn::EventId,
        1 => DatagenColumn::ItemId,
        2 => DatagenColumn::RootItemId,
        3 => DatagenColumn::ParentItemId,
        4 => DatagenColumn::ItemSeq,
        5 => DatagenColumn::CheckpointId,
        6 => DatagenColumn::EventType,
        7 => DatagenColumn::StepName,
        8 => DatagenColumn::StepKind,
        9 => DatagenColumn::StepIndex,
        10 => DatagenColumn::EnclosingStep,
        11 => DatagenColumn::SelectorStep,
        12 => DatagenColumn::Attempt,
        13 => DatagenColumn::RunId,
        14 => DatagenColumn::WriterEpoch,
        15 => DatagenColumn::FieldName,
        16 => DatagenColumn::FieldType,
        17 => DatagenColumn::CodecVersion,
        18 => DatagenColumn::ValueKind,
        19 => DatagenColumn::ValueI64,
        20 => DatagenColumn::ValueF64,
        21 => DatagenColumn::ValueBool,
        22 => DatagenColumn::ValueStr,
        23 => DatagenColumn::ValueJson,
        24 => DatagenColumn::ValueBlob,
        25 => DatagenColumn::PayloadSize,
        26 => DatagenColumn::PayloadChecksum,
        27 => DatagenColumn::QueryTagsJson,
        28 => DatagenColumn::Status,
        29 => DatagenColumn::ErrorType,
        30 => DatagenColumn::ErrorDump,
        31 => DatagenColumn::Traceback,
        32 => DatagenColumn::EventTs,
        _ => DatagenColumn::SchemaVersion,
    }
}

/// How many columns a log has.
pub fn datagen_column_count() -> (count: usize)
    ensures
        count == datagen_columns().len(),
{
    COLUMN_COUNT
}

/// The name a column stands under.
pub fn datagen_column_name(column: DatagenColumn) -> (name: &'static str)
    ensures
        name@ == datagen_name(column),
{
    match column {
        DatagenColumn::EventId => "event_id",
        DatagenColumn::ItemId => "item_id",
        DatagenColumn::RootItemId => "root_item_id",
        DatagenColumn::ParentItemId => "parent_item_id",
        DatagenColumn::ItemSeq => "item_seq",
        DatagenColumn::CheckpointId => "checkpoint_id",
        DatagenColumn::EventType => "event_type",
        DatagenColumn::StepName => "step_name",
        DatagenColumn::StepKind => "step_kind",
        DatagenColumn::StepIndex => "step_index",
        DatagenColumn::EnclosingStep => "enclosing_step",
        DatagenColumn::SelectorStep => "selector_step",
        DatagenColumn::Attempt => "attempt",
        DatagenColumn::RunId => "run_id",
        DatagenColumn::WriterEpoch => "writer_epoch",
        DatagenColumn::FieldName => "field_name",
        DatagenColumn::FieldType => "field_type",
        DatagenColumn::CodecVersion => "codec_version",
        DatagenColumn::ValueKind => "value_kind",
        DatagenColumn::ValueI64 => "value_i64",
        DatagenColumn::ValueF64 => "value_f64",
        DatagenColumn::ValueBool => "value_bool",
        DatagenColumn::ValueStr => "value_str",
        DatagenColumn::ValueJson => "value_json",
        DatagenColumn::ValueBlob => "value_blob",
        DatagenColumn::PayloadSize => "payload_size",
        DatagenColumn::PayloadChecksum => "payload_checksum",
        DatagenColumn::QueryTagsJson => "query_tags_json",
        DatagenColumn::Status => "status",
        DatagenColumn::ErrorType => "error_type",
        DatagenColumn::ErrorDump => "error_dump",
        DatagenColumn::Traceback => "traceback",
        DatagenColumn::EventTs => "event_ts",
        DatagenColumn::SchemaVersion => "schema_version",
    }
}

/// The type a column has.
pub fn datagen_data_type(column: DatagenColumn) -> (result: DataType)
    ensures
        result == datagen_type(column),
{
    match column {
        DatagenColumn::ItemSeq
        | DatagenColumn::StepIndex
        | DatagenColumn::ValueI64
        | DatagenColumn::PayloadSize => DataType::Scalar(Scalar::Int64),
        DatagenColumn::Attempt
        | DatagenColumn::CodecVersion
        | DatagenColumn::SchemaVersion => DataType::Scalar(Scalar::Int32),
        DatagenColumn::ValueF64 => DataType::Scalar(Scalar::Float64),
        DatagenColumn::ValueBool => DataType::Scalar(Scalar::Boolean),
        DatagenColumn::ValueStr
        | DatagenColumn::ValueJson
        | DatagenColumn::QueryTagsJson
        | DatagenColumn::ErrorDump
        | DatagenColumn::Traceback => DataType::Scalar(Scalar::LargeUtf8),
        DatagenColumn::ValueBlob => DataType::Scalar(Scalar::LargeBinary),
        DatagenColumn::EventTs => DataType::Scalar(Scalar::TimestampUtc),
        _ => DataType::Scalar(Scalar::Utf8),
    }
}

fn is_nullable(column: DatagenColumn) -> (result: bool)
    ensures
        result == datagen_nullable(column),
{
    match column {
        DatagenColumn::EventId
        | DatagenColumn::ItemId
        | DatagenColumn::RootItemId
        | DatagenColumn::ItemSeq
        | DatagenColumn::CheckpointId
        | DatagenColumn::EventType
        | DatagenColumn::Attempt
        | DatagenColumn::RunId
        | DatagenColumn::WriterEpoch
        | DatagenColumn::EventTs
        | DatagenColumn::SchemaVersion => false,
        _ => true,
    }
}

/// The schema of a data generation log. Blobs stand in an ordinary column,
/// because merged reads do not resolve offloaded ones.
pub fn datagen_log_schema() -> (schema: Schema)
    ensures
        schema@ == datagen_table(),
{
    let mut fields: Vec<Field> = Vec::new();
    let mut index: usize = 0;
    while index < COLUMN_COUNT
        invariant
            index <= COLUMN_COUNT,
            COLUMN_COUNT == datagen_columns().len(),
            field_views(fields@).len() == index,
            forall|k: int|
                0 <= k < index ==> #[trigger] field_views(fields@)[k] == datagen_field(
                    datagen_columns()[k],
                ),
        decreases COLUMN_COUNT - index,
    {
        let ghost before = fields@;
        let column = datagen_column_at(index);
        let field = if column == DatagenColumn::EventId {
            primary_key_field("event_id")
        } else {
            Field::new(datagen_column_name(column), datagen_data_type(column), is_nullable(column))
        };
        push_field(&mut fields, field);
        proof {
            assert forall|k: int| 0 <= k < index + 1 implies #[trigger] field_views(fields@)[k]
                == datagen_field(datagen_columns()[k]) by {
                if k < index {
                    assert(field_views(before)[k] == datagen_field(datagen_columns()[k]));
                }
            }
        }
        index = index + 1;
    }
    let schema = Schema { fields, metadata: Vec::new() };
    proof {
        assert(schema@.fields =~= datagen_table().fields);
        assert(schema@.metadata =~= datagen_table().metadata);
    }
    schema
}

/// The columns of a log that are never null, and only these.
pub proof fn law_columns_of_a_log_that_are_never_null(at: int)
    requires
        0 <= at < datagen_table().fields.len(),
    ensures
        ({
            let name = datagen_table().fields[at].name;
            !datagen_table().fields[at].nullable <==> {
                ||| name == "event_id"@
                ||| name == "item_id"@
                ||| name == "root_item_id"@
                ||| name == "item_seq"@
                ||| name == "checkpoint_id"@
                ||| name == "event_type"@
                ||| name == "attempt"@
                ||| name == "run_id"@
                ||| name == "writer_epoch"@
                ||| name == "event_ts"@
                ||| name == "schema_version"@
            }
        }),
{
    let column = datagen_columns()[at];
    if datagen_name(column) == "event_id"@ {
        law_datagen_names_are_distinct(column, DatagenColumn::EventId);
    }
    if datagen_name(column) == "item_id"@ {
        law_datagen_names_are_distinct(column, DatagenColumn::ItemId);
    }
    if datagen_name(column) == "root_item_id"@ {
        law_datagen_names_are_distinct(column, DatagenColumn::RootItemId);
    }
    if datagen_name(column) == "item_seq"@ {
        law_datagen_names_are_distinct(column, DatagenColumn::ItemSeq);
    }
    if datagen_name(column) == "checkpoint_id"@ {
        law_datagen_names_are_distinct(column, DatagenColumn::CheckpointId);
    }
    if datagen_name(column) == "event_type"@ {
        law_datagen_names_are_distinct(column, DatagenColumn::EventType);
    }
    if datagen_name(column) == "attempt"@ {
        law_datagen_names_are_distinct(column, DatagenColumn::Attempt);
    }
    if datagen_name(column) == "run_id"@ {
        law_datagen_names_are_distinct(column, DatagenColumn::RunId);
    }
    if datagen_name(column) == "writer_epoch"@ {
        law_datagen_names_are_distinct(column, DatagenColumn::WriterEpoch);
    }
    if datagen_name(column) == "event_ts"@ {
        law_datagen_names_are_distinct(column, DatagenColumn::EventTs);
    }
    if datagen_name(column) == "schema_version"@ {
        law_datagen_names_are_distinct(column, DatagenColumn::SchemaVersion);
    }
}

/// The key column, and no other, is marked as the key.
pub proof fn law_the_logs_key_is_marked(at: int)
    requires
        0 <= at < datagen_table().fields.len(),
    ensures
        value_of(datagen_table().fields[at].metadata, "lance-schema:unenforced-primary-key"@)
            == Some("true"@)
            <==> datagen_table().fields[at].name == "event_id"@,
{
    let column = datagen_columns()[at];
    law_a_key_column_is_marked(
        datagen_name(column),
        datagen_type(column),
        datagen_nullable(column),
        "lance-schema:unenforced-primary-key"@,
    );
    law_a_key_column_is_marked(
        "event_id"@,
        datagen_type(column),
        true,
        "lance-schema:unenforced-primary-key"@,
    );
    if datagen_name(column) == "event_id"@ {
        law_datagen_names_are_distinct(column, DatagenColumn::EventId);
    }
}

/// A log has these columns, in this order.
pub proof fn law_a_log_has_its_columns_in_order()
    ensures
        datagen_table().fields.len() == 34,
        datagen_table().fields[0].name == "event_id"@,
        datagen_table().fields[1].name == "item_id"@,
        datagen_table().fields[2].name == "root_item_id"@,
        datagen_table().fields[3].name == "parent_item_id"@,
        datagen_table().fields[4].name == "item_seq"@,
        datagen_table().fields[5].name == "checkpoint_id"@,
        datagen_table().fields[6].name == "event_type"@,
        datagen_table().fields[7].name == "step_name"@,
        datagen_table().fields[8].name == "step_kind"@,
        datagen_table().fields[9].name == "step_index"@,
        datagen_table().fields[10].name == "enclosing_step"@,
        datagen_table().fields[11].name == "selector_step"@,
        datagen_table().fields[12].name == "attempt"@,
        datagen_table().fields[13].name == "run_id"@,
        datagen_table().fields[14].name == "writer_epoch"@,
        datagen_table().fields[15].name == "field_name"@,
        datagen_table().fields[16].name == "field_type"@,
        datagen_table().fields[17].name == "codec_version"@,
        datagen_table().fields[18].name == "value_kind"@,
        datagen_table().fields[19].name == "value_i64"@,
        datagen_table().fields[20].name == "value_f64"@,
        datagen_table().fields[21].name == "value_bool"@,
        datagen_table().fields[22].name == "value_str"@,
        datagen_table().fields[23].name == "value_json"@,
        datagen_table().fields[24].name == "value_blob"@,
        datagen_table().fields[25].name == "payload_size"@,
        datagen_table().fields[26].name == "payload_checksum"@,
        datagen_table().fields[27].name == "query_tags_json"@,
        datagen_table().fields[28].name == "status"@,
        datagen_table().fields[29].name == "error_type"@,
        datagen_table().fields[30].name == "error_dump"@,
        datagen_table().fields[31].name == "traceback"@,
        datagen_table().fields[32].name == "event_ts"@,
        datagen_table().fields[33].name == "schema_version"@,
{
}

} // verus!
