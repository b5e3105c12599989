//! What a context table gives back of what it was given.

use vstd::prelude::*;

use crate::batch::{cell_text, column_names, required_column, ArrayKind, BatchView, ColumnView};
use crate::collect::{lemma_all_succeed, lemma_success_holds_values};
use crate::context_codec::{column_write, encoded, record_cell, record_column};
use crate::context_columns::{
    column_name, column_type, law_column_names_are_distinct, lemma_named_column, ContextColumn,
};
use crate::context_decode::{decoded, header_failure, record_of, row_read, text_payload_read};
use crate::error::Failure;
use crate::outside::{json_compact, timestamp_in_range};
use crate::read::{law_relationships_read_back, text_field};
use crate::record::RecordView;
use crate::schema::{find_name, first_at, lemma_find_name, names_of, DataType, Scalar, SchemaView};

verus! {

/// The table has every column of a record.
pub open spec fn full_schema(schema: SchemaView) -> bool {
    forall|column: ContextColumn| schema.has(#[trigger] column_name(column))
}

/// The record's times are points in time and its metadata is JSON as it is
/// written.
pub open spec fn readable(record: RecordView) -> bool {
    &&& timestamp_in_range(record.created_at)
    &&& record.expires_at is Some ==> timestamp_in_range(record.expires_at->Some_0)
    &&& record.retired_at is Some ==> timestamp_in_range(record.retired_at->Some_0)
    &&& record.metadata is Some ==> json_compact(record.metadata->Some_0) == Ok::<
        Seq<char>,
        Seq<char>,
    >(record.metadata->Some_0)
}

proof fn lemma_column_found(
    records: Seq<RecordView>,
    schema: SchemaView,
    dim: i32,
    text_is_blob: bool,
    active: Seq<char>,
    column: ContextColumn,
)
    requires
        encoded(records, schema, dim, text_is_blob, active) is Ok,
        schema.has(column_name(column)),
    ensures
        ({
            let batch = encoded(records, schema, dim, text_is_blob, active)->Ok_0;
            let found = batch.find(column_name(column));
            &&& found is Some
            &&& 0 <= found->Some_0 < batch.columns.len()
            &&& batch.columns[found->Some_0] == record_column(records, column, dim, text_is_blob)
        }),
{
    let batch = encoded(records, schema, dim, text_is_blob, active)->Ok_0;
    let step = column_write(records, schema, dim, text_is_blob);
    lemma_success_holds_values(step, schema.fields.len());
    let names = names_of(schema.fields);
    assert forall|j: int| 0 <= j < names.len() implies #[trigger] column_names(batch.columns)[j]
        == names[j] by {
        assert(step(j) == Ok::<ColumnView, Failure>(batch.columns[j]));
        lemma_named_column(schema.fields[j].name);
    }
    assert(column_names(batch.columns) =~= names);
    let at = find_name(names, column_name(column))->Some_0;
    lemma_find_name(names, column_name(column));
    assert(first_at(names, column_name(column), at));
    assert(step(at) == Ok::<ColumnView, Failure>(batch.columns[at]));
    law_column_names_are_distinct(column);
}

/// The batch holds each column of the records once.
#[verifier::opaque]
spec fn holds_columns(
    batch: BatchView,
    records: Seq<RecordView>,
    dim: i32,
    text_is_blob: bool,
) -> bool {
    forall|column: ContextColumn|
        {
            let found = batch.find(#[trigger] column_name(column));
            &&& found is Some
            &&& 0 <= found->Some_0 < batch.columns.len()
            &&& batch.columns[found->Some_0] == record_column(records, column, dim, text_is_blob)
        }
}

proof fn lemma_column(
    batch: BatchView,
    records: Seq<RecordView>,
    dim: i32,
    text_is_blob: bool,
    column: ContextColumn,
)
    requires
        holds_columns(batch, records, dim, text_is_blob),
    ensures
        ({
            let found = batch.find(column_name(column));
            &&& found is Some
            &&& 0 <= found->Some_0 < batch.columns.len()
            &&& batch.columns[found->Some_0].data_type == column_type(column, dim, text_is_blob)
            &&& batch.columns[found->Some_0].cells.len() == records.len()
            &&& forall|row: int|
                0 <= row < records.len() ==> #[trigger] batch.columns[found->Some_0].cells[row]
                    == record_cell(records[row], column, text_is_blob)
        }),
{
    reveal(holds_columns);
}

proof fn lemma_text_column(
    batch: BatchView,
    records: Seq<RecordView>,
    dim: i32,
    text_is_blob: bool,
    column: ContextColumn,
    row: int,
)
    requires
        holds_columns(batch, records, dim, text_is_blob),
        column_type(column, dim, text_is_blob) == DataType::Scalar(Scalar::Utf8),
        0 <= row < records.len(),
    ensures
        text_field(batch, column_name(column), row) == cell_text(
            record_cell(records[row], column, text_is_blob),
        ),
        required_column(batch, column_name(column), ArrayKind::Text) is Ok,
{
    lemma_column(batch, records, dim, text_is_blob, column);
}

proof fn lemma_header(batch: BatchView, records: Seq<RecordView>, dim: i32, text_is_blob: bool)
    requires
        holds_columns(batch, records, dim, text_is_blob),
    ensures
        header_failure(batch) is None,
{
    lemma_column(batch, records, dim, text_is_blob, ContextColumn::Id);
    lemma_column(batch, records, dim, text_is_blob, ContextColumn::RunId);
    lemma_column(batch, records, dim, text_is_blob, ContextColumn::CreatedAt);
    lemma_column(batch, records, dim, text_is_blob, ContextColumn::Role);
    lemma_column(batch, records, dim, text_is_blob, ContextColumn::StateMetadata);
    lemma_column(batch, records, dim, text_is_blob, ContextColumn::ContentType);
    lemma_column(batch, records, dim, text_is_blob, ContextColumn::TextPayload);
}

proof fn lemma_text_payload(
    batch: BatchView,
    records: Seq<RecordView>,
    dim: i32,
    text_is_blob: bool,
    row: int,
)
    requires
        holds_columns(batch, records, dim, text_is_blob),
        0 <= row < records.len(),
    ensures
        text_payload_read(batch, row) == records[row].text_payload,
{
    let record = records[row];
    lemma_column(batch, records, dim, text_is_blob, ContextColumn::TextPayload);
    if record.text_payload is Some {
        vstd::utf8::encode_utf8_valid_utf8(record.text_payload->Some_0);
        vstd::utf8::encode_utf8_decode_utf8(record.text_payload->Some_0);
    }
}

/// The values of a row that no failure stands in front of.
proof fn lemma_plain_values(
    batch: BatchView,
    records: Seq<RecordView>,
    dim: i32,
    text_is_blob: bool,
    row: int,
    active: Seq<char>,
)
    requires
        holds_columns(batch, records, dim, text_is_blob),
        0 <= row < records.len(),
    ensures
        ({
            let record = records[row];
            record_of(
                batch,
                row,
                active,
                record.created_at,
                record.embedding,
                record.role,
                record.metadata,
                record.relationships,
                record.expires_at,
                record.retired_at,
            ) == record
        }),
{
    let record = records[row];
    lemma_text_column(batch, records, dim, text_is_blob, ContextColumn::ExternalId, row);
    lemma_text_column(batch, records, dim, text_is_blob, ContextColumn::BotId, row);
    lemma_text_column(batch, records, dim, text_is_blob, ContextColumn::SessionId, row);
    lemma_text_column(batch, records, dim, text_is_blob, ContextColumn::Tenant, row);
    lemma_text_column(batch, records, dim, text_is_blob, ContextColumn::Source, row);
    lemma_text_column(batch, records, dim, text_is_blob, ContextColumn::RetentionPolicy, row);
    lemma_text_column(batch, records, dim, text_is_blob, ContextColumn::LifecycleStatus, row);
    lemma_text_column(batch, records, dim, text_is_blob, ContextColumn::RetiredReason, row);
    lemma_text_column(batch, records, dim, text_is_blob, ContextColumn::SupersedesId, row);
    lemma_text_column(batch, records, dim, text_is_blob, ContextColumn::SupersededById, row);
    lemma_text_column(batch, records, dim, text_is_blob, ContextColumn::PayloadUri, row);
    lemma_text_column(batch, records, dim, text_is_blob, ContextColumn::PayloadChecksum, row);
    lemma_text_column(batch, records, dim, text_is_blob, ContextColumn::Id, row);
    lemma_text_column(batch, records, dim, text_is_blob, ContextColumn::RunId, row);
    lemma_text_column(batch, records, dim, text_is_blob, ContextColumn::ContentType, row);
    lemma_column(batch, records, dim, text_is_blob, ContextColumn::StateMetadata);
    lemma_text_payload(batch, records, dim, text_is_blob, row);
    lemma_column(batch, records, dim, text_is_blob, ContextColumn::BinaryPayload);
    lemma_column(batch, records, dim, text_is_blob, ContextColumn::PayloadSize);
    assert(record_of(
        batch,
        row,
        active,
        record.created_at,
        record.embedding,
        record.role,
        record.metadata,
        record.relationships,
        record.expires_at,
        record.retired_at,
    ) =~= record);
}

proof fn lemma_row(
    batch: BatchView,
    records: Seq<RecordView>,
    dim: i32,
    text_is_blob: bool,
    row: int,
    active: Seq<char>,
)
    requires
        holds_columns(batch, records, dim, text_is_blob),
        0 <= row < records.len(),
        readable(records[row]),
    ensures
        row_read(batch, active)(row) == Ok::<RecordView, Failure>(records[row]),
{
    let record = records[row];
    lemma_plain_values(batch, records, dim, text_is_blob, row, active);
    lemma_text_column(batch, records, dim, text_is_blob, ContextColumn::Id, row);
    lemma_column(batch, records, dim, text_is_blob, ContextColumn::CreatedAt);
    lemma_column(batch, records, dim, text_is_blob, ContextColumn::Role);
    lemma_column(batch, records, dim, text_is_blob, ContextColumn::Metadata);
    lemma_column(batch, records, dim, text_is_blob, ContextColumn::Relationships);
    lemma_column(batch, records, dim, text_is_blob, ContextColumn::ExpiresAt);
    lemma_column(batch, records, dim, text_is_blob, ContextColumn::RetiredAt);
    lemma_column(batch, records, dim, text_is_blob, ContextColumn::Embedding);
    law_relationships_read_back(record.relationships);
}

/// What is written reads back: records written to a table that has every
/// column come back as they were, in order, with every field.
///
/// Left out are times outside the range that a point in time can have, and
/// metadata that is no JSON in its compact form, which no writer produces.
pub proof fn law_records_read_back(
    records: Seq<RecordView>,
    schema: SchemaView,
    dim: i32,
    text_is_blob: bool,
    active: Seq<char>,
)
    requires
        encoded(records, schema, dim, text_is_blob, active) is Ok,
        full_schema(schema),
    ensures
        (forall|i: int| 0 <= i < records.len() ==> readable(#[trigger] records[i])) ==> decoded(
            encoded(records, schema, dim, text_is_blob, active)->Ok_0,
            active,
        ) == Ok::<Seq<RecordView>, Failure>(records),
{
    let batch = encoded(records, schema, dim, text_is_blob, active)->Ok_0;
    if forall|i: int| 0 <= i < records.len() ==> readable(#[trigger] records[i]) {
        assert(holds_columns(batch, records, dim, text_is_blob)) by {
            reveal(holds_columns);
            assert forall|column: ContextColumn| #![trigger column_name(column)] {
                let found = batch.find(column_name(column));
                &&& found is Some
                &&& 0 <= found->Some_0 < batch.columns.len()
                &&& batch.columns[found->Some_0] == record_column(
                    records,
                    column,
                    dim,
                    text_is_blob,
                )
            } by {
                lemma_column_found(records, schema, dim, text_is_blob, active, column);
            }
        }
        lemma_header(batch, records, dim, text_is_blob);
        let step = row_read(batch, active);
        assert forall|i: int| 0 <= i < records.len() implies #[trigger] step(i) == Ok::<
            RecordView,
            Failure,
        >(records[i]) by {
            lemma_row(batch, records, dim, text_is_blob, i, active);
        }
        lemma_all_succeed(step, records.len(), records);
    }
}

} // verus!
