//! Context records read back from table rows.

use vstd::prelude::*;

use crate::batch::{
    cell_bytes, cell_floats, cell_int, cell_state, cell_text, law_a_scan_finds_what_it_asked_for,
    opt_index, optional_column, required_column, valid_index, ArrayKind, Batch, BatchView, Cell,
    CellView,
};
use crate::collect::{collected, lemma_failure_stays};
use crate::error::{invalid_argument, Failure, StoreError};
use crate::outside::{json_compact, text_from_utf8_lossy, utf8_lossy};
use crate::read::{
    failure_of, field_cell, first_failure, is_optional, is_required, json_read, optional_json,
    optional_timestamp, optional_timestamp_read, or_empty, or_zero, role_read, row_relationships,
    row_relationships_read, text_field, text_or_empty, timestamp_from_micros, timestamp_read,
    typed_cell,
};
use crate::record::{copy_list, opt_seq, record_views, ContextRecord, RecordView};
use crate::schema::{DataType, ItemType, Scalar};
use crate::text::{join3, opt_text};

verus! {

/// The failure of a text payload that is stored neither as text nor as bytes.
pub open spec fn text_payload_failure(batch: BatchView) -> Option<Failure> {
    match batch.find("text_payload"@) {
        None => None,
        Some(index) => if batch.columns[index].data_type == DataType::Scalar(Scalar::LargeBinary)
            || batch.columns[index].data_type == DataType::Scalar(Scalar::LargeUtf8) {
            None
        } else {
            Some(invalid_argument("column 'text_payload' has unexpected data type"@))
        },
    }
}

/// The failure of a state column whose children have the wrong types.
pub open spec fn state_failure(data_type: DataType) -> Option<Failure> {
    match data_type {
        DataType::Struct(shape, _) => if shape.first != Scalar::Int32 {
            Some(invalid_argument("step column has unexpected data type"@))
        } else if shape.second != Scalar::Utf8 {
            Some(invalid_argument("active_plan_id column has unexpected data type"@))
        } else if shape.third != Scalar::Int32 {
            Some(invalid_argument("tokens_used column has unexpected data type"@))
        } else if shape.fourth != Scalar::Utf8 {
            Some(invalid_argument("custom column has unexpected data type"@))
        } else {
            None
        },
        _ => None,
    }
}

/// The type of the state column.
pub open spec fn state_column_type(batch: BatchView) -> DataType {
    match batch.find("state_metadata"@) {
        Some(index) => batch.columns[index].data_type,
        None => DataType::Other(0),
    }
}

/// Why a batch cannot hold records at all.
pub open spec fn header_failure(batch: BatchView) -> Option<Failure> {
    first_failure(
        failure_of(required_column(batch, "id"@, ArrayKind::Text)),
        first_failure(
            failure_of(required_column(batch, "run_id"@, ArrayKind::Text)),
            first_failure(
                failure_of(required_column(batch, "created_at"@, ArrayKind::Timestamp)),
                first_failure(
                    failure_of(required_column(batch, "role"@, ArrayKind::Dictionary)),
                    first_failure(
                        failure_of(required_column(batch, "state_metadata"@, ArrayKind::Struct)),
                        first_failure(
                            failure_of(required_column(batch, "content_type"@, ArrayKind::Text)),
                            first_failure(
                                text_payload_failure(batch),
                                state_failure(state_column_type(batch)),
                            ),
                        ),
                    ),
                ),
            ),
        ),
    )
}

/// The text that bytes hold: what they encode, where they are valid UTF-8.
pub open spec fn lossy_text(bytes: Seq<u8>) -> Seq<char> {
    if vstd::utf8::valid_utf8(bytes) {
        vstd::utf8::decode_utf8(bytes)
    } else {
        utf8_lossy(bytes)
    }
}

/// The text payload of a row, from text or from bytes.
pub open spec fn text_payload_read(batch: BatchView, row: int) -> Option<Seq<char>> {
    match batch.find("text_payload"@) {
        None => None,
        Some(index) => match batch.columns[index].cells[row] {
            CellView::Text(text) => if batch.columns[index].data_type == DataType::Scalar(
                Scalar::LargeBinary,
            ) {
                None
            } else {
                Some(text)
            },
            CellView::Bytes(bytes) => if batch.columns[index].data_type == DataType::Scalar(
                Scalar::LargeBinary,
            ) {
                Some(lossy_text(bytes))
            } else {
                None
            },
            _ => None,
        },
    }
}

/// The embedding of a row.
pub open spec fn embedding_read(column: Option<(DataType, CellView)>) -> Result<
    Option<Seq<u32>>,
    Failure,
> {
    match column {
        None => Ok(None),
        Some((_, CellView::Null)) => Ok(None),
        Some((data_type, cell)) => match data_type {
            DataType::FixedSizeList(ItemType::Scalar(Scalar::Float32), _, _) => Ok(cell_floats(cell)),
            _ => Err(invalid_argument("embedding column does not contain float32 values"@)),
        },
    }
}

/// The type and cell of the role column in a row.
pub open spec fn role_of(batch: BatchView, row: int) -> Result<Seq<char>, Failure> {
    match batch.find("role"@) {
        Some(index) => role_read(batch.columns[index].data_type, batch.columns[index].cells[row]),
        None => Err(invalid_argument("role column contains null values"@)),
    }
}

/// The state of a row.
pub open spec fn state_of(batch: BatchView, row: int) -> Option<crate::record::StateView> {
    match batch.find("state_metadata"@) {
        Some(index) => cell_state(batch.columns[index].cells[row]),
        None => None,
    }
}

/// The words in front of the parser's own in the failure of a row's metadata.
pub open spec fn metadata_intro(id: Seq<char>) -> Seq<char> {
    "invalid metadata JSON for record "@ + id + ": "@
}

/// The record of a row once the values that can fail are read.
pub open spec fn record_of(
    batch: BatchView,
    row: int,
    active: Seq<char>,
    created_at: i64,
    embedding: Option<Seq<u32>>,
    role: Seq<char>,
    metadata: Option<Seq<char>>,
    relationships: Seq<crate::record::RelationshipView>,
    expires_at: Option<i64>,
    retired_at: Option<i64>,
) -> RecordView {
    RecordView {
        id: or_empty(text_field(batch, "id"@, row)),
        external_id: text_field(batch, "external_id"@, row),
        run_id: or_empty(text_field(batch, "run_id"@, row)),
        bot_id: text_field(batch, "bot_id"@, row),
        session_id: text_field(batch, "session_id"@, row),
        tenant: text_field(batch, "tenant"@, row),
        source: text_field(batch, "source"@, row),
        created_at,
        role,
        state_metadata: state_of(batch, row),
        metadata,
        relationships,
        expires_at,
        retention_policy: text_field(batch, "retention_policy"@, row),
        lifecycle_status: match text_field(batch, "lifecycle_status"@, row) {
            Some(status) => status,
            None => active,
        },
        retired_at,
        retired_reason: text_field(batch, "retired_reason"@, row),
        supersedes_id: text_field(batch, "supersedes_id"@, row),
        superseded_by_id: text_field(batch, "superseded_by_id"@, row),
        content_type: or_empty(text_field(batch, "content_type"@, row)),
        text_payload: text_payload_read(batch, row),
        binary_payload: cell_bytes(
            field_cell(batch, "binary_payload"@, ArrayKind::LargeBinary, row),
        ),
        payload_uri: text_field(batch, "payload_uri"@, row),
        payload_size: cell_int(field_cell(batch, "payload_size"@, ArrayKind::Int64, row)),
        payload_checksum: text_field(batch, "payload_checksum"@, row),
        embedding,
    }
}

/// The record of a row, or its first failure.
pub open spec fn row_read(batch: BatchView, active: Seq<char>) -> spec_fn(int) -> Result<
    RecordView,
    Failure,
> {
    |row: int|
        match timestamp_read(
            or_zero(cell_int(field_cell(batch, "created_at"@, ArrayKind::Timestamp, row))),
            "created_at"@,
        ) {
            Err(failure) => Err(failure),
            Ok(created_at) => match embedding_read(
                typed_cell(
                    batch,
                    optional_column(batch, "embedding"@, ArrayKind::FixedSizeList),
                    row,
                ),
            ) {
                Err(failure) => Err(failure),
                Ok(embedding) => match role_of(batch, row) {
                    Err(failure) => Err(failure),
                    Ok(role) => match json_read(
                        cell_text(field_cell(batch, "metadata"@, ArrayKind::LargeText, row)),
                        metadata_intro(or_empty(text_field(batch, "id"@, row))),
                    ) {
                        Err(failure) => Err(failure),
                        Ok(metadata) => match row_relationships_read(
                            typed_cell(
                                batch,
                                optional_column(batch, "relationships"@, ArrayKind::List),
                                row,
                            ),
                        ) {
                            Err(failure) => Err(failure),
                            Ok(relationships) => match optional_timestamp_read(
                                cell_int(
                                    field_cell(batch, "expires_at"@, ArrayKind::Timestamp, row),
                                ),
                                "expires_at"@,
                            ) {
                                Err(failure) => Err(failure),
                                Ok(expires_at) => match optional_timestamp_read(
                                    cell_int(
                                        field_cell(batch, "retired_at"@, ArrayKind::Timestamp, row),
                                    ),
                                    "retired_at"@,
                                ) {
                                    Err(failure) => Err(failure),
                                    Ok(retired_at) => Ok(
                                        record_of(
                                            batch,
                                            row,
                                            active,
                                            created_at,
                                            embedding,
                                            role,
                                            metadata,
                                            relationships,
                                            expires_at,
                                            retired_at,
                                        ),
                                    ),
                                },
                            },
                        },
                    },
                },
            },
        }
}

/// The records of a batch, or why they cannot be read.
pub open spec fn decoded(batch: BatchView, active: Seq<char>) -> Result<Seq<RecordView>, Failure> {
    match header_failure(batch) {
        Some(failure) => Err(failure),
        None => collected(row_read(batch, active), batch.rows),
    }
}

/// Where the columns of a batch of records stand.
struct Header {
    id: usize,
    external_id: Option<usize>,
    run_id: usize,
    bot_id: Option<usize>,
    session_id: Option<usize>,
    tenant: Option<usize>,
    source: Option<usize>,
    created_at: usize,
    role: usize,
    state_metadata: usize,
    metadata: Option<usize>,
    relationships: Option<usize>,
    expires_at: Option<usize>,
    retention_policy: Option<usize>,
    lifecycle_status: Option<usize>,
    retired_at: Option<usize>,
    retired_reason: Option<usize>,
    supersedes_id: Option<usize>,
    superseded_by_id: Option<usize>,
    content_type: usize,
    text_payload: Option<usize>,
    binary_payload: Option<usize>,
    payload_uri: Option<usize>,
    payload_size: Option<usize>,
    payload_checksum: Option<usize>,
    embedding: Option<usize>,
}

impl Header {
    spec fn matches(self, batch: BatchView) -> bool {
        &&& is_required(batch, "id"@, ArrayKind::Text, self.id)
        &&& is_optional(batch, "external_id"@, ArrayKind::Text, self.external_id)
        &&& is_required(batch, "run_id"@, ArrayKind::Text, self.run_id)
        &&& is_optional(batch, "bot_id"@, ArrayKind::Text, self.bot_id)
        &&& is_optional(batch, "session_id"@, ArrayKind::Text, self.session_id)
        &&& is_optional(batch, "tenant"@, ArrayKind::Text, self.tenant)
        &&& is_optional(batch, "source"@, ArrayKind::Text, self.source)
        &&& is_required(batch, "created_at"@, ArrayKind::Timestamp, self.created_at)
        &&& is_required(batch, "role"@, ArrayKind::Dictionary, self.role)
        &&& is_required(batch, "state_metadata"@, ArrayKind::Struct, self.state_metadata)
        &&& is_optional(batch, "metadata"@, ArrayKind::LargeText, self.metadata)
        &&& is_optional(batch, "relationships"@, ArrayKind::List, self.relationships)
        &&& is_optional(batch, "expires_at"@, ArrayKind::Timestamp, self.expires_at)
        &&& is_optional(batch, "retention_policy"@, ArrayKind::Text, self.retention_policy)
        &&& is_optional(batch, "lifecycle_status"@, ArrayKind::Text, self.lifecycle_status)
        &&& is_optional(batch, "retired_at"@, ArrayKind::Timestamp, self.retired_at)
        &&& is_optional(batch, "retired_reason"@, ArrayKind::Text, self.retired_reason)
        &&& is_optional(batch, "supersedes_id"@, ArrayKind::Text, self.supersedes_id)
        &&& is_optional(batch, "superseded_by_id"@, ArrayKind::Text, self.superseded_by_id)
        &&& is_required(batch, "content_type"@, ArrayKind::Text, self.content_type)
        &&& valid_index(batch, self.text_payload)
        &&& opt_index(self.text_payload) == batch.find("text_payload"@)
        &&& is_optional(batch, "binary_payload"@, ArrayKind::LargeBinary, self.binary_payload)
        &&& is_optional(batch, "payload_uri"@, ArrayKind::Text, self.payload_uri)
        &&& is_optional(batch, "payload_size"@, ArrayKind::Int64, self.payload_size)
        &&& is_optional(batch, "payload_checksum"@, ArrayKind::Text, self.payload_checksum)
        &&& is_optional(batch, "embedding"@, ArrayKind::FixedSizeList, self.embedding)
    }
}

fn check_text_payload(batch: &Batch) -> (result: Result<Option<usize>, StoreError>)
    ensures
        match text_payload_failure(batch@) {
            Some(failure) => result is Err && result->Err_0@ == failure,
            None => result is Ok && valid_index(batch@, result->Ok_0) && opt_index(result->Ok_0)
                == batch@.find("text_payload"@),
        },
{
    match batch.index_of("text_payload") {
        None => Ok(None),
        Some(index) => if batch.columns[index].data_type == DataType::Scalar(Scalar::LargeBinary)
            || batch.columns[index].data_type == DataType::Scalar(Scalar::LargeUtf8) {
            Ok(Some(index))
        } else {
            Err(
                StoreError::invalid_argument(
                    "column 'text_payload' has unexpected data type".to_owned(),
                ),
            )
        },
    }
}

fn check_state(data_type: DataType) -> (result: Result<(), StoreError>)
    ensures
        crate::error::check_failure(result) == state_failure(data_type),
{
    match data_type {
        DataType::Struct(shape, _) => if shape.first != Scalar::Int32 {
            Err(StoreError::invalid_argument("step column has unexpected data type".to_owned()))
        } else if shape.second != Scalar::Utf8 {
            Err(
                StoreError::invalid_argument(
                    "active_plan_id column has unexpected data type".to_owned(),
                ),
            )
        } else if shape.third != Scalar::Int32 {
            Err(
                StoreError::invalid_argument(
                    "tokens_used column has unexpected data type".to_owned(),
                ),
            )
        } else if shape.fourth != Scalar::Utf8 {
            Err(StoreError::invalid_argument("custom column has unexpected data type".to_owned()))
        } else {
            Ok(())
        },
        _ => Ok(()),
    }
}

fn read_header(batch: &Batch) -> (result: Result<Header, StoreError>)
    ensures
        match header_failure(batch@) {
            Some(failure) => result is Err && result->Err_0@ == failure,
            None => result is Ok && result->Ok_0.matches(batch@),
        },
{
    let id = match batch.column_as("id", ArrayKind::Text) {
        Ok(index) => index,
        Err(error) => {
            return Err(error);
        },
    };
    let run_id = match batch.column_as("run_id", ArrayKind::Text) {
        Ok(index) => index,
        Err(error) => {
            return Err(error);
        },
    };
    let created_at = match batch.column_as("created_at", ArrayKind::Timestamp) {
        Ok(index) => index,
        Err(error) => {
            return Err(error);
        },
    };
    let role = match batch.column_as("role", ArrayKind::Dictionary) {
        Ok(index) => index,
        Err(error) => {
            return Err(error);
        },
    };
    let state_metadata = match batch.column_as("state_metadata", ArrayKind::Struct) {
        Ok(index) => index,
        Err(error) => {
            return Err(error);
        },
    };
    let content_type = match batch.column_as("content_type", ArrayKind::Text) {
        Ok(index) => index,
        Err(error) => {
            return Err(error);
        },
    };
    let text_payload = match check_text_payload(batch) {
        Ok(index) => index,
        Err(error) => {
            return Err(error);
        },
    };
    match check_state(batch.columns[state_metadata].data_type) {
        Ok(_) => {},
        Err(error) => {
            return Err(error);
        },
    }
    Ok(
        Header {
            id,
            external_id: batch.column_as_optional("external_id", ArrayKind::Text),
            run_id,
            bot_id: batch.column_as_optional("bot_id", ArrayKind::Text),
            session_id: batch.column_as_optional("session_id", ArrayKind::Text),
            tenant: batch.column_as_optional("tenant", ArrayKind::Text),
            source: batch.column_as_optional("source", ArrayKind::Text),
            created_at,
            role,
            state_metadata,
            metadata: batch.column_as_optional("metadata", ArrayKind::LargeText),
            relationships: batch.column_as_optional("relationships", ArrayKind::List),
            expires_at: batch.column_as_optional("expires_at", ArrayKind::Timestamp),
            retention_policy: batch.column_as_optional("retention_policy", ArrayKind::Text),
            lifecycle_status: batch.column_as_optional("lifecycle_status", ArrayKind::Text),
            retired_at: batch.column_as_optional("retired_at", ArrayKind::Timestamp),
            retired_reason: batch.column_as_optional("retired_reason", ArrayKind::Text),
            supersedes_id: batch.column_as_optional("supersedes_id", ArrayKind::Text),
            superseded_by_id: batch.column_as_optional("superseded_by_id", ArrayKind::Text),
            content_type,
            text_payload,
            binary_payload: batch.column_as_optional("binary_payload", ArrayKind::LargeBinary),
            payload_uri: batch.column_as_optional("payload_uri", ArrayKind::Text),
            payload_size: batch.column_as_optional("payload_size", ArrayKind::Int64),
            payload_checksum: batch.column_as_optional("payload_checksum", ArrayKind::Text),
            embedding: batch.column_as_optional("embedding", ArrayKind::FixedSizeList),
        },
    )
}

fn read_text_payload(batch: &Batch, column: Option<usize>, row: usize) -> (result: Option<String>)
    requires
        batch@.well_formed(),
        valid_index(batch@, column),
        opt_index(column) == batch@.find("text_payload"@),
        row < batch.rows,
    ensures
        opt_text(result) == text_payload_read(batch@, row as int),
{
    match column {
        None => None,
        Some(index) => {
            assert(batch@.columns[index as int].cells.len() == batch@.rows);
            let binary = batch.columns[index].data_type == DataType::Scalar(Scalar::LargeBinary);
            match &batch.columns[index].cells[row] {
                Cell::Text(text) => if binary {
                    None
                } else {
                    Some(text.clone())
                },
                Cell::Bytes(bytes) => if binary {
                    Some(text_from_utf8_lossy(bytes))
                } else {
                    None
                },
                _ => None,
            }
        },
    }
}

/// Reads the embedding of a row; its items must be 32-bit floats.
pub fn embedding_from_list(batch: &Batch, column: Option<usize>, row: usize) -> (result: Result<
    Option<Vec<u32>>,
    StoreError,
>)
    requires
        batch@.well_formed(),
        valid_index(batch@, column),
        row < batch.rows,
    ensures
        match embedding_read(typed_cell(batch@, opt_index(column), row as int)) {
            Ok(embedding) => result is Ok && opt_seq(result->Ok_0) == embedding,
            Err(failure) => result is Err && result->Err_0@ == failure,
        },
{
    match column {
        None => Ok(None),
        Some(index) => {
            assert(batch@.columns[index as int].cells.len() == batch@.rows);
            match &batch.columns[index].cells[row] {
                Cell::Null => Ok(None),
                cell => match batch.columns[index].data_type {
                    DataType::FixedSizeList(ItemType::Scalar(Scalar::Float32), _, _) => match cell {
                        Cell::Floats(items) => Ok(Some(copy_list(items))),
                        _ => Ok(None),
                    },
                    _ => Err(
                        StoreError::invalid_argument(
                            "embedding column does not contain float32 values".to_owned(),
                        ),
                    ),
                },
            }
        },
    }
}

fn read_role(batch: &Batch, column: usize, row: usize) -> (result: Result<String, StoreError>)
    requires
        batch@.well_formed(),
        column < batch@.columns.len(),
        row < batch.rows,
    ensures
        match role_read(
            batch@.columns[column as int].data_type,
            batch@.columns[column as int].cells[row as int],
        ) {
            Ok(role) => result is Ok && result->Ok_0@ == role,
            Err(failure) => result is Err && result->Err_0@ == failure,
        },
{
    match batch.text_at(Some(column), row) {
        None => Err(StoreError::invalid_argument("role column contains null values".to_owned())),
        Some(role) => if batch.columns[column].data_type == DataType::Dictionary(
            Scalar::Int8,
            Scalar::Utf8,
        ) {
            Ok(role)
        } else {
            Err(StoreError::invalid_argument("role dictionary values are not strings".to_owned()))
        },
    }
}

fn read_row(batch: &Batch, header: &Header, row: usize, active_status: &str) -> (result: Result<
    ContextRecord,
    StoreError,
>)
    requires
        batch@.well_formed(),
        header.matches(batch@),
        row < batch.rows,
    ensures
        match row_read(batch@, active_status@)(row as int) {
            Ok(record) => result is Ok && result->Ok_0@ == record,
            Err(failure) => result is Err && result->Err_0@ == failure,
        },
{
    let micros = match batch.int_at(Some(header.created_at), row) {
        Some(value) => value,
        None => 0,
    };
    let created_at = match timestamp_from_micros(micros, "created_at") {
        Ok(value) => value,
        Err(error) => {
            return Err(error);
        },
    };
    let embedding = match embedding_from_list(batch, header.embedding, row) {
        Ok(value) => value,
        Err(error) => {
            return Err(error);
        },
    };
    let role = match read_role(batch, header.role, row) {
        Ok(value) => value,
        Err(error) => {
            return Err(error);
        },
    };
    let id = text_or_empty(batch.text_at(Some(header.id), row));
    let intro = join3("invalid metadata JSON for record ", id.as_str(), ": ");
    let metadata = match optional_json(batch.text_at(header.metadata, row), intro.as_str()) {
        Ok(value) => value,
        Err(error) => {
            return Err(error);
        },
    };
    let relationships = match row_relationships(batch, header.relationships, row) {
        Ok(value) => value,
        Err(error) => {
            return Err(error);
        },
    };
    let expires_at = match optional_timestamp(batch.int_at(header.expires_at, row), "expires_at") {
        Ok(value) => value,
        Err(error) => {
            return Err(error);
        },
    };
    let retired_at = match optional_timestamp(batch.int_at(header.retired_at, row), "retired_at") {
        Ok(value) => value,
        Err(error) => {
            return Err(error);
        },
    };
    let lifecycle_status = match batch.text_at(header.lifecycle_status, row) {
        Some(status) => status,
        None => active_status.to_owned(),
    };
    let record = ContextRecord {
        id,
        external_id: batch.text_at(header.external_id, row),
        run_id: text_or_empty(batch.text_at(Some(header.run_id), row)),
        bot_id: batch.text_at(header.bot_id, row),
        session_id: batch.text_at(header.session_id, row),
        tenant: batch.text_at(header.tenant, row),
        source: batch.text_at(header.source, row),
        created_at,
        role,
        state_metadata: batch.state_at(header.state_metadata, row),
        metadata,
        relationships,
        expires_at,
        retention_policy: batch.text_at(header.retention_policy, row),
        lifecycle_status,
        retired_at,
        retired_reason: batch.text_at(header.retired_reason, row),
        supersedes_id: batch.text_at(header.supersedes_id, row),
        superseded_by_id: batch.text_at(header.superseded_by_id, row),
        content_type: text_or_empty(batch.text_at(Some(header.content_type), row)),
        text_payload: read_text_payload(batch, header.text_payload, row),
        binary_payload: batch.bytes_at(header.binary_payload, row),
        payload_uri: batch.text_at(header.payload_uri, row),
        payload_size: batch.int_at(header.payload_size, row),
        payload_checksum: batch.text_at(header.payload_checksum, row),
        embedding,
    };
    proof {
        let model = row_read(batch@, active_status@)(row as int);
        assert(model is Ok);
        assert(record@ =~= model->Ok_0);
    }
    Ok(record)
}

/// Reads the records of a batch. Columns that were left out of the read, or
/// that an older table lacks, come back as absent values.
pub fn batch_to_records(batch: &Batch, active_status: &str) -> (result: Result<
    Vec<ContextRecord>,
    StoreError,
>)
    requires
        batch@.well_formed(),
    ensures
        match decoded(batch@, active_status@) {
            Ok(records) => result is Ok && record_views(result->Ok_0@) == records,
            Err(failure) => result is Err && result->Err_0@ == failure,
        },
{
    let header = match read_header(batch) {
        Ok(header) => header,
        Err(error) => {
            return Err(error);
        },
    };
    let ghost step = row_read(batch@, active_status@);
    let mut records: Vec<ContextRecord> = Vec::new();
    let mut row: usize = 0;
    assert(record_views(records@) =~= Seq::<RecordView>::empty());
    while row < batch.rows
        invariant
            row <= batch.rows,
            batch@.well_formed(),
            header_failure(batch@) is None,
            header.matches(batch@),
            step == row_read(batch@, active_status@),
            collected(step, row as nat) == Ok::<Seq<RecordView>, Failure>(record_views(records@)),
        decreases batch.rows - row,
    {
        match read_row(batch, &header, row, active_status) {
            Ok(record) => {
                let ghost before = records@;
                records.push(record);
                assert(record_views(records@) =~= record_views(before).push(record@));
            },
            Err(error) => {
                proof {
                    assert(collected(step, (row + 1) as nat) is Err);
                    lemma_failure_stays(step, (row + 1) as nat, batch@.rows);
                }
                return Err(error);
            },
        }
        row = row + 1;
    }
    Ok(records)
}

/// A record is read field by field: what a row of the column of a name holds is the
/// record's field of that name. A status that is missing is the active one.
pub proof fn law_a_record_is_read_field_by_field(
    batch: BatchView,
    active: Seq<char>,
    at: int,
    row: int,
)
    requires
        decoded(batch, active) is Ok,
        0 <= row < batch.rows,
        crate::schema::first_at(
            crate::batch::column_names(batch.columns),
            batch.columns[at].name,
            at,
        ),
    ensures
        ({
            let record = decoded(batch, active)->Ok_0[row];
            let name = batch.columns[at].name;
            let data_type = batch.columns[at].data_type;
            let cell = batch.columns[at].cells[row];
            &&& name == "id"@ && data_type == DataType::Scalar(Scalar::Utf8)
                ==> (cell_text(cell) matches Some(value) ==> record.id == value)
            &&& name == "run_id"@ && data_type == DataType::Scalar(Scalar::Utf8)
                ==> (cell_text(cell) matches Some(value) ==> record.run_id == value)
            &&& name == "content_type"@ && data_type == DataType::Scalar(Scalar::Utf8)
                ==> (cell_text(cell) matches Some(value) ==> record.content_type == value)
            &&& name == "external_id"@ && data_type == DataType::Scalar(Scalar::Utf8)
                ==> record.external_id == cell_text(cell)
            &&& name == "bot_id"@ && data_type == DataType::Scalar(Scalar::Utf8)
                ==> record.bot_id == cell_text(cell)
            &&& name == "session_id"@ && data_type == DataType::Scalar(Scalar::Utf8)
                ==> record.session_id == cell_text(cell)
            &&& name == "tenant"@ && data_type == DataType::Scalar(Scalar::Utf8)
                ==> record.tenant == cell_text(cell)
            &&& name == "source"@ && data_type == DataType::Scalar(Scalar::Utf8)
                ==> record.source == cell_text(cell)
            &&& name == "retention_policy"@ && data_type == DataType::Scalar(Scalar::Utf8)
                ==> record.retention_policy == cell_text(cell)
            &&& name == "retired_reason"@ && data_type == DataType::Scalar(Scalar::Utf8)
                ==> record.retired_reason == cell_text(cell)
            &&& name == "supersedes_id"@ && data_type == DataType::Scalar(Scalar::Utf8)
                ==> record.supersedes_id == cell_text(cell)
            &&& name == "superseded_by_id"@ && data_type == DataType::Scalar(Scalar::Utf8)
                ==> record.superseded_by_id == cell_text(cell)
            &&& name == "payload_uri"@ && data_type == DataType::Scalar(Scalar::Utf8)
                ==> record.payload_uri == cell_text(cell)
            &&& name == "payload_checksum"@ && data_type == DataType::Scalar(Scalar::Utf8)
                ==> record.payload_checksum == cell_text(cell)
            &&& name == "lifecycle_status"@ && data_type == DataType::Scalar(Scalar::Utf8)
                ==> record.lifecycle_status == (match cell_text(cell) {
                Some(status) => status,
                None => active,
            })
            &&& name == "payload_size"@ && data_type == DataType::Scalar(Scalar::Int64)
                ==> record.payload_size == cell_int(cell)
            &&& name == "binary_payload"@ && data_type == DataType::Scalar(Scalar::LargeBinary)
                ==> record.binary_payload == cell_bytes(cell)
            &&& name == "created_at"@
                && (data_type == DataType::Scalar(Scalar::Timestamp)
                    || data_type == DataType::Scalar(Scalar::TimestampUtc))
                        ==> (cell_int(cell) matches Some(value) ==> record.created_at == value)
            &&& name == "expires_at"@
                && (data_type == DataType::Scalar(Scalar::Timestamp)
                    || data_type == DataType::Scalar(Scalar::TimestampUtc))
                        ==> record.expires_at == cell_int(cell)
            &&& name == "retired_at"@
                && (data_type == DataType::Scalar(Scalar::Timestamp)
                    || data_type == DataType::Scalar(Scalar::TimestampUtc))
                        ==> record.retired_at == cell_int(cell)
            &&& name == "role"@ ==> cell_text(cell) == Some(record.role)
            &&& name == "state_metadata"@ ==> record.state_metadata == cell_state(cell)
            &&& name == "text_payload"@ && data_type == DataType::Scalar(Scalar::LargeUtf8)
                ==> record.text_payload == cell_text(cell)
            &&& name == "text_payload"@ && data_type == DataType::Scalar(Scalar::LargeBinary)
                ==> (cell_bytes(cell) matches Some(bytes) ==> record.text_payload == Some(
                lossy_text(bytes),
            )) && (cell_bytes(cell) is None ==> record.text_payload is None)
            &&& name == "embedding"@ && data_type is FixedSizeList
                ==> record.embedding == cell_floats(cell)
            &&& name == "metadata"@ && data_type == DataType::Scalar(Scalar::LargeUtf8)
                ==> (cell_text(cell) matches Some(text) ==> record.metadata == Some(
                json_compact(text)->Ok_0,
            )) && (cell_text(cell) is None ==> record.metadata is None)
            &&& name == "relationships"@ && cell == CellView::Null
                ==> record.relationships.len() == 0
        }),
{
    let step = row_read(batch, active);
    crate::collect::lemma_success_holds_values(step, batch.rows);
    assert(step(row) is Ok);
    let names = crate::batch::column_names(batch.columns);
    crate::schema::lemma_find_name_is(names, batch.columns[at].name, at);
}

/// A field whose column is missing is absent.
pub proof fn law_a_record_without_a_column_lacks_the_field(
    batch: BatchView,
    active: Seq<char>,
    name: Seq<char>,
    row: int,
)
    requires
        decoded(batch, active) is Ok,
        0 <= row < batch.rows,
        !crate::batch::column_names(batch.columns).contains(name),
    ensures
        ({
            let record = decoded(batch, active)->Ok_0[row];
            &&& name != "id"@ && name != "run_id"@ && name != "created_at"@ && name != "role"@
                && name
                != "state_metadata"@ && name != "content_type"@
            &&& name == "external_id"@ ==> record.external_id is None
            &&& name == "bot_id"@ ==> record.bot_id is None
            &&& name == "session_id"@ ==> record.session_id is None
            &&& name == "tenant"@ ==> record.tenant is None
            &&& name == "source"@ ==> record.source is None
            &&& name == "metadata"@ ==> record.metadata is None
            &&& name == "expires_at"@ ==> record.expires_at is None
            &&& name == "retention_policy"@ ==> record.retention_policy is None
            &&& name == "retired_at"@ ==> record.retired_at is None
            &&& name == "retired_reason"@ ==> record.retired_reason is None
            &&& name == "supersedes_id"@ ==> record.supersedes_id is None
            &&& name == "superseded_by_id"@ ==> record.superseded_by_id is None
            &&& name == "text_payload"@ ==> record.text_payload is None
            &&& name == "binary_payload"@ ==> record.binary_payload is None
            &&& name == "payload_uri"@ ==> record.payload_uri is None
            &&& name == "payload_size"@ ==> record.payload_size is None
            &&& name == "payload_checksum"@ ==> record.payload_checksum is None
            &&& name == "embedding"@ ==> record.embedding is None
            &&& name == "relationships"@ ==> record.relationships.len() == 0
            &&& name == "lifecycle_status"@ ==> record.lifecycle_status == active
        }),
{
    let step = row_read(batch, active);
    crate::collect::lemma_success_holds_values(step, batch.rows);
    assert(step(row) is Ok);
    crate::schema::lemma_find_name_none(crate::batch::column_names(batch.columns), name);
}

/// A batch of records is read only where the columns that every record needs have
/// their types.
pub proof fn law_required_record_columns_have_their_types(
    batch: BatchView,
    active: Seq<char>,
    at: int,
)
    requires
        decoded(batch, active) is Ok,
        crate::schema::first_at(
            crate::batch::column_names(batch.columns),
            batch.columns[at].name,
            at,
        ),
    ensures
        ({
            let name = batch.columns[at].name;
            let data_type = batch.columns[at].data_type;
            &&& name == "id"@ ==> data_type == DataType::Scalar(Scalar::Utf8)
            &&& name == "run_id"@ ==> data_type == DataType::Scalar(Scalar::Utf8)
            &&& name == "content_type"@ ==> data_type == DataType::Scalar(Scalar::Utf8)
            &&& name == "created_at"@
                ==> data_type == DataType::Scalar(Scalar::Timestamp) || data_type
                == DataType::Scalar(Scalar::TimestampUtc)
            &&& name == "role"@ ==> data_type is Dictionary
            &&& name == "state_metadata"@ ==> data_type is Struct
        }),
{
    crate::schema::lemma_find_name_is(
        crate::batch::column_names(batch.columns),
        batch.columns[at].name,
        at,
    );
}

/// A scan of some columns, with those that every record needs among them, reads
/// where all columns read.
pub proof fn law_a_scan_of_some_columns_reads(
    batch: BatchView,
    active: Seq<char>,
    names: Seq<Seq<char>>,
)
    requires
        decoded(batch, active) is Ok,
        forall|i: int| 0 <= i < names.len() ==> batch.find(#[trigger] names[i]) is Some,
        names.contains("id"@) && names.contains("run_id"@) && names.contains("created_at"@)
            && names.contains("role"@) && names.contains("state_metadata"@) && names.contains(
            "content_type"@,
        ),
    ensures
        decoded(crate::batch::scanned(batch, names), active) is Ok,
        decoded(crate::batch::scanned(batch, names), active)->Ok_0.len() == batch.rows,
{
    let part = crate::batch::scanned(batch, names);
    law_a_scan_finds_what_it_asked_for(batch, names, "id"@);
    law_a_scan_finds_what_it_asked_for(batch, names, "run_id"@);
    law_a_scan_finds_what_it_asked_for(batch, names, "created_at"@);
    law_a_scan_finds_what_it_asked_for(batch, names, "role"@);
    law_a_scan_finds_what_it_asked_for(batch, names, "state_metadata"@);
    law_a_scan_finds_what_it_asked_for(batch, names, "content_type"@);
    law_a_scan_finds_what_it_asked_for(batch, names, "text_payload"@);
    law_a_scan_finds_what_it_asked_for(batch, names, "embedding"@);
    law_a_scan_finds_what_it_asked_for(batch, names, "metadata"@);
    law_a_scan_finds_what_it_asked_for(batch, names, "relationships"@);
    law_a_scan_finds_what_it_asked_for(batch, names, "expires_at"@);
    law_a_scan_finds_what_it_asked_for(batch, names, "retired_at"@);
    assert(header_failure(part) is None);
    let whole_step = row_read(batch, active);
    crate::collect::lemma_success_holds_values(whole_step, batch.rows);
    let step = row_read(part, active);
    assert forall|row: int| 0 <= row < batch.rows implies (#[trigger] step(row)) is Ok by {
        assert(whole_step(row) is Ok);
    }
    if collected(step, batch.rows) is Err {
        let at = crate::collect::lemma_first_failure(step, batch.rows);
        assert(step(at) is Ok);
    }
    crate::collect::lemma_success_holds_values(step, batch.rows);
}

/// An embedding is read where it is null or a list of floats, and a text payload
/// where its column is one of texts or of bytes.
pub proof fn law_which_payload_types_are_read(data_type: DataType, cell: CellView, batch: BatchView)
    ensures
        embedding_read(Some((data_type, cell))) is Ok <==> cell == CellView::Null || (
        data_type matches DataType::FixedSizeList(item, _, _) && item == ItemType::Scalar(
            Scalar::Float32,
        )),
        embedding_read(None) == Ok::<Option<Seq<u32>>, Failure>(None),
        text_payload_failure(batch) is None <==> (batch.find("text_payload"@) matches Some(at) ==> (
        batch.columns[at].data_type == DataType::Scalar(Scalar::LargeBinary)
            || batch.columns[at].data_type == DataType::Scalar(Scalar::LargeUtf8))),
        data_type matches DataType::Struct(shape, _) ==> (state_failure(data_type) is None
            <==> shape.first == Scalar::Int32 && shape.second == Scalar::Utf8 && shape.third
            == Scalar::Int32 && shape.fourth == Scalar::Utf8),
{
}

} // verus!
