//! Events read back from rows of a data generation log.

use vstd::prelude::*;

use crate::batch::{
    cell_bytes, cell_double, cell_flag, cell_int, cell_int32, cell_text, required_column, ArrayKind,
    Batch, BatchView,
};
use crate::collect::{collected, lemma_failure_stays};
use crate::datagen_event::{
    event_views, opt_value, BlobView, DatagenBlobValue, DatagenEvent, DatagenValue, EventView,
    ValueView,
};
use crate::error::{invalid_argument, Failure, StoreError};
use crate::outside::json_compact;
use crate::read::{
    failure_of, field_cell, first_failure, int32_field, is_optional, is_required, json_read,
    large_text_field, optional_json, or_empty, or_zero, or_zero32, text_field, text_or_empty,
    timestamp_from_micros, timestamp_read,
};
use crate::schema::{DataType, Scalar};
use crate::text::{join2, join3, opt_text, same_text};

verus! {

/// What the log's vocabulary says of a row: for each word that it refuses, and
/// for an event that breaks its rules, the words of the refusal.
#[derive(Debug, Clone, PartialEq)]
pub struct RowVerdict {
    pub event_type: Option<String>,
    pub step_kind: Option<String>,
    pub status: Option<String>,
    pub validity: Option<String>,
}

/// The model of a [`RowVerdict`].
#[verifier::ext_equal]
pub struct VerdictView {
    pub event_type: Option<Seq<char>>,
    pub step_kind: Option<Seq<char>>,
    pub status: Option<Seq<char>>,
    pub validity: Option<Seq<char>>,
}

impl View for RowVerdict {
    type V = VerdictView;

    open spec fn view(&self) -> VerdictView {
        VerdictView {
            event_type: opt_text(self.event_type),
            step_kind: opt_text(self.step_kind),
            status: opt_text(self.status),
            validity: opt_text(self.validity),
        }
    }
}

/// The models of verdicts.
pub open spec fn verdict_views(verdicts: Seq<RowVerdict>) -> Seq<VerdictView> {
    Seq::new(verdicts.len(), |i: int| verdicts[i]@)
}

/// The words of a row that the log's vocabulary decides about.
#[derive(Debug, Clone, PartialEq)]
pub struct EventWords {
    pub event_type: String,
    pub step_kind: Option<String>,
    pub status: Option<String>,
}

/// Why a batch cannot hold events at all.
pub open spec fn event_header_failure(batch: BatchView) -> Option<Failure> {
    first_failure(
        failure_of(required_column(batch, "event_id"@, ArrayKind::Text)),
        first_failure(
            failure_of(required_column(batch, "item_id"@, ArrayKind::Text)),
            first_failure(
                failure_of(required_column(batch, "root_item_id"@, ArrayKind::Text)),
                first_failure(
                    failure_of(required_column(batch, "item_seq"@, ArrayKind::Int64)),
                    first_failure(
                        failure_of(required_column(batch, "checkpoint_id"@, ArrayKind::Text)),
                        first_failure(
                            failure_of(required_column(batch, "event_type"@, ArrayKind::Text)),
                            first_failure(
                                failure_of(required_column(batch, "attempt"@, ArrayKind::Int32)),
                                first_failure(
                                    failure_of(required_column(batch, "run_id"@, ArrayKind::Text)),
                                    first_failure(
                                        failure_of(required_column(batch, "writer_epoch"@, ArrayKind::Text)),
                                        first_failure(
                                            failure_of(required_column(batch, "event_ts"@, ArrayKind::Timestamp)),
                                            failure_of(required_column(batch, "schema_version"@, ArrayKind::Int32)),
                                        ),
                                    ),
                                ),
                            ),
                        ),
                    ),
                ),
            ),
        ),
    )
}

/// The 64-bit integer of a named column in a row.
pub open spec fn int64_field(batch: BatchView, name: Seq<char>, row: int) -> Option<i64> {
    cell_int(field_cell(batch, name, ArrayKind::Int64, row))
}

/// A value that a column must hold.
pub open spec fn required<T>(value: Option<T>, name: Seq<char>) -> Result<T, Failure> {
    match value {
        Some(value) => Ok(value),
        None => Err(invalid_argument(name + " must not be null"@)),
    }
}

/// The value of a row, from the columns of its kind.
pub open spec fn value_read(batch: BatchView, row: int) -> Result<Option<ValueView>, Failure> {
    let id = or_empty(text_field(batch, "event_id"@, row));
    match text_field(batch, "value_kind"@, row) {
        None => Ok(None),
        Some(kind) => if kind == "int"@ {
            match required(int64_field(batch, "value_i64"@, row), "value_i64"@) {
                Ok(number) => Ok(Some(ValueView::Int(number))),
                Err(failure) => Err(failure),
            }
        } else if kind == "float"@ {
            match required(
                cell_double(field_cell(batch, "value_f64"@, ArrayKind::Float64, row)),
                "value_f64"@,
            ) {
                Ok(bits) => Ok(Some(ValueView::Float(bits))),
                Err(failure) => Err(failure),
            }
        } else if kind == "bool"@ {
            match required(
                cell_flag(field_cell(batch, "value_bool"@, ArrayKind::Boolean, row)),
                "value_bool"@,
            ) {
                Ok(flag) => Ok(Some(ValueView::Bool(flag))),
                Err(failure) => Err(failure),
            }
        } else if kind == "str"@ {
            match large_text_field(batch, "value_str"@, row) {
                Some(text) => Ok(Some(ValueView::Str(text))),
                None => Err(invalid_argument("value_kind=str requires value_str"@)),
            }
        } else if kind == "json"@ {
            match large_text_field(batch, "value_json"@, row) {
                Some(text) => match json_read(
                    Some(text),
                    "event '"@ + id + "' contains invalid value_json: "@,
                ) {
                    Ok(document) => Ok(Some(ValueView::Json(or_empty(document)))),
                    Err(failure) => Err(failure),
                },
                None => Err(invalid_argument("value_kind=json requires value_json"@)),
            }
        } else if kind == "blob"@ {
            match required(int64_field(batch, "payload_size"@, row), "payload_size"@) {
                Ok(size) => Ok(
                    Some(
                        ValueView::Blob(
                            BlobView {
                                bytes: cell_bytes(
                                    field_cell(batch, "value_blob"@, ArrayKind::LargeBinary, row),
                                ),
                                size,
                                checksum: text_field(batch, "payload_checksum"@, row),
                            },
                        ),
                    ),
                ),
                Err(failure) => Err(failure),
            }
        } else {
            Err(
                invalid_argument(
                    "event '"@ + id + "' has unsupported value_kind '"@ + kind + "'"@,
                ),
            )
        },
    }
}

/// The refusal of a word that a row may lack.
pub open spec fn word_failure(word: Option<Seq<char>>, verdict: Option<Seq<char>>) -> Option<Failure> {
    match (word, verdict) {
        (Some(_), Some(message)) => Some(invalid_argument(message)),
        _ => None,
    }
}

/// The refusal of a row's words, in the order in which they are looked at.
pub open spec fn words_failure(batch: BatchView, row: int, verdict: VerdictView) -> Option<Failure> {
    first_failure(
        word_failure(Some(or_empty(text_field(batch, "event_type"@, row))), verdict.event_type),
        first_failure(
            word_failure(text_field(batch, "step_kind"@, row), verdict.step_kind),
            word_failure(text_field(batch, "status"@, row), verdict.status),
        ),
    )
}

/// The event of a row once the values that can fail are read.
pub open spec fn event_of(
    batch: BatchView,
    row: int,
    value: Option<ValueView>,
    query_tags: Option<Seq<char>>,
    event_ts: i64,
) -> EventView {
    EventView {
        event_id: or_empty(text_field(batch, "event_id"@, row)),
        item_id: or_empty(text_field(batch, "item_id"@, row)),
        root_item_id: or_empty(text_field(batch, "root_item_id"@, row)),
        parent_item_id: text_field(batch, "parent_item_id"@, row),
        item_seq: or_zero(int64_field(batch, "item_seq"@, row)),
        checkpoint_id: or_empty(text_field(batch, "checkpoint_id"@, row)),
        event_type: or_empty(text_field(batch, "event_type"@, row)),
        step_name: text_field(batch, "step_name"@, row),
        step_kind: text_field(batch, "step_kind"@, row),
        step_index: int64_field(batch, "step_index"@, row),
        enclosing_step: text_field(batch, "enclosing_step"@, row),
        selector_step: text_field(batch, "selector_step"@, row),
        attempt: or_zero32(int32_field(batch, "attempt"@, row)),
        run_id: or_empty(text_field(batch, "run_id"@, row)),
        writer_epoch: or_empty(text_field(batch, "writer_epoch"@, row)),
        field_name: text_field(batch, "field_name"@, row),
        field_type: text_field(batch, "field_type"@, row),
        codec_version: int32_field(batch, "codec_version"@, row),
        value,
        query_tags,
        status: text_field(batch, "status"@, row),
        error_type: text_field(batch, "error_type"@, row),
        error_dump: large_text_field(batch, "error_dump"@, row),
        traceback: large_text_field(batch, "traceback"@, row),
        event_ts,
        event_ts_below: 0,
        schema_version: or_zero32(int32_field(batch, "schema_version"@, row)),
    }
}

/// The event of a row, or its first failure.
pub open spec fn event_read(batch: BatchView, row: int, verdict: VerdictView) -> Result<
    EventView,
    Failure,
> {
    match value_read(batch, row) {
        Err(failure) => Err(failure),
        Ok(value) => match json_read(
            large_text_field(batch, "query_tags_json"@, row),
            "event '"@ + or_empty(text_field(batch, "event_id"@, row))
                + "' contains invalid query_tags_json: "@,
        ) {
            Err(failure) => Err(failure),
            Ok(query_tags) => match words_failure(batch, row, verdict) {
                Some(failure) => Err(failure),
                None => match timestamp_read(
                    or_zero(cell_int(field_cell(batch, "event_ts"@, ArrayKind::Timestamp, row))),
                    "event_ts"@,
                ) {
                    Err(failure) => Err(failure),
                    Ok(event_ts) => Ok(event_of(batch, row, value, query_tags, event_ts)),
                },
            },
        },
    }
}

/// The checked event of a row, or its first failure.
pub open spec fn checked_event(batch: BatchView, verdicts: Seq<VerdictView>) -> spec_fn(
    int,
) -> Result<EventView, Failure> {
    |row: int|
        match event_read(batch, row, verdicts[row]) {
            Err(failure) => Err(failure),
            Ok(event) => match verdicts[row].validity {
                Some(message) => Err(invalid_argument(message)),
                None => Ok(event),
            },
        }
}

/// The events of a batch, or why they cannot be read.
pub open spec fn events_decoded(batch: BatchView, verdicts: Seq<VerdictView>) -> Result<
    Seq<EventView>,
    Failure,
> {
    match event_header_failure(batch) {
        Some(failure) => Err(failure),
        None => collected(checked_event(batch, verdicts), batch.rows),
    }
}

/// Where the columns of a batch of events stand.
pub struct EventHeader {
    event_id: usize,
    item_id: usize,
    root_item_id: usize,
    parent_item_id: Option<usize>,
    item_seq: usize,
    checkpoint_id: usize,
    event_type: usize,
    step_name: Option<usize>,
    step_kind: Option<usize>,
    step_index: Option<usize>,
    enclosing_step: Option<usize>,
    selector_step: Option<usize>,
    attempt: usize,
    run_id: usize,
    writer_epoch: usize,
    field_name: Option<usize>,
    field_type: Option<usize>,
    codec_version: Option<usize>,
    value_kind: Option<usize>,
    value_i64: Option<usize>,
    value_f64: Option<usize>,
    value_bool: Option<usize>,
    value_str: Option<usize>,
    value_json: Option<usize>,
    value_blob: Option<usize>,
    payload_size: Option<usize>,
    payload_checksum: Option<usize>,
    query_tags_json: Option<usize>,
    status: Option<usize>,
    error_type: Option<usize>,
    error_dump: Option<usize>,
    traceback: Option<usize>,
    event_ts: usize,
    schema_version: usize,
}

impl EventHeader {
    /// The header fits the batch.
    pub closed spec fn matches(self, batch: BatchView) -> bool {
        &&& is_required(batch, "event_id"@, ArrayKind::Text, self.event_id)
        &&& is_required(batch, "item_id"@, ArrayKind::Text, self.item_id)
        &&& is_required(batch, "root_item_id"@, ArrayKind::Text, self.root_item_id)
        &&& is_optional(batch, "parent_item_id"@, ArrayKind::Text, self.parent_item_id)
        &&& is_required(batch, "item_seq"@, ArrayKind::Int64, self.item_seq)
        &&& is_required(batch, "checkpoint_id"@, ArrayKind::Text, self.checkpoint_id)
        &&& is_required(batch, "event_type"@, ArrayKind::Text, self.event_type)
        &&& is_optional(batch, "step_name"@, ArrayKind::Text, self.step_name)
        &&& is_optional(batch, "step_kind"@, ArrayKind::Text, self.step_kind)
        &&& is_optional(batch, "step_index"@, ArrayKind::Int64, self.step_index)
        &&& is_optional(batch, "enclosing_step"@, ArrayKind::Text, self.enclosing_step)
        &&& is_optional(batch, "selector_step"@, ArrayKind::Text, self.selector_step)
        &&& is_required(batch, "attempt"@, ArrayKind::Int32, self.attempt)
        &&& is_required(batch, "run_id"@, ArrayKind::Text, self.run_id)
        &&& is_required(batch, "writer_epoch"@, ArrayKind::Text, self.writer_epoch)
        &&& is_optional(batch, "field_name"@, ArrayKind::Text, self.field_name)
        &&& is_optional(batch, "field_type"@, ArrayKind::Text, self.field_type)
        &&& is_optional(batch, "codec_version"@, ArrayKind::Int32, self.codec_version)
        &&& is_optional(batch, "value_kind"@, ArrayKind::Text, self.value_kind)
        &&& is_optional(batch, "value_i64"@, ArrayKind::Int64, self.value_i64)
        &&& is_optional(batch, "value_f64"@, ArrayKind::Float64, self.value_f64)
        &&& is_optional(batch, "value_bool"@, ArrayKind::Boolean, self.value_bool)
        &&& is_optional(batch, "value_str"@, ArrayKind::LargeText, self.value_str)
        &&& is_optional(batch, "value_json"@, ArrayKind::LargeText, self.value_json)
        &&& is_optional(batch, "value_blob"@, ArrayKind::LargeBinary, self.value_blob)
        &&& is_optional(batch, "payload_size"@, ArrayKind::Int64, self.payload_size)
        &&& is_optional(batch, "payload_checksum"@, ArrayKind::Text, self.payload_checksum)
        &&& is_optional(batch, "query_tags_json"@, ArrayKind::LargeText, self.query_tags_json)
        &&& is_optional(batch, "status"@, ArrayKind::Text, self.status)
        &&& is_optional(batch, "error_type"@, ArrayKind::Text, self.error_type)
        &&& is_optional(batch, "error_dump"@, ArrayKind::LargeText, self.error_dump)
        &&& is_optional(batch, "traceback"@, ArrayKind::LargeText, self.traceback)
        &&& is_required(batch, "event_ts"@, ArrayKind::Timestamp, self.event_ts)
        &&& is_required(batch, "schema_version"@, ArrayKind::Int32, self.schema_version)
    }

    /// Finds the columns of a batch of events.
    pub fn read(batch: &Batch) -> (result: Result<EventHeader, StoreError>)
        ensures
            match event_header_failure(batch@) {
                Some(failure) => result is Err && result->Err_0@ == failure,
                None => result is Ok && result->Ok_0.matches(batch@),
            },
    {
        let event_id = match batch.column_as("event_id", ArrayKind::Text) {
            Ok(index) => index,
            Err(error) => {
                return Err(error);
            },
        };
        let item_id = match batch.column_as("item_id", ArrayKind::Text) {
            Ok(index) => index,
            Err(error) => {
                return Err(error);
            },
        };
        let root_item_id = match batch.column_as("root_item_id", ArrayKind::Text) {
            Ok(index) => index,
            Err(error) => {
                return Err(error);
            },
        };
        let item_seq = match batch.column_as("item_seq", ArrayKind::Int64) {
            Ok(index) => index,
            Err(error) => {
                return Err(error);
            },
        };
        let checkpoint_id = match batch.column_as("checkpoint_id", ArrayKind::Text) {
            Ok(index) => index,
            Err(error) => {
                return Err(error);
            },
        };
        let event_type = match batch.column_as("event_type", ArrayKind::Text) {
            Ok(index) => index,
            Err(error) => {
                return Err(error);
            },
        };
        let attempt = match batch.column_as("attempt", ArrayKind::Int32) {
            Ok(index) => index,
            Err(error) => {
                return Err(error);
            },
        };
        let run_id = match batch.column_as("run_id", ArrayKind::Text) {
            Ok(index) => index,
            Err(error) => {
                return Err(error);
            },
        };
        let writer_epoch = match batch.column_as("writer_epoch", ArrayKind::Text) {
            Ok(index) => index,
            Err(error) => {
                return Err(error);
            },
        };
        let event_ts = match batch.column_as("event_ts", ArrayKind::Timestamp) {
            Ok(index) => index,
            Err(error) => {
                return Err(error);
            },
        };
        let schema_version = match batch.column_as("schema_version", ArrayKind::Int32) {
            Ok(index) => index,
            Err(error) => {
                return Err(error);
            },
        };
        Ok(
            EventHeader {
                event_id,
                item_id,
                root_item_id,
                parent_item_id: batch.column_as_optional("parent_item_id", ArrayKind::Text),
                item_seq,
                checkpoint_id,
                event_type,
                step_name: batch.column_as_optional("step_name", ArrayKind::Text),
                step_kind: batch.column_as_optional("step_kind", ArrayKind::Text),
                step_index: batch.column_as_optional("step_index", ArrayKind::Int64),
                enclosing_step: batch.column_as_optional("enclosing_step", ArrayKind::Text),
                selector_step: batch.column_as_optional("selector_step", ArrayKind::Text),
                attempt,
                run_id,
                writer_epoch,
                field_name: batch.column_as_optional("field_name", ArrayKind::Text),
                field_type: batch.column_as_optional("field_type", ArrayKind::Text),
                codec_version: batch.column_as_optional("codec_version", ArrayKind::Int32),
                value_kind: batch.column_as_optional("value_kind", ArrayKind::Text),
                value_i64: batch.column_as_optional("value_i64", ArrayKind::Int64),
                value_f64: batch.column_as_optional("value_f64", ArrayKind::Float64),
                value_bool: batch.column_as_optional("value_bool", ArrayKind::Boolean),
                value_str: batch.column_as_optional("value_str", ArrayKind::LargeText),
                value_json: batch.column_as_optional("value_json", ArrayKind::LargeText),
                value_blob: batch.column_as_optional("value_blob", ArrayKind::LargeBinary),
                payload_size: batch.column_as_optional("payload_size", ArrayKind::Int64),
                payload_checksum: batch.column_as_optional("payload_checksum", ArrayKind::Text),
                query_tags_json: batch.column_as_optional("query_tags_json", ArrayKind::LargeText),
                status: batch.column_as_optional("status", ArrayKind::Text),
                error_type: batch.column_as_optional("error_type", ArrayKind::Text),
                error_dump: batch.column_as_optional("error_dump", ArrayKind::LargeText),
                traceback: batch.column_as_optional("traceback", ArrayKind::LargeText),
                event_ts,
                schema_version,
            },
        )
    }

    /// The words of a row that the log's vocabulary decides about.
    pub fn words(&self, batch: &Batch, row: usize) -> (words: EventWords)
        requires
            batch@.well_formed(),
            self.matches(batch@),
            row < batch.rows,
        ensures
            words.event_type@ == or_empty(text_field(batch@, "event_type"@, row as int)),
            opt_text(words.step_kind) == text_field(batch@, "step_kind"@, row as int),
            opt_text(words.status) == text_field(batch@, "status"@, row as int),
    {
        EventWords {
            event_type: text_or_empty(batch.text_at(Some(self.event_type), row)),
            step_kind: batch.text_at(self.step_kind, row),
            status: batch.text_at(self.status, row),
        }
    }

    fn value(&self, batch: &Batch, row: usize, id: &str) -> (result: Result<
        Option<DatagenValue>,
        StoreError,
    >)
        requires
            batch@.well_formed(),
            self.matches(batch@),
            row < batch.rows,
            id@ == or_empty(text_field(batch@, "event_id"@, row as int)),
        ensures
            match value_read(batch@, row as int) {
                Ok(value) => result is Ok && opt_value(result->Ok_0) == value,
                Err(failure) => result is Err && result->Err_0@ == failure,
            },
    {
        let kind = match batch.text_at(self.value_kind, row) {
            None => {
                return Ok(None);
            },
            Some(kind) => kind,
        };
        if same_text(kind.as_str(), "int") {
            match batch.int_at(self.value_i64, row) {
                Some(number) => Ok(Some(DatagenValue::Int(number))),
                None => Err(null_value("value_i64")),
            }
        } else if same_text(kind.as_str(), "float") {
            match batch.double_at(self.value_f64, row) {
                Some(bits) => Ok(Some(DatagenValue::Float(bits))),
                None => Err(null_value("value_f64")),
            }
        } else if same_text(kind.as_str(), "bool") {
            match batch.flag_at(self.value_bool, row) {
                Some(flag) => Ok(Some(DatagenValue::Bool(flag))),
                None => Err(null_value("value_bool")),
            }
        } else if same_text(kind.as_str(), "str") {
            match batch.text_at(self.value_str, row) {
                Some(text) => Ok(Some(DatagenValue::Str(text))),
                None => Err(
                    StoreError::invalid_argument("value_kind=str requires value_str".to_owned()),
                ),
            }
        } else if same_text(kind.as_str(), "json") {
            match batch.text_at(self.value_json, row) {
                Some(text) => {
                    let intro = join3("event '", id, "' contains invalid value_json: ");
                    match optional_json(Some(text), intro.as_str()) {
                        Ok(document) => Ok(Some(DatagenValue::Json(text_or_empty(document)))),
                        Err(error) => Err(error),
                    }
                },
                None => Err(
                    StoreError::invalid_argument("value_kind=json requires value_json".to_owned()),
                ),
            }
        } else if same_text(kind.as_str(), "blob") {
            match batch.int_at(self.payload_size, row) {
                Some(size) => {
                    let blob = DatagenBlobValue {
                        bytes: batch.bytes_at(self.value_blob, row),
                        size,
                        checksum: batch.text_at(self.payload_checksum, row),
                    };
                    Ok(Some(DatagenValue::Blob(blob)))
                },
                None => Err(null_value("payload_size")),
            }
        } else {
            let mut message = join3("event '", id, "' has unsupported value_kind '");
            message.append(kind.as_str());
            message.append("'");
            Err(StoreError::invalid_argument(message))
        }
    }

    /// Reads the event of a row, given what the log's vocabulary says of its
    /// words.
    pub fn event(&self, batch: &Batch, row: usize, verdict: &RowVerdict) -> (result: Result<
        DatagenEvent,
        StoreError,
    >)
        requires
            batch@.well_formed(),
            self.matches(batch@),
            row < batch.rows,
        ensures
            match event_read(batch@, row as int, verdict@) {
                Ok(event) => result is Ok && result->Ok_0@ == event,
                Err(failure) => result is Err && result->Err_0@ == failure,
            },
    {
        let event_id = text_or_empty(batch.text_at(Some(self.event_id), row));
        let value = match self.value(batch, row, event_id.as_str()) {
            Ok(value) => value,
            Err(error) => {
                return Err(error);
            },
        };
        let intro = join3("event '", event_id.as_str(), "' contains invalid query_tags_json: ");
        let query_tags = match optional_json(
            batch.text_at(self.query_tags_json, row),
            intro.as_str(),
        ) {
            Ok(value) => value,
            Err(error) => {
                return Err(error);
            },
        };
        let words = self.words(batch, row);
        match &verdict.event_type {
            Some(message) => {
                return Err(StoreError::invalid_argument(message.clone()));
            },
            None => {},
        }
        match (&words.step_kind, &verdict.step_kind) {
            (Some(_), Some(message)) => {
                return Err(StoreError::invalid_argument(message.clone()));
            },
            _ => {},
        }
        match (&words.status, &verdict.status) {
            (Some(_), Some(message)) => {
                return Err(StoreError::invalid_argument(message.clone()));
            },
            _ => {},
        }
        let micros = match batch.int_at(Some(self.event_ts), row) {
            Some(value) => value,
            None => 0,
        };
        let event_ts = match timestamp_from_micros(micros, "event_ts") {
            Ok(value) => value,
            Err(error) => {
                return Err(error);
            },
        };
        let item_seq = match batch.int_at(Some(self.item_seq), row) {
            Some(number) => number,
            None => 0,
        };
        let attempt = match batch.int32_at(Some(self.attempt), row) {
            Some(number) => number,
            None => 0,
        };
        let schema_version = match batch.int32_at(Some(self.schema_version), row) {
            Some(number) => number,
            None => 0,
        };
        let event = DatagenEvent {
            event_id,
            item_id: text_or_empty(batch.text_at(Some(self.item_id), row)),
            root_item_id: text_or_empty(batch.text_at(Some(self.root_item_id), row)),
            parent_item_id: batch.text_at(self.parent_item_id, row),
            item_seq,
            checkpoint_id: text_or_empty(batch.text_at(Some(self.checkpoint_id), row)),
            event_type: words.event_type,
            step_name: batch.text_at(self.step_name, row),
            step_kind: words.step_kind,
            step_index: batch.int_at(self.step_index, row),
            enclosing_step: batch.text_at(self.enclosing_step, row),
            selector_step: batch.text_at(self.selector_step, row),
            attempt,
            run_id: text_or_empty(batch.text_at(Some(self.run_id), row)),
            writer_epoch: text_or_empty(batch.text_at(Some(self.writer_epoch), row)),
            field_name: batch.text_at(self.field_name, row),
            field_type: batch.text_at(self.field_type, row),
            codec_version: batch.int32_at(self.codec_version, row),
            value,
            query_tags,
            status: words.status,
            error_type: batch.text_at(self.error_type, row),
            error_dump: batch.text_at(self.error_dump, row),
            traceback: batch.text_at(self.traceback, row),
            event_ts,
            event_ts_below: 0,
            schema_version,
        };
        proof {
            let model = event_read(batch@, row as int, verdict@);
            assert(model is Ok);
            assert(event@ =~= model->Ok_0);
        }
        Ok(event)
    }
}

fn null_value(name: &str) -> (error: StoreError)
    ensures
        error@ == invalid_argument(name@ + " must not be null"@),
{
    StoreError::invalid_argument(join2(name, " must not be null"))
}

/// Reads the events of a batch, given what the log's vocabulary says of each
/// row. The first failure is reported.
pub fn batch_to_events(batch: &Batch, verdicts: &Vec<RowVerdict>) -> (result: Result<
    Vec<DatagenEvent>,
    StoreError,
>)
    requires
        batch@.well_formed(),
        verdicts@.len() == batch.rows,
    ensures
        match events_decoded(batch@, verdict_views(verdicts@)) {
            Ok(events) => result is Ok && event_views(result->Ok_0@) == events,
            Err(failure) => result is Err && result->Err_0@ == failure,
        },
{
    let header = match EventHeader::read(batch) {
        Ok(header) => header,
        Err(error) => {
            return Err(error);
        },
    };
    let ghost all = verdict_views(verdicts@);
    let ghost step = checked_event(batch@, all);
    let mut events: Vec<DatagenEvent> = Vec::new();
    let mut row: usize = 0;
    assert(event_views(events@) =~= Seq::<EventView>::empty());
    while row < batch.rows
        invariant
            row <= batch.rows,
            verdicts@.len() == batch.rows,
            batch@.well_formed(),
            event_header_failure(batch@) is None,
            header.matches(batch@),
            all == verdict_views(verdicts@),
            step == checked_event(batch@, all),
            collected(step, row as nat) == Ok::<Seq<EventView>, Failure>(event_views(events@)),
        decreases batch.rows - row,
    {
        assert(all[row as int] == verdicts@[row as int]@);
        match header.event(batch, row, &verdicts[row]) {
            Ok(event) => match &verdicts[row].validity {
                None => {
                    let ghost before = events@;
                    events.push(event);
                    assert(event_views(events@) =~= event_views(before).push(event@));
                },
                Some(message) => {
                    proof {
                        assert(collected(step, (row + 1) as nat) is Err);
                        lemma_failure_stays(step, (row + 1) as nat, batch@.rows);
                    }
                    return Err(StoreError::invalid_argument(message.clone()));
                },
            },
            Err(error) => {
                proof {
                    assert(collected(step, (row + 1) as nat) is Err);
                    lemma_failure_stays(step, (row + 1) as nat, batch@.rows);
                }
                return Err(error);
            },
        }
        row = row + 1;
    }
    Ok(events)
}

/// An event is read field by field: what a row of the column of a name holds is the
/// event's field of that name, and its value comes from the column of its kind.
pub proof fn law_an_event_is_read_field_by_field(
    batch: BatchView,
    verdicts: Seq<VerdictView>,
    at: int,
    row: int,
)
    requires
        events_decoded(batch, verdicts) is Ok,
        0 <= row < batch.rows,
        crate::schema::first_at(
            crate::batch::column_names(batch.columns),
            batch.columns[at].name,
            at,
        ),
    ensures
        ({
            let event = events_decoded(batch, verdicts)->Ok_0[row];
            let name = batch.columns[at].name;
            let data_type = batch.columns[at].data_type;
            let cell = batch.columns[at].cells[row];
            &&& name == "event_id"@ && data_type == DataType::Scalar(Scalar::Utf8)
                ==> (cell_text(cell) matches Some(value) ==> event.event_id == value)
            &&& name == "item_id"@ && data_type == DataType::Scalar(Scalar::Utf8)
                ==> (cell_text(cell) matches Some(value) ==> event.item_id == value)
            &&& name == "root_item_id"@ && data_type == DataType::Scalar(Scalar::Utf8)
                ==> (cell_text(cell) matches Some(value) ==> event.root_item_id == value)
            &&& name == "checkpoint_id"@ && data_type == DataType::Scalar(Scalar::Utf8)
                ==> (cell_text(cell) matches Some(value) ==> event.checkpoint_id == value)
            &&& name == "event_type"@ && data_type == DataType::Scalar(Scalar::Utf8)
                ==> (cell_text(cell) matches Some(value) ==> event.event_type == value)
            &&& name == "run_id"@ && data_type == DataType::Scalar(Scalar::Utf8)
                ==> (cell_text(cell) matches Some(value) ==> event.run_id == value)
            &&& name == "writer_epoch"@ && data_type == DataType::Scalar(Scalar::Utf8)
                ==> (cell_text(cell) matches Some(value) ==> event.writer_epoch == value)
            &&& name == "parent_item_id"@ && data_type == DataType::Scalar(Scalar::Utf8)
                ==> event.parent_item_id == cell_text(cell)
            &&& name == "step_name"@ && data_type == DataType::Scalar(Scalar::Utf8)
                ==> event.step_name == cell_text(cell)
            &&& name == "step_kind"@ && data_type == DataType::Scalar(Scalar::Utf8)
                ==> event.step_kind == cell_text(cell)
            &&& name == "enclosing_step"@ && data_type == DataType::Scalar(Scalar::Utf8)
                ==> event.enclosing_step == cell_text(cell)
            &&& name == "selector_step"@ && data_type == DataType::Scalar(Scalar::Utf8)
                ==> event.selector_step == cell_text(cell)
            &&& name == "field_name"@ && data_type == DataType::Scalar(Scalar::Utf8)
                ==> event.field_name == cell_text(cell)
            &&& name == "field_type"@ && data_type == DataType::Scalar(Scalar::Utf8)
                ==> event.field_type == cell_text(cell)
            &&& name == "status"@ && data_type == DataType::Scalar(Scalar::Utf8)
                ==> event.status == cell_text(cell)
            &&& name == "error_type"@ && data_type == DataType::Scalar(Scalar::Utf8)
                ==> event.error_type == cell_text(cell)
            &&& name == "error_dump"@ && data_type == DataType::Scalar(Scalar::LargeUtf8)
                ==> event.error_dump == cell_text(cell)
            &&& name == "traceback"@ && data_type == DataType::Scalar(Scalar::LargeUtf8)
                ==> event.traceback == cell_text(cell)
            &&& name == "item_seq"@ && data_type == DataType::Scalar(Scalar::Int64)
                ==> (cell_int(cell) matches Some(value) ==> event.item_seq == value)
            &&& name == "step_index"@ && data_type == DataType::Scalar(Scalar::Int64)
                ==> event.step_index == cell_int(cell)
            &&& name == "attempt"@ && data_type == DataType::Scalar(Scalar::Int32)
                ==> (cell_int32(cell) matches Some(value) ==> event.attempt == value)
            &&& name == "schema_version"@ && data_type == DataType::Scalar(Scalar::Int32)
                ==> (cell_int32(cell) matches Some(value) ==> event.schema_version == value)
            &&& name == "codec_version"@ && data_type == DataType::Scalar(Scalar::Int32)
                ==> event.codec_version == cell_int32(cell)
            &&& name == "event_ts"@
                && (data_type == DataType::Scalar(Scalar::Timestamp)
                    || data_type == DataType::Scalar(Scalar::TimestampUtc))
                        ==> (cell_int(cell) matches Some(value) ==> event.event_ts == value)
            &&& name == "query_tags_json"@ && data_type == DataType::Scalar(Scalar::LargeUtf8)
                ==> (cell_text(cell) matches Some(text) ==> event.query_tags == Some(
                json_compact(text)->Ok_0,
            )) && (cell_text(cell) is None ==> event.query_tags is None)
            &&& name == "value_kind"@ && data_type == DataType::Scalar(Scalar::Utf8)
                ==> (event.value is None <==> cell_text(cell) is None)
            &&& name == "value_kind"@ && data_type == DataType::Scalar(Scalar::Utf8)
                ==> match event.value {
                None => true,
                Some(ValueView::Int(_)) => cell_text(cell) == Some("int"@),
                Some(ValueView::Float(_)) => cell_text(cell) == Some("float"@),
                Some(ValueView::Bool(_)) => cell_text(cell) == Some("bool"@),
                Some(ValueView::Str(_)) => cell_text(cell) == Some("str"@),
                Some(ValueView::Json(_)) => cell_text(cell) == Some("json"@),
                Some(ValueView::Blob(_)) => cell_text(cell) == Some("blob"@),
            }
            &&& name == "value_i64"@ && data_type == DataType::Scalar(Scalar::Int64)
                ==> (event.value matches Some(ValueView::Int(value)) ==> cell_int(
                cell,
            ) == Some(value))
            &&& name == "value_f64"@ && data_type == DataType::Scalar(Scalar::Float64)
                ==> (event.value matches Some(ValueView::Float(value)) ==> cell_double(
                cell,
            ) == Some(value))
            &&& name == "value_bool"@ && data_type == DataType::Scalar(Scalar::Boolean)
                ==> (event.value matches Some(ValueView::Bool(value)) ==> cell_flag(
                cell,
            ) == Some(value))
            &&& name == "value_str"@ && data_type == DataType::Scalar(Scalar::LargeUtf8)
                ==> (event.value matches Some(ValueView::Str(value)) ==> cell_text(
                cell,
            ) == Some(value))
            &&& name == "value_json"@ && data_type == DataType::Scalar(Scalar::LargeUtf8)
                ==> (event.value matches Some(ValueView::Json(value)) ==> cell_text(
                cell,
            ) is Some && json_compact(cell_text(cell)->Some_0) == Ok::<Seq<char>, Seq<char>>(value))
            &&& name == "value_blob"@ && data_type == DataType::Scalar(Scalar::LargeBinary)
                ==> (event.value matches Some(ValueView::Blob(blob)) ==> blob.bytes
                == cell_bytes(cell))
            &&& name == "payload_size"@ && data_type == DataType::Scalar(Scalar::Int64)
                ==> (event.value matches Some(ValueView::Blob(blob)) ==> cell_int(
                cell,
            ) == Some(blob.size))
            &&& name == "payload_checksum"@ && data_type == DataType::Scalar(Scalar::Utf8)
                ==> (event.value matches Some(ValueView::Blob(blob))
                ==> blob.checksum == cell_text(cell))
        }),
{
    let step = checked_event(batch, verdicts);
    crate::collect::lemma_success_holds_values(step, batch.rows);
    assert(step(row) is Ok);
    let names = crate::batch::column_names(batch.columns);
    crate::schema::lemma_find_name_is(names, batch.columns[at].name, at);
}

/// An event is read only where the vocabulary refuses none of its words and not
/// the event itself.
pub proof fn law_a_refused_event_is_not_read(batch: BatchView, verdicts: Seq<VerdictView>, row: int)
    requires
        events_decoded(batch, verdicts) is Ok,
        0 <= row < batch.rows,
    ensures
        verdicts[row].validity is None,
        verdicts[row].event_type is None,
        events_decoded(batch, verdicts)->Ok_0[row].step_kind is Some
            ==> verdicts[row].step_kind is None,
        events_decoded(batch, verdicts)->Ok_0[row].status is Some ==> verdicts[row].status is None,
{
    let step = checked_event(batch, verdicts);
    crate::collect::lemma_success_holds_values(step, batch.rows);
    assert(step(row) is Ok);
}

/// The model of a verdict holds each of its parts.
pub proof fn law_a_verdicts_model_is_whole(verdict: RowVerdict)
    ensures
        verdict@.event_type is Some <==> verdict.event_type is Some,
        verdict.event_type is Some ==> verdict@.event_type->Some_0 == verdict.event_type->Some_0@,
        verdict@.step_kind is Some <==> verdict.step_kind is Some,
        verdict.step_kind is Some ==> verdict@.step_kind->Some_0 == verdict.step_kind->Some_0@,
        verdict@.status is Some <==> verdict.status is Some,
        verdict.status is Some ==> verdict@.status->Some_0 == verdict.status->Some_0@,
        verdict@.validity is Some <==> verdict.validity is Some,
        verdict.validity is Some ==> verdict@.validity->Some_0 == verdict.validity->Some_0@,
{
}

/// The models stand in the order of what they are of, one for each.
pub proof fn law_verdict_views_stand_in_order(verdicts: Seq<RowVerdict>, at: int)
    requires
        0 <= at < verdicts.len(),
    ensures
        verdict_views(verdicts).len() == verdicts.len(),
        verdict_views(verdicts)[at] == verdicts[at]@,
{
}

/// A batch of events is read only where the columns that every event needs have
/// their types.
pub proof fn law_required_event_columns_have_their_types(
    batch: BatchView,
    verdicts: Seq<VerdictView>,
    at: int,
)
    requires
        events_decoded(batch, verdicts) is Ok,
        crate::schema::first_at(
            crate::batch::column_names(batch.columns),
            batch.columns[at].name,
            at,
        ),
    ensures
        ({
            let name = batch.columns[at].name;
            let data_type = batch.columns[at].data_type;
            &&& name == "event_id"@ ==> data_type == DataType::Scalar(Scalar::Utf8)
            &&& name == "item_id"@ ==> data_type == DataType::Scalar(Scalar::Utf8)
            &&& name == "root_item_id"@ ==> data_type == DataType::Scalar(Scalar::Utf8)
            &&& name == "checkpoint_id"@ ==> data_type == DataType::Scalar(Scalar::Utf8)
            &&& name == "event_type"@ ==> data_type == DataType::Scalar(Scalar::Utf8)
            &&& name == "run_id"@ ==> data_type == DataType::Scalar(Scalar::Utf8)
            &&& name == "writer_epoch"@ ==> data_type == DataType::Scalar(Scalar::Utf8)
            &&& name == "item_seq"@ ==> data_type == DataType::Scalar(Scalar::Int64)
            &&& name == "attempt"@ ==> data_type == DataType::Scalar(Scalar::Int32)
            &&& name == "schema_version"@ ==> data_type == DataType::Scalar(Scalar::Int32)
            &&& name == "event_ts"@
                ==> data_type == DataType::Scalar(Scalar::Timestamp) || data_type
                == DataType::Scalar(Scalar::TimestampUtc)
        }),
{
    crate::schema::lemma_find_name_is(
        crate::batch::column_names(batch.columns),
        batch.columns[at].name,
        at,
    );
}

/// A field whose column is missing is absent, and a column that every event needs
/// is never missing.
pub proof fn law_an_event_without_a_column_lacks_the_field(
    batch: BatchView,
    verdicts: Seq<VerdictView>,
    name: Seq<char>,
    row: int,
)
    requires
        events_decoded(batch, verdicts) is Ok,
        0 <= row < batch.rows,
        !crate::batch::column_names(batch.columns).contains(name),
    ensures
        ({
            let event = events_decoded(batch, verdicts)->Ok_0[row];
            &&& name != "event_id"@
            &&& name != "item_id"@
            &&& name != "root_item_id"@
            &&& name != "item_seq"@
            &&& name != "checkpoint_id"@
            &&& name != "event_type"@
            &&& name != "attempt"@
            &&& name != "run_id"@
            &&& name != "writer_epoch"@
            &&& name != "event_ts"@
            &&& name != "schema_version"@
            &&& name == "parent_item_id"@ ==> event.parent_item_id is None
            &&& name == "step_name"@ ==> event.step_name is None
            &&& name == "step_kind"@ ==> event.step_kind is None
            &&& name == "step_index"@ ==> event.step_index is None
            &&& name == "enclosing_step"@ ==> event.enclosing_step is None
            &&& name == "selector_step"@ ==> event.selector_step is None
            &&& name == "field_name"@ ==> event.field_name is None
            &&& name == "field_type"@ ==> event.field_type is None
            &&& name == "codec_version"@ ==> event.codec_version is None
            &&& name == "status"@ ==> event.status is None
            &&& name == "error_type"@ ==> event.error_type is None
            &&& name == "error_dump"@ ==> event.error_dump is None
            &&& name == "traceback"@ ==> event.traceback is None
            &&& name == "value_kind"@ ==> event.value is None
            &&& name == "query_tags_json"@ ==> event.query_tags is None
            &&& event.event_ts_below == 0
        }),
{
    let step = checked_event(batch, verdicts);
    crate::collect::lemma_success_holds_values(step, batch.rows);
    assert(step(row) is Ok);
    crate::schema::lemma_find_name_none(crate::batch::column_names(batch.columns), name);
}

} // verus!
