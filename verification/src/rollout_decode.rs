//! Rollout records read back from table rows.

use vstd::prelude::*;

use crate::batch::{
    cell_bytes, cell_flag, cell_float, cell_floats, cell_int, cell_int32, cell_ints32, cell_ints8,
    cell_text, opt_index, optional_column, required_column, valid_index, ArrayKind, Batch,
    BatchView, Cell, CellView,
};
use crate::collect::{collected, lemma_failure_stays};
use crate::error::{invalid_argument, Failure, StoreError};
use crate::outside::json_compact;
use crate::read::{
    failure_of, field_cell, first_failure, float_field, int32_field, is_optional, is_required,
    json_read, large_text_field, optional_json, or_empty, or_zero, or_zero32, row_relationships,
    row_relationships_read, text_field, text_or_empty, timestamp_from_micros, timestamp_read,
    typed_cell,
};
use crate::record::{copy_list, opt_seq, RelationshipView};
use crate::rollout_record::{rollout_views, RolloutRecord, RolloutView};
use crate::schema::{DataType, ItemType, Scalar};
use crate::text::join3;

verus! {

/// Why a batch cannot hold rollout records at all.
pub open spec fn rollout_header_failure(batch: BatchView) -> Option<Failure> {
    first_failure(
        failure_of(required_column(batch, "id"@, ArrayKind::Text)),
        first_failure(
            failure_of(required_column(batch, "rollout_id"@, ArrayKind::Text)),
            first_failure(
                failure_of(required_column(batch, "problem_id"@, ArrayKind::Text)),
                first_failure(
                    failure_of(required_column(batch, "sequence_order"@, ArrayKind::Int32)),
                    first_failure(
                        failure_of(required_column(batch, "role"@, ArrayKind::Dictionary)),
                        first_failure(
                            failure_of(required_column(batch, "created_at"@, ArrayKind::Timestamp)),
                            failure_of(required_column(batch, "content_type"@, ArrayKind::Text)),
                        ),
                    ),
                ),
            ),
        ),
    )
}

/// The list column of this name in a row.
pub open spec fn list_at(batch: BatchView, name: Seq<char>, row: int) -> Option<(DataType, CellView)> {
    typed_cell(batch, optional_column(batch, name, ArrayKind::List), row)
}

/// A list column of these items, whatever they are called.
pub open spec fn lists(data_type: DataType, item: Scalar) -> bool {
    data_type is List && data_type->List_0 == ItemType::Scalar(item)
}

fn is_list_of(data_type: DataType, item: Scalar) -> (result: bool)
    ensures
        result == lists(data_type, item),
{
    match data_type {
        DataType::List(found, _) => found == ItemType::Scalar(item),
        _ => false,
    }
}

/// The tokens of a list column that may be missing or null.
pub open spec fn tokens_read(column: Option<(DataType, CellView)>) -> Result<
    Option<Seq<i32>>,
    Failure,
> {
    match column {
        None => Ok(None),
        Some((_, CellView::Null)) => Ok(None),
        Some((data_type, cell)) => if lists(data_type, Scalar::Int32) {
            Ok(cell_ints32(cell))
        } else {
            Err(invalid_argument("token list column does not contain int32 values"@))
        },
    }
}

/// The log probabilities of a list column that may be missing or null.
pub open spec fn logprobs_read(column: Option<(DataType, CellView)>) -> Result<
    Option<Seq<u32>>,
    Failure,
> {
    match column {
        None => Ok(None),
        Some((_, CellView::Null)) => Ok(None),
        Some((data_type, cell)) => if lists(data_type, Scalar::Float32) {
            Ok(cell_floats(cell))
        } else {
            Err(invalid_argument("logprob list column does not contain float32 values"@))
        },
    }
}

/// The loss mask of a list column that may be missing or null.
pub open spec fn mask_read(column: Option<(DataType, CellView)>) -> Result<
    Option<Seq<i8>>,
    Failure,
> {
    match column {
        None => Ok(None),
        Some((_, CellView::Null)) => Ok(None),
        Some((data_type, cell)) => if lists(data_type, Scalar::Int8) {
            Ok(cell_ints8(cell))
        } else {
            Err(invalid_argument("loss_mask list column does not contain int8 values"@))
        },
    }
}

/// The role that a dictionary column holds in a row, dictionaries of another
/// value type being reported before null roles.
pub open spec fn rollout_role_read(batch: BatchView, row: int) -> Result<Seq<char>, Failure> {
    match optional_column(batch, "role"@, ArrayKind::Dictionary) {
        Some(index) => if batch.columns[index].data_type != DataType::Dictionary(
            Scalar::Int8,
            Scalar::Utf8,
        ) {
            Err(invalid_argument("role dictionary values are not strings"@))
        } else {
            match cell_text(batch.columns[index].cells[row]) {
                Some(role) => Ok(role),
                None => Err(invalid_argument("role column contains null values"@)),
            }
        },
        None => Err(invalid_argument("role column contains null values"@)),
    }
}

/// The values of a row that can fail to be read.
#[verifier::ext_equal]
pub struct RolloutValues {
    pub created_at: i64,
    pub role: Seq<char>,
    pub metadata: Option<Seq<char>>,
    pub relationships: Seq<RelationshipView>,
}

/// The lists of a row, which can fail to be read too.
#[verifier::ext_equal]
pub struct RolloutLists {
    pub input_tokens: Option<Seq<i32>>,
    pub output_tokens: Option<Seq<i32>>,
    pub output_logprobs: Option<Seq<u32>>,
    pub input_logprobs: Option<Seq<u32>>,
    pub ref_logprobs: Option<Seq<u32>>,
    pub loss_mask: Option<Seq<i8>>,
}

/// The single values of a row, or the first failure among them.
pub open spec fn values_read(batch: BatchView, row: int) -> Result<RolloutValues, Failure> {
    match timestamp_read(
        or_zero(cell_int(field_cell(batch, "created_at"@, ArrayKind::Timestamp, row))),
        "created_at"@,
    ) {
        Err(failure) => Err(failure),
        Ok(created_at) => match rollout_role_read(batch, row) {
            Err(failure) => Err(failure),
            Ok(role) => match json_read(
                large_text_field(batch, "metadata"@, row),
                "invalid metadata JSON for rollout row "@ + or_empty(text_field(batch, "id"@, row))
                    + ": "@,
            ) {
                Err(failure) => Err(failure),
                Ok(metadata) => match row_relationships_read(
                    list_at(batch, "relationships"@, row),
                ) {
                    Err(failure) => Err(failure),
                    Ok(relationships) => Ok(
                        RolloutValues { created_at, role, metadata, relationships },
                    ),
                },
            },
        },
    }
}

/// The lists of a row, or the first failure among them.
pub open spec fn lists_read(batch: BatchView, row: int) -> Result<RolloutLists, Failure> {
    match tokens_read(list_at(batch, "input_tokens"@, row)) {
        Err(failure) => Err(failure),
        Ok(input_tokens) => match tokens_read(list_at(batch, "output_tokens"@, row)) {
            Err(failure) => Err(failure),
            Ok(output_tokens) => match logprobs_read(list_at(batch, "output_logprobs"@, row)) {
                Err(failure) => Err(failure),
                Ok(output_logprobs) => match logprobs_read(
                    list_at(batch, "input_logprobs"@, row),
                ) {
                    Err(failure) => Err(failure),
                    Ok(input_logprobs) => match logprobs_read(
                        list_at(batch, "ref_logprobs"@, row),
                    ) {
                        Err(failure) => Err(failure),
                        Ok(ref_logprobs) => match mask_read(list_at(batch, "loss_mask"@, row)) {
                            Err(failure) => Err(failure),
                            Ok(loss_mask) => Ok(
                                RolloutLists {
                                    input_tokens,
                                    output_tokens,
                                    output_logprobs,
                                    input_logprobs,
                                    ref_logprobs,
                                    loss_mask,
                                },
                            ),
                        },
                    },
                },
            },
        },
    }
}

/// The record of a row once the values that can fail are read.
pub open spec fn rollout_of(
    batch: BatchView,
    row: int,
    values: RolloutValues,
    lists: RolloutLists,
) -> RolloutView {
    RolloutView {
        id: or_empty(text_field(batch, "id"@, row)),
        rollout_id: or_empty(text_field(batch, "rollout_id"@, row)),
        problem_id: or_empty(text_field(batch, "problem_id"@, row)),
        dataset: text_field(batch, "dataset"@, row),
        sequence_order: or_zero32(int32_field(batch, "sequence_order"@, row)),
        role: values.role,
        created_at: values.created_at,
        content: large_text_field(batch, "content"@, row),
        content_type: or_empty(text_field(batch, "content_type"@, row)),
        model_input_string: large_text_field(batch, "model_input_string"@, row),
        model_output_string: large_text_field(batch, "model_output_string"@, row),
        rationale: large_text_field(batch, "rationale"@, row),
        problem_text: large_text_field(batch, "problem_text"@, row),
        user_metadata: large_text_field(batch, "user_metadata"@, row),
        input_tokens: lists.input_tokens,
        output_tokens: lists.output_tokens,
        num_input_tokens: int32_field(batch, "num_input_tokens"@, row),
        num_output_tokens: int32_field(batch, "num_output_tokens"@, row),
        output_logprobs: lists.output_logprobs,
        input_logprobs: lists.input_logprobs,
        ref_logprobs: lists.ref_logprobs,
        loss_mask: lists.loss_mask,
        advantage: float_field(batch, "advantage"@, row),
        reward: float_field(batch, "reward"@, row),
        raw_reward: float_field(batch, "raw_reward"@, row),
        grader_id: text_field(batch, "grader_id"@, row),
        score: float_field(batch, "score"@, row),
        include_in_training: cell_flag(field_cell(batch, "include_in_training"@, ArrayKind::Boolean, row)),
        exclude_reason: text_field(batch, "exclude_reason"@, row),
        policy_version: text_field(batch, "policy_version"@, row),
        relationships: values.relationships,
        binary_payload: cell_bytes(field_cell(batch, "binary_payload"@, ArrayKind::LargeBinary, row)),
        payload_size: cell_int(field_cell(batch, "payload_size"@, ArrayKind::Int64, row)),
        payload_checksum: text_field(batch, "payload_checksum"@, row),
        artifact_type: text_field(batch, "artifact_type"@, row),
        metadata: values.metadata,
    }
}

/// The record of a row, or its first failure.
pub open spec fn rollout_read(batch: BatchView) -> spec_fn(int) -> Result<RolloutView, Failure> {
    |row: int|
        match values_read(batch, row) {
            Err(failure) => Err(failure),
            Ok(values) => match lists_read(batch, row) {
                Err(failure) => Err(failure),
                Ok(lists) => Ok(rollout_of(batch, row, values, lists)),
            },
        }
}

/// The records of a batch, or why they cannot be read.
pub open spec fn rollouts_decoded(batch: BatchView) -> Result<Seq<RolloutView>, Failure> {
    match rollout_header_failure(batch) {
        Some(failure) => Err(failure),
        None => collected(rollout_read(batch), batch.rows),
    }
}

/// Where the columns of a batch of rollout records stand.
struct Header {
    id: usize,
    rollout_id: usize,
    problem_id: usize,
    dataset: Option<usize>,
    sequence_order: usize,
    role: usize,
    created_at: usize,
    content: Option<usize>,
    content_type: usize,
    model_input_string: Option<usize>,
    model_output_string: Option<usize>,
    rationale: Option<usize>,
    problem_text: Option<usize>,
    user_metadata: Option<usize>,
    input_tokens: Option<usize>,
    output_tokens: Option<usize>,
    num_input_tokens: Option<usize>,
    num_output_tokens: Option<usize>,
    output_logprobs: Option<usize>,
    input_logprobs: Option<usize>,
    ref_logprobs: Option<usize>,
    loss_mask: Option<usize>,
    advantage: Option<usize>,
    reward: Option<usize>,
    raw_reward: Option<usize>,
    grader_id: Option<usize>,
    score: Option<usize>,
    include_in_training: Option<usize>,
    exclude_reason: Option<usize>,
    policy_version: Option<usize>,
    relationships: Option<usize>,
    binary_payload: Option<usize>,
    payload_size: Option<usize>,
    payload_checksum: Option<usize>,
    artifact_type: Option<usize>,
    metadata: Option<usize>,
}

impl Header {
    spec fn matches(self, batch: BatchView) -> bool {
        &&& is_required(batch, "id"@, ArrayKind::Text, self.id)
        &&& is_required(batch, "rollout_id"@, ArrayKind::Text, self.rollout_id)
        &&& is_required(batch, "problem_id"@, ArrayKind::Text, self.problem_id)
        &&& is_optional(batch, "dataset"@, ArrayKind::Text, self.dataset)
        &&& is_required(batch, "sequence_order"@, ArrayKind::Int32, self.sequence_order)
        &&& is_required(batch, "role"@, ArrayKind::Dictionary, self.role)
        &&& is_required(batch, "created_at"@, ArrayKind::Timestamp, self.created_at)
        &&& is_optional(batch, "content"@, ArrayKind::LargeText, self.content)
        &&& is_required(batch, "content_type"@, ArrayKind::Text, self.content_type)
        &&& is_optional(batch, "model_input_string"@, ArrayKind::LargeText, self.model_input_string)
        &&& is_optional(batch, "model_output_string"@, ArrayKind::LargeText, self.model_output_string)
        &&& is_optional(batch, "rationale"@, ArrayKind::LargeText, self.rationale)
        &&& is_optional(batch, "problem_text"@, ArrayKind::LargeText, self.problem_text)
        &&& is_optional(batch, "user_metadata"@, ArrayKind::LargeText, self.user_metadata)
        &&& is_optional(batch, "input_tokens"@, ArrayKind::List, self.input_tokens)
        &&& is_optional(batch, "output_tokens"@, ArrayKind::List, self.output_tokens)
        &&& is_optional(batch, "num_input_tokens"@, ArrayKind::Int32, self.num_input_tokens)
        &&& is_optional(batch, "num_output_tokens"@, ArrayKind::Int32, self.num_output_tokens)
        &&& is_optional(batch, "output_logprobs"@, ArrayKind::List, self.output_logprobs)
        &&& is_optional(batch, "input_logprobs"@, ArrayKind::List, self.input_logprobs)
        &&& is_optional(batch, "ref_logprobs"@, ArrayKind::List, self.ref_logprobs)
        &&& is_optional(batch, "loss_mask"@, ArrayKind::List, self.loss_mask)
        &&& is_optional(batch, "advantage"@, ArrayKind::Float32, self.advantage)
        &&& is_optional(batch, "reward"@, ArrayKind::Float32, self.reward)
        &&& is_optional(batch, "raw_reward"@, ArrayKind::Float32, self.raw_reward)
        &&& is_optional(batch, "grader_id"@, ArrayKind::Text, self.grader_id)
        &&& is_optional(batch, "score"@, ArrayKind::Float32, self.score)
        &&& is_optional(batch, "include_in_training"@, ArrayKind::Boolean, self.include_in_training)
        &&& is_optional(batch, "exclude_reason"@, ArrayKind::Text, self.exclude_reason)
        &&& is_optional(batch, "policy_version"@, ArrayKind::Text, self.policy_version)
        &&& is_optional(batch, "relationships"@, ArrayKind::List, self.relationships)
        &&& is_optional(batch, "binary_payload"@, ArrayKind::LargeBinary, self.binary_payload)
        &&& is_optional(batch, "payload_size"@, ArrayKind::Int64, self.payload_size)
        &&& is_optional(batch, "payload_checksum"@, ArrayKind::Text, self.payload_checksum)
        &&& is_optional(batch, "artifact_type"@, ArrayKind::Text, self.artifact_type)
        &&& is_optional(batch, "metadata"@, ArrayKind::LargeText, self.metadata)
    }
}

fn read_header(batch: &Batch) -> (result: Result<Header, StoreError>)
    ensures
        match rollout_header_failure(batch@) {
            Some(failure) => result is Err && result->Err_0@ == failure,
            None => result is Ok && result->Ok_0.matches(batch@),
        },
{
    let id = match batch.column_as("id", ArrayKind::Text) {
        Ok(index) => index,
        Err(error) => {
            return Err(error);
        },
    };
    let rollout_id = match batch.column_as("rollout_id", ArrayKind::Text) {
        Ok(index) => index,
        Err(error) => {
            return Err(error);
        },
    };
    let problem_id = match batch.column_as("problem_id", ArrayKind::Text) {
        Ok(index) => index,
        Err(error) => {
            return Err(error);
        },
    };
    let sequence_order = match batch.column_as("sequence_order", ArrayKind::Int32) {
        Ok(index) => index,
        Err(error) => {
            return Err(error);
        },
    };
    let role = match batch.column_as("role", ArrayKind::Dictionary) {
        Ok(index) => index,
        Err(error) => {
            return Err(error);
        },
    };
    let created_at = match batch.column_as("created_at", ArrayKind::Timestamp) {
        Ok(index) => index,
        Err(error) => {
            return Err(error);
        },
    };
    let content_type = match batch.column_as("content_type", ArrayKind::Text) {
        Ok(index) => index,
        Err(error) => {
            return Err(error);
        },
    };
    Ok(
        Header {
            id,
            rollout_id,
            problem_id,
            dataset: batch.column_as_optional("dataset", ArrayKind::Text),
            sequence_order,
            role,
            created_at,
            content: batch.column_as_optional("content", ArrayKind::LargeText),
            content_type,
            model_input_string: batch.column_as_optional("model_input_string", ArrayKind::LargeText),
            model_output_string: batch.column_as_optional("model_output_string", ArrayKind::LargeText),
            rationale: batch.column_as_optional("rationale", ArrayKind::LargeText),
            problem_text: batch.column_as_optional("problem_text", ArrayKind::LargeText),
            user_metadata: batch.column_as_optional("user_metadata", ArrayKind::LargeText),
            input_tokens: batch.column_as_optional("input_tokens", ArrayKind::List),
            output_tokens: batch.column_as_optional("output_tokens", ArrayKind::List),
            num_input_tokens: batch.column_as_optional("num_input_tokens", ArrayKind::Int32),
            num_output_tokens: batch.column_as_optional("num_output_tokens", ArrayKind::Int32),
            output_logprobs: batch.column_as_optional("output_logprobs", ArrayKind::List),
            input_logprobs: batch.column_as_optional("input_logprobs", ArrayKind::List),
            ref_logprobs: batch.column_as_optional("ref_logprobs", ArrayKind::List),
            loss_mask: batch.column_as_optional("loss_mask", ArrayKind::List),
            advantage: batch.column_as_optional("advantage", ArrayKind::Float32),
            reward: batch.column_as_optional("reward", ArrayKind::Float32),
            raw_reward: batch.column_as_optional("raw_reward", ArrayKind::Float32),
            grader_id: batch.column_as_optional("grader_id", ArrayKind::Text),
            score: batch.column_as_optional("score", ArrayKind::Float32),
            include_in_training: batch.column_as_optional("include_in_training", ArrayKind::Boolean),
            exclude_reason: batch.column_as_optional("exclude_reason", ArrayKind::Text),
            policy_version: batch.column_as_optional("policy_version", ArrayKind::Text),
            relationships: batch.column_as_optional("relationships", ArrayKind::List),
            binary_payload: batch.column_as_optional("binary_payload", ArrayKind::LargeBinary),
            payload_size: batch.column_as_optional("payload_size", ArrayKind::Int64),
            payload_checksum: batch.column_as_optional("payload_checksum", ArrayKind::Text),
            artifact_type: batch.column_as_optional("artifact_type", ArrayKind::Text),
            metadata: batch.column_as_optional("metadata", ArrayKind::LargeText),
        },
    )
}

/// Reads the tokens of a row.
pub fn optional_i32_list(batch: &Batch, column: Option<usize>, row: usize) -> (result: Result<
    Option<Vec<i32>>,
    StoreError,
>)
    requires
        batch@.well_formed(),
        valid_index(batch@, column),
        row < batch.rows,
    ensures
        match tokens_read(typed_cell(batch@, opt_index(column), row as int)) {
            Ok(items) => result is Ok && opt_seq(result->Ok_0) == items,
            Err(failure) => result is Err && result->Err_0@ == failure,
        },
{
    match column {
        None => Ok(None),
        Some(index) => {
            assert(batch@.columns[index as int].cells.len() == batch@.rows);
            match &batch.columns[index].cells[row] {
                Cell::Null => Ok(None),
                cell => if is_list_of(batch.columns[index].data_type, Scalar::Int32) {
                    match cell {
                        Cell::Ints32(items) => Ok(Some(copy_list(items))),
                        _ => Ok(None),
                    }
                } else {
                    Err(
                        StoreError::invalid_argument(
                            "token list column does not contain int32 values".to_owned(),
                        ),
                    )
                },
            }
        },
    }
}

/// Reads the log probabilities of a row.
pub fn optional_f32_list(batch: &Batch, column: Option<usize>, row: usize) -> (result: Result<
    Option<Vec<u32>>,
    StoreError,
>)
    requires
        batch@.well_formed(),
        valid_index(batch@, column),
        row < batch.rows,
    ensures
        match logprobs_read(typed_cell(batch@, opt_index(column), row as int)) {
            Ok(items) => result is Ok && opt_seq(result->Ok_0) == items,
            Err(failure) => result is Err && result->Err_0@ == failure,
        },
{
    match column {
        None => Ok(None),
        Some(index) => {
            assert(batch@.columns[index as int].cells.len() == batch@.rows);
            match &batch.columns[index].cells[row] {
                Cell::Null => Ok(None),
                cell => if is_list_of(batch.columns[index].data_type, Scalar::Float32) {
                    match cell {
                        Cell::Floats(items) => Ok(Some(copy_list(items))),
                        _ => Ok(None),
                    }
                } else {
                    Err(
                        StoreError::invalid_argument(
                            "logprob list column does not contain float32 values".to_owned(),
                        ),
                    )
                },
            }
        },
    }
}

/// Reads the loss mask of a row.
pub fn optional_i8_list(batch: &Batch, column: Option<usize>, row: usize) -> (result: Result<
    Option<Vec<i8>>,
    StoreError,
>)
    requires
        batch@.well_formed(),
        valid_index(batch@, column),
        row < batch.rows,
    ensures
        match mask_read(typed_cell(batch@, opt_index(column), row as int)) {
            Ok(items) => result is Ok && opt_seq(result->Ok_0) == items,
            Err(failure) => result is Err && result->Err_0@ == failure,
        },
{
    match column {
        None => Ok(None),
        Some(index) => {
            assert(batch@.columns[index as int].cells.len() == batch@.rows);
            match &batch.columns[index].cells[row] {
                Cell::Null => Ok(None),
                cell => if is_list_of(batch.columns[index].data_type, Scalar::Int8) {
                    match cell {
                        Cell::Ints8(items) => Ok(Some(copy_list(items))),
                        _ => Ok(None),
                    }
                } else {
                    Err(
                        StoreError::invalid_argument(
                            "loss_mask list column does not contain int8 values".to_owned(),
                        ),
                    )
                },
            }
        },
    }
}

fn read_role(batch: &Batch, column: usize, row: usize) -> (result: Result<String, StoreError>)
    requires
        batch@.well_formed(),
        is_required(batch@, "role"@, ArrayKind::Dictionary, column),
        row < batch.rows,
    ensures
        match rollout_role_read(batch@, row as int) {
            Ok(role) => result is Ok && result->Ok_0@ == role,
            Err(failure) => result is Err && result->Err_0@ == failure,
        },
{
    if batch.columns[column].data_type != DataType::Dictionary(Scalar::Int8, Scalar::Utf8) {
        return Err(
            StoreError::invalid_argument("role dictionary values are not strings".to_owned()),
        );
    }
    match batch.text_at(Some(column), row) {
        Some(role) => Ok(role),
        None => Err(StoreError::invalid_argument("role column contains null values".to_owned())),
    }
}

fn read_row(batch: &Batch, header: &Header, row: usize) -> (result: Result<
    RolloutRecord,
    StoreError,
>)
    requires
        batch@.well_formed(),
        header.matches(batch@),
        row < batch.rows,
    ensures
        match rollout_read(batch@)(row as int) {
            Ok(record) => result is Ok && result->Ok_0@ == record,
            Err(failure) => result is Err && result->Err_0@ == failure,
        },
{
    let micros = match batch.int_at(Some(header.created_at), row) {
        Some(value) => value,
        None => 0,
    };
    let created_at = match timestamp_from_micros(micros, "created_at") {
        Ok(value) => value,
        Err(error) => {
            return Err(error);
        },
    };
    let role = match read_role(batch, header.role, row) {
        Ok(value) => value,
        Err(error) => {
            return Err(error);
        },
    };
    let id = text_or_empty(batch.text_at(Some(header.id), row));
    let intro = join3("invalid metadata JSON for rollout row ", id.as_str(), ": ");
    let metadata = match optional_json(batch.text_at(header.metadata, row), intro.as_str()) {
        Ok(value) => value,
        Err(error) => {
            return Err(error);
        },
    };
    let relationships = match row_relationships(batch, header.relationships, row) {
        Ok(value) => value,
        Err(error) => {
            return Err(error);
        },
    };
    let input_tokens = match optional_i32_list(batch, header.input_tokens, row) {
        Ok(value) => value,
        Err(error) => {
            return Err(error);
        },
    };
    let output_tokens = match optional_i32_list(batch, header.output_tokens, row) {
        Ok(value) => value,
        Err(error) => {
            return Err(error);
        },
    };
    let output_logprobs = match optional_f32_list(batch, header.output_logprobs, row) {
        Ok(value) => value,
        Err(error) => {
            return Err(error);
        },
    };
    let input_logprobs = match optional_f32_list(batch, header.input_logprobs, row) {
        Ok(value) => value,
        Err(error) => {
            return Err(error);
        },
    };
    let ref_logprobs = match optional_f32_list(batch, header.ref_logprobs, row) {
        Ok(value) => value,
        Err(error) => {
            return Err(error);
        },
    };
    let loss_mask = match optional_i8_list(batch, header.loss_mask, row) {
        Ok(value) => value,
        Err(error) => {
            return Err(error);
        },
    };
    let sequence_order = match batch.int32_at(Some(header.sequence_order), row) {
        Some(value) => value,
        None => 0,
    };
    let record = RolloutRecord {
        id,
        rollout_id: text_or_empty(batch.text_at(Some(header.rollout_id), row)),
        problem_id: text_or_empty(batch.text_at(Some(header.problem_id), row)),
        dataset: batch.text_at(header.dataset, row),
        sequence_order,
        role,
        created_at,
        content: batch.text_at(header.content, row),
        content_type: text_or_empty(batch.text_at(Some(header.content_type), row)),
        model_input_string: batch.text_at(header.model_input_string, row),
        model_output_string: batch.text_at(header.model_output_string, row),
        rationale: batch.text_at(header.rationale, row),
        problem_text: batch.text_at(header.problem_text, row),
        user_metadata: batch.text_at(header.user_metadata, row),
        input_tokens,
        output_tokens,
        num_input_tokens: batch.int32_at(header.num_input_tokens, row),
        num_output_tokens: batch.int32_at(header.num_output_tokens, row),
        output_logprobs,
        input_logprobs,
        ref_logprobs,
        loss_mask,
        advantage: batch.float_at(header.advantage, row),
        reward: batch.float_at(header.reward, row),
        raw_reward: batch.float_at(header.raw_reward, row),
        grader_id: batch.text_at(header.grader_id, row),
        score: batch.float_at(header.score, row),
        include_in_training: batch.flag_at(header.include_in_training, row),
        exclude_reason: batch.text_at(header.exclude_reason, row),
        policy_version: batch.text_at(header.policy_version, row),
        relationships,
        binary_payload: batch.bytes_at(header.binary_payload, row),
        payload_size: batch.int_at(header.payload_size, row),
        payload_checksum: batch.text_at(header.payload_checksum, row),
        artifact_type: batch.text_at(header.artifact_type, row),
        metadata,
    };
    proof {
        let model = rollout_read(batch@)(row as int);
        assert(model is Ok);
        assert(record@ =~= model->Ok_0);
    }
    Ok(record)
}

/// Reads the rollout records of a batch. Columns that were left out of the
/// read, or that an older table lacks, come back as absent values.
pub fn batch_to_rollout_records(batch: &Batch) -> (result: Result<Vec<RolloutRecord>, StoreError>)
    requires
        batch@.well_formed(),
    ensures
        match rollouts_decoded(batch@) {
            Ok(records) => result is Ok && rollout_views(result->Ok_0@) == records,
            Err(failure) => result is Err && result->Err_0@ == failure,
        },
{
    let header = match read_header(batch) {
        Ok(header) => header,
        Err(error) => {
            return Err(error);
        },
    };
    let ghost step = rollout_read(batch@);
    let mut records: Vec<RolloutRecord> = Vec::new();
    let mut row: usize = 0;
    assert(rollout_views(records@) =~= Seq::<RolloutView>::empty());
    while row < batch.rows
        invariant
            row <= batch.rows,
            batch@.well_formed(),
            rollout_header_failure(batch@) is None,
            header.matches(batch@),
            step == rollout_read(batch@),
            collected(step, row as nat) == Ok::<Seq<RolloutView>, Failure>(rollout_views(records@)),
        decreases batch.rows - row,
    {
        match read_row(batch, &header, row) {
            Ok(record) => {
                let ghost before = records@;
                records.push(record);
                assert(rollout_views(records@) =~= rollout_views(before).push(record@));
            },
            Err(error) => {
                proof {
                    assert(collected(step, (row + 1) as nat) is Err);
                    lemma_failure_stays(step, (row + 1) as nat, batch@.rows);
                }
                return Err(error);
            },
        }
        row = row + 1;
    }
    Ok(records)
}

/// A rollout is read field by field: what a row of the column of a name holds is
/// the record's field of that name.
pub proof fn law_a_rollout_is_read_field_by_field(batch: BatchView, at: int, row: int)
    requires
        rollouts_decoded(batch) is Ok,
        0 <= row < batch.rows,
        crate::schema::first_at(
            crate::batch::column_names(batch.columns),
            batch.columns[at].name,
            at,
        ),
    ensures
        ({
            let record = rollouts_decoded(batch)->Ok_0[row];
            let name = batch.columns[at].name;
            let data_type = batch.columns[at].data_type;
            let cell = batch.columns[at].cells[row];
            &&& name == "id"@ && data_type == DataType::Scalar(Scalar::Utf8)
                ==> (cell_text(cell) matches Some(value) ==> record.id == value)
            &&& name == "rollout_id"@ && data_type == DataType::Scalar(Scalar::Utf8)
                ==> (cell_text(cell) matches Some(value) ==> record.rollout_id == value)
            &&& name == "problem_id"@ && data_type == DataType::Scalar(Scalar::Utf8)
                ==> (cell_text(cell) matches Some(value) ==> record.problem_id == value)
            &&& name == "content_type"@ && data_type == DataType::Scalar(Scalar::Utf8)
                ==> (cell_text(cell) matches Some(value) ==> record.content_type == value)
            &&& name == "dataset"@ && data_type == DataType::Scalar(Scalar::Utf8)
                ==> record.dataset == cell_text(cell)
            &&& name == "grader_id"@ && data_type == DataType::Scalar(Scalar::Utf8)
                ==> record.grader_id == cell_text(cell)
            &&& name == "exclude_reason"@ && data_type == DataType::Scalar(Scalar::Utf8)
                ==> record.exclude_reason == cell_text(cell)
            &&& name == "policy_version"@ && data_type == DataType::Scalar(Scalar::Utf8)
                ==> record.policy_version == cell_text(cell)
            &&& name == "payload_checksum"@ && data_type == DataType::Scalar(Scalar::Utf8)
                ==> record.payload_checksum == cell_text(cell)
            &&& name == "artifact_type"@ && data_type == DataType::Scalar(Scalar::Utf8)
                ==> record.artifact_type == cell_text(cell)
            &&& name == "content"@ && data_type == DataType::Scalar(Scalar::LargeUtf8)
                ==> record.content == cell_text(cell)
            &&& name == "model_input_string"@ && data_type == DataType::Scalar(Scalar::LargeUtf8)
                ==> record.model_input_string == cell_text(cell)
            &&& name == "model_output_string"@ && data_type == DataType::Scalar(Scalar::LargeUtf8)
                ==> record.model_output_string == cell_text(cell)
            &&& name == "rationale"@ && data_type == DataType::Scalar(Scalar::LargeUtf8)
                ==> record.rationale == cell_text(cell)
            &&& name == "problem_text"@ && data_type == DataType::Scalar(Scalar::LargeUtf8)
                ==> record.problem_text == cell_text(cell)
            &&& name == "user_metadata"@ && data_type == DataType::Scalar(Scalar::LargeUtf8)
                ==> record.user_metadata == cell_text(cell)
            &&& name == "sequence_order"@ && data_type == DataType::Scalar(Scalar::Int32)
                ==> (cell_int32(cell) matches Some(value) ==> record.sequence_order == value)
            &&& name == "num_input_tokens"@ && data_type == DataType::Scalar(Scalar::Int32)
                ==> record.num_input_tokens == cell_int32(cell)
            &&& name == "num_output_tokens"@ && data_type == DataType::Scalar(Scalar::Int32)
                ==> record.num_output_tokens == cell_int32(cell)
            &&& name == "advantage"@ && data_type == DataType::Scalar(Scalar::Float32)
                ==> record.advantage == cell_float(cell)
            &&& name == "reward"@ && data_type == DataType::Scalar(Scalar::Float32)
                ==> record.reward == cell_float(cell)
            &&& name == "raw_reward"@ && data_type == DataType::Scalar(Scalar::Float32)
                ==> record.raw_reward == cell_float(cell)
            &&& name == "score"@ && data_type == DataType::Scalar(Scalar::Float32)
                ==> record.score == cell_float(cell)
            &&& name == "include_in_training"@ && data_type == DataType::Scalar(Scalar::Boolean)
                ==> record.include_in_training == cell_flag(cell)
            &&& name == "binary_payload"@ && data_type == DataType::Scalar(Scalar::LargeBinary)
                ==> record.binary_payload == cell_bytes(cell)
            &&& name == "payload_size"@ && data_type == DataType::Scalar(Scalar::Int64)
                ==> record.payload_size == cell_int(cell)
            &&& name == "created_at"@
                && (data_type == DataType::Scalar(Scalar::Timestamp)
                    || data_type == DataType::Scalar(Scalar::TimestampUtc))
                        ==> (cell_int(cell) matches Some(value) ==> record.created_at == value)
            &&& name == "role"@ ==> cell_text(cell) == Some(record.role)
            &&& name == "input_tokens"@ && data_type is List
                ==> record.input_tokens == cell_ints32(cell)
            &&& name == "output_tokens"@ && data_type is List
                ==> record.output_tokens == cell_ints32(cell)
            &&& name == "output_logprobs"@ && data_type is List
                ==> record.output_logprobs == cell_floats(cell)
            &&& name == "input_logprobs"@ && data_type is List
                ==> record.input_logprobs == cell_floats(cell)
            &&& name == "ref_logprobs"@ && data_type is List
                ==> record.ref_logprobs == cell_floats(cell)
            &&& name == "loss_mask"@ && data_type is List ==> record.loss_mask == cell_ints8(cell)
            &&& name == "metadata"@ && data_type == DataType::Scalar(Scalar::LargeUtf8)
                ==> (cell_text(cell) matches Some(text) ==> record.metadata == Some(
                json_compact(text)->Ok_0,
            )) && (cell_text(cell) is None ==> record.metadata is None)
            &&& name == "relationships"@ && cell == CellView::Null
                ==> record.relationships.len() == 0
        }),
{
    let step = rollout_read(batch);
    crate::collect::lemma_success_holds_values(step, batch.rows);
    assert(step(row) is Ok);
    let names = crate::batch::column_names(batch.columns);
    crate::schema::lemma_find_name_is(names, batch.columns[at].name, at);
}

/// A field whose column is missing is absent.
pub proof fn law_a_rollout_without_a_column_lacks_the_field(
    batch: BatchView,
    name: Seq<char>,
    row: int,
)
    requires
        rollouts_decoded(batch) is Ok,
        0 <= row < batch.rows,
        !crate::batch::column_names(batch.columns).contains(name),
    ensures
        ({
            let record = rollouts_decoded(batch)->Ok_0[row];
            &&& name != "id"@ && name != "rollout_id"@ && name != "problem_id"@ && name
                != "sequence_order"@ && name != "role"@ && name != "created_at"@ && name
                != "content_type"@
            &&& name == "dataset"@ ==> record.dataset is None
            &&& name == "content"@ ==> record.content is None
            &&& name == "model_input_string"@ ==> record.model_input_string is None
            &&& name == "model_output_string"@ ==> record.model_output_string is None
            &&& name == "rationale"@ ==> record.rationale is None
            &&& name == "problem_text"@ ==> record.problem_text is None
            &&& name == "user_metadata"@ ==> record.user_metadata is None
            &&& name == "input_tokens"@ ==> record.input_tokens is None
            &&& name == "output_tokens"@ ==> record.output_tokens is None
            &&& name == "num_input_tokens"@ ==> record.num_input_tokens is None
            &&& name == "num_output_tokens"@ ==> record.num_output_tokens is None
            &&& name == "output_logprobs"@ ==> record.output_logprobs is None
            &&& name == "input_logprobs"@ ==> record.input_logprobs is None
            &&& name == "ref_logprobs"@ ==> record.ref_logprobs is None
            &&& name == "loss_mask"@ ==> record.loss_mask is None
            &&& name == "advantage"@ ==> record.advantage is None
            &&& name == "reward"@ ==> record.reward is None
            &&& name == "raw_reward"@ ==> record.raw_reward is None
            &&& name == "grader_id"@ ==> record.grader_id is None
            &&& name == "score"@ ==> record.score is None
            &&& name == "include_in_training"@ ==> record.include_in_training is None
            &&& name == "exclude_reason"@ ==> record.exclude_reason is None
            &&& name == "policy_version"@ ==> record.policy_version is None
            &&& name == "binary_payload"@ ==> record.binary_payload is None
            &&& name == "payload_size"@ ==> record.payload_size is None
            &&& name == "payload_checksum"@ ==> record.payload_checksum is None
            &&& name == "artifact_type"@ ==> record.artifact_type is None
            &&& name == "metadata"@ ==> record.metadata is None
            &&& name == "relationships"@ ==> record.relationships.len() == 0
        }),
{
    let step = rollout_read(batch);
    crate::collect::lemma_success_holds_values(step, batch.rows);
    assert(step(row) is Ok);
    crate::schema::lemma_find_name_none(crate::batch::column_names(batch.columns), name);
}

/// A batch of rollouts is read only where the columns that every rollout needs have
/// their types.
pub proof fn law_required_rollout_columns_have_their_types(batch: BatchView, at: int)
    requires
        rollouts_decoded(batch) is Ok,
        crate::schema::first_at(
            crate::batch::column_names(batch.columns),
            batch.columns[at].name,
            at,
        ),
    ensures
        ({
            let name = batch.columns[at].name;
            let data_type = batch.columns[at].data_type;
            &&& name == "id"@ ==> data_type == DataType::Scalar(Scalar::Utf8)
            &&& name == "rollout_id"@ ==> data_type == DataType::Scalar(Scalar::Utf8)
            &&& name == "problem_id"@ ==> data_type == DataType::Scalar(Scalar::Utf8)
            &&& name == "content_type"@ ==> data_type == DataType::Scalar(Scalar::Utf8)
            &&& name == "sequence_order"@ ==> data_type == DataType::Scalar(Scalar::Int32)
            &&& name == "created_at"@
                ==> data_type == DataType::Scalar(Scalar::Timestamp) || data_type
                == DataType::Scalar(Scalar::TimestampUtc)
            &&& name == "role"@ ==> data_type is Dictionary
        }),
{
    crate::schema::lemma_find_name_is(
        crate::batch::column_names(batch.columns),
        batch.columns[at].name,
        at,
    );
}

/// A list is read where it is null or has the items that its column is for.
pub proof fn law_a_list_is_read_with_its_items(data_type: DataType, cell: CellView)
    ensures
        tokens_read(Some((data_type, cell))) is Ok <==> cell == CellView::Null || (
        data_type matches DataType::List(item, _) && item == ItemType::Scalar(Scalar::Int32)),
        logprobs_read(Some((data_type, cell))) is Ok <==> cell == CellView::Null || (
        data_type matches DataType::List(item, _) && item == ItemType::Scalar(Scalar::Float32)),
        mask_read(Some((data_type, cell))) is Ok <==> cell == CellView::Null || (
        data_type matches DataType::List(item, _) && item == ItemType::Scalar(Scalar::Int8)),
        tokens_read(None) == Ok::<Option<Seq<i32>>, Failure>(None),
        logprobs_read(None) == Ok::<Option<Seq<u32>>, Failure>(None),
        mask_read(None) == Ok::<Option<Seq<i8>>, Failure>(None),
{
}

} // verus!
