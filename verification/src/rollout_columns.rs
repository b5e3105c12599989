//! The columns of a rollout table.

use vstd::prelude::*;

use crate::schema::{
    field_views, key_field, law_a_key_column_is_marked, list_field, names_of, plain,
    primary_key_field, push_field, relationship_field, relationship_struct_data_type,
    relationship_type, relationships_view, value_of, DataType, Field, FieldView, Form, ItemType,
    Scalar, Schema, SchemaView,
};
use crate::text::same_text;

verus! {

/// How many columns a rollout table has.
const COLUMN_COUNT: usize = 36;

/// A column of a rollout table.
#[derive(Debug, Clone, Copy, PartialEq, Eq, Structural)]
pub enum RolloutColumn {
    Id,
    RolloutId,
    ProblemId,
    Dataset,
    SequenceOrder,
    Role,
    CreatedAt,
    Content,
    ContentType,
    ModelInputString,
    ModelOutputString,
    Rationale,
    ProblemText,
    UserMetadata,
    InputTokens,
    OutputTokens,
    NumInputTokens,
    NumOutputTokens,
    OutputLogprobs,
    InputLogprobs,
    RefLogprobs,
    LossMask,
    Advantage,
    Reward,
    RawReward,
    GraderId,
    Score,
    IncludeInTraining,
    ExcludeReason,
    PolicyVersion,
    Relationships,
    BinaryPayload,
    PayloadSize,
    PayloadChecksum,
    ArtifactType,
    Metadata,
}

/// The name a column stands under.
pub open spec fn rollout_name(column: RolloutColumn) -> Seq<char> {
    match column {
        RolloutColumn::Id => "id"@,
        RolloutColumn::RolloutId => "rollout_id"@,
        RolloutColumn::ProblemId => "problem_id"@,
        RolloutColumn::Dataset => "dataset"@,
        RolloutColumn::SequenceOrder => "sequence_order"@,
        RolloutColumn::Role => "role"@,
        RolloutColumn::CreatedAt => "created_at"@,
        RolloutColumn::Content => "content"@,
        RolloutColumn::ContentType => "content_type"@,
        RolloutColumn::ModelInputString => "model_input_string"@,
        RolloutColumn::ModelOutputString => "model_output_string"@,
        RolloutColumn::Rationale => "rationale"@,
        RolloutColumn::ProblemText => "problem_text"@,
        RolloutColumn::UserMetadata => "user_metadata"@,
        RolloutColumn::InputTokens => "input_tokens"@,
        RolloutColumn::OutputTokens => "output_tokens"@,
        RolloutColumn::NumInputTokens => "num_input_tokens"@,
        RolloutColumn::NumOutputTokens => "num_output_tokens"@,
        RolloutColumn::OutputLogprobs => "output_logprobs"@,
        RolloutColumn::InputLogprobs => "input_logprobs"@,
        RolloutColumn::RefLogprobs => "ref_logprobs"@,
        RolloutColumn::LossMask => "loss_mask"@,
        RolloutColumn::Advantage => "advantage"@,
        RolloutColumn::Reward => "reward"@,
        RolloutColumn::RawReward => "raw_reward"@,
        RolloutColumn::GraderId => "grader_id"@,
        RolloutColumn::Score => "score"@,
        RolloutColumn::IncludeInTraining => "include_in_training"@,
        RolloutColumn::ExcludeReason => "exclude_reason"@,
        RolloutColumn::PolicyVersion => "policy_version"@,
        RolloutColumn::Relationships => "relationships"@,
        RolloutColumn::BinaryPayload => "binary_payload"@,
        RolloutColumn::PayloadSize => "payload_size"@,
        RolloutColumn::PayloadChecksum => "payload_checksum"@,
        RolloutColumn::ArtifactType => "artifact_type"@,
        RolloutColumn::Metadata => "metadata"@,
    }
}

/// The column that stands under a name.
pub open spec fn rollout_named(name: Seq<char>) -> Option<RolloutColumn> {
    if name == "id"@ {
        Some(RolloutColumn::Id)
    } else if name == "rollout_id"@ {
        Some(RolloutColumn::RolloutId)
    } else if name == "problem_id"@ {
        Some(RolloutColumn::ProblemId)
    } else if name == "dataset"@ {
        Some(RolloutColumn::Dataset)
    } else if name == "sequence_order"@ {
        Some(RolloutColumn::SequenceOrder)
    } else if name == "role"@ {
        Some(RolloutColumn::Role)
    } else if name == "created_at"@ {
        Some(RolloutColumn::CreatedAt)
    } else if name == "content"@ {
        Some(RolloutColumn::Content)
    } else if name == "content_type"@ {
        Some(RolloutColumn::ContentType)
    } else if name == "model_input_string"@ {
        Some(RolloutColumn::ModelInputString)
    } else if name == "model_output_string"@ {
        Some(RolloutColumn::ModelOutputString)
    } else if name == "rationale"@ {
        Some(RolloutColumn::Rationale)
    } else if name == "problem_text"@ {
        Some(RolloutColumn::ProblemText)
    } else if name == "user_metadata"@ {
        Some(RolloutColumn::UserMetadata)
    } else if name == "input_tokens"@ {
        Some(RolloutColumn::InputTokens)
    } else if name == "output_tokens"@ {
        Some(RolloutColumn::OutputTokens)
    } else if name == "num_input_tokens"@ {
        Some(RolloutColumn::NumInputTokens)
    } else if name == "num_output_tokens"@ {
        Some(RolloutColumn::NumOutputTokens)
    } else if name == "output_logprobs"@ {
        Some(RolloutColumn::OutputLogprobs)
    } else if name == "input_logprobs"@ {
        Some(RolloutColumn::InputLogprobs)
    } else if name == "ref_logprobs"@ {
        Some(RolloutColumn::RefLogprobs)
    } else if name == "loss_mask"@ {
        Some(RolloutColumn::LossMask)
    } else if name == "advantage"@ {
        Some(RolloutColumn::Advantage)
    } else if name == "reward"@ {
        Some(RolloutColumn::Reward)
    } else if name == "raw_reward"@ {
        Some(RolloutColumn::RawReward)
    } else if name == "grader_id"@ {
        Some(RolloutColumn::GraderId)
    } else if name == "score"@ {
        Some(RolloutColumn::Score)
    } else if name == "include_in_training"@ {
        Some(RolloutColumn::IncludeInTraining)
    } else if name == "exclude_reason"@ {
        Some(RolloutColumn::ExcludeReason)
    } else if name == "policy_version"@ {
        Some(RolloutColumn::PolicyVersion)
    } else if name == "relationships"@ {
        Some(RolloutColumn::Relationships)
    } else if name == "binary_payload"@ {
        Some(RolloutColumn::BinaryPayload)
    } else if name == "payload_size"@ {
        Some(RolloutColumn::PayloadSize)
    } else if name == "payload_checksum"@ {
        Some(RolloutColumn::PayloadChecksum)
    } else if name == "artifact_type"@ {
        Some(RolloutColumn::ArtifactType)
    } else if name == "metadata"@ {
        Some(RolloutColumn::Metadata)
    } else {
        None
    }
}

/// No two columns share a name.
pub proof fn law_rollout_names_are_distinct(column: RolloutColumn)
    ensures
        rollout_named(rollout_name(column)) == Some(column),
{
    reveal_strlit("id");
    assert("id"@.len() == 2 && "id"@[0] == 'i');
    reveal_strlit("rollout_id");
    assert("rollout_id"@.len() == 10 && "rollout_id"@[0] == 'r' && "rollout_id"@[1] == 'o');
    reveal_strlit("problem_id");
    assert("problem_id"@.len() == 10 && "problem_id"@[0] == 'p');
    reveal_strlit("dataset");
    assert("dataset"@.len() == 7 && "dataset"@[0] == 'd');
    reveal_strlit("sequence_order");
    assert("sequence_order"@.len() == 14 && "sequence_order"@[0] == 's');
    reveal_strlit("role");
    assert("role"@.len() == 4 && "role"@[0] == 'r');
    reveal_strlit("created_at");
    assert("created_at"@.len() == 10 && "created_at"@[0] == 'c');
    reveal_strlit("content");
    assert("content"@.len() == 7 && "content"@[0] == 'c');
    reveal_strlit("content_type");
    assert("content_type"@.len() == 12 && "content_type"@[0] == 'c');
    reveal_strlit("model_input_string");
    assert("model_input_string"@.len() == 18 && "model_input_string"@[0] == 'm');
    reveal_strlit("model_output_string");
    assert("model_output_string"@.len() == 19 && "model_output_string"@[0] == 'm');
    reveal_strlit("rationale");
    assert("rationale"@.len() == 9 && "rationale"@[0] == 'r');
    reveal_strlit("problem_text");
    assert("problem_text"@.len() == 12 && "problem_text"@[0] == 'p' && "problem_text"@[1] == 'r');
    reveal_strlit("user_metadata");
    assert("user_metadata"@.len() == 13 && "user_metadata"@[0] == 'u');
    reveal_strlit("input_tokens");
    assert("input_tokens"@.len() == 12 && "input_tokens"@[0] == 'i');
    reveal_strlit("output_tokens");
    assert("output_tokens"@.len() == 13 && "output_tokens"@[0] == 'o');
    reveal_strlit("num_input_tokens");
    assert("num_input_tokens"@.len() == 16 && "num_input_tokens"@[0] == 'n');
    reveal_strlit("num_output_tokens");
    assert("num_output_tokens"@.len() == 17 && "num_output_tokens"@[0] == 'n');
    reveal_strlit("output_logprobs");
    assert("output_logprobs"@.len() == 15 && "output_logprobs"@[0] == 'o');
    reveal_strlit("input_logprobs");
    assert("input_logprobs"@.len() == 14 && "input_logprobs"@[0] == 'i');
    reveal_strlit("ref_logprobs");
    assert("ref_logprobs"@.len() == 12 && "ref_logprobs"@[0] == 'r');
    reveal_strlit("loss_mask");
    assert("loss_mask"@.len() == 9 && "loss_mask"@[0] == 'l');
    reveal_strlit("advantage");
    assert("advantage"@.len() == 9 && "advantage"@[0] == 'a');
    reveal_strlit("reward");
    assert("reward"@.len() == 6 && "reward"@[0] == 'r');
    reveal_strlit("raw_reward");
    assert("raw_reward"@.len() == 10 && "raw_reward"@[0] == 'r' && "raw_reward"@[1] == 'a');
    reveal_strlit("grader_id");
    assert("grader_id"@.len() == 9 && "grader_id"@[0] == 'g');
    reveal_strlit("score");
    assert("score"@.len() == 5 && "score"@[0] == 's');
    reveal_strlit("include_in_training");
    assert("include_in_training"@.len() == 19 && "include_in_training"@[0] == 'i');
    reveal_strlit("exclude_reason");
    assert("exclude_reason"@.len() == 14 && "exclude_reason"@[0] == 'e');
    reveal_strlit("policy_version");
    assert("policy_version"@.len() == 14 && "policy_version"@[0] == 'p');
    reveal_strlit("relationships");
    assert("relationships"@.len() == 13 && "relationships"@[0] == 'r');
    reveal_strlit("binary_payload");
    assert("binary_payload"@.len() == 14 && "binary_payload"@[0] == 'b');
    reveal_strlit("payload_size");
    assert("payload_size"@.len() == 12 && "payload_size"@[0] == 'p' && "payload_size"@[1] == 'a');
    reveal_strlit("payload_checksum");
    assert("payload_checksum"@.len() == 16 && "payload_checksum"@[0] == 'p');
    reveal_strlit("artifact_type");
    assert("artifact_type"@.len() == 13 && "artifact_type"@[0] == 'a');
    reveal_strlit("metadata");
    assert("metadata"@.len() == 8 && "metadata"@[0] == 'm');
}

/// A name that stands for a column is that column's name.
pub proof fn lemma_rollout_named(name: Seq<char>)
    ensures
        rollout_named(name) is Some ==> name == rollout_name(rollout_named(name)->Some_0),
{
}

/// The column that stands under a name.
pub fn find_rollout_column(name: &str) -> (result: Option<RolloutColumn>)
    ensures
        result == rollout_named(name@),
{
    if same_text(name, "id") {
        Some(RolloutColumn::Id)
    } else if same_text(name, "rollout_id") {
        Some(RolloutColumn::RolloutId)
    } else if same_text(name, "problem_id") {
        Some(RolloutColumn::ProblemId)
    } else if same_text(name, "dataset") {
        Some(RolloutColumn::Dataset)
    } else if same_text(name, "sequence_order") {
        Some(RolloutColumn::SequenceOrder)
    } else if same_text(name, "role") {
        Some(RolloutColumn::Role)
    } else if same_text(name, "created_at") {
        Some(RolloutColumn::CreatedAt)
    } else if same_text(name, "content") {
        Some(RolloutColumn::Content)
    } else if same_text(name, "content_type") {
        Some(RolloutColumn::ContentType)
    } else if same_text(name, "model_input_string") {
        Some(RolloutColumn::ModelInputString)
    } else if same_text(name, "model_output_string") {
        Some(RolloutColumn::ModelOutputString)
    } else if same_text(name, "rationale") {
        Some(RolloutColumn::Rationale)
    } else if same_text(name, "problem_text") {
        Some(RolloutColumn::ProblemText)
    } else if same_text(name, "user_metadata") {
        Some(RolloutColumn::UserMetadata)
    } else if same_text(name, "input_tokens") {
        Some(RolloutColumn::InputTokens)
    } else if same_text(name, "output_tokens") {
        Some(RolloutColumn::OutputTokens)
    } else if same_text(name, "num_input_tokens") {
        Some(RolloutColumn::NumInputTokens)
    } else if same_text(name, "num_output_tokens") {
        Some(RolloutColumn::NumOutputTokens)
    } else if same_text(name, "output_logprobs") {
        Some(RolloutColumn::OutputLogprobs)
    } else if same_text(name, "input_logprobs") {
        Some(RolloutColumn::InputLogprobs)
    } else if same_text(name, "ref_logprobs") {
        Some(RolloutColumn::RefLogprobs)
    } else if same_text(name, "loss_mask") {
        Some(RolloutColumn::LossMask)
    } else if same_text(name, "advantage") {
        Some(RolloutColumn::Advantage)
    } else if same_text(name, "reward") {
        Some(RolloutColumn::Reward)
    } else if same_text(name, "raw_reward") {
        Some(RolloutColumn::RawReward)
    } else if same_text(name, "grader_id") {
        Some(RolloutColumn::GraderId)
    } else if same_text(name, "score") {
        Some(RolloutColumn::Score)
    } else if same_text(name, "include_in_training") {
        Some(RolloutColumn::IncludeInTraining)
    } else if same_text(name, "exclude_reason") {
        Some(RolloutColumn::ExcludeReason)
    } else if same_text(name, "policy_version") {
        Some(RolloutColumn::PolicyVersion)
    } else if same_text(name, "relationships") {
        Some(RolloutColumn::Relationships)
    } else if same_text(name, "binary_payload") {
        Some(RolloutColumn::BinaryPayload)
    } else if same_text(name, "payload_size") {
        Some(RolloutColumn::PayloadSize)
    } else if same_text(name, "payload_checksum") {
        Some(RolloutColumn::PayloadChecksum)
    } else if same_text(name, "artifact_type") {
        Some(RolloutColumn::ArtifactType)
    } else if same_text(name, "metadata") {
        Some(RolloutColumn::Metadata)
    } else {
        None
    }
}

/// The type a column has.
pub open spec fn rollout_type(column: RolloutColumn) -> DataType {
    match column {
        RolloutColumn::SequenceOrder
        | RolloutColumn::NumInputTokens
        | RolloutColumn::NumOutputTokens => DataType::Scalar(Scalar::Int32),
        RolloutColumn::Role => DataType::Dictionary(Scalar::Int8, Scalar::Utf8),
        RolloutColumn::CreatedAt => DataType::Scalar(Scalar::Timestamp),
        RolloutColumn::Content
        | RolloutColumn::ModelInputString
        | RolloutColumn::ModelOutputString
        | RolloutColumn::Rationale
        | RolloutColumn::ProblemText
        | RolloutColumn::UserMetadata
        | RolloutColumn::Metadata => DataType::Scalar(Scalar::LargeUtf8),
        RolloutColumn::InputTokens
        | RolloutColumn::OutputTokens => DataType::List(ItemType::Scalar(Scalar::Int32), Form::Own),
        RolloutColumn::OutputLogprobs
        | RolloutColumn::InputLogprobs
        | RolloutColumn::RefLogprobs => DataType::List(ItemType::Scalar(Scalar::Float32), Form::Own),
        RolloutColumn::LossMask => DataType::List(ItemType::Scalar(Scalar::Int8), Form::Own),
        RolloutColumn::Advantage
        | RolloutColumn::Reward
        | RolloutColumn::RawReward
        | RolloutColumn::Score => DataType::Scalar(Scalar::Float32),
        RolloutColumn::IncludeInTraining => DataType::Scalar(Scalar::Boolean),
        RolloutColumn::Relationships => DataType::List(ItemType::Struct(relationship_type()), Form::Own),
        RolloutColumn::BinaryPayload => DataType::Scalar(Scalar::LargeBinary),
        RolloutColumn::PayloadSize => DataType::Scalar(Scalar::Int64),
        _ => DataType::Scalar(Scalar::Utf8),
    }
}

/// The type a column has.
pub fn rollout_data_type(column: RolloutColumn) -> (result: DataType)
    ensures
        result == rollout_type(column),
{
    match column {
        RolloutColumn::SequenceOrder
        | RolloutColumn::NumInputTokens
        | RolloutColumn::NumOutputTokens => DataType::Scalar(Scalar::Int32),
        RolloutColumn::Role => DataType::Dictionary(Scalar::Int8, Scalar::Utf8),
        RolloutColumn::CreatedAt => DataType::Scalar(Scalar::Timestamp),
        RolloutColumn::Content
        | RolloutColumn::ModelInputString
        | RolloutColumn::ModelOutputString
        | RolloutColumn::Rationale
        | RolloutColumn::ProblemText
        | RolloutColumn::UserMetadata
        | RolloutColumn::Metadata => DataType::Scalar(Scalar::LargeUtf8),
        RolloutColumn::InputTokens
        | RolloutColumn::OutputTokens => DataType::List(ItemType::Scalar(Scalar::Int32), Form::Own),
        RolloutColumn::OutputLogprobs
        | RolloutColumn::InputLogprobs
        | RolloutColumn::RefLogprobs => DataType::List(ItemType::Scalar(Scalar::Float32), Form::Own),
        RolloutColumn::LossMask => DataType::List(ItemType::Scalar(Scalar::Int8), Form::Own),
        RolloutColumn::Advantage
        | RolloutColumn::Reward
        | RolloutColumn::RawReward
        | RolloutColumn::Score => DataType::Scalar(Scalar::Float32),
        RolloutColumn::IncludeInTraining => DataType::Scalar(Scalar::Boolean),
        RolloutColumn::Relationships => DataType::List(ItemType::Struct(relationship_struct_data_type()), Form::Own),
        RolloutColumn::BinaryPayload => DataType::Scalar(Scalar::LargeBinary),
        RolloutColumn::PayloadSize => DataType::Scalar(Scalar::Int64),
        _ => DataType::Scalar(Scalar::Utf8),
    }
}

/// Whether a column may hold nulls.
pub open spec fn rollout_nullable(column: RolloutColumn) -> bool {
    match column {
        RolloutColumn::Id
        | RolloutColumn::RolloutId
        | RolloutColumn::ProblemId
        | RolloutColumn::SequenceOrder
        | RolloutColumn::Role
        | RolloutColumn::CreatedAt
        | RolloutColumn::ContentType => false,
        _ => true,
    }
}

/// The field of a column. The id is the table's primary key.
pub open spec fn rollout_field(column: RolloutColumn) -> FieldView {
    if column == RolloutColumn::Id {
        key_field("id"@)
    } else if column == RolloutColumn::Relationships {
        relationships_view()
    } else {
        plain(rollout_name(column), rollout_type(column), rollout_nullable(column))
    }
}

/// The columns of a rollout table, in order.
pub open spec fn rollout_columns() -> Seq<RolloutColumn> {
    seq![
        RolloutColumn::Id,
        RolloutColumn::RolloutId,
        RolloutColumn::ProblemId,
        RolloutColumn::Dataset,
        RolloutColumn::SequenceOrder,
        RolloutColumn::Role,
        RolloutColumn::CreatedAt,
        RolloutColumn::Content,
        RolloutColumn::ContentType,
        RolloutColumn::ModelInputString,
        RolloutColumn::ModelOutputString,
        RolloutColumn::Rationale,
        RolloutColumn::ProblemText,
        RolloutColumn::UserMetadata,
        RolloutColumn::InputTokens,
        RolloutColumn::OutputTokens,
        RolloutColumn::NumInputTokens,
        RolloutColumn::NumOutputTokens,
        RolloutColumn::OutputLogprobs,
        RolloutColumn::InputLogprobs,
        RolloutColumn::RefLogprobs,
        RolloutColumn::LossMask,
        RolloutColumn::Advantage,
        RolloutColumn::Reward,
        RolloutColumn::RawReward,
        RolloutColumn::GraderId,
        RolloutColumn::Score,
        RolloutColumn::IncludeInTraining,
        RolloutColumn::ExcludeReason,
        RolloutColumn::PolicyVersion,
        RolloutColumn::Relationships,
        RolloutColumn::BinaryPayload,
        RolloutColumn::PayloadSize,
        RolloutColumn::PayloadChecksum,
        RolloutColumn::ArtifactType,
        RolloutColumn::Metadata,
    ]
}

/// The schema of a rollout table.
pub open spec fn rollout_table() -> SchemaView {
    SchemaView {
        fields: Seq::new(rollout_columns().len(), |i: int| rollout_field(rollout_columns()[i])),
        metadata: Seq::empty(),
    }
}

fn column_at(index: usize) -> (column: RolloutColumn)
    requires
        index < rollout_columns().len(),
    ensures
        column == rollout_columns()[index as int],
{
    match index {
        0 => RolloutColumn::Id,
        1 => RolloutColumn::RolloutId,
        2 => RolloutColumn::ProblemId,
        3 => RolloutColumn::Dataset,
        4 => RolloutColumn::SequenceOrder,
        5 => RolloutColumn::Role,
        6 => RolloutColumn::CreatedAt,
        7 => RolloutColumn::Content,
        8 => RolloutColumn::ContentType,
        9 => RolloutColumn::ModelInputString,
        10 => RolloutColumn::ModelOutputString,
        11 => RolloutColumn::Rationale,
        12 => RolloutColumn::ProblemText,
        13 => RolloutColumn::UserMetadata,
        14 => RolloutColumn::InputTokens,
        15 => RolloutColumn::OutputTokens,
        16 => RolloutColumn::NumInputTokens,
        17 => RolloutColumn::NumOutputTokens,
        18 => RolloutColumn::OutputLogprobs,
        19 => RolloutColumn::InputLogprobs,
        20 => RolloutColumn::RefLogprobs,
        21 => RolloutColumn::LossMask,
        22 => RolloutColumn::Advantage,
        23 => RolloutColumn::Reward,
        24 => RolloutColumn::RawReward,
        25 => RolloutColumn::GraderId,
        26 => RolloutColumn::Score,
        27 => RolloutColumn::IncludeInTraining,
        28 => RolloutColumn::ExcludeReason,
        29 => RolloutColumn::PolicyVersion,
        30 => RolloutColumn::Relationships,
        31 => RolloutColumn::BinaryPayload,
        32 => RolloutColumn::PayloadSize,
        33 => RolloutColumn::PayloadChecksum,
        34 => RolloutColumn::ArtifactType,
        _ => RolloutColumn::Metadata,
    }
}

fn column_text(column: RolloutColumn) -> (name: &'static str)
    ensures
        name@ == rollout_name(column),
{
    match column {
        RolloutColumn::Id => "id",
        RolloutColumn::RolloutId => "rollout_id",
        RolloutColumn::ProblemId => "problem_id",
        RolloutColumn::Dataset => "dataset",
        RolloutColumn::SequenceOrder => "sequence_order",
        RolloutColumn::Role => "role",
        RolloutColumn::CreatedAt => "created_at",
        RolloutColumn::Content => "content",
        RolloutColumn::ContentType => "content_type",
        RolloutColumn::ModelInputString => "model_input_string",
        RolloutColumn::ModelOutputString => "model_output_string",
        RolloutColumn::Rationale => "rationale",
        RolloutColumn::ProblemText => "problem_text",
        RolloutColumn::UserMetadata => "user_metadata",
        RolloutColumn::InputTokens => "input_tokens",
        RolloutColumn::OutputTokens => "output_tokens",
        RolloutColumn::NumInputTokens => "num_input_tokens",
        RolloutColumn::NumOutputTokens => "num_output_tokens",
        RolloutColumn::OutputLogprobs => "output_logprobs",
        RolloutColumn::InputLogprobs => "input_logprobs",
        RolloutColumn::RefLogprobs => "ref_logprobs",
        RolloutColumn::LossMask => "loss_mask",
        RolloutColumn::Advantage => "advantage",
        RolloutColumn::Reward => "reward",
        RolloutColumn::RawReward => "raw_reward",
        RolloutColumn::GraderId => "grader_id",
        RolloutColumn::Score => "score",
        RolloutColumn::IncludeInTraining => "include_in_training",
        RolloutColumn::ExcludeReason => "exclude_reason",
        RolloutColumn::PolicyVersion => "policy_version",
        RolloutColumn::Relationships => "relationships",
        RolloutColumn::BinaryPayload => "binary_payload",
        RolloutColumn::PayloadSize => "payload_size",
        RolloutColumn::PayloadChecksum => "payload_checksum",
        RolloutColumn::ArtifactType => "artifact_type",
        RolloutColumn::Metadata => "metadata",
    }
}

fn is_nullable(column: RolloutColumn) -> (result: bool)
    ensures
        result == rollout_nullable(column),
{
    match column {
        RolloutColumn::Id
        | RolloutColumn::RolloutId
        | RolloutColumn::ProblemId
        | RolloutColumn::SequenceOrder
        | RolloutColumn::Role
        | RolloutColumn::CreatedAt
        | RolloutColumn::ContentType => false,
        _ => true,
    }
}

fn field_of(column: RolloutColumn) -> (field: Field)
    ensures
        field@ == rollout_field(column),
{
    if column == RolloutColumn::Id {
        primary_key_field("id")
    } else if column == RolloutColumn::Relationships {
        relationship_field()
    } else {
        match rollout_data_type(column) {
            DataType::List(ItemType::Scalar(item), Form::Own) => list_field(column_text(column), item),
            data_type => Field::new(column_text(column), data_type, is_nullable(column)),
        }
    }
}

/// The schema of a rollout table. The artifact bytes stand in an ordinary
/// column, because merged reads do not resolve offloaded ones.
pub fn rollout_schema() -> (schema: Schema)
    ensures
        schema@ == rollout_table(),
{
    let mut fields: Vec<Field> = Vec::new();
    let mut index: usize = 0;
    while index < COLUMN_COUNT
        invariant
            index <= COLUMN_COUNT,
            COLUMN_COUNT == rollout_columns().len(),
            field_views(fields@).len() == index,
            forall|k: int|
                0 <= k < index ==> #[trigger] field_views(fields@)[k] == rollout_field(
                    rollout_columns()[k],
                ),
        decreases COLUMN_COUNT - index,
    {
        let ghost before = fields@;
        push_field(&mut fields, field_of(column_at(index)));
        proof {
            assert forall|k: int| 0 <= k < index + 1 implies #[trigger] field_views(fields@)[k]
                == rollout_field(rollout_columns()[k]) by {
                if k < index {
                    assert(field_views(before)[k] == rollout_field(rollout_columns()[k]));
                }
            }
        }
        index = index + 1;
    }
    let schema = Schema { fields, metadata: Vec::new() };
    proof {
        assert(schema@.fields =~= rollout_table().fields);
        assert(schema@.metadata =~= rollout_table().metadata);
    }
    schema
}

/// A rollout table has every column of a record.
pub proof fn law_rollout_table_has_every_column(column: RolloutColumn)
    ensures
        rollout_table().has(rollout_name(column)),
{
    let names = names_of(rollout_table().fields);
    let at = rollout_position(column);
    assert(rollout_columns()[at] == column);
    assert(names[at] == rollout_name(column));
    crate::schema::lemma_find_name_exists(names, rollout_name(column), at);
}

/// Each column stands at its own place.
pub proof fn lemma_columns_are_distinct(left: int, right: int)
    requires
        0 <= left < rollout_columns().len(),
        0 <= right < rollout_columns().len(),
        left != right,
    ensures
        rollout_columns()[left] != rollout_columns()[right],
{
    assert forall|i: int| 0 <= i < rollout_columns().len() implies rollout_position(
        #[trigger] rollout_columns()[i],
    ) == i by {}
    assert(rollout_position(rollout_columns()[left]) == left);
    assert(rollout_position(rollout_columns()[right]) == right);
}

spec fn rollout_position(column: RolloutColumn) -> int {
    match column {
        RolloutColumn::Id => 0,
        RolloutColumn::RolloutId => 1,
        RolloutColumn::ProblemId => 2,
        RolloutColumn::Dataset => 3,
        RolloutColumn::SequenceOrder => 4,
        RolloutColumn::Role => 5,
        RolloutColumn::CreatedAt => 6,
        RolloutColumn::Content => 7,
        RolloutColumn::ContentType => 8,
        RolloutColumn::ModelInputString => 9,
        RolloutColumn::ModelOutputString => 10,
        RolloutColumn::Rationale => 11,
        RolloutColumn::ProblemText => 12,
        RolloutColumn::UserMetadata => 13,
        RolloutColumn::InputTokens => 14,
        RolloutColumn::OutputTokens => 15,
        RolloutColumn::NumInputTokens => 16,
        RolloutColumn::NumOutputTokens => 17,
        RolloutColumn::OutputLogprobs => 18,
        RolloutColumn::InputLogprobs => 19,
        RolloutColumn::RefLogprobs => 20,
        RolloutColumn::LossMask => 21,
        RolloutColumn::Advantage => 22,
        RolloutColumn::Reward => 23,
        RolloutColumn::RawReward => 24,
        RolloutColumn::GraderId => 25,
        RolloutColumn::Score => 26,
        RolloutColumn::IncludeInTraining => 27,
        RolloutColumn::ExcludeReason => 28,
        RolloutColumn::PolicyVersion => 29,
        RolloutColumn::Relationships => 30,
        RolloutColumn::BinaryPayload => 31,
        RolloutColumn::PayloadSize => 32,
        RolloutColumn::PayloadChecksum => 33,
        RolloutColumn::ArtifactType => 34,
        RolloutColumn::Metadata => 35,
    }
}

/// The columns of a rollout table that are never null, and only these.
pub proof fn law_columns_of_a_rollout_table_that_are_never_null(at: int)
    requires
        0 <= at < rollout_table().fields.len(),
    ensures
        ({
            let name = rollout_table().fields[at].name;
            !rollout_table().fields[at].nullable <==> {
                ||| name == "id"@
                ||| name == "rollout_id"@
                ||| name == "problem_id"@
                ||| name == "sequence_order"@
                ||| name == "role"@
                ||| name == "created_at"@
                ||| name == "content_type"@
            }
        }),
{
    let column = rollout_columns()[at];
    law_rollout_names_are_distinct(RolloutColumn::Id);
    law_rollout_names_are_distinct(RolloutColumn::RolloutId);
    law_rollout_names_are_distinct(RolloutColumn::ProblemId);
    law_rollout_names_are_distinct(RolloutColumn::SequenceOrder);
    law_rollout_names_are_distinct(RolloutColumn::Role);
    law_rollout_names_are_distinct(RolloutColumn::CreatedAt);
    law_rollout_names_are_distinct(RolloutColumn::ContentType);
    law_rollout_names_are_distinct(column);
}

/// The key column, and no other, is marked as the key.
pub proof fn law_the_rollout_tables_key_is_marked(at: int)
    requires
        0 <= at < rollout_table().fields.len(),
    ensures
        value_of(rollout_table().fields[at].metadata, "lance-schema:unenforced-primary-key"@)
            == Some("true"@)
            <==> rollout_table().fields[at].name == "id"@,
{
    let column = rollout_columns()[at];
    law_a_key_column_is_marked(
        rollout_name(column),
        rollout_type(column),
        rollout_nullable(column),
        "lance-schema:unenforced-primary-key"@,
    );
    law_a_key_column_is_marked(
        "id"@,
        rollout_type(column),
        true,
        "lance-schema:unenforced-primary-key"@,
    );
    law_a_key_column_is_marked(
        "relationships"@,
        relationships_view().data_type,
        true,
        "lance-schema:unenforced-primary-key"@,
    );
    law_rollout_names_are_distinct(column);
    law_rollout_names_are_distinct(RolloutColumn::Id);
    law_rollout_names_are_distinct(RolloutColumn::Relationships);
}

/// A rollout table has these columns, in this order.
pub proof fn law_a_rollout_table_has_its_columns_in_order()
    ensures
        rollout_table().fields.len() == 36,
        rollout_table().fields[0].name == "id"@,
        rollout_table().fields[1].name == "rollout_id"@,
        rollout_table().fields[2].name == "problem_id"@,
        rollout_table().fields[3].name == "dataset"@,
        rollout_table().fields[4].name == "sequence_order"@,
        rollout_table().fields[5].name == "role"@,
        rollout_table().fields[6].name == "created_at"@,
        rollout_table().fields[7].name == "content"@,
        rollout_table().fields[8].name == "content_type"@,
        rollout_table().fields[9].name == "model_input_string"@,
        rollout_table().fields[10].name == "model_output_string"@,
        rollout_table().fields[11].name == "rationale"@,
        rollout_table().fields[12].name == "problem_text"@,
        rollout_table().fields[13].name == "user_metadata"@,
        rollout_table().fields[14].name == "input_tokens"@,
        rollout_table().fields[15].name == "output_tokens"@,
        rollout_table().fields[16].name == "num_input_tokens"@,
        rollout_table().fields[17].name == "num_output_tokens"@,
        rollout_table().fields[18].name == "output_logprobs"@,
        rollout_table().fields[19].name == "input_logprobs"@,
        rollout_table().fields[20].name == "ref_logprobs"@,
        rollout_table().fields[21].name == "loss_mask"@,
        rollout_table().fields[22].name == "advantage"@,
        rollout_table().fields[23].name == "reward"@,
        rollout_table().fields[24].name == "raw_reward"@,
        rollout_table().fields[25].name == "grader_id"@,
        rollout_table().fields[26].name == "score"@,
        rollout_table().fields[27].name == "include_in_training"@,
        rollout_table().fields[28].name == "exclude_reason"@,
        rollout_table().fields[29].name == "policy_version"@,
        rollout_table().fields[30].name == "relationships"@,
        rollout_table().fields[31].name == "binary_payload"@,
        rollout_table().fields[32].name == "payload_size"@,
        rollout_table().fields[33].name == "payload_checksum"@,
        rollout_table().fields[34].name == "artifact_type"@,
        rollout_table().fields[35].name == "metadata"@,
{
}

} // verus!
