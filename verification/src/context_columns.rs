//! The columns of a context table.

use vstd::prelude::*;

use crate::schema::{
    relationship_struct_data_type, relationship_type, state_struct_data_type, state_type, DataType,
    Form, ItemType, Scalar,
};
use crate::text::same_text;

verus! {

/// A column of a context table.
#[derive(Debug, Clone, Copy, PartialEq, Eq, Structural)]
pub enum ContextColumn {
    Id,
    ExternalId,
    RunId,
    BotId,
    SessionId,
    Tenant,
    Source,
    CreatedAt,
    Role,
    StateMetadata,
    Metadata,
    Relationships,
    ExpiresAt,
    RetentionPolicy,
    LifecycleStatus,
    RetiredAt,
    RetiredReason,
    SupersedesId,
    SupersededById,
    ContentType,
    TextPayload,
    BinaryPayload,
    PayloadUri,
    PayloadSize,
    PayloadChecksum,
    Embedding,
}

/// The name a column stands under.
pub open spec fn column_name(column: ContextColumn) -> Seq<char> {
    match column {
        ContextColumn::Id => "id"@,
        ContextColumn::ExternalId => "external_id"@,
        ContextColumn::RunId => "run_id"@,
        ContextColumn::BotId => "bot_id"@,
        ContextColumn::SessionId => "session_id"@,
        ContextColumn::Tenant => "tenant"@,
        ContextColumn::Source => "source"@,
        ContextColumn::CreatedAt => "created_at"@,
        ContextColumn::Role => "role"@,
        ContextColumn::StateMetadata => "state_metadata"@,
        ContextColumn::Metadata => "metadata"@,
        ContextColumn::Relationships => "relationships"@,
        ContextColumn::ExpiresAt => "expires_at"@,
        ContextColumn::RetentionPolicy => "retention_policy"@,
        ContextColumn::LifecycleStatus => "lifecycle_status"@,
        ContextColumn::RetiredAt => "retired_at"@,
        ContextColumn::RetiredReason => "retired_reason"@,
        ContextColumn::SupersedesId => "supersedes_id"@,
        ContextColumn::SupersededById => "superseded_by_id"@,
        ContextColumn::ContentType => "content_type"@,
        ContextColumn::TextPayload => "text_payload"@,
        ContextColumn::BinaryPayload => "binary_payload"@,
        ContextColumn::PayloadUri => "payload_uri"@,
        ContextColumn::PayloadSize => "payload_size"@,
        ContextColumn::PayloadChecksum => "payload_checksum"@,
        ContextColumn::Embedding => "embedding"@,
    }
}

/// The column that stands under a name.
pub open spec fn column_named(name: Seq<char>) -> Option<ContextColumn> {
    if name == "id"@ {
        Some(ContextColumn::Id)
    } else if name == "external_id"@ {
        Some(ContextColumn::ExternalId)
    } else if name == "run_id"@ {
        Some(ContextColumn::RunId)
    } else if name == "bot_id"@ {
        Some(ContextColumn::BotId)
    } else if name == "session_id"@ {
        Some(ContextColumn::SessionId)
    } else if name == "tenant"@ {
        Some(ContextColumn::Tenant)
    } else if name == "source"@ {
        Some(ContextColumn::Source)
    } else if name == "created_at"@ {
        Some(ContextColumn::CreatedAt)
    } else if name == "role"@ {
        Some(ContextColumn::Role)
    } else if name == "state_metadata"@ {
        Some(ContextColumn::StateMetadata)
    } else if name == "metadata"@ {
        Some(ContextColumn::Metadata)
    } else if name == "relationships"@ {
        Some(ContextColumn::Relationships)
    } else if name == "expires_at"@ {
        Some(ContextColumn::ExpiresAt)
    } else if name == "retention_policy"@ {
        Some(ContextColumn::RetentionPolicy)
    } else if name == "lifecycle_status"@ {
        Some(ContextColumn::LifecycleStatus)
    } else if name == "retired_at"@ {
        Some(ContextColumn::RetiredAt)
    } else if name == "retired_reason"@ {
        Some(ContextColumn::RetiredReason)
    } else if name == "supersedes_id"@ {
        Some(ContextColumn::SupersedesId)
    } else if name == "superseded_by_id"@ {
        Some(ContextColumn::SupersededById)
    } else if name == "content_type"@ {
        Some(ContextColumn::ContentType)
    } else if name == "text_payload"@ {
        Some(ContextColumn::TextPayload)
    } else if name == "binary_payload"@ {
        Some(ContextColumn::BinaryPayload)
    } else if name == "payload_uri"@ {
        Some(ContextColumn::PayloadUri)
    } else if name == "payload_size"@ {
        Some(ContextColumn::PayloadSize)
    } else if name == "payload_checksum"@ {
        Some(ContextColumn::PayloadChecksum)
    } else if name == "embedding"@ {
        Some(ContextColumn::Embedding)
    } else {
        None
    }
}

/// No two columns share a name.
pub proof fn law_column_names_are_distinct(column: ContextColumn)
    ensures
        column_named(column_name(column)) == Some(column),
{
    reveal_strlit("id");
    assert("id"@.len() == 2 && "id"@[0] == 'i');
    reveal_strlit("external_id");
    assert("external_id"@.len() == 11 && "external_id"@[0] == 'e');
    reveal_strlit("run_id");
    assert("run_id"@.len() == 6 && "run_id"@[0] == 'r');
    reveal_strlit("bot_id");
    assert("bot_id"@.len() == 6 && "bot_id"@[0] == 'b');
    reveal_strlit("session_id");
    assert("session_id"@.len() == 10 && "session_id"@[0] == 's');
    reveal_strlit("tenant");
    assert("tenant"@.len() == 6 && "tenant"@[0] == 't');
    reveal_strlit("source");
    assert("source"@.len() == 6 && "source"@[0] == 's');
    reveal_strlit("created_at");
    assert("created_at"@.len() == 10 && "created_at"@[0] == 'c');
    reveal_strlit("role");
    assert("role"@.len() == 4 && "role"@[0] == 'r');
    reveal_strlit("state_metadata");
    assert("state_metadata"@.len() == 14 && "state_metadata"@[0] == 's');
    reveal_strlit("metadata");
    assert("metadata"@.len() == 8 && "metadata"@[0] == 'm');
    reveal_strlit("relationships");
    assert("relationships"@.len() == 13 && "relationships"@[0] == 'r');
    reveal_strlit("expires_at");
    assert("expires_at"@.len() == 10 && "expires_at"@[0] == 'e');
    reveal_strlit("retention_policy");
    assert("retention_policy"@.len() == 16 && "retention_policy"@[0] == 'r');
    reveal_strlit("lifecycle_status");
    assert("lifecycle_status"@.len() == 16 && "lifecycle_status"@[0] == 'l');
    reveal_strlit("retired_at");
    assert("retired_at"@.len() == 10 && "retired_at"@[0] == 'r');
    reveal_strlit("retired_reason");
    assert("retired_reason"@.len() == 14 && "retired_reason"@[0] == 'r');
    reveal_strlit("supersedes_id");
    assert("supersedes_id"@.len() == 13 && "supersedes_id"@[0] == 's');
    reveal_strlit("superseded_by_id");
    assert("superseded_by_id"@.len() == 16 && "superseded_by_id"@[0] == 's');
    reveal_strlit("content_type");
    assert("content_type"@.len() == 12 && "content_type"@[0] == 'c');
    reveal_strlit("text_payload");
    assert("text_payload"@.len() == 12 && "text_payload"@[0] == 't');
    reveal_strlit("binary_payload");
    assert("binary_payload"@.len() == 14 && "binary_payload"@[0] == 'b');
    reveal_strlit("payload_uri");
    assert("payload_uri"@.len() == 11 && "payload_uri"@[0] == 'p');
    reveal_strlit("payload_size");
    assert("payload_size"@.len() == 12 && "payload_size"@[0] == 'p');
    reveal_strlit("payload_checksum");
    assert("payload_checksum"@.len() == 16 && "payload_checksum"@[0] == 'p');
    reveal_strlit("embedding");
    assert("embedding"@.len() == 9 && "embedding"@[0] == 'e');
}

/// A name that stands for a column is that column's name.
pub proof fn lemma_named_column(name: Seq<char>)
    ensures
        column_named(name) is Some ==> name == column_name(column_named(name)->Some_0),
{
}

/// The column that stands under a name.
pub fn find_column(name: &str) -> (result: Option<ContextColumn>)
    ensures
        result == column_named(name@),
{
    if same_text(name, "id") {
        Some(ContextColumn::Id)
    } else if same_text(name, "external_id") {
        Some(ContextColumn::ExternalId)
    } else if same_text(name, "run_id") {
        Some(ContextColumn::RunId)
    } else if same_text(name, "bot_id") {
        Some(ContextColumn::BotId)
    } else if same_text(name, "session_id") {
        Some(ContextColumn::SessionId)
    } else if same_text(name, "tenant") {
        Some(ContextColumn::Tenant)
    } else if same_text(name, "source") {
        Some(ContextColumn::Source)
    } else if same_text(name, "created_at") {
        Some(ContextColumn::CreatedAt)
    } else if same_text(name, "role") {
        Some(ContextColumn::Role)
    } else if same_text(name, "state_metadata") {
        Some(ContextColumn::StateMetadata)
    } else if same_text(name, "metadata") {
        Some(ContextColumn::Metadata)
    } else if same_text(name, "relationships") {
        Some(ContextColumn::Relationships)
    } else if same_text(name, "expires_at") {
        Some(ContextColumn::ExpiresAt)
    } else if same_text(name, "retention_policy") {
        Some(ContextColumn::RetentionPolicy)
    } else if same_text(name, "lifecycle_status") {
        Some(ContextColumn::LifecycleStatus)
    } else if same_text(name, "retired_at") {
        Some(ContextColumn::RetiredAt)
    } else if same_text(name, "retired_reason") {
        Some(ContextColumn::RetiredReason)
    } else if same_text(name, "supersedes_id") {
        Some(ContextColumn::SupersedesId)
    } else if same_text(name, "superseded_by_id") {
        Some(ContextColumn::SupersededById)
    } else if same_text(name, "content_type") {
        Some(ContextColumn::ContentType)
    } else if same_text(name, "text_payload") {
        Some(ContextColumn::TextPayload)
    } else if same_text(name, "binary_payload") {
        Some(ContextColumn::BinaryPayload)
    } else if same_text(name, "payload_uri") {
        Some(ContextColumn::PayloadUri)
    } else if same_text(name, "payload_size") {
        Some(ContextColumn::PayloadSize)
    } else if same_text(name, "payload_checksum") {
        Some(ContextColumn::PayloadChecksum)
    } else if same_text(name, "embedding") {
        Some(ContextColumn::Embedding)
    } else {
        None
    }
}

/// The type a column is written with. The text payload is written as bytes
/// where it is configured as a blob; the embedding has `dim` items.
pub open spec fn column_type(column: ContextColumn, dim: i32, text_is_blob: bool) -> DataType {
    match column {
        ContextColumn::CreatedAt => DataType::Scalar(Scalar::Timestamp),
        ContextColumn::ExpiresAt => DataType::Scalar(Scalar::Timestamp),
        ContextColumn::RetiredAt => DataType::Scalar(Scalar::Timestamp),
        ContextColumn::Role => DataType::Dictionary(Scalar::Int8, Scalar::Utf8),
        ContextColumn::StateMetadata => DataType::Struct(state_type(), Form::Own),
        ContextColumn::Metadata => DataType::Scalar(Scalar::LargeUtf8),
        ContextColumn::Relationships => DataType::List(ItemType::Struct(relationship_type()), Form::Own),
        ContextColumn::TextPayload => if text_is_blob {
            DataType::Scalar(Scalar::LargeBinary)
        } else {
            DataType::Scalar(Scalar::LargeUtf8)
        },
        ContextColumn::BinaryPayload => DataType::Scalar(Scalar::LargeBinary),
        ContextColumn::PayloadSize => DataType::Scalar(Scalar::Int64),
        ContextColumn::Embedding => DataType::FixedSizeList(
            ItemType::Scalar(Scalar::Float32),
            dim,
            Form::Own,
        ),
        _ => DataType::Scalar(Scalar::Utf8),
    }
}

/// The type a column is written with.
pub fn written_type(column: ContextColumn, dim: i32, text_is_blob: bool) -> (result: DataType)
    ensures
        result == column_type(column, dim, text_is_blob),
{
    match column {
        ContextColumn::CreatedAt => DataType::Scalar(Scalar::Timestamp),
        ContextColumn::ExpiresAt => DataType::Scalar(Scalar::Timestamp),
        ContextColumn::RetiredAt => DataType::Scalar(Scalar::Timestamp),
        ContextColumn::Role => DataType::Dictionary(Scalar::Int8, Scalar::Utf8),
        ContextColumn::StateMetadata => DataType::Struct(state_struct_data_type(), Form::Own),
        ContextColumn::Metadata => DataType::Scalar(Scalar::LargeUtf8),
        ContextColumn::Relationships => DataType::List(
            ItemType::Struct(relationship_struct_data_type()),
            Form::Own,
        ),
        ContextColumn::TextPayload => if text_is_blob {
            DataType::Scalar(Scalar::LargeBinary)
        } else {
            DataType::Scalar(Scalar::LargeUtf8)
        },
        ContextColumn::BinaryPayload => DataType::Scalar(Scalar::LargeBinary),
        ContextColumn::PayloadSize => DataType::Scalar(Scalar::Int64),
        ContextColumn::Embedding => DataType::FixedSizeList(
            ItemType::Scalar(Scalar::Float32),
            dim,
            Form::Own,
        ),
        _ => DataType::Scalar(Scalar::Utf8),
    }
}

} // verus!
