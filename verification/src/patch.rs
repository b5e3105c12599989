//! Changing and forgetting single records.

use vstd::prelude::*;

use crate::error::{invalid_argument, Failure, StoreError};
use crate::listing::{find_by_external_id, find_by_id, find_external, find_id};
use crate::record::{
    copy_list, copy_relationships, opt_seq, opt_state, record_views, relationship_views,
    ContextRecord, RecordView, Relationship, RelationshipView, StateMetadata, StateView,
};
use crate::text::{clone_opt, join3, opt_text};
use crate::writes::{external_id_ambiguous, with_external_id};

verus! {

/// The fields of a record that an update can change; absent ones stay.
#[derive(Debug, Clone, PartialEq)]
pub struct RecordPatch {
    pub bot_id: Option<String>,
    pub session_id: Option<String>,
    pub tenant: Option<String>,
    pub source: Option<String>,
    pub state_metadata: Option<StateMetadata>,
    pub metadata: Option<String>,
    pub relationships: Option<Vec<Relationship>>,
    pub expires_at: Option<i64>,
    pub retention_policy: Option<String>,
    pub lifecycle_status: Option<String>,
    pub retired_at: Option<i64>,
    pub retired_reason: Option<String>,
    pub embedding: Option<Vec<u32>>,
    pub payload_uri: Option<String>,
    pub payload_size: Option<i64>,
    pub payload_checksum: Option<String>,
}

/// The model of a [`RecordPatch`].
#[verifier::ext_equal]
pub struct PatchView {
    pub bot_id: Option<Seq<char>>,
    pub session_id: Option<Seq<char>>,
    pub tenant: Option<Seq<char>>,
    pub source: Option<Seq<char>>,
    pub state_metadata: Option<StateView>,
    pub metadata: Option<Seq<char>>,
    pub relationships: Option<Seq<RelationshipView>>,
    pub expires_at: Option<i64>,
    pub retention_policy: Option<Seq<char>>,
    pub lifecycle_status: Option<Seq<char>>,
    pub retired_at: Option<i64>,
    pub retired_reason: Option<Seq<char>>,
    pub embedding: Option<Seq<u32>>,
    pub payload_uri: Option<Seq<char>>,
    pub payload_size: Option<i64>,
    pub payload_checksum: Option<Seq<char>>,
}

/// The model of optional relationships.
pub open spec fn opt_relationships(value: Option<Vec<Relationship>>) -> Option<
    Seq<RelationshipView>,
> {
    match value {
        Some(links) => Some(relationship_views(links@)),
        None => None,
    }
}

impl View for RecordPatch {
    type V = PatchView;

    open spec fn view(&self) -> PatchView {
        PatchView {
            bot_id: opt_text(self.bot_id),
            session_id: opt_text(self.session_id),
            tenant: opt_text(self.tenant),
            source: opt_text(self.source),
            state_metadata: opt_state(self.state_metadata),
            metadata: opt_text(self.metadata),
            relationships: opt_relationships(self.relationships),
            expires_at: self.expires_at,
            retention_policy: opt_text(self.retention_policy),
            lifecycle_status: opt_text(self.lifecycle_status),
            retired_at: self.retired_at,
            retired_reason: opt_text(self.retired_reason),
            embedding: opt_seq(self.embedding),
            payload_uri: opt_text(self.payload_uri),
            payload_size: self.payload_size,
            payload_checksum: opt_text(self.payload_checksum),
        }
    }
}

impl PatchView {
    /// Whether the patch changes nothing.
    pub open spec fn is_empty(self) -> bool {
        &&& self.bot_id is None
        &&& self.session_id is None
        &&& self.tenant is None
        &&& self.source is None
        &&& self.state_metadata is None
        &&& self.metadata is None
        &&& self.relationships is None
        &&& self.expires_at is None
        &&& self.retention_policy is None
        &&& self.lifecycle_status is None
        &&& self.retired_at is None
        &&& self.retired_reason is None
        &&& self.embedding is None
        &&& self.payload_uri is None
        &&& self.payload_size is None
        &&& self.payload_checksum is None
    }
}

/// The new value where there is one, else the old value.
pub open spec fn patched_option<T>(new: Option<T>, old_value: Option<T>) -> Option<T> {
    match new {
        Some(value) => Some(value),
        None => old_value,
    }
}

/// The new value where there is one, else the old value.
pub open spec fn patched_value<T>(new: Option<T>, old_value: T) -> T {
    match new {
        Some(value) => value,
        None => old_value,
    }
}

/// The record that an update writes: a new record that replaces the old one,
/// with the patched fields changed and every other field kept.
pub open spec fn updated(
    existing: RecordView,
    patch: PatchView,
    id: Seq<char>,
    run_id: Seq<char>,
    now: i64,
) -> RecordView {
    RecordView {
        id,
        run_id,
        created_at: now,
        supersedes_id: Some(existing.id),
        superseded_by_id: None,
        bot_id: patched_option(patch.bot_id, existing.bot_id),
        session_id: patched_option(patch.session_id, existing.session_id),
        tenant: patched_option(patch.tenant, existing.tenant),
        source: patched_option(patch.source, existing.source),
        state_metadata: patched_option(patch.state_metadata, existing.state_metadata),
        metadata: patched_option(patch.metadata, existing.metadata),
        relationships: patched_value(patch.relationships, existing.relationships),
        expires_at: patched_option(patch.expires_at, existing.expires_at),
        retention_policy: patched_option(patch.retention_policy, existing.retention_policy),
        lifecycle_status: patched_value(patch.lifecycle_status, existing.lifecycle_status),
        retired_at: patched_option(patch.retired_at, existing.retired_at),
        retired_reason: patched_option(patch.retired_reason, existing.retired_reason),
        embedding: patched_option(patch.embedding, existing.embedding),
        payload_uri: patched_option(patch.payload_uri, existing.payload_uri),
        payload_size: patched_option(patch.payload_size, existing.payload_size),
        payload_checksum: patched_option(patch.payload_checksum, existing.payload_checksum),
        ..existing
    }
}

fn pick_text(new: Option<String>, old_value: &Option<String>) -> (result: Option<String>)
    ensures
        opt_text(result) == patched_option(opt_text(new), opt_text(*old_value)),
{
    match new {
        Some(value) => Some(value),
        None => clone_opt(old_value),
    }
}

fn pick_int(new: Option<i64>, old_value: Option<i64>) -> (result: Option<i64>)
    ensures
        result == patched_option(new, old_value),
{
    match new {
        Some(value) => Some(value),
        None => old_value,
    }
}

impl Default for RecordPatch {
    fn default() -> (patch: RecordPatch)
        ensures
            patch@.is_empty(),
    {
        RecordPatch {
            bot_id: None,
            session_id: None,
            tenant: None,
            source: None,
            state_metadata: None,
            metadata: None,
            relationships: None,
            expires_at: None,
            retention_policy: None,
            lifecycle_status: None,
            retired_at: None,
            retired_reason: None,
            embedding: None,
            payload_uri: None,
            payload_size: None,
            payload_checksum: None,
        }
    }
}

impl RecordPatch {
    /// Whether the patch changes nothing.
    pub fn is_empty(&self) -> (result: bool)
        ensures
            result == self@.is_empty(),
    {
        self.bot_id.is_none() && self.session_id.is_none() && self.tenant.is_none()
            && self.source.is_none() && self.state_metadata.is_none() && self.metadata.is_none()
            && self.relationships.is_none() && self.expires_at.is_none()
            && self.retention_policy.is_none() && self.lifecycle_status.is_none()
            && self.retired_at.is_none() && self.retired_reason.is_none()
            && self.embedding.is_none() && self.payload_uri.is_none()
            && self.payload_size.is_none() && self.payload_checksum.is_none()
    }
}

/// The record that an update of `existing` writes, under a fresh id and run id
/// and the current time. A patch that changes nothing is refused.
pub fn update_record(
    existing: &ContextRecord,
    patch: RecordPatch,
    id: String,
    run_id: String,
    now: i64,
) -> (result: Result<ContextRecord, StoreError>)
    ensures
        if patch@.is_empty() {
            result is Err && result->Err_0@ == invalid_argument(
                "update requires at least one patch field"@,
            )
        } else {
            result is Ok && result->Ok_0@ == updated(existing@, patch@, id@, run_id@, now)
        },
{
    if patch.is_empty() {
        return Err(
            StoreError::invalid_argument("update requires at least one patch field".to_owned()),
        );
    }
    let ghost model = updated(existing@, patch@, id@, run_id@, now);
    let record = ContextRecord {
        id,
        external_id: clone_opt(&existing.external_id),
        run_id,
        bot_id: pick_text(patch.bot_id, &existing.bot_id),
        session_id: pick_text(patch.session_id, &existing.session_id),
        tenant: pick_text(patch.tenant, &existing.tenant),
        source: pick_text(patch.source, &existing.source),
        created_at: now,
        role: existing.role.clone(),
        state_metadata: match patch.state_metadata {
            Some(state) => Some(state),
            None => match &existing.state_metadata {
                Some(state) => Some(state.copy()),
                None => None,
            },
        },
        metadata: pick_text(patch.metadata, &existing.metadata),
        relationships: match patch.relationships {
            Some(links) => links,
            None => copy_relationships(&existing.relationships),
        },
        expires_at: pick_int(patch.expires_at, existing.expires_at),
        retention_policy: pick_text(patch.retention_policy, &existing.retention_policy),
        lifecycle_status: match patch.lifecycle_status {
            Some(status) => status,
            None => existing.lifecycle_status.clone(),
        },
        retired_at: pick_int(patch.retired_at, existing.retired_at),
        retired_reason: pick_text(patch.retired_reason, &existing.retired_reason),
        supersedes_id: Some(existing.id.clone()),
        superseded_by_id: None,
        content_type: existing.content_type.clone(),
        text_payload: clone_opt(&existing.text_payload),
        binary_payload: match &existing.binary_payload {
            Some(bytes) => Some(copy_list(bytes)),
            None => None,
        },
        payload_uri: pick_text(patch.payload_uri, &existing.payload_uri),
        payload_size: pick_int(patch.payload_size, existing.payload_size),
        payload_checksum: pick_text(patch.payload_checksum, &existing.payload_checksum),
        embedding: match patch.embedding {
            Some(items) => Some(items),
            None => match &existing.embedding {
                Some(items) => Some(copy_list(items)),
                None => None,
            },
        },
    };
    assert(record@ =~= model);
    Ok(record)
}

/// Which listed record an update by id changes, or why there is none to look
/// for.
pub open spec fn update_target_by_id(rows: Seq<RecordView>, id: Seq<char>) -> Result<
    Option<int>,
    Failure,
> {
    if id.len() == 0 {
        Err(invalid_argument("update_by_id requires a non-empty id"@))
    } else {
        Ok(find_id(rows, id, 0))
    }
}

/// Finds the listed record that an update by id changes.
pub fn find_update_target_by_id(rows: &Vec<ContextRecord>, id: &str) -> (result: Result<
    Option<usize>,
    StoreError,
>)
    ensures
        match update_target_by_id(record_views(rows@), id@) {
            Ok(target) => result is Ok && crate::batch::opt_index(result->Ok_0) == target,
            Err(failure) => result is Err && result->Err_0@ == failure,
        },
{
    if id.is_empty() {
        Err(StoreError::invalid_argument("update_by_id requires a non-empty id".to_owned()))
    } else {
        Ok(crate::listing::find_by_id(rows, id))
    }
}

/// Which listed record an update by external id changes, or why none.
pub open spec fn update_target_by_external_id(rows: Seq<RecordView>, external_id: Seq<char>) -> Result<
    Option<int>,
    Failure,
> {
    if external_id.len() == 0 {
        Err(invalid_argument("update_by_external_id requires a non-empty external_id"@))
    } else if with_external_id(rows, external_id).len() > 1 {
        Err(external_id_ambiguous(external_id))
    } else {
        Ok(find_external(rows, external_id, 0))
    }
}

/// Finds the listed record that an update by external id changes: the only one
/// that carries it.
pub fn find_update_target_by_external_id(rows: &Vec<ContextRecord>, external_id: &str) -> (result: Result<
    Option<usize>,
    StoreError,
>)
    ensures
        match update_target_by_external_id(record_views(rows@), external_id@) {
            Ok(target) => result is Ok && crate::batch::opt_index(result->Ok_0) == target,
            Err(failure) => result is Err && result->Err_0@ == failure,
        },
{
    if external_id.is_empty() {
        return Err(
            StoreError::invalid_argument(
                "update_by_external_id requires a non-empty external_id".to_owned(),
            ),
        );
    }
    let (_, second) = crate::writes::first_two(rows, external_id);
    if second.is_some() {
        return Err(
            StoreError::invalid_argument(
                join3("external_id '", external_id, "' matches multiple visible records"),
            ),
        );
    }
    Ok(crate::listing::find_by_external_id(rows, external_id))
}

/// The record that marks another as forgotten: it keeps the keys, the grouping
/// fields and the role, and nothing else.
pub open spec fn tombstone_of(
    record: RecordView,
    now: i64,
    tombstone_type: Seq<char>,
    active: Seq<char>,
) -> RecordView {
    RecordView {
        id: record.id,
        external_id: record.external_id,
        run_id: record.run_id,
        bot_id: record.bot_id,
        session_id: record.session_id,
        tenant: record.tenant,
        source: record.source,
        created_at: now,
        role: record.role,
        state_metadata: None,
        metadata: None,
        relationships: Seq::empty(),
        expires_at: None,
        retention_policy: None,
        lifecycle_status: active,
        retired_at: None,
        retired_reason: None,
        supersedes_id: None,
        superseded_by_id: None,
        content_type: tombstone_type,
        text_payload: None,
        binary_payload: None,
        payload_uri: None,
        payload_size: None,
        payload_checksum: None,
        embedding: None,
    }
}

/// The tombstone of a record.
pub fn tombstone_for(record: ContextRecord, now: i64, tombstone_type: &str, active_status: &str) -> (result: ContextRecord)
    ensures
        result@ == tombstone_of(record@, now, tombstone_type@, active_status@),
        result@.is_tombstone(tombstone_type@),
        !result@.has_non_default_lifecycle(active_status@),
{
    let ghost model = tombstone_of(record@, now, tombstone_type@, active_status@);
    let result = ContextRecord {
        id: record.id,
        external_id: record.external_id,
        run_id: record.run_id,
        bot_id: record.bot_id,
        session_id: record.session_id,
        tenant: record.tenant,
        source: record.source,
        created_at: now,
        role: record.role,
        state_metadata: None,
        metadata: None,
        relationships: Vec::new(),
        expires_at: None,
        retention_policy: None,
        lifecycle_status: active_status.to_owned(),
        retired_at: None,
        retired_reason: None,
        supersedes_id: None,
        superseded_by_id: None,
        content_type: tombstone_type.to_owned(),
        text_payload: None,
        binary_payload: None,
        payload_uri: None,
        payload_size: None,
        payload_checksum: None,
        embedding: None,
    };
    assert(result@ =~= model);
    result
}

/// What forgetting a record by its id writes: the tombstone of the first listed
/// record with the id, or nothing where no listed record has it.
pub fn tombstone_by_id(
    rows: Vec<ContextRecord>,
    id: &str,
    now: i64,
    tombstone_type: &str,
    active_status: &str,
) -> (result: Option<ContextRecord>)
    ensures
        match find_id(record_views(rows@), id@, 0) {
            Some(at) => result is Some && result->Some_0@ == tombstone_of(
                record_views(rows@)[at],
                now,
                tombstone_type@,
                active_status@,
            ),
            None => result is None,
        },
{
    let mut rows = rows;
    match find_by_id(&rows, id) {
        Some(at) => Some(tombstone_for(rows.swap_remove(at), now, tombstone_type, active_status)),
        None => None,
    }
}

/// What forgetting a record by its external id writes: the tombstone of the
/// first listed record with it, or nothing where no listed record has it.
pub fn tombstone_by_external_id(
    rows: Vec<ContextRecord>,
    external_id: &str,
    now: i64,
    tombstone_type: &str,
    active_status: &str,
) -> (result: Option<ContextRecord>)
    ensures
        match find_external(record_views(rows@), external_id@, 0) {
            Some(at) => result is Some && result->Some_0@ == tombstone_of(
                record_views(rows@)[at],
                now,
                tombstone_type@,
                active_status@,
            ),
            None => result is None,
        },
{
    let mut rows = rows;
    match find_by_external_id(&rows, external_id) {
        Some(at) => Some(tombstone_for(rows.swap_remove(at), now, tombstone_type, active_status)),
        None => None,
    }
}

/// Where a record's payload lies outside the table; an error for a record
/// that names no such place.
pub fn payload_reference(record: &ContextRecord, id: &str) -> (result: Result<String, StoreError>)
    ensures
        match record@.payload_uri {
            Some(uri) => result is Ok && result->Ok_0@ == uri,
            None => result is Err && result->Err_0@ == invalid_argument(
                "record '"@ + id@ + "' has no external payload reference to fetch"@,
            ),
        },
{
    match &record.payload_uri {
        Some(uri) => Ok(uri.clone()),
        None => Err(
            StoreError::invalid_argument(
                join3("record '", id, "' has no external payload reference to fetch"),
            ),
        ),
    }
}

/// An update keeps the record's payloads, its keys for the caller and its
/// role, and hides the record it replaces.
pub proof fn law_update_keeps_payload_and_key(
    existing: RecordView,
    patch: PatchView,
    id: Seq<char>,
    run_id: Seq<char>,
    now: i64,
    rows: Seq<RecordView>,
)
    requires
        id != existing.id,
    ensures
        updated(existing, patch, id, run_id, now).external_id == existing.external_id,
        updated(existing, patch, id, run_id, now).text_payload == existing.text_payload,
        updated(existing, patch, id, run_id, now).binary_payload == existing.binary_payload,
        updated(existing, patch, id, run_id, now).content_type == existing.content_type,
        updated(existing, patch, id, run_id, now).role == existing.role,
        crate::listing::superseded(
            rows.push(updated(existing, patch, id, run_id, now)),
            existing.id,
        ),
{
    let record = updated(existing, patch, id, run_id, now);
    assert(rows.push(record)[rows.len() as int] == record);
}

/// What an update writes, field by field. Each field that a patch can change
/// holds the patch's value where there is one and the old value where there is
/// none; what names the record is new; what it replaces is the old record; and
/// every other field is the old record's.
pub proof fn law_update_changes_what_was_asked_for(
    existing: RecordView,
    patch: PatchView,
    id: Seq<char>,
    run_id: Seq<char>,
    now: i64,
)
    ensures
        ({
            let record = updated(existing, patch, id, run_id, now);
            &&& patch.bot_id is Some ==> record.bot_id == patch.bot_id
            &&& patch.bot_id is None ==> record.bot_id == existing.bot_id
            &&& patch.session_id is Some ==> record.session_id == patch.session_id
            &&& patch.session_id is None ==> record.session_id == existing.session_id
            &&& patch.tenant is Some ==> record.tenant == patch.tenant
            &&& patch.tenant is None ==> record.tenant == existing.tenant
            &&& patch.source is Some ==> record.source == patch.source
            &&& patch.source is None ==> record.source == existing.source
            &&& patch.state_metadata is Some ==> record.state_metadata == patch.state_metadata
            &&& patch.state_metadata is None ==> record.state_metadata == existing.state_metadata
            &&& patch.metadata is Some ==> record.metadata == patch.metadata
            &&& patch.metadata is None ==> record.metadata == existing.metadata
            &&& patch.relationships is Some ==> record.relationships == patch.relationships->Some_0
            &&& patch.relationships is None ==> record.relationships == existing.relationships
            &&& patch.expires_at is Some ==> record.expires_at == patch.expires_at
            &&& patch.expires_at is None ==> record.expires_at == existing.expires_at
            &&& patch.retention_policy is Some ==> record.retention_policy == patch.retention_policy
            &&& patch.retention_policy is None ==> record.retention_policy
                == existing.retention_policy
            &&& patch.lifecycle_status is Some ==> record.lifecycle_status
                == patch.lifecycle_status->Some_0
            &&& patch.lifecycle_status is None ==> record.lifecycle_status
                == existing.lifecycle_status
            &&& patch.retired_at is Some ==> record.retired_at == patch.retired_at
            &&& patch.retired_at is None ==> record.retired_at == existing.retired_at
            &&& patch.retired_reason is Some ==> record.retired_reason == patch.retired_reason
            &&& patch.retired_reason is None ==> record.retired_reason == existing.retired_reason
            &&& patch.embedding is Some ==> record.embedding == patch.embedding
            &&& patch.embedding is None ==> record.embedding == existing.embedding
            &&& patch.payload_uri is Some ==> record.payload_uri == patch.payload_uri
            &&& patch.payload_uri is None ==> record.payload_uri == existing.payload_uri
            &&& patch.payload_size is Some ==> record.payload_size == patch.payload_size
            &&& patch.payload_size is None ==> record.payload_size == existing.payload_size
            &&& patch.payload_checksum is Some ==> record.payload_checksum == patch.payload_checksum
            &&& patch.payload_checksum is None ==> record.payload_checksum
                == existing.payload_checksum
            &&& record.id == id
            &&& record.run_id == run_id
            &&& record.created_at == now
            &&& record.supersedes_id is Some && record.supersedes_id->Some_0 == existing.id
            &&& record.superseded_by_id is None
            &&& record.external_id == existing.external_id
            &&& record.role == existing.role
            &&& record.content_type == existing.content_type
            &&& record.text_payload == existing.text_payload
            &&& record.binary_payload == existing.binary_payload
        }),
{
}

/// A patch is refused as empty only where none of its fields has a value.
pub proof fn law_a_patch_with_a_value_is_taken(patch: PatchView)
    ensures
        patch.bot_id is Some ==> !patch.is_empty(),
        patch.session_id is Some ==> !patch.is_empty(),
        patch.tenant is Some ==> !patch.is_empty(),
        patch.source is Some ==> !patch.is_empty(),
        patch.state_metadata is Some ==> !patch.is_empty(),
        patch.metadata is Some ==> !patch.is_empty(),
        patch.relationships is Some ==> !patch.is_empty(),
        patch.expires_at is Some ==> !patch.is_empty(),
        patch.retention_policy is Some ==> !patch.is_empty(),
        patch.lifecycle_status is Some ==> !patch.is_empty(),
        patch.retired_at is Some ==> !patch.is_empty(),
        patch.retired_reason is Some ==> !patch.is_empty(),
        patch.embedding is Some ==> !patch.is_empty(),
        patch.payload_uri is Some ==> !patch.is_empty(),
        patch.payload_size is Some ==> !patch.is_empty(),
        patch.payload_checksum is Some ==> !patch.is_empty(),
        !patch.is_empty()
            ==> patch.bot_id is Some || patch.session_id is Some || patch.tenant is Some
            || patch.source is Some || patch.state_metadata is Some || patch.metadata is Some
            || patch.relationships is Some || patch.expires_at is Some || patch.retention_policy
            is Some || patch.lifecycle_status is Some || patch.retired_at is Some
            || patch.retired_reason is Some || patch.embedding is Some || patch.payload_uri is Some
            || patch.payload_size is Some || patch.payload_checksum is Some,
{
}

/// A tombstone keeps what names the record and where it belongs, and nothing of
/// what it held: no payload, embedding, metadata, relationship, lifecycle or
/// supersession is left.
pub proof fn law_a_tombstone_holds_no_content(
    record: RecordView,
    now: i64,
    tombstone_type: Seq<char>,
    active: Seq<char>,
)
    ensures
        ({
            let tombstone = tombstone_of(record, now, tombstone_type, active);
            &&& tombstone.id == record.id
            &&& tombstone.external_id == record.external_id
            &&& tombstone.run_id == record.run_id
            &&& tombstone.bot_id == record.bot_id
            &&& tombstone.session_id == record.session_id
            &&& tombstone.tenant == record.tenant
            &&& tombstone.source == record.source
            &&& tombstone.role == record.role
            &&& tombstone.created_at == now
            &&& tombstone.content_type == tombstone_type
            &&& tombstone.lifecycle_status == active
            &&& tombstone.text_payload is None
            &&& tombstone.binary_payload is None
            &&& tombstone.payload_uri is None
            &&& tombstone.payload_size is None
            &&& tombstone.payload_checksum is None
            &&& tombstone.embedding is None
            &&& tombstone.state_metadata is None
            &&& tombstone.metadata is None
            &&& tombstone.relationships.len() == 0
            &&& tombstone.expires_at is None
            &&& tombstone.retention_policy is None
            &&& tombstone.retired_at is None
            &&& tombstone.retired_reason is None
            &&& tombstone.supersedes_id is None
            &&& tombstone.superseded_by_id is None
        }),
{
}

/// An update by external id changes the only listed record that has it: it finds
/// nothing where none has it, and is refused where two have it.
pub proof fn law_an_update_changes_the_only_record(rows: Seq<RecordView>, external_id: Seq<char>)
    requires
        external_id.len() > 0,
    ensures
        match update_target_by_external_id(rows, external_id) {
            Ok(Some(at)) => {
                &&& 0 <= at < rows.len()
                &&& rows[at].external_id == Some(external_id)
                &&& forall|i: int|
                    0 <= i < rows.len() && i != at ==> (#[trigger] rows[i]).external_id != Some(
                        external_id,
                    )
            },
            Ok(None) => forall|i: int|
                0 <= i < rows.len() ==> (#[trigger] rows[i]).external_id != Some(external_id),
            Err(_) => exists|i: int, j: int|
                0 <= i < j < rows.len() && (#[trigger] rows[i]).external_id == Some(external_id)
                    && (
                #[trigger] rows[j]).external_id == Some(external_id),
        },
{
    crate::listing::law_lookup_by_external_id_finds_the_first(rows, external_id, 0);
    crate::writes::lemma_with_external_id(rows, external_id);
}

/// An update by id changes the first listed record with the id, and is refused
/// only for an empty id.
pub proof fn law_an_update_by_id_changes_that_record(rows: Seq<RecordView>, id: Seq<char>)
    ensures
        update_target_by_id(rows, id) is Err <==> id.len() == 0,
        id.len() > 0 ==> match update_target_by_id(rows, id)->Ok_0 {
            Some(at) => 0 <= at < rows.len() && rows[at].id == id,
            None => forall|i: int| 0 <= i < rows.len() ==> (#[trigger] rows[i]).id != id,
        },
{
    crate::listing::law_lookup_by_id_finds_the_first(rows, id, 0);
}

/// The model of a patch holds each of its parts.
pub proof fn law_a_patches_model_is_whole(patch: RecordPatch)
    ensures
        patch@.bot_id is Some <==> patch.bot_id is Some,
        patch.bot_id is Some ==> patch@.bot_id->Some_0 == patch.bot_id->Some_0@,
        patch@.session_id is Some <==> patch.session_id is Some,
        patch.session_id is Some ==> patch@.session_id->Some_0 == patch.session_id->Some_0@,
        patch@.tenant is Some <==> patch.tenant is Some,
        patch.tenant is Some ==> patch@.tenant->Some_0 == patch.tenant->Some_0@,
        patch@.source is Some <==> patch.source is Some,
        patch.source is Some ==> patch@.source->Some_0 == patch.source->Some_0@,
        patch@.state_metadata is Some <==> patch.state_metadata is Some,
        patch.state_metadata is Some
            ==> patch@.state_metadata->Some_0 == patch.state_metadata->Some_0@,
        patch@.metadata is Some <==> patch.metadata is Some,
        patch.metadata is Some ==> patch@.metadata->Some_0 == patch.metadata->Some_0@,
        patch@.relationships is Some <==> patch.relationships is Some,
        patch.relationships is Some
            ==> patch@.relationships->Some_0 == relationship_views(patch.relationships->Some_0@),
        patch@.expires_at == patch.expires_at,
        patch@.retention_policy is Some <==> patch.retention_policy is Some,
        patch.retention_policy is Some
            ==> patch@.retention_policy->Some_0 == patch.retention_policy->Some_0@,
        patch@.lifecycle_status is Some <==> patch.lifecycle_status is Some,
        patch.lifecycle_status is Some
            ==> patch@.lifecycle_status->Some_0 == patch.lifecycle_status->Some_0@,
        patch@.retired_at == patch.retired_at,
        patch@.retired_reason is Some <==> patch.retired_reason is Some,
        patch.retired_reason is Some
            ==> patch@.retired_reason->Some_0 == patch.retired_reason->Some_0@,
        patch@.embedding is Some <==> patch.embedding is Some,
        patch.embedding is Some ==> patch@.embedding->Some_0 == patch.embedding->Some_0@,
        patch@.payload_uri is Some <==> patch.payload_uri is Some,
        patch.payload_uri is Some ==> patch@.payload_uri->Some_0 == patch.payload_uri->Some_0@,
        patch@.payload_size == patch.payload_size,
        patch@.payload_checksum is Some <==> patch.payload_checksum is Some,
        patch.payload_checksum is Some
            ==> patch@.payload_checksum->Some_0 == patch.payload_checksum->Some_0@,
{
}

/// Why no record is found to update: for an id or an external id without a
/// character, and for an external id that more than one record has.
pub proof fn law_why_an_update_finds_no_record(rows: Seq<RecordView>, key: Seq<char>)
    ensures
        key.len() == 0 ==> update_target_by_id(rows, key) == Err::<Option<int>, Failure>(
            invalid_argument("update_by_id requires a non-empty id"@),
        ),
        key.len() == 0 ==> update_target_by_external_id(rows, key) == Err::<Option<int>, Failure>(
            invalid_argument("update_by_external_id requires a non-empty external_id"@),
        ),
        key.len() > 0 ==> update_target_by_id(rows, key) is Ok,
        key.len() > 0 && update_target_by_external_id(rows, key) is Err
            ==> update_target_by_external_id(rows, key) == Err::<Option<int>, Failure>(
            invalid_argument("external_id '"@ + key + "' matches multiple visible records"@),
        ),
{
}

} // verus!
