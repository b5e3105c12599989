//! The values a context table holds.

use vstd::prelude::*;

use crate::text::{clone_opt, opt_text};

verus! {

/// Optional scalar state of an agent at the time a record was written.
#[derive(Debug, Clone, PartialEq)]
pub struct StateMetadata {
    pub step: Option<i32>,
    pub active_plan_id: Option<String>,
    pub tokens_used: Option<i32>,
    pub custom: Option<String>,
}

/// The model of a [`StateMetadata`].
#[verifier::ext_equal]
pub struct StateView {
    pub step: Option<i32>,
    pub active_plan_id: Option<Seq<char>>,
    pub tokens_used: Option<i32>,
    pub custom: Option<Seq<char>>,
}

impl View for StateMetadata {
    type V = StateView;

    open spec fn view(&self) -> StateView {
        StateView {
            step: self.step,
            active_plan_id: opt_text(self.active_plan_id),
            tokens_used: self.tokens_used,
            custom: opt_text(self.custom),
        }
    }
}

impl StateMetadata {
    /// A copy of the value.
    pub fn copy(&self) -> (result: StateMetadata)
        ensures
            result == *self,
    {
        StateMetadata {
            step: self.step,
            active_plan_id: clone_opt(&self.active_plan_id),
            tokens_used: self.tokens_used,
            custom: clone_opt(&self.custom),
        }
    }
}

/// A typed link to another record. The weight is the bit pattern of a 32-bit
/// float.
#[derive(Debug, Clone, PartialEq)]
pub struct Relationship {
    pub target_id: String,
    pub relation: String,
    pub weight: Option<u32>,
}

/// The model of a [`Relationship`].
#[verifier::ext_equal]
pub struct RelationshipView {
    pub target_id: Seq<char>,
    pub relation: Seq<char>,
    pub weight: Option<u32>,
}

impl View for Relationship {
    type V = RelationshipView;

    open spec fn view(&self) -> RelationshipView {
        RelationshipView {
            target_id: self.target_id@,
            relation: self.relation@,
            weight: self.weight,
        }
    }
}

/// The views of a sequence of relationships.
pub open spec fn relationship_views(links: Seq<Relationship>) -> Seq<RelationshipView> {
    Seq::new(links.len(), |i: int| links[i]@)
}

/// A copy of relationships.
pub fn copy_relationships(links: &Vec<Relationship>) -> (result: Vec<Relationship>)
    ensures
        result@ == links@,
{
    let mut result: Vec<Relationship> = Vec::new();
    let mut index: usize = 0;
    while index < links.len()
        invariant
            index <= links.len(),
            result@ == links@.take(index as int),
        decreases links.len() - index,
    {
        result.push(
            Relationship {
                target_id: links[index].target_id.clone(),
                relation: links[index].relation.clone(),
                weight: links[index].weight,
            },
        );
        index = index + 1;
        assert(result@ =~= links@.take(index as int));
    }
    assert(links@.take(links@.len() as int) =~= links@);
    result
}

/// The contents of an optional list.
pub open spec fn opt_seq<T>(value: Option<Vec<T>>) -> Option<Seq<T>> {
    match value {
        Some(items) => Some(items@),
        None => None,
    }
}

/// A copy of a list of numbers.
pub fn copy_list<T: Copy>(items: &Vec<T>) -> (result: Vec<T>)
    ensures
        result@ == items@,
{
    let mut result: Vec<T> = Vec::new();
    let mut index: usize = 0;
    while index < items.len()
        invariant
            index <= items.len(),
            result@ == items@.take(index as int),
        decreases items.len() - index,
    {
        result.push(items[index]);
        index = index + 1;
        assert(result@ =~= items@.take(index as int));
    }
    assert(items@.take(items@.len() as int) =~= items@);
    result
}

/// A copy of an optional list of numbers.
pub fn copy_opt_list<T: Copy>(items: &Option<Vec<T>>) -> (result: Option<Vec<T>>)
    ensures
        opt_seq(result) == opt_seq(*items),
{
    match items {
        Some(values) => Some(copy_list(values)),
        None => None,
    }
}

/// One stored context record.
///
/// Times are microseconds since the Unix epoch, floats are bit patterns, and
/// `metadata` is the compact JSON text of the caller's document.
#[derive(Debug, Clone, PartialEq)]
pub struct ContextRecord {
    pub id: String,
    pub external_id: Option<String>,
    pub run_id: String,
    pub bot_id: Option<String>,
    pub session_id: Option<String>,
    pub tenant: Option<String>,
    pub source: Option<String>,
    pub created_at: i64,
    pub role: String,
    pub state_metadata: Option<StateMetadata>,
    pub metadata: Option<String>,
    pub relationships: Vec<Relationship>,
    pub expires_at: Option<i64>,
    pub retention_policy: Option<String>,
    pub lifecycle_status: String,
    pub retired_at: Option<i64>,
    pub retired_reason: Option<String>,
    pub supersedes_id: Option<String>,
    pub superseded_by_id: Option<String>,
    pub content_type: String,
    pub text_payload: Option<String>,
    pub binary_payload: Option<Vec<u8>>,
    pub payload_uri: Option<String>,
    pub payload_size: Option<i64>,
    pub payload_checksum: Option<String>,
    pub embedding: Option<Vec<u32>>,
}

/// The model of a [`ContextRecord`].
#[verifier::ext_equal]
pub struct RecordView {
    pub id: Seq<char>,
    pub external_id: Option<Seq<char>>,
    pub run_id: Seq<char>,
    pub bot_id: Option<Seq<char>>,
    pub session_id: Option<Seq<char>>,
    pub tenant: Option<Seq<char>>,
    pub source: Option<Seq<char>>,
    pub created_at: i64,
    pub role: Seq<char>,
    pub state_metadata: Option<StateView>,
    pub metadata: Option<Seq<char>>,
    pub relationships: Seq<RelationshipView>,
    pub expires_at: Option<i64>,
    pub retention_policy: Option<Seq<char>>,
    pub lifecycle_status: Seq<char>,
    pub retired_at: Option<i64>,
    pub retired_reason: Option<Seq<char>>,
    pub supersedes_id: Option<Seq<char>>,
    pub superseded_by_id: Option<Seq<char>>,
    pub content_type: Seq<char>,
    pub text_payload: Option<Seq<char>>,
    pub binary_payload: Option<Seq<u8>>,
    pub payload_uri: Option<Seq<char>>,
    pub payload_size: Option<i64>,
    pub payload_checksum: Option<Seq<char>>,
    pub embedding: Option<Seq<u32>>,
}

/// The model of an optional state.
pub open spec fn opt_state(value: Option<StateMetadata>) -> Option<StateView> {
    match value {
        Some(state) => Some(state@),
        None => None,
    }
}

impl View for ContextRecord {
    type V = RecordView;

    open spec fn view(&self) -> RecordView {
        RecordView {
            id: self.id@,
            external_id: opt_text(self.external_id),
            run_id: self.run_id@,
            bot_id: opt_text(self.bot_id),
            session_id: opt_text(self.session_id),
            tenant: opt_text(self.tenant),
            source: opt_text(self.source),
            created_at: self.created_at,
            role: self.role@,
            state_metadata: opt_state(self.state_metadata),
            metadata: opt_text(self.metadata),
            relationships: relationship_views(self.relationships@),
            expires_at: self.expires_at,
            retention_policy: opt_text(self.retention_policy),
            lifecycle_status: self.lifecycle_status@,
            retired_at: self.retired_at,
            retired_reason: opt_text(self.retired_reason),
            supersedes_id: opt_text(self.supersedes_id),
            superseded_by_id: opt_text(self.superseded_by_id),
            content_type: self.content_type@,
            text_payload: opt_text(self.text_payload),
            binary_payload: opt_seq(self.binary_payload),
            payload_uri: opt_text(self.payload_uri),
            payload_size: self.payload_size,
            payload_checksum: opt_text(self.payload_checksum),
            embedding: opt_seq(self.embedding),
        }
    }
}

/// The views of a sequence of records.
pub open spec fn record_views(records: Seq<ContextRecord>) -> Seq<RecordView> {
    Seq::new(records.len(), |i: int| records[i]@)
}

impl RecordView {
    /// Whether the record only marks that an earlier one was forgotten.
    pub open spec fn is_tombstone(self, tombstone_type: Seq<char>) -> bool {
        self.content_type == tombstone_type
    }

    /// Whether any lifecycle column holds more than its default.
    pub open spec fn has_non_default_lifecycle(self, active_status: Seq<char>) -> bool {
        ||| self.expires_at is Some
        ||| self.retention_policy is Some
        ||| self.lifecycle_status != active_status
        ||| self.retired_at is Some
        ||| self.retired_reason is Some
        ||| self.supersedes_id is Some
        ||| self.superseded_by_id is Some
    }
}

impl ContextRecord {
    /// Whether the record only marks that an earlier one was forgotten.
    pub fn is_tombstone(&self, tombstone_type: &str) -> (result: bool)
        ensures
            result == self@.is_tombstone(tombstone_type@),
    {
        crate::text::same_text(self.content_type.as_str(), tombstone_type)
    }

    /// Whether any lifecycle column holds more than its default.
    pub fn has_non_default_lifecycle(&self, active_status: &str) -> (result: bool)
        ensures
            result == self@.has_non_default_lifecycle(active_status@),
    {
        self.expires_at.is_some() || self.retention_policy.is_some() || !crate::text::same_text(
            self.lifecycle_status.as_str(),
            active_status,
        ) || self.retired_at.is_some() || self.retired_reason.is_some()
            || self.supersedes_id.is_some() || self.superseded_by_id.is_some()
    }

    /// A copy of the record.
    pub fn copy(&self) -> (result: ContextRecord)
        ensures
            result@ == self@,
    {
        let result = ContextRecord {
            id: self.id.clone(),
            external_id: clone_opt(&self.external_id),
            run_id: self.run_id.clone(),
            bot_id: clone_opt(&self.bot_id),
            session_id: clone_opt(&self.session_id),
            tenant: clone_opt(&self.tenant),
            source: clone_opt(&self.source),
            created_at: self.created_at,
            role: self.role.clone(),
            state_metadata: match &self.state_metadata {
                Some(state) => Some(state.copy()),
                None => None,
            },
            metadata: clone_opt(&self.metadata),
            relationships: copy_relationships(&self.relationships),
            expires_at: self.expires_at,
            retention_policy: clone_opt(&self.retention_policy),
            lifecycle_status: self.lifecycle_status.clone(),
            retired_at: self.retired_at,
            retired_reason: clone_opt(&self.retired_reason),
            supersedes_id: clone_opt(&self.supersedes_id),
            superseded_by_id: clone_opt(&self.superseded_by_id),
            content_type: self.content_type.clone(),
            text_payload: clone_opt(&self.text_payload),
            binary_payload: copy_opt_list(&self.binary_payload),
            payload_uri: clone_opt(&self.payload_uri),
            payload_size: self.payload_size,
            payload_checksum: clone_opt(&self.payload_checksum),
            embedding: copy_opt_list(&self.embedding),
        };
        assert(result@ =~= self@);
        result
    }
}

/// The model of a record holds each of its fields.
pub proof fn law_a_records_model_holds_each_field(record: ContextRecord)
    ensures
        record@.id == record.id@,
        record@.external_id is Some <==> record.external_id is Some,
        record.external_id is Some ==> record@.external_id->Some_0 == record.external_id->Some_0@,
        record@.run_id == record.run_id@,
        record@.bot_id is Some <==> record.bot_id is Some,
        record.bot_id is Some ==> record@.bot_id->Some_0 == record.bot_id->Some_0@,
        record@.session_id is Some <==> record.session_id is Some,
        record.session_id is Some ==> record@.session_id->Some_0 == record.session_id->Some_0@,
        record@.tenant is Some <==> record.tenant is Some,
        record.tenant is Some ==> record@.tenant->Some_0 == record.tenant->Some_0@,
        record@.source is Some <==> record.source is Some,
        record.source is Some ==> record@.source->Some_0 == record.source->Some_0@,
        record@.created_at == record.created_at,
        record@.role == record.role@,
        record@.state_metadata is Some <==> record.state_metadata is Some,
        record.state_metadata is Some ==> record@.state_metadata->Some_0
            == record.state_metadata->Some_0@,
        record@.metadata is Some <==> record.metadata is Some,
        record.metadata is Some ==> record@.metadata->Some_0 == record.metadata->Some_0@,
        record@.relationships.len() == record.relationships@.len(),
        forall|i: int|
            0 <= i < record.relationships@.len() ==> {
                let link = #[trigger] record.relationships@[i];
                &&& record@.relationships[i].target_id == link.target_id@
                &&& record@.relationships[i].relation == link.relation@
                &&& record@.relationships[i].weight == link.weight
            },
        record@.expires_at == record.expires_at,
        record@.retention_policy is Some <==> record.retention_policy is Some,
        record.retention_policy is Some ==> record@.retention_policy->Some_0
            == record.retention_policy->Some_0@,
        record@.lifecycle_status == record.lifecycle_status@,
        record@.retired_at == record.retired_at,
        record@.retired_reason is Some <==> record.retired_reason is Some,
        record.retired_reason is Some ==> record@.retired_reason->Some_0
            == record.retired_reason->Some_0@,
        record@.supersedes_id is Some <==> record.supersedes_id is Some,
        record.supersedes_id is Some ==> record@.supersedes_id->Some_0
            == record.supersedes_id->Some_0@,
        record@.superseded_by_id is Some <==> record.superseded_by_id is Some,
        record.superseded_by_id is Some ==> record@.superseded_by_id->Some_0
            == record.superseded_by_id->Some_0@,
        record@.content_type == record.content_type@,
        record@.text_payload is Some <==> record.text_payload is Some,
        record.text_payload is Some ==> record@.text_payload->Some_0
            == record.text_payload->Some_0@,
        record@.binary_payload is Some <==> record.binary_payload is Some,
        record.binary_payload is Some ==> record@.binary_payload->Some_0
            == record.binary_payload->Some_0@,
        record@.payload_uri is Some <==> record.payload_uri is Some,
        record.payload_uri is Some ==> record@.payload_uri->Some_0 == record.payload_uri->Some_0@,
        record@.payload_size == record.payload_size,
        record@.payload_checksum is Some <==> record.payload_checksum is Some,
        record.payload_checksum is Some ==> record@.payload_checksum->Some_0
            == record.payload_checksum->Some_0@,
        record@.embedding is Some <==> record.embedding is Some,
        record.embedding is Some ==> record@.embedding->Some_0 == record.embedding->Some_0@,
{
}

/// The model of an agent's state holds each of its parts.
pub proof fn law_a_states_model_holds_each_part(state: StateMetadata)
    ensures
        state@.step == state.step,
        state@.tokens_used == state.tokens_used,
        state@.active_plan_id is Some <==> state.active_plan_id is Some,
        state.active_plan_id is Some ==> state@.active_plan_id->Some_0
            == state.active_plan_id->Some_0@,
        state@.custom is Some <==> state.custom is Some,
        state.custom is Some ==> state@.custom->Some_0 == state.custom->Some_0@,
{
}

/// A record is a tombstone by its content type and nothing else, and its
/// lifecycle is the default one exactly where nothing of it is set and its status
/// is the active one.
pub proof fn law_tombstones_and_lifecycles(
    record: RecordView,
    tombstone_type: Seq<char>,
    active: Seq<char>,
)
    ensures
        record.is_tombstone(tombstone_type) <==> record.content_type == tombstone_type,
        record.expires_at is Some ==> record.has_non_default_lifecycle(active),
        record.retention_policy is Some ==> record.has_non_default_lifecycle(active),
        record.retired_at is Some ==> record.has_non_default_lifecycle(active),
        record.retired_reason is Some ==> record.has_non_default_lifecycle(active),
        record.supersedes_id is Some ==> record.has_non_default_lifecycle(active),
        record.superseded_by_id is Some ==> record.has_non_default_lifecycle(active),
        record.lifecycle_status != active ==> record.has_non_default_lifecycle(active),
        record.expires_at is None && record.retention_policy is None && record.retired_at is None
            && record.retired_reason is None && record.supersedes_id is None
            && record.superseded_by_id is None && record.lifecycle_status == active
            ==> !record.has_non_default_lifecycle(active),
{
}

/// The model of a relationship holds each of its parts.
pub proof fn law_a_relationships_model_is_whole(link: Relationship)
    ensures
        link@.target_id == link.target_id@,
        link@.relation == link.relation@,
        link@.weight == link.weight,
{
}

/// The models stand in the order of what they are of, one for each.
pub proof fn law_relationship_views_stand_in_order(links: Seq<Relationship>, at: int)
    requires
        0 <= at < links.len(),
    ensures
        relationship_views(links).len() == links.len(),
        relationship_views(links)[at] == links[at]@,
{
}

/// The models stand in the order of what they are of, one for each.
pub proof fn law_record_views_stand_in_order(records: Seq<ContextRecord>, at: int)
    requires
        0 <= at < records.len(),
    ensures
        record_views(records).len() == records.len(),
        record_views(records)[at] == records[at]@,
{
}

/// The model of what may be absent is absent with it, and holds what it holds.
pub proof fn law_what_is_absent_has_no_model<T>(list: Option<Vec<T>>, state: Option<StateMetadata>)
    ensures
        opt_seq(list) is Some <==> list is Some,
        list is Some ==> opt_seq(list)->Some_0 == list->Some_0@,
        opt_state(state) is Some <==> state is Some,
        state is Some ==> opt_state(state)->Some_0 == state->Some_0@,
{
}

} // verus!
