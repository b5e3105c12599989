//! The values a rollout table holds.

use vstd::prelude::*;

use crate::record::{
    copy_opt_list, copy_relationships, opt_seq, relationship_views, Relationship, RelationshipView,
};
use crate::text::{clone_opt, opt_text};

verus! {

/// One message or artifact of a reinforcement learning rollout.
///
/// The creation time is in microseconds since the Unix epoch, floats are bit
/// patterns, and `metadata` is the compact JSON text of the caller's document.
#[derive(Debug, Clone, PartialEq)]
pub struct RolloutRecord {
    pub id: String,
    pub rollout_id: String,
    pub problem_id: String,
    pub dataset: Option<String>,
    pub sequence_order: i32,
    pub role: String,
    pub created_at: i64,
    pub content: Option<String>,
    pub content_type: String,
    pub model_input_string: Option<String>,
    pub model_output_string: Option<String>,
    pub rationale: Option<String>,
    pub problem_text: Option<String>,
    pub user_metadata: Option<String>,
    pub input_tokens: Option<Vec<i32>>,
    pub output_tokens: Option<Vec<i32>>,
    pub num_input_tokens: Option<i32>,
    pub num_output_tokens: Option<i32>,
    pub output_logprobs: Option<Vec<u32>>,
    pub input_logprobs: Option<Vec<u32>>,
    pub ref_logprobs: Option<Vec<u32>>,
    pub loss_mask: Option<Vec<i8>>,
    pub advantage: Option<u32>,
    pub reward: Option<u32>,
    pub raw_reward: Option<u32>,
    pub grader_id: Option<String>,
    pub score: Option<u32>,
    pub include_in_training: Option<bool>,
    pub exclude_reason: Option<String>,
    pub policy_version: Option<String>,
    pub relationships: Vec<Relationship>,
    pub binary_payload: Option<Vec<u8>>,
    pub payload_size: Option<i64>,
    pub payload_checksum: Option<String>,
    pub artifact_type: Option<String>,
    pub metadata: Option<String>,
}

/// The model of a [`RolloutRecord`].
#[verifier::ext_equal]
pub struct RolloutView {
    pub id: Seq<char>,
    pub rollout_id: Seq<char>,
    pub problem_id: Seq<char>,
    pub dataset: Option<Seq<char>>,
    pub sequence_order: i32,
    pub role: Seq<char>,
    pub created_at: i64,
    pub content: Option<Seq<char>>,
    pub content_type: Seq<char>,
    pub model_input_string: Option<Seq<char>>,
    pub model_output_string: Option<Seq<char>>,
    pub rationale: Option<Seq<char>>,
    pub problem_text: Option<Seq<char>>,
    pub user_metadata: Option<Seq<char>>,
    pub input_tokens: Option<Seq<i32>>,
    pub output_tokens: Option<Seq<i32>>,
    pub num_input_tokens: Option<i32>,
    pub num_output_tokens: Option<i32>,
    pub output_logprobs: Option<Seq<u32>>,
    pub input_logprobs: Option<Seq<u32>>,
    pub ref_logprobs: Option<Seq<u32>>,
    pub loss_mask: Option<Seq<i8>>,
    pub advantage: Option<u32>,
    pub reward: Option<u32>,
    pub raw_reward: Option<u32>,
    pub grader_id: Option<Seq<char>>,
    pub score: Option<u32>,
    pub include_in_training: Option<bool>,
    pub exclude_reason: Option<Seq<char>>,
    pub policy_version: Option<Seq<char>>,
    pub relationships: Seq<RelationshipView>,
    pub binary_payload: Option<Seq<u8>>,
    pub payload_size: Option<i64>,
    pub payload_checksum: Option<Seq<char>>,
    pub artifact_type: Option<Seq<char>>,
    pub metadata: Option<Seq<char>>,
}

impl View for RolloutRecord {
    type V = RolloutView;

    open spec fn view(&self) -> RolloutView {
        RolloutView {
            id: self.id@,
            rollout_id: self.rollout_id@,
            problem_id: self.problem_id@,
            dataset: opt_text(self.dataset),
            sequence_order: self.sequence_order,
            role: self.role@,
            created_at: self.created_at,
            content: opt_text(self.content),
            content_type: self.content_type@,
            model_input_string: opt_text(self.model_input_string),
            model_output_string: opt_text(self.model_output_string),
            rationale: opt_text(self.rationale),
            problem_text: opt_text(self.problem_text),
            user_metadata: opt_text(self.user_metadata),
            input_tokens: opt_seq(self.input_tokens),
            output_tokens: opt_seq(self.output_tokens),
            num_input_tokens: self.num_input_tokens,
            num_output_tokens: self.num_output_tokens,
            output_logprobs: opt_seq(self.output_logprobs),
            input_logprobs: opt_seq(self.input_logprobs),
            ref_logprobs: opt_seq(self.ref_logprobs),
            loss_mask: opt_seq(self.loss_mask),
            advantage: self.advantage,
            reward: self.reward,
            raw_reward: self.raw_reward,
            grader_id: opt_text(self.grader_id),
            score: self.score,
            include_in_training: self.include_in_training,
            exclude_reason: opt_text(self.exclude_reason),
            policy_version: opt_text(self.policy_version),
            relationships: relationship_views(self.relationships@),
            binary_payload: opt_seq(self.binary_payload),
            payload_size: self.payload_size,
            payload_checksum: opt_text(self.payload_checksum),
            artifact_type: opt_text(self.artifact_type),
            metadata: opt_text(self.metadata),
        }
    }
}

/// The models of rollout records.
pub open spec fn rollout_views(records: Seq<RolloutRecord>) -> Seq<RolloutView> {
    Seq::new(records.len(), |i: int| records[i]@)
}

impl RolloutRecord {
    /// A copy of the record.
    pub fn copy(&self) -> (record: RolloutRecord)
        ensures
            record@ == self@,
    {
        RolloutRecord {
            id: self.id.clone(),
            rollout_id: self.rollout_id.clone(),
            problem_id: self.problem_id.clone(),
            dataset: clone_opt(&self.dataset),
            sequence_order: self.sequence_order,
            role: self.role.clone(),
            created_at: self.created_at,
            content: clone_opt(&self.content),
            content_type: self.content_type.clone(),
            model_input_string: clone_opt(&self.model_input_string),
            model_output_string: clone_opt(&self.model_output_string),
            rationale: clone_opt(&self.rationale),
            problem_text: clone_opt(&self.problem_text),
            user_metadata: clone_opt(&self.user_metadata),
            input_tokens: copy_opt_list(&self.input_tokens),
            output_tokens: copy_opt_list(&self.output_tokens),
            num_input_tokens: self.num_input_tokens,
            num_output_tokens: self.num_output_tokens,
            output_logprobs: copy_opt_list(&self.output_logprobs),
            input_logprobs: copy_opt_list(&self.input_logprobs),
            ref_logprobs: copy_opt_list(&self.ref_logprobs),
            loss_mask: copy_opt_list(&self.loss_mask),
            advantage: self.advantage,
            reward: self.reward,
            raw_reward: self.raw_reward,
            grader_id: clone_opt(&self.grader_id),
            score: self.score,
            include_in_training: self.include_in_training,
            exclude_reason: clone_opt(&self.exclude_reason),
            policy_version: clone_opt(&self.policy_version),
            relationships: copy_relationships(&self.relationships),
            binary_payload: copy_opt_list(&self.binary_payload),
            payload_size: self.payload_size,
            payload_checksum: clone_opt(&self.payload_checksum),
            artifact_type: clone_opt(&self.artifact_type),
            metadata: clone_opt(&self.metadata),
        }
    }
}

/// The model of a rollout holds each of its parts.
pub proof fn law_a_rollouts_model_is_whole(record: RolloutRecord)
    ensures
        record@.id == record.id@,
        record@.rollout_id == record.rollout_id@,
        record@.problem_id == record.problem_id@,
        record@.dataset is Some <==> record.dataset is Some,
        record.dataset is Some ==> record@.dataset->Some_0 == record.dataset->Some_0@,
        record@.sequence_order == record.sequence_order,
        record@.role == record.role@,
        record@.created_at == record.created_at,
        record@.content is Some <==> record.content is Some,
        record.content is Some ==> record@.content->Some_0 == record.content->Some_0@,
        record@.content_type == record.content_type@,
        record@.model_input_string is Some <==> record.model_input_string is Some,
        record.model_input_string is Some
            ==> record@.model_input_string->Some_0 == record.model_input_string->Some_0@,
        record@.model_output_string is Some <==> record.model_output_string is Some,
        record.model_output_string is Some
            ==> record@.model_output_string->Some_0 == record.model_output_string->Some_0@,
        record@.rationale is Some <==> record.rationale is Some,
        record.rationale is Some ==> record@.rationale->Some_0 == record.rationale->Some_0@,
        record@.problem_text is Some <==> record.problem_text is Some,
        record.problem_text is Some
            ==> record@.problem_text->Some_0 == record.problem_text->Some_0@,
        record@.user_metadata is Some <==> record.user_metadata is Some,
        record.user_metadata is Some
            ==> record@.user_metadata->Some_0 == record.user_metadata->Some_0@,
        record@.input_tokens is Some <==> record.input_tokens is Some,
        record.input_tokens is Some
            ==> record@.input_tokens->Some_0 == record.input_tokens->Some_0@,
        record@.output_tokens is Some <==> record.output_tokens is Some,
        record.output_tokens is Some
            ==> record@.output_tokens->Some_0 == record.output_tokens->Some_0@,
        record@.num_input_tokens == record.num_input_tokens,
        record@.num_output_tokens == record.num_output_tokens,
        record@.output_logprobs is Some <==> record.output_logprobs is Some,
        record.output_logprobs is Some
            ==> record@.output_logprobs->Some_0 == record.output_logprobs->Some_0@,
        record@.input_logprobs is Some <==> record.input_logprobs is Some,
        record.input_logprobs is Some
            ==> record@.input_logprobs->Some_0 == record.input_logprobs->Some_0@,
        record@.ref_logprobs is Some <==> record.ref_logprobs is Some,
        record.ref_logprobs is Some
            ==> record@.ref_logprobs->Some_0 == record.ref_logprobs->Some_0@,
        record@.loss_mask is Some <==> record.loss_mask is Some,
        record.loss_mask is Some ==> record@.loss_mask->Some_0 == record.loss_mask->Some_0@,
        record@.advantage == record.advantage,
        record@.reward == record.reward,
        record@.raw_reward == record.raw_reward,
        record@.grader_id is Some <==> record.grader_id is Some,
        record.grader_id is Some ==> record@.grader_id->Some_0 == record.grader_id->Some_0@,
        record@.score == record.score,
        record@.include_in_training == record.include_in_training,
        record@.exclude_reason is Some <==> record.exclude_reason is Some,
        record.exclude_reason is Some
            ==> record@.exclude_reason->Some_0 == record.exclude_reason->Some_0@,
        record@.policy_version is Some <==> record.policy_version is Some,
        record.policy_version is Some
            ==> record@.policy_version->Some_0 == record.policy_version->Some_0@,
        record@.relationships == relationship_views(record.relationships@),
        record@.binary_payload is Some <==> record.binary_payload is Some,
        record.binary_payload is Some
            ==> record@.binary_payload->Some_0 == record.binary_payload->Some_0@,
        record@.payload_size == record.payload_size,
        record@.payload_checksum is Some <==> record.payload_checksum is Some,
        record.payload_checksum is Some
            ==> record@.payload_checksum->Some_0 == record.payload_checksum->Some_0@,
        record@.artifact_type is Some <==> record.artifact_type is Some,
        record.artifact_type is Some
            ==> record@.artifact_type->Some_0 == record.artifact_type->Some_0@,
        record@.metadata is Some <==> record.metadata is Some,
        record.metadata is Some ==> record@.metadata->Some_0 == record.metadata->Some_0@,
{
}

/// The models stand in the order of what they are of, one for each.
pub proof fn law_rollout_views_stand_in_order(records: Seq<RolloutRecord>, at: int)
    requires
        0 <= at < records.len(),
    ensures
        rollout_views(records).len() == records.len(),
        rollout_views(records)[at] == records[at]@,
{
}

} // verus!
