//! Rollout rows written through shards and read back from a table that is held
//! in memory.
//!
//! `World` stands where the storage engine would: it keeps the base table and
//! the manifests of the shards, fences writers of older epochs and evaluates
//! filter expressions. Every decision, conversion and check is the library's.

use std::cell::RefCell;
use std::rc::Rc;
use std::sync::Arc;

use arrow_array::types::Int8Type;
use arrow_array::{
    Array, ArrayRef, DictionaryArray, Int64Array, Int8Array, NullArray, RecordBatch, StringArray,
    StructArray,
};
use arrow_schema::{DataType as ArrowType, Field as ArrowField, Schema as ArrowSchema};
use datafusion::datasource::MemTable;
use datafusion::prelude::SessionContext;
use lance_context_core::batch::{align_batch_to_schema, Batch};
use lance_context_core::compaction::{
    limit_tasks, CompactionConfig, CompactionOutcome, CompactionStats,
};
use lance_context_core::error::{ErrorKind, StoreError};
use lance_context_core::listing::paged;
use lance_context_core::merge::PreparedMerge;
use lance_context_core::outside::AnswerBatch;
use lance_context_core::point_read::payload_with_key;
use lance_context_core::projection::ListSource;
use lance_context_core::record::Relationship;
use lance_context_core::rollout_codec::rollouts_to_batch;
use lance_context_core::rollout_columns::rollout_schema;
use lance_context_core::rollout_decode::batch_to_rollout_records;
use lance_context_core::rollout_filter::RolloutFilters;
use lance_context_core::rollout_page::{
    assemble_page, available_columns, base_scan_window, cut_page, list_window, lookup_columns,
    observation, order_trajectory, page_of, page_scan_limit, record_with_id, select_trajectory,
    skip_rows, RolloutObservation, RolloutPage,
};
use lance_context_core::rollout_record::RolloutRecord;
use lance_context_core::rollout_sql::{
    columns_can_be_written, count_scanned, ensure_select_only, json_lists_to_result, place_names,
    queryable_schema, sql_batches_to_result, SqlQueryResult, SQL_MAX_RESULT_ROWS, SQL_TABLE_NAME,
};
use lance_context_core::rollout_store::{RolloutStore, RolloutStoreOptions};
use lance_context_core::schema::Schema;
use lance_context_core::shard::{
    derive_shard_id, drain_manifest, flushed_generation_uri, merge_is_due, pending_uris,
    uuid_text, Generation, ShardManifest, ShardSnapshot,
};
use lance_context_core::storage::{
    after_drain, after_seal, fragment_budget, lookup_sources, start_flush, start_put, step_put,
    FlushOutcome, FlushStep, PutAction, PutEvent,
};

const ROLE_ASSISTANT: &str = "assistant";
const ROLE_ARTIFACT: &str = "artifact";
const CLAIM_CHECK_COLUMNS: [&str; 5] = [
    "model_input_string",
    "model_output_string",
    "rationale",
    "problem_text",
    "user_metadata",
];

struct Shard {
    id: u128,
    manifest: ShardManifest,
    generations: Vec<(u64, Vec<Batch>)>,
}

struct World {
    schema: Schema,
    fragments: Vec<Vec<Batch>>,
    shards: Vec<Shard>,
    version: u64,
}

type Shared = Rc<RefCell<World>>;

fn world(schema: Schema) -> Shared {
    Rc::new(RefCell::new(World {
        schema,
        fragments: Vec::new(),
        shards: Vec::new(),
        version: 1,
    }))
}

impl World {
    fn shard(&mut self, id: u128) -> &mut Shard {
        let at = match self.shards.iter().position(|shard| shard.id == id) {
            Some(at) => at,
            None => {
                self.shards.push(Shard {
                    id,
                    manifest: ShardManifest {
                        version: 1,
                        writer_epoch: 0,
                        shard_spec_id: 0,
                        current_generation: 1,
                        replay_after_wal_entry_position: 0,
                        wal_entry_position_last_seen: 0,
                        flushed_generations: Vec::new(),
                    },
                    generations: Vec::new(),
                });
                self.shards.len() - 1
            }
        };
        &mut self.shards[at]
    }

    fn snapshots(&self) -> Vec<ShardSnapshot> {
        self.shards
            .iter()
            .map(|shard| ShardSnapshot {
                shard_id: shard.id,
                flushed_generations: shard.manifest.flushed_generations.clone(),
            })
            .collect()
    }

    fn batches(&self, source: ListSource) -> Vec<Batch> {
        let base = self.fragments.iter().flatten().cloned();
        let pending = self
            .shards
            .iter()
            .flat_map(|shard| shard.generations.iter().flat_map(|(_, rows)| rows.clone()));
        match source {
            ListSource::Fragments => base.collect(),
            ListSource::Wal => pending.collect(),
            ListSource::All => base.chain(pending).collect(),
        }
    }
}

struct Store {
    world: Shared,
    handle: RolloutStore,
    open: Vec<Batch>,
}

fn sharded(shard: &str, merge_after_generations: Option<usize>) -> RolloutStoreOptions {
    RolloutStoreOptions {
        storage_options: None,
        shard_id: Some(shard.to_string()),
        merge_after_generations,
    }
}

impl Store {
    fn open(world: &Shared) -> Store {
        Store::open_with_options(world, RolloutStoreOptions::default())
    }

    fn open_with_options(world: &Shared, options: RolloutStoreOptions) -> Store {
        let handle =
            RolloutStore::open("mem://rollouts".to_string(), options).unwrap();
        Store {
            world: world.clone(),
            handle,
            open: Vec::new(),
        }
    }

    fn fresh() -> Store {
        Store::open(&world(rollout_schema()))
    }

    fn shard_id(&self) -> u128 {
        self.handle.base.write_shard
    }

    fn claim_epoch(&self) -> u64 {
        let mut world = self.world.borrow_mut();
        let manifest = &mut world.shard(self.shard_id()).manifest;
        manifest.writer_epoch += 1;
        manifest.writer_epoch
    }

    fn epoch(&self) -> u64 {
        self.world.borrow_mut().shard(self.shard_id()).manifest.writer_epoch
    }

    fn pending(&self) -> usize {
        let mut world = self.world.borrow_mut();
        world.shard(self.shard_id()).manifest.flushed_generations.len()
    }

    fn writer(&mut self) -> u64 {
        match self.handle.base.writer.resident {
            Some(writer) => writer,
            None => {
                let opened = self.claim_epoch();
                self.handle.base.writer.install(opened)
            }
        }
    }

    fn add(&mut self, records: &[RolloutRecord]) -> Result<(), StoreError> {
        let schema = self.world.borrow().schema.clone();
        let batch = self
            .handle
            .add(&records.to_vec(), &schema)
            .map_err(|error| error.report("expected", "found"))?;
        let mut batch = batch;
        let (mut stage, mut action) = start_put(batch.is_none());
        loop {
            let event = match action {
                PutAction::AcquireWriter => PutEvent::WriterReady(self.writer()),
                PutAction::ReplaceWriter(stale) => {
                    self.handle.base.writer.invalidate(stale);
                    PutEvent::WriterReady(self.writer())
                }
                PutAction::Put(writer) => {
                    if writer == self.epoch() {
                        self.open.extend(batch.take());
                        PutEvent::PutDone
                    } else {
                        PutEvent::PutFailed(format!("writer epoch {writer} was fenced"))
                    }
                }
                PutAction::Seal => PutEvent::SealDone,
                PutAction::Succeed => return Ok(()),
                PutAction::Fail(message) => panic!("{message}"),
            };
            let next = step_put(stage, self.handle.base.seal_on_put, event);
            stage = next.0;
            action = next.1;
        }
    }

    fn flush(&mut self) -> FlushOutcome {
        let mut step = start_flush(&self.handle.base.writer);
        loop {
            step = match step {
                FlushStep::Seal(writer) => {
                    self.seal();
                    after_seal(writer, Ok(()))
                }
                FlushStep::Drain(_) => after_drain(Ok(())),
                FlushStep::Ended(outcome) => return outcome,
                FlushStep::EndedFenced(writer) => {
                    self.handle.base.writer.invalidate(writer);
                    return FlushOutcome::Fenced;
                }
                FlushStep::Failed(message) => panic!("{message}"),
            };
        }
    }

    fn seal(&mut self) {
        if self.open.is_empty() {
            return;
        }
        let rows = std::mem::take(&mut self.open);
        let id = self.shard_id();
        let mut world = self.world.borrow_mut();
        let shard = world.shard(id);
        let generation = shard.manifest.current_generation;
        shard.manifest.current_generation += 1;
        shard.manifest.flushed_generations.push(Generation {
            generation,
            path: format!("gen_{generation}"),
        });
        shard.generations.push((generation, rows));
    }

    fn close(&mut self) {
        self.seal();
        self.handle.base.writer.take();
    }

    fn evolve(&mut self) {
        let mut world = self.world.borrow_mut();
        for field in self.handle.schema_changes(&world.schema).unwrap() {
            world.schema.fields.push(field);
        }
    }

    fn merge(&mut self) -> usize {
        self.evolve();
        self.claim_epoch();
        let id = self.shard_id();
        let mut world = self.world.borrow_mut();
        let mut prepared = PreparedMerge::new(world.schema.clone());
        let shard = world.shard(id);
        for generation in &shard.manifest.flushed_generations {
            let at = shard
                .generations
                .iter()
                .position(|(number, _)| *number == generation.generation)
                .unwrap();
            prepared.add_generation(generation, &shard.generations[at].1).unwrap();
        }
        shard.manifest = drain_manifest(&shard.manifest, &prepared.merged_generations);
        shard
            .generations
            .retain(|(number, _)| !prepared.merged_generations.contains(number));
        let count = prepared.generation_count();
        world.fragments.push(prepared.batches);
        world.version += 1;
        count
    }

    fn cleanup_own_shard(&mut self) -> usize {
        self.flush();
        if self.pending() == 0 {
            return 0;
        }
        self.merge()
    }

    fn maybe_merge_own_shard(&mut self) {
        if let Some(threshold) = self.handle.base.merge_trigger() {
            if merge_is_due(self.pending(), threshold) {
                self.merge();
            }
        }
    }

    fn columns(&self) -> Vec<String> {
        RolloutStore::non_blob_columns(&self.world.borrow().schema)
    }

    fn scan(&self, source: ListSource, columns: &Vec<String>) -> Vec<RolloutRecord> {
        let mut rows: Vec<RolloutRecord> = Vec::new();
        for batch in self.world.borrow().batches(source) {
            let held = batch.columns.iter().map(|column| column.name.clone()).collect();
            let read = only(&batch, &available_columns(columns, &held));
            for record in batch_to_rollout_records(&read).unwrap() {
                rows.retain(|row| row.id != record.id);
                rows.push(record);
            }
        }
        rows
    }

    fn matching(&self, source: ListSource, filters: &RolloutFilters) -> Vec<RolloutRecord> {
        let predicate = filters.expression();
        let mut rows = self.scan(source, &self.columns());
        rows.retain(|row| predicate.as_deref().map_or(true, |text| holds(row, text)));
        rows
    }

    fn list(&self) -> Vec<RolloutRecord> {
        self.list_with_filters(None, None, &RolloutFilters::default())
    }

    fn list_with_filters(
        &self,
        limit: Option<usize>,
        offset: Option<usize>,
        filters: &RolloutFilters,
    ) -> Vec<RolloutRecord> {
        let (scan_limit, scan_offset, later) = list_window(limit, offset);
        let rows = paged(self.matching(ListSource::All, filters), scan_limit, scan_offset);
        skip_rows(rows, later)
    }

    fn list_filtered_source(
        &self,
        filters: &RolloutFilters,
        limit: usize,
        offset: usize,
        source: ListSource,
    ) -> RolloutPage {
        if source == ListSource::Fragments {
            let (count, skipped) = base_scan_window(limit, offset).unwrap();
            let rows = paged(
                self.matching(source, filters),
                Some(count as usize),
                Some(skipped as usize),
            );
            return page_of(rows, limit);
        }
        let mut ids: Vec<String> = self
            .matching(source, filters)
            .into_iter()
            .map(|row| row.id)
            .collect();
        ids.sort();
        let ids = paged(ids, Some(page_scan_limit(limit)), Some(offset));
        let (ids, has_more) = cut_page(ids, limit);
        let base = match source {
            ListSource::Wal => Vec::new(),
            _ => self.scan(ListSource::Fragments, &self.columns()),
        };
        let pending = self.scan(ListSource::Wal, &self.columns());
        RolloutPage {
            records: assemble_page(&ids, &base, &pending).unwrap(),
            has_more,
        }
    }

    fn get_by_id_source(&self, id: &str, source: ListSource) -> Option<RolloutRecord> {
        for part in lookup_sources(source) {
            let columns = lookup_columns(&self.world.borrow().schema.column_names());
            let rows = self.scan(part, &columns);
            if let Some(at) = record_with_id(&rows, id) {
                return Some(rows[at].clone());
            }
        }
        None
    }

    fn get_by_id(&self, id: &str) -> Option<RolloutRecord> {
        self.get_by_id_source(id, ListSource::All)
    }

    fn get_blob(&self, id: &str) -> Option<Vec<u8>> {
        for part in lookup_sources(ListSource::All) {
            for batch in self.world.borrow().batches(part) {
                if let Some(found) = payload_with_key(&batch, "id", id, "binary_payload").unwrap() {
                    return found;
                }
            }
        }
        None
    }

    fn get_trajectory(&self, rollout_id: &str) -> Result<Vec<RolloutRecord>, StoreError> {
        let filters = select_trajectory(rollout_id)?;
        Ok(order_trajectory(self.list_with_filters(None, None, &filters)))
    }

    fn observe(&self) -> RolloutObservation {
        let world = self.world.borrow();
        let rows = |source| world.batches(source).iter().map(|b| b.rows as u64).sum();
        observation(
            rows(ListSource::Fragments),
            rows(ListSource::Wal),
            world.fragments.len(),
            world.version,
            1_700_000_000_000_000,
            &world.snapshots(),
            self.open.iter().map(|batch| batch.rows as i64).sum(),
        )
    }

    fn fragment_count(&self) -> usize {
        self.world.borrow().fragments.len()
    }

    fn compact(&mut self, config: &CompactionConfig) -> usize {
        self.handle.base.compaction.begin().unwrap();
        let ids: Vec<u64> = (0..self.fragment_count() as u64).collect();
        let tasks = match fragment_budget(config) {
            Some(budget) => limit_tasks(&vec![ids], budget),
            None => vec![ids],
        };
        let mut removed = 0;
        {
            let mut world = self.world.borrow_mut();
            for task in &tasks {
                removed += task.len();
                let mut merged = Vec::new();
                for id in task {
                    merged.extend(std::mem::take(&mut world.fragments[*id as usize]));
                }
                world.fragments.push(merged);
            }
            world.fragments.retain(|fragment| !fragment.is_empty());
        }
        self.handle
            .base
            .finish_compaction(CompactionOutcome::Done(1_700_000_000_000_000));
        removed
    }

    fn compaction_stats(&self) -> CompactionStats {
        self.handle.compaction_stats(self.fragment_count())
    }
}

fn only(batch: &Batch, columns: &[String]) -> Batch {
    let mut read = batch.clone();
    read.columns.retain(|column| columns.contains(&column.name));
    read
}

/// Evaluates a conjunction of equalities on a row.
fn holds(row: &RolloutRecord, expression: &str) -> bool {
    let mut rest = expression;
    loop {
        let (column, tail) = rest.split_once(" = ").unwrap();
        let (literal, tail) = match tail.strip_prefix('\'') {
            Some(quoted) => {
                let mut text = String::new();
                let mut chars = quoted.char_indices().peekable();
                let mut end = quoted.len();
                while let Some((at, c)) = chars.next() {
                    if c != '\'' {
                        text.push(c);
                    } else if chars.peek().map(|next| next.1) == Some('\'') {
                        chars.next();
                        text.push(c);
                    } else {
                        end = at + 1;
                        break;
                    }
                }
                (text, &quoted[end..])
            }
            None => {
                let end = tail.find(' ').unwrap_or(tail.len());
                (tail[..end].to_string(), &tail[end..])
            }
        };
        if value_of(row, column).as_deref() != Some(literal.as_str()) {
            return false;
        }
        match tail.strip_prefix(" AND ") {
            Some(more) => rest = more,
            None => {
                assert!(tail.is_empty(), "unread expression: {tail}");
                return true;
            }
        }
    }
}

fn value_of(row: &RolloutRecord, column: &str) -> Option<String> {
    match column {
        "id" => Some(row.id.clone()),
        "rollout_id" => Some(row.rollout_id.clone()),
        "problem_id" => Some(row.problem_id.clone()),
        "dataset" => row.dataset.clone(),
        "role" => Some(row.role.clone()),
        "content_type" => Some(row.content_type.clone()),
        "policy_version" => row.policy_version.clone(),
        "artifact_type" => row.artifact_type.clone(),
        "include_in_training" => row.include_in_training.map(|flag| flag.to_string()),
        other => panic!("no such column: {other}"),
    }
}

fn bits(values: &[f32]) -> Vec<u32> {
    values.iter().map(|value| value.to_bits()).collect()
}

fn assistant_record(id: &str) -> RolloutRecord {
    RolloutRecord {
        id: id.to_string(),
        rollout_id: "rollout-1".to_string(),
        problem_id: "problem-1".to_string(),
        dataset: Some("gsm8k".to_string()),
        sequence_order: 0,
        role: ROLE_ASSISTANT.to_string(),
        created_at: 1_700_000_000_000_000,
        content: Some("the answer is 42".to_string()),
        content_type: "text/plain".to_string(),
        model_input_string: None,
        model_output_string: None,
        rationale: None,
        problem_text: None,
        user_metadata: None,
        input_tokens: Some(vec![10, 11, 12]),
        output_tokens: Some(vec![20, 21]),
        num_input_tokens: Some(3),
        num_output_tokens: Some(2),
        output_logprobs: Some(bits(&[-0.5, -1.25])),
        input_logprobs: None,
        ref_logprobs: Some(bits(&[-0.4, -1.1])),
        loss_mask: Some(vec![1, 0]),
        advantage: Some(0.75_f32.to_bits()),
        reward: Some(1.0_f32.to_bits()),
        raw_reward: Some(0.9_f32.to_bits()),
        grader_id: Some("grader-a".to_string()),
        score: Some(0.95_f32.to_bits()),
        include_in_training: Some(true),
        exclude_reason: None,
        policy_version: Some("ckpt-42".to_string()),
        relationships: vec![Relationship {
            target_id: "problem-1".to_string(),
            relation: "derived_from".to_string(),
            weight: Some(1.0_f32.to_bits()),
        }],
        binary_payload: None,
        payload_size: None,
        payload_checksum: None,
        artifact_type: None,
        metadata: Some(r#"{"harness":"verifiers"}"#.to_string()),
    }
}

fn artifact_record(id: &str, bytes: &[u8]) -> RolloutRecord {
    RolloutRecord {
        dataset: None,
        sequence_order: 1,
        role: ROLE_ARTIFACT.to_string(),
        created_at: 1_700_000_000_500_000,
        content: None,
        content_type: "application/octet-stream".to_string(),
        input_tokens: None,
        output_tokens: None,
        num_input_tokens: None,
        num_output_tokens: None,
        output_logprobs: None,
        ref_logprobs: None,
        loss_mask: None,
        advantage: None,
        reward: None,
        raw_reward: None,
        grader_id: None,
        score: None,
        include_in_training: None,
        policy_version: None,
        relationships: Vec::new(),
        binary_payload: Some(bytes.to_vec()),
        payload_size: Some(bytes.len() as i64),
        payload_checksum: Some("sha256:cafef00d".to_string()),
        artifact_type: Some("excel_grade_screenshot".to_string()),
        metadata: Some(r#"{"filename":"trace.bin"}"#.to_string()),
        ..assistant_record(id)
    }
}

/// The record as listings give it: without the bytes of its payload.
fn listed(record: &RolloutRecord) -> RolloutRecord {
    RolloutRecord {
        binary_payload: None,
        ..record.clone()
    }
}

fn pre_claim_check_schema() -> Schema {
    let mut schema = rollout_schema();
    schema
        .fields
        .retain(|field| !CLAIM_CHECK_COLUMNS.contains(&field.name.as_str()));
    schema
}

fn store_with_legacy_base_and_wal(evolve_base: bool) -> Store {
    let world = world(pre_claim_check_schema());
    let mut store = Store::open_with_options(&world, sharded("pre-claim-check", None));
    let base = rollouts_to_batch(
        &vec![assistant_record("legacy-base")],
        &pre_claim_check_schema(),
    )
    .unwrap();
    world.borrow_mut().fragments.push(vec![base]);
    store.add(&[assistant_record("legacy-wal")]).unwrap();
    store.flush();
    assert_eq!(store.pending(), 1);
    store.close();
    if evolve_base {
        store.evolve();
    }
    store
}

fn ids(records: &[RolloutRecord]) -> Vec<&str> {
    let mut ids: Vec<&str> = records.iter().map(|record| record.id.as_str()).collect();
    ids.sort_unstable();
    ids
}

#[test]
fn append_list_and_fetch_roundtrip() {
    let assistant = assistant_record("row-0");
    let artifact_bytes = b"\x00\x01\x02trace-bytes";
    let artifact = artifact_record("row-1", artifact_bytes);
    let quoted_artifact_bytes = b"quoted-id-bytes";
    let quoted_artifact = artifact_record("row-'quoted'", quoted_artifact_bytes);

    let mut store = Store::fresh();
    store
        .add(&[assistant.clone(), artifact.clone(), quoted_artifact])
        .unwrap();
    store.flush();

    let rows = store.list();
    assert_eq!(rows.len(), 3);
    let listed_assistant = rows.iter().find(|r| r.id == "row-0").unwrap();
    let listed_artifact = rows.iter().find(|r| r.id == "row-1").unwrap();
    assert_eq!(*listed_assistant, assistant);
    assert_eq!(*listed_artifact, listed(&artifact));
    assert_eq!(listed_artifact.binary_payload, None);

    let fetched = store.get_by_id("row-1").unwrap();
    assert_eq!(fetched, listed(&artifact));
    assert_eq!(fetched.role, ROLE_ARTIFACT);

    assert_eq!(store.get_blob("row-1").as_deref(), Some(&artifact_bytes[..]));
    assert_eq!(
        store.get_blob("row-'quoted'").as_deref(),
        Some(&quoted_artifact_bytes[..])
    );
    assert_eq!(store.get_blob("row-0"), None);
    assert!(store.get_by_id("missing").is_none());
    assert_eq!(store.get_blob("missing"), None);
}

#[test]
fn observe_reports_cheap_metrics() {
    let mut store = Store::fresh();
    let obs = store.observe();
    assert_eq!(obs.row_count, 0);
    assert_eq!(obs.pending_wal_generations, 0);

    store
        .add(&[assistant_record("a"), assistant_record("b")])
        .unwrap();
    store.flush();
    let obs = store.observe();
    assert!(obs.fragment_count >= 0);
    assert!(obs.pending_wal_generations >= 1);
    assert_eq!(obs.row_count, 2);
    assert!(obs.last_updated > 0);
}

#[test]
fn filtered_list_matches_fields_before_pagination() {
    let mut store = Store::fresh();
    let mut first = assistant_record("row-a");
    first.rollout_id = "traj-a".to_string();
    first.problem_id = "problem-a".to_string();
    first.policy_version = Some("ckpt-1".to_string());
    first.include_in_training = Some(true);
    let mut second = assistant_record("row-b");
    second.rollout_id = "traj-b".to_string();
    second.problem_id = "problem-b".to_string();
    second.policy_version = Some("ckpt-2".to_string());
    second.include_in_training = Some(false);
    let mut artifact = artifact_record("row-c", b"bytes");
    artifact.rollout_id = "traj-b".to_string();
    artifact.problem_id = "problem-b".to_string();
    artifact.policy_version = Some("ckpt-2".to_string());
    artifact.include_in_training = Some(false);
    store.add(&[first, second, artifact]).unwrap();
    store.flush();

    let filters = RolloutFilters {
        policy_version: Some("ckpt-2".to_string()),
        include_in_training: Some(false),
        ..Default::default()
    };
    let all = store.list_with_filters(None, None, &filters);
    assert_eq!(all.len(), 2);
    assert!(all
        .iter()
        .all(|row| row.policy_version.as_deref() == Some("ckpt-2")));
    assert!(all.iter().all(|row| row.include_in_training == Some(false)));

    let page = store.list_with_filters(Some(1), Some(1), &filters);
    assert_eq!(page.len(), 1);
    assert_eq!(page[0].policy_version.as_deref(), Some("ckpt-2"));
}

#[test]
fn filtered_list_supports_dictionary_and_nullable_string_columns() {
    let mut store = Store::fresh();
    store
        .add(&[
            assistant_record("assistant"),
            artifact_record("artifact", b"bytes"),
        ])
        .unwrap();
    store.flush();

    let filters = RolloutFilters {
        role: Some(ROLE_ARTIFACT.to_string()),
        artifact_type: Some("excel_grade_screenshot".to_string()),
        ..Default::default()
    };
    let rows = store.list_with_filters(None, None, &filters);
    assert_eq!(rows.len(), 1);
    assert_eq!(rows[0].id, "artifact");
    assert!(rows[0].binary_payload.is_none());
}

#[test]
fn appends_accumulate_and_are_immutable() {
    let artifact_bytes = b"\x00\x01\x02checkpoint-trace";
    let artifact = artifact_record("row-0", artifact_bytes);
    let mut store = Store::fresh();
    store.add(std::slice::from_ref(&artifact)).unwrap();
    store.add(&[assistant_record("row-1")]).unwrap();
    store.flush();
    assert_eq!(store.list().len(), 2);

    assert_eq!(store.get_by_id("row-0").unwrap(), listed(&artifact));
    assert_eq!(store.get_blob("row-0").as_deref(), Some(&artifact_bytes[..]));
}

#[test]
fn cleanup_own_shard_seals_before_merging() {
    let world = world(rollout_schema());
    let mut store = Store::open_with_options(&world, sharded("cleanup-seal-0", Some(0)));
    store.add(&[assistant_record("c-0")]).unwrap();
    assert!(store.list().is_empty());
    assert_eq!(store.observe().pending_wal_generations, 0);

    assert_eq!(store.cleanup_own_shard(), 1);
    let seen = store.list();
    assert_eq!(seen.len(), 1);
    assert_eq!(seen[0].id, "c-0");
}

#[test]
fn observe_reports_unflushed_rows_excluded_from_row_count() {
    let world = world(rollout_schema());
    let mut store = Store::open_with_options(&world, sharded("observe-0", None));
    assert_eq!(store.observe().unflushed_rows, 0);

    store
        .add(&[assistant_record("o-0"), assistant_record("o-1")])
        .unwrap();
    let obs = store.observe();
    assert_eq!(obs.row_count, 0);
    assert_eq!(obs.unflushed_rows, 2);

    store.flush();
    let obs = store.observe();
    assert_eq!(obs.row_count, 2);
    assert_eq!(obs.unflushed_rows, 0);
}

#[test]
fn distinct_shards_share_one_dataset() {
    let world = world(rollout_schema());
    let shard_a_blob = b"shard-a-blob";
    let shard_b_blob = b"shard-b-blob";
    let mut instance_a = Store::open_with_options(&world, sharded("rollout-0", None));
    instance_a
        .add(&[artifact_record("a-0", shard_a_blob)])
        .unwrap();
    instance_a.flush();
    let mut instance_b = Store::open_with_options(&world, sharded("rollout-1", None));
    instance_b
        .add(&[artifact_record("b-0", shard_b_blob)])
        .unwrap();
    instance_b.flush();

    assert_ne!(
        derive_shard_id(&Some("rollout-0".to_string())),
        derive_shard_id(&Some("rollout-1".to_string()))
    );

    assert_eq!(ids(&instance_b.list()), ["a-0", "b-0"]);
    assert_eq!(instance_b.get_blob("a-0").as_deref(), Some(&shard_a_blob[..]));
    assert_eq!(instance_a.get_blob("b-0").as_deref(), Some(&shard_b_blob[..]));

    let obs = Store::open(&world).observe();
    assert_eq!(obs.row_count, 2);
    assert_eq!(obs.pending_wal_generations, 2);
    assert_eq!(obs.fragment_count, 0);
}

#[test]
fn filtered_listing_pages_across_shards_and_escapes_values() {
    let world = world(rollout_schema());
    let mut instance_a = Store::open_with_options(&world, sharded("filter-a", None));
    let mut quoted = assistant_record("row-'quoted");
    quoted.rollout_id = "rollout-alpha".to_string();
    quoted.policy_version = Some("policy-a".to_string());
    instance_a
        .add(&[quoted, assistant_record("row-a")])
        .unwrap();
    instance_a.flush();
    let mut instance_b = Store::open_with_options(&world, sharded("filter-b", None));
    instance_b.add(&[artifact_record("row-b", b"blob")]).unwrap();
    instance_b.flush();

    let reader = Store::open(&world);
    let by_id = RolloutFilters {
        id: Some("row-'quoted".to_string()),
        ..Default::default()
    };
    let quoted_page = reader.list_filtered_source(&by_id, 25, 0, ListSource::All);
    assert!(!quoted_page.has_more);
    assert_eq!(quoted_page.records[0].id, "row-'quoted");
    assert_eq!(quoted_page.records[0].input_tokens, Some(vec![10, 11, 12]));
    assert_eq!(
        quoted_page.records[0].output_logprobs,
        Some(bits(&[-0.5, -1.25]))
    );
    assert_eq!(
        quoted_page.records[0].metadata.as_deref(),
        Some(r#"{"harness":"verifiers"}"#)
    );

    let by_policy = RolloutFilters {
        rollout_id: Some("rollout-alpha".to_string()),
        role: Some(ROLE_ASSISTANT.to_string()),
        policy_version: Some("policy-a".to_string()),
        ..Default::default()
    };
    let policy_page = reader.list_filtered_source(&by_policy, 25, 0, ListSource::All);
    assert!(!policy_page.has_more);
    assert_eq!(policy_page.records[0].id, "row-'quoted");

    let page = reader.list_filtered_source(&RolloutFilters::default(), 1, 1, ListSource::All);
    assert!(page.has_more);
    assert_eq!(page.records.len(), 1);
}

#[test]
fn fragments_listing_filters_and_pages_wide_rows() {
    let world = world(rollout_schema());
    let mut store = Store::open_with_options(&world, sharded("fragment-pagination", None));
    let wide_text = "x".repeat(64 * 1024);
    let records: Vec<_> = (0..6)
        .map(|index| {
            let mut record = assistant_record(&format!("row-{index}"));
            record.policy_version = Some(if index == 3 {
                "excluded".to_string()
            } else {
                "page-test".to_string()
            });
            record.rationale = Some(wide_text.clone());
            record
        })
        .collect();
    store.add(&records[..3]).unwrap();
    store.flush();
    assert_eq!(store.cleanup_own_shard(), 1);
    store.add(&records[3..]).unwrap();
    store.flush();
    assert_eq!(store.cleanup_own_shard(), 1);
    assert_eq!(store.observe().fragment_count, 2);

    let filters = RolloutFilters {
        policy_version: Some("page-test".to_string()),
        ..Default::default()
    };
    let all = store.list_filtered_source(&filters, 10, 0, ListSource::Fragments);
    assert_eq!(all.records.len(), 5);
    assert!(!all.has_more);

    let middle = store.list_filtered_source(&filters, 2, 2, ListSource::Fragments);
    assert_eq!(middle.records.len(), 2);
    assert!(middle.has_more);
    assert_eq!(middle.records, all.records[2..4]);
    assert!(middle
        .records
        .iter()
        .all(|record| record.rationale.as_deref() == Some(wide_text.as_str())));

    let tail = store.list_filtered_source(&filters, 2, 4, ListSource::Fragments);
    assert_eq!(tail.records.len(), 1);
    assert!(!tail.has_more);
    assert_eq!(tail.records[0].id, all.records[4].id);
}

#[test]
fn explicit_checkout_pins_until_latest_refresh() {
    let mut store = Store::fresh();
    assert!(!store.handle.is_version_pinned());
    store.handle.checkout(1);
    assert!(store.handle.is_version_pinned());
    store.handle.base.clear_version_pin();
    assert!(!store.handle.is_version_pinned());
}

#[test]
fn trajectory_rows_are_filtered_and_sorted_across_fragments() {
    let world = world(rollout_schema());
    let mut store = Store::open_with_options(&world, sharded("trajectory-test", Some(1)));
    let mut later = assistant_record("row-a");
    later.rollout_id = "target".to_string();
    later.sequence_order = 2;
    let mut unrelated = assistant_record("other");
    unrelated.rollout_id = "other".to_string();
    store.add(&[later, unrelated]).unwrap();
    store.flush();
    store.maybe_merge_own_shard();

    let mut earlier = assistant_record("row-b");
    earlier.rollout_id = "target".to_string();
    earlier.sequence_order = 0;
    store.add(&[earlier]).unwrap();
    store.flush();
    store.maybe_merge_own_shard();

    assert_eq!(store.observe().fragment_count, 2);
    let rows = store.get_trajectory("target").unwrap();
    let ids: Vec<&str> = rows.iter().map(|row| row.id.as_str()).collect();
    assert_eq!(ids, vec!["row-b", "row-a"]);
}

#[test]
fn trajectory_read_rejects_an_empty_rollout_id() {
    let store = Store::fresh();
    let err = store.get_trajectory("").unwrap_err();
    assert!(err.message.contains("rollout_id must not be empty"));
}

#[test]
fn add_reuses_resident_writer_epoch_stable() {
    let world = world(rollout_schema());
    let mut store = Store::open_with_options(&world, sharded("rollout-0", None));
    store.add(&[assistant_record("a-0")]).unwrap();
    store.flush();
    let epoch_after_first = store.epoch();
    assert!(store.get_by_id("a-0").is_some());

    for i in 1..5 {
        store.add(&[assistant_record(&format!("a-{i}"))]).unwrap();
        store.flush();
        assert!(store.get_by_id(&format!("a-{i}")).is_some());
    }
    assert_eq!(store.epoch(), epoch_after_first);
    assert_eq!(store.pending(), 5);
    assert_eq!(store.list().len(), 5);
}

#[test]
fn merge_reopens_writer_after_epoch_claim() {
    let world = world(rollout_schema());
    let mut store = Store::open_with_options(&world, sharded("rollout-0", Some(1)));
    for i in 0..4 {
        store
            .add(&[assistant_record(&format!("a-{i}"))])
            .unwrap_or_else(|e| panic!("append a-{i} after merge must not be fenced: {e:?}"));
        store.flush();
        store.maybe_merge_own_shard();
        assert!(store.get_by_id(&format!("a-{i}")).is_some());
    }
    assert_eq!(store.pending(), 0);
    assert_eq!(store.list().len(), 4);
}

#[test]
fn close_drains_resident_writer_and_add_reopens() {
    let world = world(rollout_schema());
    let mut store = Store::open_with_options(&world, sharded("rollout-0", None));
    store.add(&[assistant_record("a-0")]).unwrap();
    store.flush();
    assert_eq!(store.list().len(), 1);

    store.close();
    store.close();
    assert_eq!(store.handle.base.writer.resident, None);

    store.add(&[assistant_record("a-1")]).unwrap();
    store.flush();
    assert_eq!(store.list().len(), 2);
}

#[test]
fn add_is_durable_but_not_visible_until_flush() {
    let mut store = Store::fresh();
    store.add(&[assistant_record("a-0")]).unwrap();
    assert_eq!(store.list().len(), 0);
    assert!(store.get_by_id("a-0").is_none());

    store.flush();
    assert_eq!(store.list().len(), 1);
    assert!(store.get_by_id("a-0").is_some());
}

#[test]
fn flush_is_noop_without_writes() {
    let mut store = Store::fresh();
    assert_eq!(store.flush(), FlushOutcome::Noop);
    assert_eq!(store.flush(), FlushOutcome::Noop);
    assert_eq!(store.list().len(), 0);

    store.add(&[assistant_record("a-0")]).unwrap();
    assert_eq!(store.flush(), FlushOutcome::Sealed);
    store.flush();
    assert_eq!(store.list().len(), 1);
}

#[test]
fn compact_reduces_fragments_and_preserves_reads() {
    let artifact_bytes = b"\x00\x01\x02compacted";
    let world = world(rollout_schema());
    let mut store = Store::open_with_options(&world, sharded("rollout-0", Some(1)));
    for i in 0..6 {
        store.add(&[assistant_record(&format!("a-{i}"))]).unwrap();
        store.flush();
        store.maybe_merge_own_shard();
    }
    store.add(&[artifact_record("a-6", artifact_bytes)]).unwrap();
    store.flush();
    store.maybe_merge_own_shard();

    let before = store.fragment_count();
    assert!(before > 1, "expected several fragments, got {before}");
    assert!(store.handle.should_compact(
        &CompactionConfig {
            min_fragments: 2,
            ..CompactionConfig::default()
        },
        before,
        12,
    ));

    let removed = store.compact(&CompactionConfig {
        min_fragments: 2,
        num_threads: Some(1),
        max_bytes_per_file: Some(1024 * 1024),
        batch_size: Some(1),
        max_source_fragments: Some(4),
        try_binary_copy: true,
        ..Default::default()
    });
    assert!(removed > 0);
    assert!(removed <= 4, "one incremental pass must honor max_source_fragments");

    let after = store.fragment_count();
    assert!(after < before, "compaction should reduce fragments: {before} -> {after}");

    assert_eq!(
        ids(&store.list()),
        ["a-0", "a-1", "a-2", "a-3", "a-4", "a-5", "a-6"]
    );
    assert_eq!(store.get_blob("a-6").as_deref(), Some(&artifact_bytes[..]));

    let stats = store.compaction_stats();
    assert_eq!(stats.total_compactions, 1);
    assert!(stats.last_compaction.is_some());
    assert!(stats.last_error.is_none());
}

#[test]
fn should_compact_respects_min_fragments() {
    let world = world(rollout_schema());
    let mut store = Store::open_with_options(&world, sharded("rollout-0", Some(1)));
    store.add(&[assistant_record("a-0")]).unwrap();

    let frags = store.fragment_count();
    assert!(!store.handle.should_compact(
        &CompactionConfig {
            min_fragments: frags + 1,
            ..CompactionConfig::default()
        },
        frags,
        12,
    ));
    assert!(store.handle.should_compact(
        &CompactionConfig {
            min_fragments: frags,
            ..CompactionConfig::default()
        },
        frags,
        12,
    ));
}

#[test]
fn below_threshold_no_merge() {
    let world = world(rollout_schema());
    let mut store = Store::open_with_options(&world, sharded("rollout-0", Some(3)));
    store.add(&[assistant_record("a-0")]).unwrap();
    store.flush();
    store.maybe_merge_own_shard();
    store.add(&[assistant_record("a-1")]).unwrap();
    store.flush();
    store.maybe_merge_own_shard();

    assert_eq!(store.pending(), 2);
    assert_eq!(store.list().len(), 2);
}

#[test]
fn merge_at_threshold_drains_shard_and_preserves_reads() {
    let artifact_bytes = b"\x00\x01\x02merged-trace";
    let world = world(rollout_schema());
    let mut store = Store::open_with_options(&world, sharded("rollout-0", Some(3)));
    store.add(&[assistant_record("a-0")]).unwrap();
    store.flush();
    store.add(&[assistant_record("a-1")]).unwrap();
    store.flush();
    store.add(&[artifact_record("a-2", artifact_bytes)]).unwrap();
    store.flush();
    store.maybe_merge_own_shard();

    assert_eq!(store.pending(), 0);
    assert_eq!(ids(&store.list()), ["a-0", "a-1", "a-2"]);
    assert_eq!(store.get_by_id("a-2").unwrap().role, ROLE_ARTIFACT);
    assert_eq!(store.get_blob("a-2").as_deref(), Some(&artifact_bytes[..]));
}

#[test]
fn merge_is_visible_to_a_fresh_reader_instance() {
    let world = world(rollout_schema());
    {
        let mut store = Store::open_with_options(&world, sharded("rollout-0", Some(2)));
        store.add(&[assistant_record("a-0")]).unwrap();
        store.flush();
        store.add(&[assistant_record("a-1")]).unwrap();
        store.flush();
        store.maybe_merge_own_shard();
        assert_eq!(store.pending(), 0);
    }
    assert_eq!(ids(&Store::open(&world).list()), ["a-0", "a-1"]);
}

#[test]
fn cleanup_own_shard_merges_whatever_is_pending() {
    let world = world(rollout_schema());
    let mut store = Store::open_with_options(&world, sharded("rollout-0", None));
    store.add(&[assistant_record("a-0")]).unwrap();
    store.flush();
    assert_eq!(store.cleanup_own_shard(), 1);
    assert_eq!(store.pending(), 0);

    store.add(&[assistant_record("a-1")]).unwrap();
    store.flush();
    assert_eq!(store.cleanup_own_shard(), 1);
    assert_eq!(store.pending(), 0);

    assert_eq!(store.list().len(), 2);
    assert_eq!(store.cleanup_own_shard(), 0);
}

#[test]
fn cleanup_merges_pre_claim_check_generations_after_schema_evolution() {
    let mut store = store_with_legacy_base_and_wal(false);
    assert_eq!(store.cleanup_own_shard(), 1);
    assert_eq!(store.pending(), 0);
    for column in CLAIM_CHECK_COLUMNS {
        assert!(store.world.borrow().schema.has_column(column));
    }

    let rows = store.list();
    assert_eq!(ids(&rows), ["legacy-base", "legacy-wal"]);
    for row in rows {
        assert!(row.model_input_string.is_none());
        assert!(row.model_output_string.is_none());
        assert!(row.rationale.is_none());
        assert!(row.problem_text.is_none());
        assert!(row.user_metadata.is_none());
    }
}

#[test]
fn latest_schema_alignment_preserves_claim_check_values() {
    let world = world(pre_claim_check_schema());
    let mut legacy_store = Store::open(&world);
    let mut record = assistant_record("current-generation");
    record.model_input_string = Some("input".to_string());
    record.model_output_string = Some("output".to_string());
    record.rationale = Some("reason".to_string());
    record.problem_text = Some("problem".to_string());
    record.user_metadata = Some(r#"{"source":"worker"}"#.to_string());
    let generation = rollouts_to_batch(&vec![record], &rollout_schema()).unwrap();

    legacy_store.evolve();
    let merge_schema = world.borrow().schema.clone();
    let aligned = align_batch_to_schema(&generation, &merge_schema).unwrap();
    let held: Vec<String> = aligned.columns.iter().map(|c| c.name.clone()).collect();
    assert_eq!(held, merge_schema.column_names());
    world.borrow_mut().fragments.push(vec![aligned]);

    let merged = legacy_store
        .get_by_id_source("current-generation", ListSource::Fragments)
        .unwrap();
    assert_eq!(merged.model_input_string.as_deref(), Some("input"));
    assert_eq!(merged.model_output_string.as_deref(), Some("output"));
    assert_eq!(merged.rationale.as_deref(), Some("reason"));
    assert_eq!(merged.problem_text.as_deref(), Some("problem"));
    assert_eq!(
        merged.user_metadata.as_deref(),
        Some(r#"{"source":"worker"}"#)
    );
}

#[test]
fn get_by_id_reads_pre_claim_check_base_and_wal_after_schema_evolution() {
    let store = store_with_legacy_base_and_wal(true);
    let mut base = store.get_by_id("legacy-base").unwrap();
    let wal = store.get_by_id("legacy-wal").unwrap();
    assert!(store
        .get_by_id_source("legacy-base", ListSource::Fragments)
        .is_some());
    assert!(store.get_by_id_source("legacy-wal", ListSource::Wal).is_some());

    for row in [&base, &wal] {
        assert!(row.model_input_string.is_none());
        assert!(row.model_output_string.is_none());
        assert!(row.rationale.is_none());
        assert!(row.problem_text.is_none());
        assert!(row.user_metadata.is_none());
    }
    base.id.clone_from(&wal.id);
    assert_eq!(base, wal);
}

#[test]
fn merge_drains_only_merged_generations() {
    let world = world(rollout_schema());
    let mut store = Store::open_with_options(&world, sharded("rollout-0", None));
    for i in 0..3 {
        store.add(&[assistant_record(&format!("g-{i}"))]).unwrap();
        store.flush();
    }
    assert_eq!(store.pending(), 3);
    assert_eq!(store.cleanup_own_shard(), 3);
    assert_eq!(store.pending(), 0);

    store.add(&[assistant_record("g-3")]).unwrap();
    store.flush();
    assert_eq!(store.pending(), 1);
    assert_eq!(store.cleanup_own_shard(), 1);
    assert_eq!(ids(&store.list()), ["g-0", "g-1", "g-2", "g-3"]);
}

#[test]
fn list_source_splits_base_and_wal() {
    let world = world(rollout_schema());
    let mut store = Store::open_with_options(&world, sharded("rollout-0", None));
    fn list_ids(store: &Store, source: ListSource) -> Vec<String> {
        let page = store.list_filtered_source(&RolloutFilters::default(), 25, 0, source);
        let mut ids: Vec<String> = page.records.into_iter().map(|r| r.id).collect();
        ids.sort();
        ids
    }
    store.add(&[assistant_record("g-0")]).unwrap();
    store.flush();
    store.add(&[assistant_record("g-1")]).unwrap();
    store.flush();
    assert_eq!(store.pending(), 2);

    assert!(list_ids(&store, ListSource::Fragments).is_empty());
    assert_eq!(list_ids(&store, ListSource::Wal), ["g-0", "g-1"]);
    assert_eq!(list_ids(&store, ListSource::All), ["g-0", "g-1"]);

    assert_eq!(store.cleanup_own_shard(), 2);
    assert_eq!(store.pending(), 0);
    assert_eq!(list_ids(&store, ListSource::Fragments), ["g-0", "g-1"]);
    assert!(list_ids(&store, ListSource::Wal).is_empty());
    assert_eq!(list_ids(&store, ListSource::All), ["g-0", "g-1"]);
}

#[test]
fn wal_and_all_pagination_take_only_page_rows() {
    let world = world(rollout_schema());
    let mut store = Store::open_with_options(&world, sharded("rollout-pagination", None));
    let make_record = |id: &str| {
        let mut record = assistant_record(id);
        record.rationale = Some(format!("wide-rationale-{id}-{}", "x".repeat(64 * 1024)));
        record
    };
    let mut base_rows = ["row-000", "row-002", "row-004"].map(make_record).to_vec();
    base_rows[1].policy_version = Some("other-policy".to_string());
    store.add(&base_rows).unwrap();
    store.flush();
    store.cleanup_own_shard();
    let mut wal_rows = ["row-001", "row-003", "row-005"].map(make_record).to_vec();
    wal_rows[1].policy_version = Some("other-policy".to_string());
    store.add(&wal_rows).unwrap();
    store.flush();
    assert_eq!(store.pending(), 1);

    let any = RolloutFilters::default();
    let all_page = store.list_filtered_source(&any, 2, 1, ListSource::All);
    assert!(all_page.has_more);
    let page_ids: Vec<&str> = all_page.records.iter().map(|r| r.id.as_str()).collect();
    assert_eq!(page_ids, ["row-001", "row-002"]);
    assert!(all_page.records.iter().all(|record| {
        record
            .rationale
            .as_deref()
            .is_some_and(|value| value.starts_with("wide-rationale-"))
    }));

    let wal_page = store.list_filtered_source(&any, 1, 1, ListSource::Wal);
    assert!(wal_page.has_more);
    assert_eq!(wal_page.records[0].id, "row-003");
    assert!(wal_page.records[0]
        .rationale
        .as_deref()
        .is_some_and(|value| value.starts_with("wide-rationale-row-003")));

    let other = RolloutFilters {
        policy_version: Some("other-policy".to_string()),
        ..Default::default()
    };
    let filtered_page = store.list_filtered_source(&other, 1, 0, ListSource::All);
    assert!(filtered_page.has_more);
    assert_eq!(filtered_page.records[0].id, "row-002");

    let final_page = store.list_filtered_source(&any, 2, 5, ListSource::All);
    assert!(!final_page.has_more);
    assert_eq!(final_page.records[0].id, "row-005");
}

#[test]
fn point_lookup_base_first_finds_unmerged_and_merged_rows() {
    let bytes = b"\x00\x01payload-x";
    let world = world(rollout_schema());
    let mut store = Store::open_with_options(&world, sharded("rollout-0", None));
    let artifact = artifact_record("row-x", bytes);
    store.add(std::slice::from_ref(&artifact)).unwrap();
    store.flush();

    assert_eq!(store.pending(), 1);
    assert_eq!(store.get_by_id("row-x").unwrap(), listed(&artifact));
    assert_eq!(store.get_blob("row-x").as_deref(), Some(&bytes[..]));
    assert!(store.get_by_id_source("row-x", ListSource::Fragments).is_none());
    assert!(store.get_by_id_source("row-x", ListSource::Wal).is_some());

    store.cleanup_own_shard();
    assert_eq!(store.pending(), 0);
    assert_eq!(store.get_by_id("row-x").unwrap(), listed(&artifact));
    assert_eq!(store.get_blob("row-x").as_deref(), Some(&bytes[..]));
    assert!(store.get_by_id_source("row-x", ListSource::Fragments).is_some());
    assert!(store.get_by_id_source("row-x", ListSource::Wal).is_none());

    assert!(store.get_by_id("nope").is_none());
    assert!(store.get_blob("nope").is_none());
}

#[test]
fn point_lookup_immutability_contract_returns_base_version() {
    let bytes = b"base-version-bytes";
    let world = world(rollout_schema());
    let mut store = Store::open_with_options(&world, sharded("rollout-0", None));
    let base = artifact_record("dup", bytes);
    store.add(std::slice::from_ref(&base)).unwrap();
    store.flush();
    store.cleanup_own_shard();
    assert_eq!(store.pending(), 0);
    assert_eq!(store.get_by_id("dup").unwrap(), listed(&base));
    assert_eq!(store.get_blob("dup").as_deref(), Some(&bytes[..]));

    store.add(&[artifact_record("dup", b"later")]).unwrap();
    store.flush();
    assert_eq!(store.get_blob("dup").as_deref(), Some(&bytes[..]));
}

#[test]
fn get_record_with_blob_returns_row_and_payload_in_one_scan() {
    let bytes = b"\x00\x01record-with-blob";
    let world = world(rollout_schema());
    let mut store = Store::open_with_options(&world, sharded("rollout-0", None));
    let artifact = artifact_record("row-rw", bytes);
    store.add(std::slice::from_ref(&artifact)).unwrap();
    store.flush();
    for _ in 0..2 {
        assert_eq!(store.get_by_id("row-rw").unwrap(), listed(&artifact));
        assert_eq!(store.get_blob("row-rw").as_deref(), Some(&bytes[..]));
        store.cleanup_own_shard();
        assert_eq!(store.pending(), 0);
    }
    assert!(store.get_by_id("nope").is_none() && store.get_blob("nope").is_none());
}

#[test]
fn ensure_select_only_accepts_select_and_cte() {
    assert!(ensure_select_only("SELECT * FROM records").is_ok());
    assert!(ensure_select_only("  select id from records where reward > 0 ").is_ok());
    assert!(ensure_select_only("WITH t AS (SELECT id FROM records) SELECT * FROM t").is_ok());
}

#[test]
fn ensure_select_only_rejects_mutations_and_multi_statements() {
    for sql in [
        "DELETE FROM records",
        "UPDATE records SET reward = 1",
        "INSERT INTO records (id) VALUES ('x')",
        "DROP TABLE records",
        "CREATE TABLE t (a INT)",
        "SELECT 1; SELECT 2",
        "not sql at all",
    ] {
        assert!(ensure_select_only(sql).is_err(), "expected rejection for: {sql}");
    }
}

/// Runs a query over the columns that it sees, the text columns with their
/// values and the others without.
fn query_sql(store: &Store, sql: &str) -> Result<SqlQueryResult, StoreError> {
    ensure_select_only(sql)?;
    let rows = store.scan(ListSource::All, &store.columns());
    count_scanned(0, rows.len())?;
    let shown = queryable_schema(&store.world.borrow().schema);
    let texts = |name: &str| -> Vec<Option<String>> {
        rows.iter()
            .map(|row| match name {
                "id" => Some(row.id.clone()),
                "role" => Some(row.role.clone()),
                "rollout_id" => Some(row.rollout_id.clone()),
                "dataset" => row.dataset.clone(),
                _ => None,
            })
            .collect()
    };
    let columns: Vec<(&str, ArrayRef, bool)> = shown
        .fields
        .iter()
        .map(|field| {
            let values: ArrayRef = Arc::new(StringArray::from(texts(&field.name)));
            (field.name.as_str(), values, true)
        })
        .collect();
    let batch = RecordBatch::try_from_iter_with_nullable(columns).unwrap();
    let runtime = tokio::runtime::Runtime::new().unwrap();
    runtime.block_on(async {
        let refused = |error: datafusion::error::DataFusionError| {
            StoreError::invalid_input(error.to_string())
        };
        let context = SessionContext::new();
        let table = MemTable::try_new(batch.schema(), vec![vec![batch]]).unwrap();
        context.register_table(SQL_TABLE_NAME, Arc::new(table)).unwrap();
        let frame = context
            .sql(sql)
            .await
            .map_err(refused)?
            .limit(0, Some(SQL_MAX_RESULT_ROWS + 1))
            .map_err(refused)?;
        let names = frame.schema().fields().iter().map(|field| field.name().clone()).collect();
        let answer = frame.collect().await.map_err(refused)?;
        let batches = answer.into_iter().map(|batch| AnswerBatch { batch }).collect();
        sql_batches_to_result(names, &batches)
    })
}

#[test]
fn query_sql_runs_select_over_merged_records() {
    let mut store = Store::fresh();
    store
        .add(&[
            assistant_record("a-0"),
            assistant_record("a-1"),
            assistant_record("a-2"),
        ])
        .unwrap();
    store.flush();

    let result = query_sql(&store, "SELECT count(*) AS n FROM records").unwrap();
    assert_eq!(result.columns, vec!["n".to_string()]);
    assert_eq!(result.rows.len(), 1);
    assert_eq!(result.rows[0][0], "3");
    assert!(!result.truncated);

    let grouped =
        query_sql(&store, "SELECT role, count(*) AS n FROM records GROUP BY role").unwrap();
    assert_eq!(grouped.columns, vec!["role".to_string(), "n".to_string()]);
    assert_eq!(grouped.rows.len(), 1);
    assert_eq!(grouped.rows[0][0], format!("\"{ROLE_ASSISTANT}\""));
    assert_eq!(grouped.rows[0][1], "3");

    let hidden = query_sql(&store, "SELECT binary_payload FROM records").unwrap_err();
    assert_eq!(hidden.kind, ErrorKind::InvalidInput);
    let rejected = query_sql(&store, "DELETE FROM records").unwrap_err();
    assert_eq!(rejected.kind, ErrorKind::InvalidInput);
}

#[test]
fn query_sql_on_empty_experiment_returns_zero_rows() {
    let store = Store::fresh();
    let result = query_sql(&store, "SELECT id FROM records").unwrap();
    assert_eq!(result.columns, vec!["id".to_string()]);
    assert!(result.rows.is_empty());
    assert!(!result.truncated);
}

#[test]
fn sql_rows_lack_nothing_but_what_is_null() {
    let columns = vec!["id".to_string(), "note".to_string()];
    let list = Ok(br#"[{"0":"a","1":"x"},{"0":"b"}]"#.to_vec());
    match json_lists_to_result(columns.clone(), &vec![list]) {
        Ok(result) => assert_eq!(
            result.rows,
            [["\"a\"", "\"x\""], ["\"b\"", "null"]]
        ),
        Err(error) => panic!("{}", error.message),
    }
    for bytes in [&b"[1]"[..], b"{", b""] {
        let error = json_lists_to_result(columns.clone(), &vec![Ok(bytes.to_vec())]).unwrap_err();
        assert_eq!(error.kind, ErrorKind::InvalidArgument);
    }
    let error = json_lists_to_result(columns, &vec![Err("no".to_string())]).unwrap_err();
    assert_eq!((error.kind, error.message.as_str()), (ErrorKind::Arrow, "no"));
}

fn numbers(values: Vec<Option<i64>>) -> AnswerBatch {
    let column: ArrayRef = Arc::new(Int64Array::from(values));
    AnswerBatch {
        batch: RecordBatch::try_from_iter_with_nullable([("n", column, true)]).unwrap(),
    }
}

#[test]
fn sql_answers_are_cut_at_their_limit() {
    let columns = vec!["n".to_string()];
    let full: Vec<Option<i64>> = (0..SQL_MAX_RESULT_ROWS as i64).map(Some).collect();

    let whole = sql_batches_to_result(columns.clone(), &vec![numbers(full.clone())]).unwrap();
    assert_eq!(whole.rows.len(), SQL_MAX_RESULT_ROWS);
    assert!(!whole.truncated);

    let batches = vec![numbers(full), numbers(vec![None])];
    let cut = sql_batches_to_result(columns.clone(), &batches).unwrap();
    assert_eq!(cut.rows, whole.rows);
    assert!(cut.truncated);

    let small = sql_batches_to_result(columns, &vec![numbers(vec![Some(7), None])]).unwrap();
    assert_eq!(small.rows, [["7"], ["null"]]);
}

#[test]
fn sql_columns_of_one_name_keep_their_values() {
    let column = |value: i64| -> ArrayRef { Arc::new(Int64Array::from(vec![value])) };
    let schema = ArrowSchema::new(vec![
        ArrowField::new("x", ArrowType::Int64, true),
        ArrowField::new("x", ArrowType::Int64, true),
    ]);
    let batch = RecordBatch::try_new(Arc::new(schema), vec![column(1), column(2)]).unwrap();
    let columns = vec!["x".to_string(), "x".to_string()];
    let result = sql_batches_to_result(columns.clone(), &vec![AnswerBatch { batch }]).unwrap();
    assert_eq!(result.columns, columns);
    assert_eq!(result.rows, [["1", "2"]]);
    assert!(!result.truncated);
}

#[test]
fn sql_dictionaries_of_nulls_are_refused() {
    let nulls: ArrayRef = Arc::new(NullArray::new(1));
    let dictionary: ArrayRef =
        Arc::new(DictionaryArray::<Int8Type>::try_new(Int8Array::from(vec![0]), nulls).unwrap());
    let batch = RecordBatch::try_from_iter_with_nullable([("d", dictionary, true)]).unwrap();
    let columns = vec!["d".to_string()];
    let error = sql_batches_to_result(columns.clone(), &vec![AnswerBatch { batch }]).unwrap_err();
    assert_eq!(error.kind, ErrorKind::Arrow);

    let words: ArrayRef = Arc::new(StringArray::from(vec!["w"]));
    let dictionary: ArrayRef =
        Arc::new(DictionaryArray::<Int8Type>::try_new(Int8Array::from(vec![0]), words).unwrap());
    let batch = RecordBatch::try_from_iter_with_nullable([("d", dictionary, true)]).unwrap();
    let result = sql_batches_to_result(columns, &vec![AnswerBatch { batch }]).unwrap();
    assert_eq!(result.rows, [["\"w\""]]);
}

#[test]
fn sql_answers_that_only_look_like_dictionaries_of_nulls_are_given() {
    let answered = |name: &str, column: ArrayRef| {
        let batch = RecordBatch::try_from_iter_with_nullable([(name, column, true)]).unwrap();
        let columns = vec![name.to_string()];
        sql_batches_to_result(columns, &vec![AnswerBatch { batch }]).map(|result| result.rows)
    };
    let dictionary = |keys: Vec<Option<i8>>| -> ArrayRef {
        let nulls: ArrayRef = Arc::new(NullArray::new(1));
        Arc::new(DictionaryArray::<Int8Type>::try_new(Int8Array::from(keys), nulls).unwrap())
    };
    assert_eq!(
        answered("d", dictionary(vec![None, None])).unwrap(),
        [["null"], ["null"]]
    );
    assert!(answered("d", dictionary(Vec::new())).unwrap().is_empty());
    assert!(answered("d", dictionary(vec![None, Some(0)])).is_err());

    let trap = "\\\"Dictionary(Int8, Null)";
    let inner: ArrayRef = Arc::new(Int64Array::from(vec![7]));
    let field = Arc::new(ArrowField::new(trap, ArrowType::Int64, true));
    let column: ArrayRef = Arc::new(StructArray::from(vec![(field, inner)]));
    let expected = "{\"\\\\\\\"Dictionary(Int8, Null)\":7}";
    assert_eq!(answered("s", column).unwrap(), [[expected]]);

    let nested = Arc::new(ArrowField::new("part", dictionary(vec![Some(0)]).data_type().clone(), true));
    let column: ArrayRef = Arc::new(StructArray::from(vec![(nested, dictionary(vec![Some(0)]))]));
    assert!(answered("s", column).is_err());
}

#[test]
fn columns_are_called_by_their_places() {
    assert_eq!(place_names(3), ["0", "1", "2"]);
    assert!(place_names(0).is_empty());
    let names = place_names(1200);
    assert_eq!(names[1199], "1199");
    let distinct: std::collections::HashSet<&String> = names.iter().collect();
    assert_eq!(distinct.len(), 1200);
    assert!(columns_can_be_written(
        &vec!["Dictionary(Int8, Null)".to_string()],
        &vec![2],
        2
    ));
    assert!(!columns_can_be_written(
        &vec!["Dictionary(Int8, Null)".to_string()],
        &vec![1],
        2
    ));
}

#[test]
fn statements_that_cannot_be_parsed_are_refused() {
    for sql in [
        "SET AUTHORIZATION DEFAULT",
        "set /* no scope */ authorization someone",
        "SET HIVEVAR:AUTHORIZATION x",
        "FLUSH RELAY LOGS FOR CHANNEL",
        "SELECT 1; FLUSH RELAY LOGS FOR CHANNEL",
        "EXPLAIN SET AUTHORIZATION DEFAULT",
    ] {
        let error = ensure_select_only(sql).unwrap_err();
        assert_eq!(error.kind, ErrorKind::InvalidInput, "{sql}");
    }
    for (sql, message) in [
        (
            "UPDATE records SET authorization = 1",
            "only read-only SELECT queries are allowed",
        ),
        (
            "SELECT 1; UPDATE records SET authorization = 1",
            "exactly one SQL statement is allowed",
        ),
        (
            "FLUSH RELAY LOGS FOR CHANNEL c",
            "only read-only SELECT queries are allowed",
        ),
        (
            "SELECT 1; FLUSH LOCAL RELAY LOGS FOR CHANNEL c;",
            "exactly one SQL statement is allowed",
        ),
        (
            "SET SESSION AUTHORIZATION DEFAULT",
            "only read-only SELECT queries are allowed",
        ),
    ] {
        assert_eq!(ensure_select_only(sql).unwrap_err().message, message, "{sql}");
    }
    for sql in [
        "DROP records SET AUTHORIZATION x",
        "SET AUTHORIZATION",
        "SET AUTHORIZATION = 1",
        "nothing of RELAY LOGS FOR CHANNEL",
    ] {
        let message = ensure_select_only(sql).unwrap_err().message;
        assert!(message.starts_with("could not parse SQL: "), "{sql}: {message}");
    }
    for sql in [
        "(SELECT \"set\" authorization FROM records)",
        "VALUES (1), (2)",
        "SELECT 'set authorization' FROM records",
        "SELECT \"set\" authorization FROM records;",
        "WITH t AS (SELECT 1 AS n) SELECT n FROM t",
    ] {
        assert!(ensure_select_only(sql).is_ok(), "{sql}");
    }
}

#[test]
fn a_row_is_found_whole_before_and_after_its_merge() {
    let mut record = assistant_record("w-0");
    record.rationale = Some("reason".to_string());
    record.problem_text = Some("problem".to_string());
    let mut store = Store::fresh();
    store.add(&[record.clone()]).unwrap();
    store.flush();

    assert!(store.get_by_id_source("w-0", ListSource::Fragments).is_none());
    assert_eq!(store.get_by_id("w-0").unwrap(), record);
    store.cleanup_own_shard();
    assert_eq!(store.get_by_id("w-0").unwrap(), record);
    assert!(store.get_by_id_source("w-0", ListSource::Wal).is_none());
}

#[test]
fn pages_together_hold_each_row_once() {
    let mut store = Store::fresh();
    let ids: Vec<String> = (0..7).map(|at| format!("p-{at}")).collect();
    let records: Vec<RolloutRecord> = ids.iter().map(|id| assistant_record(id)).collect();
    store.add(&records[..3]).unwrap();
    store.cleanup_own_shard();
    store.add(&records[3..]).unwrap();
    store.flush();

    let mut seen: Vec<String> = Vec::new();
    let mut offset = 0;
    loop {
        let page =
            store.list_filtered_source(&RolloutFilters::default(), 3, offset, ListSource::All);
        assert!(page.records.iter().all(|row| row.binary_payload.is_none()));
        assert_eq!(page.records.len(), std::cmp::min(3, 7 - offset));
        seen.extend(page.records.into_iter().map(|row| row.id));
        offset += 3;
        assert_eq!(page.has_more, offset < 7);
        if !page.has_more {
            break;
        }
    }
    seen.sort();
    assert_eq!(seen, ids);
}

#[test]
fn a_dictionary_takes_a_bounded_number_of_roles() {
    let with_roles = |count: usize| -> Vec<RolloutRecord> {
        (0..count)
            .map(|at| RolloutRecord {
                role: format!("role-{at}"),
                ..assistant_record(&format!("r-{at}"))
            })
            .collect()
    };
    let mut store = Store::fresh();
    assert!(store.add(&with_roles(128)).is_ok());
    let error = store.add(&with_roles(129)).unwrap_err();
    assert_eq!(error.kind, ErrorKind::Arrow);
    assert_eq!(error.message, "Dictionary key bigger than the key type");
}

#[test]
fn shards_are_named_by_their_instance() {
    let shard = derive_shard_id(&Some("rollout-0".to_string()));
    assert_eq!(derive_shard_id(&None), derive_shard_id(&Some("default".to_string())));
    assert_eq!(
        uuid_text(0x0011_2233_4455_6677_8899_aabb_ccdd_eeff),
        "00112233-4455-6677-8899-aabbccddeeff"
    );
    assert_eq!(
        flushed_generation_uri("mem://table/", shard, "gen_1"),
        format!("mem://table/_mem_wal/{}/gen_1", uuid_text(shard))
    );
    let snapshots = vec![ShardSnapshot {
        shard_id: shard,
        flushed_generations: vec![
            Generation {
                generation: 1,
                path: "gen_1".to_string(),
            },
            Generation {
                generation: 2,
                path: "gen_2".to_string(),
            },
        ],
    }];
    assert_eq!(
        pending_uris("mem://table", &snapshots),
        [
            flushed_generation_uri("mem://table", shard, "gen_1"),
            flushed_generation_uri("mem://table", shard, "gen_2"),
        ]
    );
}

#[test]
fn a_page_names_the_row_that_is_gone() {
    let wanted = vec!["there".to_string(), "gone".to_string()];
    let base = vec![assistant_record("there")];
    let error = assemble_page(&wanted, &base, &Vec::new()).unwrap_err();
    assert!(error.message.contains("gone"), "{}", error.message);
}

#[test]
fn a_page_out_of_range_is_refused() {
    let beyond = i64::MAX as usize + 1;
    assert_eq!(
        base_scan_window(beyond, 0).unwrap_err().message,
        "pagination limit exceeds i64::MAX"
    );
    assert_eq!(
        base_scan_window(1, beyond).unwrap_err().message,
        "pagination offset exceeds i64::MAX"
    );
    assert_eq!(base_scan_window(1, 2).unwrap(), (2, 2));
    assert_eq!(page_scan_limit(usize::MAX), usize::MAX);
}
