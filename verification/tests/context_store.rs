//! Records written to and read from a table that is held in memory.
//!
//! `Table` stands where the storage engine would: it keeps batches, hands them
//! out again and lets the newest row of a key win. Every decision, every
//! conversion and every check is the library's.

use lance_context_core::batch::Batch;
use lance_context_core::context_decode::batch_to_records;
use lance_context_core::context_schema::{
    distance_metric_from_schema, reject_blob_v2_schema, schema_with_options, ColumnGroups,
};
use lance_context_core::context_store::{
    missing_relationships_column, validate_options, ContextStore, ContextStoreOptions,
    DEFAULT_EMBEDDING_DIM,
};
use lance_context_core::error::StoreError;
use lance_context_core::fusion::{
    plan_retrieve, plan_search, rank_candidates, rank_search, retrieve_candidates,
    retrieve_projection, search_projection, RetrieveResult, SearchResult,
};
use lance_context_core::listing::{
    find_by_external_id, find_by_id, list_records, related_records,
};
use lance_context_core::merge::PreparedMerge;
use lance_context_core::metric::DistanceMetric;
use lance_context_core::patch::{
    find_update_target_by_external_id, find_update_target_by_id, payload_reference,
    tombstone_by_external_id, tombstone_by_id, tombstone_for, update_record, RecordPatch,
};
use lance_context_core::point_read::payload_with_key;
use lance_context_core::projection::{projected_columns, IdIndexType, ReadProjection};
use lance_context_core::record::{ContextRecord, Relationship, StateMetadata};
use lance_context_core::retrieve::{lexical_match, unique_query_terms};
use lance_context_core::schema::{
    metadata_value, scalar, DataType, Field, Scalar, Schema,
};
use lance_context_core::shard::{
    drain_manifest, pending_generations, Generation, ShardManifest, ShardSnapshot,
};
use lance_context_core::storage::{start_flush, start_put, step_put, FlushStep, PutAction, PutEvent, WriterSlot};
use lance_context_core::writes::{
    check_batch_keys, check_existing_keys, check_upsert, check_upsert_batch, existing_external_ids,
    existing_ids, plan_upsert, plan_upserts, UpsertPlan,
};

const URI: &str = "mem://contexts";
const ACTIVE: &str = "active";
const TOMBSTONE: &str = "application/x-lance-context-tombstone";
const TEXT: &str = "text/plain";
const NOW: i64 = 1_700_000_000_000_000;
const MINUTE: i64 = 60_000_000;
const BLOB_MARKER: &str = "lance-context:blob";
const LANCE_BLOB_ENCODING: &str = "lance-encoding:blob";

/// What a read includes besides the active records.
#[derive(Clone, Copy)]
struct Lifecycle {
    expired: bool,
    retired: bool,
}

const DEFAULT_READ: Lifecycle = Lifecycle {
    expired: false,
    retired: false,
};

impl Lifecycle {
    fn shows(self, record: &ContextRecord) -> bool {
        !record.is_tombstone(TOMBSTONE)
            && (self.expired || record.expires_at.map_or(true, |at| at > NOW))
            && (self.retired || record.lifecycle_status == ACTIVE)
    }
}

struct Table {
    schema: Schema,
    store: ContextStore,
    seal_on_add: bool,
    base: Vec<Batch>,
    manifest: ShardManifest,
    sealed: Vec<Vec<Batch>>,
    open: Vec<Batch>,
    updates: usize,
}

impl Table {
    fn open() -> Table {
        Table::open_with_options(ContextStoreOptions::default()).unwrap()
    }

    fn open_with_options(options: ContextStoreOptions) -> Result<Table, StoreError> {
        let dim = validate_options(&options)?;
        let metric = options.distance_metric.unwrap_or_default();
        let schema = ContextStore::schema_for_new_table(&options.blob_columns, dim, metric);
        Table::over(schema, options, true)
    }

    fn over(
        schema: Schema,
        options: ContextStoreOptions,
        created: bool,
    ) -> Result<Table, StoreError> {
        let seal_on_add = options.seal_on_add;
        let (store, base) = ContextStore::open(URI.to_string(), options, created, &schema)?;
        assert_eq!(base.seal_on_put, seal_on_add);
        assert_eq!(base.key_column, "id");
        Ok(Table {
            schema,
            store,
            seal_on_add,
            base: Vec::new(),
            manifest: ShardManifest {
                version: 1,
                writer_epoch: 1,
                shard_spec_id: 0,
                current_generation: 1,
                replay_after_wal_entry_position: 0,
                wal_entry_position_last_seen: 0,
                flushed_generations: Vec::new(),
            },
            sealed: Vec::new(),
            open: Vec::new(),
            updates: 0,
        })
    }

    fn reopen(&self, options: ContextStoreOptions) -> Result<Table, StoreError> {
        validate_options(&options)?;
        let mut table = Table::over(self.schema.clone(), options, false)?;
        table.base = self.base.clone();
        table.manifest = self.manifest.clone();
        table.sealed = self.sealed.clone();
        Ok(table)
    }

    /// What is visible to reads, oldest first.
    fn batches(&self) -> Vec<&Batch> {
        self.base
            .iter()
            .chain(self.sealed.iter().flatten())
            .collect()
    }

    fn seal(&mut self) {
        if self.open.is_empty() {
            return;
        }
        let generation = self.manifest.current_generation;
        self.manifest.flushed_generations.push(Generation {
            generation,
            path: format!("gen_{generation}"),
        });
        self.manifest.current_generation += 1;
        let batches = std::mem::take(&mut self.open);
        self.sealed.push(batches);
    }

    fn flush(&mut self) {
        let slot = WriterSlot { resident: Some(1) };
        assert_eq!(start_flush(&slot), FlushStep::Seal(1));
        self.seal();
    }

    fn put(&mut self, batch: Option<Batch>) {
        let mut pending = batch;
        let (mut stage, mut action) = start_put(pending.is_none());
        loop {
            let event = match action {
                PutAction::AcquireWriter | PutAction::ReplaceWriter(_) => PutEvent::WriterReady(1),
                PutAction::Put(_) => {
                    self.open.extend(pending.take());
                    PutEvent::PutDone
                }
                PutAction::Seal => {
                    self.seal();
                    PutEvent::SealDone
                }
                PutAction::Succeed => return,
                PutAction::Fail(message) => panic!("{message}"),
            };
            let next = step_put(stage, self.seal_on_add, event);
            stage = next.0;
            action = next.1;
        }
    }

    fn append(&mut self, records: Vec<ContextRecord>) -> Result<(), StoreError> {
        let batch = self
            .store
            .records_to_batch(&records, &self.schema, ACTIVE)
            .map_err(|error| error.report("expected", "found"))?;
        self.put(Some(batch));
        Ok(())
    }

    /// The newest row of every id, read through a projection.
    fn scan(&self, projection: ReadProjection) -> Vec<ContextRecord> {
        let columns = projected_columns(&self.schema.column_names(), projection);
        let mut rows: Vec<ContextRecord> = Vec::new();
        for batch in self.batches() {
            let read = only(batch, &columns);
            for record in batch_to_records(&read, ACTIVE).unwrap() {
                rows.retain(|row| row.id != record.id);
                rows.push(record);
            }
        }
        rows
    }

    fn keys(&self) -> Batch {
        let rows = self.scan(ReadProjection::default());
        let batch = self.store.records_to_batch(&rows, &self.schema, ACTIVE).unwrap();
        let wanted = ["id", "external_id", "content_type"].map(String::from).to_vec();
        only(&batch, &wanted)
    }

    fn taken_ids(&self, records: &[ContextRecord]) -> Vec<String> {
        let ids = records.iter().map(|record| record.id.clone()).collect();
        existing_ids(&self.keys(), &ids, TOMBSTONE).unwrap()
    }

    fn add(&mut self, records: &[ContextRecord]) -> Result<(), StoreError> {
        let records = records.to_vec();
        check_batch_keys(&records, TOMBSTONE)?;
        let external = records.iter().filter_map(|r| r.external_id.clone()).collect();
        check_existing_keys(
            &records,
            &self.taken_ids(&records),
            &existing_external_ids(&self.keys(), &external, TOMBSTONE).unwrap(),
        )?;
        self.append(records)
    }

    fn read(
        &self,
        limit: Option<usize>,
        offset: Option<usize>,
        lifecycle: Lifecycle,
        projection: ReadProjection,
    ) -> Vec<ContextRecord> {
        let rows = self.scan(projection);
        let visible = rows.iter().map(|row| lifecycle.shows(row)).collect();
        list_records(rows, &visible, &None, lifecycle.retired, limit, offset)
    }

    fn list(&self) -> Vec<ContextRecord> {
        self.read(None, None, DEFAULT_READ, self.store.default_read_projection())
    }

    fn list_with(&self, expired: bool, retired: bool) -> Vec<ContextRecord> {
        self.read(
            None,
            None,
            Lifecycle { expired, retired },
            self.store.default_read_projection(),
        )
    }

    fn get_by_id(&self, id: &str) -> Option<ContextRecord> {
        let rows = self.list();
        find_by_id(&rows, id).map(|at| rows[at].clone())
    }

    fn get_by_external_id(&self, external_id: &str) -> Option<ContextRecord> {
        let rows = self.list();
        find_by_external_id(&rows, external_id).map(|at| rows[at].clone())
    }

    fn upsert_by_external_id(&mut self, record: ContextRecord) -> Result<UpsertPlan, StoreError> {
        check_upsert(&record, TOMBSTONE)?;
        let taken = self.taken_ids(std::slice::from_ref(&record));
        let plan = plan_upsert(record, TOMBSTONE, &taken, &self.list())?;
        self.append(vec![plan.record.clone()])?;
        Ok(plan)
    }

    fn upsert_many_by_external_id(
        &mut self,
        records: Vec<ContextRecord>,
    ) -> Result<Vec<UpsertPlan>, StoreError> {
        if records.is_empty() {
            return Ok(Vec::new());
        }
        check_upsert_batch(&records, TOMBSTONE)?;
        let taken = self.taken_ids(&records);
        let rows = self.scan(ReadProjection::metadata_only());
        let visible = rows.iter().map(|row| DEFAULT_READ.shows(row)).collect();
        let plans = plan_upserts(&records, TOMBSTONE, &taken, &rows, &visible)?;
        self.append(plans.iter().map(|plan| plan.record.clone()).collect())?;
        Ok(plans)
    }

    fn apply(&mut self, existing: &ContextRecord, patch: RecordPatch) -> ContextRecord {
        self.updates += 1;
        let id = format!("updated-{}", self.updates);
        let run_id = format!("run-{id}");
        let record = update_record(existing, patch, id, run_id, NOW).unwrap();
        self.append(vec![record.clone()]).unwrap();
        record
    }

    fn full_list(&self) -> Vec<ContextRecord> {
        self.read(None, None, DEFAULT_READ, ReadProjection::default())
    }

    fn update_by_id(&mut self, id: &str, patch: RecordPatch) -> Option<ContextRecord> {
        let rows = self.full_list();
        let at = find_update_target_by_id(&rows, id).unwrap()?;
        Some(self.apply(&rows[at], patch))
    }

    fn update_by_external_id(
        &mut self,
        external_id: &str,
        patch: RecordPatch,
    ) -> Option<ContextRecord> {
        let rows = self.full_list();
        let at = find_update_target_by_external_id(&rows, external_id).unwrap()?;
        Some(self.apply(&rows[at], patch))
    }

    fn bury(&mut self, tombstone: Option<ContextRecord>) -> bool {
        match tombstone {
            Some(tombstone) => {
                self.append(vec![tombstone]).unwrap();
                true
            }
            None => false,
        }
    }

    fn delete_by_id(&mut self, id: &str) -> bool {
        let tombstone = tombstone_by_id(self.list(), id, NOW, TOMBSTONE, ACTIVE);
        self.bury(tombstone)
    }

    fn delete_by_external_id(&mut self, external_id: &str) -> bool {
        let rows = self.list();
        let tombstone = tombstone_by_external_id(rows, external_id, NOW, TOMBSTONE, ACTIVE);
        self.bury(tombstone)
    }

    fn search_projected(
        &self,
        query: &[f32],
        limit: Option<usize>,
        lifecycle: Lifecycle,
        projection: ReadProjection,
    ) -> Result<Vec<SearchResult>, StoreError> {
        let wanted = match plan_search(query.len(), self.store.embedding_dim(), limit)? {
            Some(wanted) => wanted,
            None => return Ok(Vec::new()),
        };
        let records = self.read(None, None, lifecycle, search_projection(projection));
        let distances = self.distances(query, &records);
        Ok(rank_search(records, &distances, projection.embedding, wanted))
    }

    fn search(&self, query: &[f32], limit: Option<usize>) -> Result<Vec<SearchResult>, StoreError> {
        self.search_projected(
            query,
            limit,
            DEFAULT_READ,
            self.store.default_read_projection(),
        )
    }

    fn distances(&self, query: &[f32], records: &[ContextRecord]) -> Vec<Option<u32>> {
        records
            .iter()
            .map(|record| {
                let embedding = floats(record.embedding.as_ref()?);
                Some(distance(self.store.distance_metric(), query, &embedding).to_bits())
            })
            .collect()
    }

    fn retrieve(
        &self,
        text: Option<&str>,
        query: Option<&[f32]>,
        limit: Option<usize>,
    ) -> Result<Vec<RetrieveResult>, StoreError> {
        let terms = text.map(unique_query_terms).unwrap_or_default();
        let dim = self.store.embedding_dim();
        let plan = match plan_retrieve(&terms, query.map(<[f32]>::len), dim, limit)? {
            Some(plan) => plan,
            None => return Ok(Vec::new()),
        };
        let projection = retrieve_projection(self.store.default_read_projection(), plan.has_text);
        let records = self.read(None, None, DEFAULT_READ, projection);
        let distances = query.map(|query| self.distances(query, &records));
        let matches = if plan.has_text {
            let found = records.iter().map(|record| {
                let (found, all) = lexical_match(&terms, &record.text_payload)?;
                Some((found as f32 / all as f32).to_bits())
            });
            Some(found.collect())
        } else {
            None
        };
        let candidates = retrieve_candidates(&records, &distances, &matches);
        let scores = candidates
            .iter()
            .map(|candidate| {
                let mut score = 0.0_f32;
                for rank in &candidate.ranks {
                    score += 1.0 / (60.0 + *rank as f32);
                }
                score.to_bits()
            })
            .collect();
        Ok(rank_candidates(&records, candidates, &scores, plan.wanted))
    }

    fn get_blob(&self, id: &str) -> Option<Vec<u8>> {
        for batch in self.batches().into_iter().rev() {
            if let Some(found) = payload_with_key(batch, "id", id, "binary_payload").unwrap() {
                return found;
            }
        }
        None
    }

    fn fetch_payload(&self, id: &str) -> Result<Option<String>, StoreError> {
        match self.get_by_id(id) {
            Some(record) => payload_reference(&record, id).map(Some),
            None => Ok(None),
        }
    }

    fn pending_wal_generations(&self) -> usize {
        pending_generations(&vec![ShardSnapshot {
            shard_id: 0,
            flushed_generations: self.manifest.flushed_generations.clone(),
        }])
    }

    fn cleanup_wal(&mut self) -> usize {
        let mut prepared = PreparedMerge::new(self.schema.clone());
        for (generation, batches) in self.manifest.flushed_generations.iter().zip(&self.sealed) {
            prepared.add_generation(generation, batches).unwrap();
        }
        self.manifest = drain_manifest(&self.manifest, &prepared.merged_generations);
        self.sealed.clear();
        let count = prepared.generation_count();
        self.base.extend(prepared.batches);
        count
    }

    fn has_relationships_column(&self) -> bool {
        self.schema.has_column("relationships")
    }

    fn migrate_relationships_column(&mut self) -> bool {
        match missing_relationships_column(&self.schema) {
            Some(field) => {
                self.schema.fields.push(field);
                true
            }
            None => false,
        }
    }
}

fn only(batch: &Batch, columns: &[String]) -> Batch {
    let mut read = batch.clone();
    read.columns.retain(|column| columns.contains(&column.name));
    read
}

fn bits(values: &[f32]) -> Vec<u32> {
    values.iter().map(|value| value.to_bits()).collect()
}

fn floats(values: &[u32]) -> Vec<f32> {
    values.iter().map(|value| f32::from_bits(*value)).collect()
}

fn dot(left: &[f32], right: &[f32]) -> f32 {
    left.iter().zip(right).map(|(l, r)| l * r).sum()
}

fn distance(metric: DistanceMetric, left: &[f32], right: &[f32]) -> f32 {
    match metric {
        DistanceMetric::L2 => left
            .iter()
            .zip(right)
            .map(|(l, r)| (l - r) * (l - r))
            .sum::<f32>()
            .sqrt(),
        DistanceMetric::Cosine => {
            1.0 - dot(left, right) / (dot(left, left).sqrt() * dot(right, right).sqrt())
        }
        DistanceMetric::Dot => -dot(left, right),
    }
}

fn make_embedding_with_dim(dim: usize, pivot: f32) -> Vec<f32> {
    let mut values = vec![0.0; dim];
    if !values.is_empty() {
        values[0] = pivot;
    }
    values
}

fn make_embedding(pivot: f32) -> Vec<f32> {
    make_embedding_with_dim(DEFAULT_EMBEDDING_DIM as usize, pivot)
}

fn make_embedding2(x0: f32, x1: f32) -> Vec<f32> {
    let mut values = vec![0.0; DEFAULT_EMBEDDING_DIM as usize];
    values[0] = x0;
    values[1] = x1;
    values
}

fn text_record(id: &str, embedding_pivot: f32) -> ContextRecord {
    ContextRecord {
        id: id.to_string(),
        external_id: None,
        run_id: format!("run-{id}"),
        bot_id: None,
        session_id: None,
        tenant: None,
        source: None,
        created_at: NOW,
        role: "user".to_string(),
        state_metadata: Some(StateMetadata {
            step: Some(1),
            active_plan_id: Some("plan".to_string()),
            tokens_used: Some(10),
            custom: None,
        }),
        metadata: None,
        relationships: Vec::new(),
        expires_at: None,
        retention_policy: None,
        lifecycle_status: ACTIVE.to_string(),
        retired_at: None,
        retired_reason: None,
        supersedes_id: None,
        superseded_by_id: None,
        content_type: TEXT.to_string(),
        text_payload: Some(format!("payload-{id}")),
        binary_payload: None,
        payload_uri: None,
        payload_size: None,
        payload_checksum: None,
        embedding: Some(bits(&make_embedding(embedding_pivot))),
    }
}

fn text_record_with(id: &str, embedding: Vec<f32>) -> ContextRecord {
    let mut record = text_record(id, 0.0);
    record.embedding = Some(bits(&embedding));
    record
}

fn upsert_record(id: &str, external_id: &str, pivot: f32) -> ContextRecord {
    let mut record = text_record(id, pivot);
    record.external_id = Some(external_id.to_string());
    record
}

fn with_metric(metric: DistanceMetric) -> ContextStoreOptions {
    ContextStoreOptions {
        distance_metric: Some(metric),
        ..Default::default()
    }
}

fn with_dim(dim: i32) -> ContextStoreOptions {
    ContextStoreOptions {
        embedding_dim: Some(dim),
        ..Default::default()
    }
}

fn with_blobs(columns: &[&str]) -> ContextStoreOptions {
    ContextStoreOptions {
        blob_columns: names(columns),
        ..Default::default()
    }
}

fn with_index(id_index_type: IdIndexType) -> ContextStoreOptions {
    ContextStoreOptions {
        id_index_type,
        ..Default::default()
    }
}

fn names(columns: &[&str]) -> Vec<String> {
    columns.iter().map(|name| name.to_string()).collect()
}

fn field<'a>(schema: &'a Schema, name: &str) -> &'a Field {
    &schema.fields[schema.index_of(name).unwrap()]
}

fn entry<'a>(field: &'a Field, key: &str) -> Option<&'a str> {
    metadata_value(&field.metadata, key).map(String::as_str)
}

fn ids(records: &[ContextRecord]) -> Vec<&str> {
    let mut ids: Vec<&str> = records.iter().map(|record| record.id.as_str()).collect();
    ids.sort_unstable();
    ids
}

#[test]
fn external_payload_reference_roundtrips_add_list_and_fetch() {
    let mut table = Table::open();
    let payload = b"\x89PNG\r\n\x1a\n external media bytes".to_vec();
    let object_uri = "s3://media/media-001.bin";

    let mut record = text_record("media-001", 0.5);
    record.content_type = "image/png".to_string();
    record.text_payload = None;
    record.payload_uri = Some(object_uri.to_string());
    record.payload_size = Some(payload.len() as i64);
    record.payload_checksum = Some("sha256:deadbeef".to_string());
    table.add(std::slice::from_ref(&record)).unwrap();

    let listed = table.list();
    assert_eq!(listed.len(), 1);
    let listed = &listed[0];
    assert_eq!(listed.payload_uri.as_deref(), Some(object_uri));
    assert_eq!(listed.payload_size, Some(payload.len() as i64));
    assert_eq!(listed.payload_checksum.as_deref(), Some("sha256:deadbeef"));
    assert_eq!(listed.binary_payload, None);

    let fetched = table.fetch_payload(&record.id).unwrap();
    assert_eq!(fetched.as_deref(), Some(object_uri));
}

#[test]
fn fetch_payload_handles_missing_record_and_missing_reference() {
    let mut table = Table::open();
    assert_eq!(table.fetch_payload("does-not-exist").unwrap(), None);

    let record = text_record("inline-1", 0.1);
    table.add(std::slice::from_ref(&record)).unwrap();
    let err = table.fetch_payload(&record.id).unwrap_err();
    assert!(err.message.contains("no external payload reference"));
}

#[test]
fn search_orders_by_distance() {
    let mut table = Table::open();
    let first = text_record("a", 0.0);
    let second = text_record("b", 1.0);
    table.add(&[first, second.clone()]).unwrap();

    let results = table.search(&make_embedding(1.0), Some(2)).unwrap();
    assert_eq!(results.len(), 2);
    assert_eq!(results[0].record.id, second.id);
    assert!(f32::from_bits(results[0].distance) <= f32::from_bits(results[1].distance));
}

#[test]
fn search_validates_query_length() {
    let table = Table::open();
    let err = table.search(&[0.0_f32], None).unwrap_err();
    assert!(
        err.message.contains("embedding dimension"),
        "unexpected error message: {}",
        err.message
    );
}

#[test]
fn search_metric_changes_ranking() {
    let query = make_embedding2(1.0, 0.0);
    let aligned = make_embedding2(10.0, 0.0);
    let near = make_embedding2(1.0, 1.0);
    let records = [
        text_record_with("aligned", aligned),
        text_record_with("near", near),
    ];

    let mut l2 = Table::open();
    l2.add(&records).unwrap();
    assert_eq!(l2.search(&query, Some(2)).unwrap()[0].record.id, "near");

    let mut cosine = Table::open_with_options(with_metric(DistanceMetric::Cosine)).unwrap();
    cosine.add(&records).unwrap();
    assert_eq!(cosine.search(&query, Some(2)).unwrap()[0].record.id, "aligned");

    let mut dot = Table::open_with_options(with_metric(DistanceMetric::Dot)).unwrap();
    dot.add(&records).unwrap();
    assert_eq!(dot.search(&query, Some(2)).unwrap()[0].record.id, "aligned");
}

#[test]
fn distance_metric_persists_across_reopen() {
    let query = make_embedding2(1.0, 0.0);
    let mut created = Table::open_with_options(with_metric(DistanceMetric::Cosine)).unwrap();
    created
        .add(&[
            text_record_with("aligned", make_embedding2(10.0, 0.0)),
            text_record_with("near", make_embedding2(1.0, 1.0)),
        ])
        .unwrap();

    let reopened = created.reopen(ContextStoreOptions::default()).unwrap();
    assert_eq!(reopened.store.distance_metric(), DistanceMetric::Cosine);
    let results = reopened.search(&query, Some(2)).unwrap();
    assert_eq!(results[0].record.id, "aligned");
}

#[test]
fn distance_metric_mismatch_errors() {
    let created = Table::open_with_options(with_metric(DistanceMetric::Cosine)).unwrap();
    let err = match created.reopen(with_metric(DistanceMetric::Dot)) {
        Ok(_) => panic!("expected a distance-metric mismatch error"),
        Err(err) => err,
    };
    assert!(err.message.contains("distance metric"));
}

#[test]
fn distance_metric_from_schema_defaults_l2_when_absent() {
    let schema = Schema {
        fields: vec![Field::new("id", scalar(Scalar::Utf8), false)],
        metadata: Vec::new(),
    };
    assert_eq!(
        distance_metric_from_schema(&schema).unwrap(),
        DistanceMetric::L2
    );
}

#[test]
fn distance_metric_parse_and_math() {
    assert_eq!(DistanceMetric::parse("l2").unwrap(), DistanceMetric::L2);
    assert_eq!(DistanceMetric::parse("L2").unwrap(), DistanceMetric::L2);
    assert_eq!(
        DistanceMetric::parse("cosine").unwrap(),
        DistanceMetric::Cosine
    );
    assert_eq!(DistanceMetric::parse("DOT").unwrap(), DistanceMetric::Dot);
    assert!(DistanceMetric::parse("manhattan").is_err());
    assert_eq!(DistanceMetric::default(), DistanceMetric::L2);
}

#[test]
fn retrieve_fuses_text_and_vector_channels() {
    let mut table = Table::open();
    let mut semantic_near = text_record("semantic-near", 0.0);
    semantic_near.text_payload = Some("general rollout risk guidance".to_string());
    let mut exact_policy = text_record("exact-policy", 1.0);
    exact_policy.text_payload = Some("POLICY-123 blocks service-a rollouts".to_string());
    table.add(&[semantic_near, exact_policy.clone()]).unwrap();

    let query = make_embedding(0.0);
    let results = table
        .retrieve(Some("POLICY-123 service-a"), Some(&query), Some(2))
        .unwrap();

    assert_eq!(results.len(), 2);
    assert_eq!(results[0].record.id, exact_policy.id);
    assert!(f32::from_bits(results[0].score) > f32::from_bits(results[1].score));
    assert!(results[0].vector_distance.is_some());
    assert_eq!(results[0].text_score.map(f32::from_bits), Some(1.0));
    assert_eq!(results[0].matched_channels, ["vector", "text"]);
}

#[test]
fn custom_embedding_dimension_round_trips_add_search_and_reopen() {
    let mut table = Table::open_with_options(with_dim(3)).unwrap();
    assert_eq!(table.store.embedding_dim(), 3);

    let first = text_record_with("custom-a", make_embedding_with_dim(3, 0.0));
    let second = text_record_with("custom-b", make_embedding_with_dim(3, 1.0));
    table.add(&[first, second.clone()]).unwrap();

    let query = make_embedding_with_dim(3, 1.0);
    assert_eq!(table.search(&query, Some(2)).unwrap()[0].record.id, second.id);

    let reopened = table.reopen(ContextStoreOptions::default()).unwrap();
    assert_eq!(reopened.store.embedding_dim(), 3);
    assert_eq!(reopened.search(&query, Some(1)).unwrap()[0].record.id, second.id);

    let err = reopened.search(&make_embedding(1.0), None).unwrap_err();
    assert!(err.message.contains("embedding dimension 3"));
}

#[test]
fn existing_default_dimension_dataset_opens_without_options() {
    let mut table = Table::open();
    assert_eq!(table.store.embedding_dim(), DEFAULT_EMBEDDING_DIM);
    table.add(&[text_record("default-dim", 0.0)]).unwrap();

    let reopened = table.reopen(ContextStoreOptions::default()).unwrap();
    assert_eq!(reopened.store.embedding_dim(), DEFAULT_EMBEDDING_DIM);
    reopened.search(&make_embedding(0.0), Some(1)).unwrap();
}

#[test]
fn opening_existing_dataset_rejects_mismatched_requested_dimension() {
    let created = Table::open_with_options(with_dim(3)).unwrap();
    let err = match created.reopen(with_dim(4)) {
        Ok(_) => panic!("expected mismatched embedding dimension to fail"),
        Err(err) => err,
    };
    assert!(err.message.contains("does not match requested dimension 4"));
}

#[test]
fn list_hides_expired_and_retired_records_by_default() {
    let mut table = Table::open();
    let active = text_record("active", 0.0);
    let mut expired = text_record("expired", 0.0);
    expired.expires_at = Some(NOW - MINUTE);
    let mut superseded = text_record("superseded", 0.0);
    superseded.lifecycle_status = "superseded".to_string();
    superseded.retired_reason = Some("replaced by newer fact".to_string());
    superseded.superseded_by_id = Some("active".to_string());
    table
        .add(&[active.clone(), expired.clone(), superseded.clone()])
        .unwrap();

    let visible = table.list();
    assert_eq!(visible.len(), 1);
    assert_eq!(visible[0].id, active.id);

    let all = table.list_with(true, true);
    assert_eq!(all.len(), 3);
    let expired_roundtrip = all.iter().find(|record| record.id == expired.id).unwrap();
    assert_eq!(expired_roundtrip.expires_at, expired.expires_at);
    let superseded_roundtrip = all
        .iter()
        .find(|record| record.id == superseded.id)
        .unwrap();
    assert_eq!(superseded_roundtrip.lifecycle_status, "superseded");
    assert_eq!(
        superseded_roundtrip.superseded_by_id.as_deref(),
        Some("active")
    );
}

#[test]
fn list_hides_records_superseded_by_newer_pointer() {
    let mut table = Table::open();
    let old = text_record("old", 0.0);
    let mut replacement = text_record("new", 1.0);
    replacement.supersedes_id = Some(old.id.clone());
    table.add(&[old, replacement]).unwrap();

    assert_eq!(ids(&table.list()), ["new"]);
    assert_eq!(ids(&table.list_with(false, true)), ["new", "old"]);
}

#[test]
fn search_filters_lifecycle_before_ranking() {
    let mut table = Table::open();
    let active = text_record("active", 1.0);
    let mut expired = text_record("expired", 0.0);
    expired.expires_at = Some(NOW - MINUTE);
    table.add(&[active, expired]).unwrap();

    let query = make_embedding(0.0);
    let visible = table.search(&query, Some(1)).unwrap();
    assert_eq!(visible.len(), 1);
    assert_eq!(visible[0].record.id, "active");

    let all = table
        .search_projected(
            &query,
            Some(1),
            Lifecycle {
                expired: true,
                retired: false,
            },
            table.store.default_read_projection(),
        )
        .unwrap();
    assert_eq!(all.len(), 1);
    assert_eq!(all[0].record.id, "expired");
}

#[test]
fn external_id_roundtrips_and_supports_lookup() {
    let mut table = Table::open();
    let record = upsert_record("a", "doc-123#chunk-1", 0.0);
    table.add(std::slice::from_ref(&record)).unwrap();

    let by_external_id = table.get_by_external_id("doc-123#chunk-1").unwrap();
    assert_eq!(by_external_id.id, record.id);
    assert_eq!(by_external_id.external_id, record.external_id);
    assert_eq!(by_external_id, record);

    let by_id = table.get_by_id(&record.id).unwrap();
    assert_eq!(by_id.external_id.as_deref(), Some("doc-123#chunk-1"));
    assert!(table.get_by_external_id("missing").is_none());
}

#[test]
fn upsert_by_external_id_inserts_then_replaces_visible_record() {
    let mut table = Table::open();
    let first = upsert_record("first", "doc-123#chunk-1", 0.0);
    let inserted = table.upsert_by_external_id(first.clone()).unwrap();
    assert!(inserted.inserted());
    assert_eq!(inserted.replaced_id, None);
    assert_eq!(inserted.record.id, first.id);

    let replacement = upsert_record("replacement", "doc-123#chunk-1", 1.0);
    let replaced = table.upsert_by_external_id(replacement.clone()).unwrap();
    assert!(!replaced.inserted());
    assert_eq!(replaced.replaced_id.as_deref(), Some("first"));
    assert_eq!(replaced.record.supersedes_id.as_deref(), Some("first"));

    assert_eq!(ids(&table.list()), ["replacement"]);
    assert_eq!(
        table.get_by_external_id("doc-123#chunk-1").unwrap().id,
        replacement.id
    );
    assert_eq!(
        ids(&table.list_with(false, true)),
        ["first", "replacement"]
    );
}

#[test]
fn upsert_many_inserts_new_records() {
    let mut table = Table::open();
    let results = table
        .upsert_many_by_external_id(vec![
            upsert_record("a", "ext-a", 0.0),
            upsert_record("b", "ext-b", 1.0),
        ])
        .unwrap();
    assert_eq!(results.len(), 2);
    assert!(results.iter().all(|r| r.inserted()));
    assert!(results.iter().all(|r| r.replaced_id.is_none()));
    assert_eq!(table.list().len(), 2);
}

#[test]
fn upsert_many_replaces_existing_and_is_idempotent() {
    let mut table = Table::open();
    table
        .upsert_many_by_external_id(vec![
            upsert_record("a1", "ext-a", 0.0),
            upsert_record("b1", "ext-b", 1.0),
        ])
        .unwrap();
    let results = table
        .upsert_many_by_external_id(vec![
            upsert_record("a2", "ext-a", 2.0),
            upsert_record("b2", "ext-b", 3.0),
        ])
        .unwrap();

    assert!(results.iter().all(|r| !r.inserted()));
    assert_eq!(results[0].replaced_id.as_deref(), Some("a1"));
    assert_eq!(results[1].replaced_id.as_deref(), Some("b1"));
    assert_eq!(results[0].record.supersedes_id.as_deref(), Some("a1"));
    assert_eq!(ids(&table.list()), ["a2", "b2"]);

    table
        .upsert_many_by_external_id(vec![
            upsert_record("a3", "ext-a", 4.0),
            upsert_record("b3", "ext-b", 5.0),
        ])
        .unwrap();
    assert_eq!(table.list().len(), 2);
}

#[test]
fn upsert_many_handles_mixed_insert_and_replace() {
    let mut table = Table::open();
    table
        .upsert_many_by_external_id(vec![upsert_record("a1", "ext-a", 0.0)])
        .unwrap();
    let results = table
        .upsert_many_by_external_id(vec![
            upsert_record("a2", "ext-a", 1.0),
            upsert_record("c1", "ext-c", 2.0),
        ])
        .unwrap();

    assert_eq!(results.len(), 2);
    assert!(!results[0].inserted());
    assert_eq!(results[0].replaced_id.as_deref(), Some("a1"));
    assert!(results[1].inserted());
    assert!(results[1].replaced_id.is_none());
    assert_eq!(ids(&table.list()), ["a2", "c1"]);
}

#[test]
fn upsert_many_rejects_within_batch_duplicate_external_id() {
    let mut table = Table::open();
    let err = table
        .upsert_many_by_external_id(vec![
            upsert_record("a", "dup", 0.0),
            upsert_record("b", "dup", 1.0),
        ])
        .unwrap_err();
    assert!(err.message.contains("duplicate external_id 'dup' in batch"));
    assert_eq!(table.list().len(), 0);
}

#[test]
fn upsert_many_rejects_within_batch_duplicate_id() {
    let mut table = Table::open();
    let err = table
        .upsert_many_by_external_id(vec![
            upsert_record("same", "ext-a", 0.0),
            upsert_record("same", "ext-b", 1.0),
        ])
        .unwrap_err();
    assert!(err.message.contains("duplicate id 'same' in batch"));
}

#[test]
fn upsert_many_rejects_missing_external_id() {
    let mut table = Table::open();
    let err = table
        .upsert_many_by_external_id(vec![text_record("a", 0.0)])
        .unwrap_err();
    assert!(err.message.contains("external_id"));

    let err = table
        .upsert_many_by_external_id(vec![upsert_record("b", "", 0.0)])
        .unwrap_err();
    assert!(err.message.contains("non-empty external_id"));
}

#[test]
fn upsert_many_rejects_id_collision_with_store() {
    let mut table = Table::open();
    table.add(&[text_record("taken", 0.0)]).unwrap();
    let err = table
        .upsert_many_by_external_id(vec![upsert_record("taken", "ext-a", 1.0)])
        .unwrap_err();
    assert!(err.message.contains("id 'taken'") && err.message.contains("already exists"));
}

#[test]
fn upsert_many_empty_batch_is_noop() {
    let mut table = Table::open();
    assert!(table
        .upsert_many_by_external_id(Vec::new())
        .unwrap()
        .is_empty());
}

#[test]
fn upsert_many_matches_single_upsert_with_btree_index() {
    let mut table = Table::open_with_options(with_index(IdIndexType::BTree)).unwrap();
    table
        .upsert_by_external_id(upsert_record("a1", "ext-a", 0.0))
        .unwrap();
    let results = table
        .upsert_many_by_external_id(vec![
            upsert_record("a2", "ext-a", 1.0),
            upsert_record("b1", "ext-b", 2.0),
        ])
        .unwrap();
    assert_eq!(results[0].replaced_id.as_deref(), Some("a1"));
    assert!(results[1].inserted());
    assert_eq!(table.get_by_external_id("ext-a").unwrap().id, "a2");
}

#[test]
fn update_by_external_id_patches_mutable_fields_and_preserves_payload() {
    let mut table = Table::open();
    let mut record = upsert_record("stable", "doc-123#chunk-1", 0.0);
    record.metadata = Some(r#"{"revision":1}"#.to_string());
    table.add(std::slice::from_ref(&record)).unwrap();

    let patch = RecordPatch {
        bot_id: Some("bot-a".to_string()),
        session_id: Some("session-a".to_string()),
        metadata: Some(r#"{"confidence":0.9,"revision":2}"#.to_string()),
        relationships: Some(vec![Relationship {
            target_id: "doc-123".to_string(),
            relation: "derived_from".to_string(),
            weight: None,
        }]),
        ..Default::default()
    };
    let updated = table
        .update_by_external_id("doc-123#chunk-1", patch)
        .unwrap();

    assert_ne!(updated.id, record.id);
    assert_eq!(updated.external_id, record.external_id);
    assert_eq!(updated.text_payload, record.text_payload);
    assert_eq!(updated.embedding, record.embedding);
    assert_eq!(updated.bot_id.as_deref(), Some("bot-a"));
    assert_eq!(updated.session_id.as_deref(), Some("session-a"));
    assert_eq!(
        updated.metadata.as_deref(),
        Some(r#"{"confidence":0.9,"revision":2}"#)
    );
    assert_eq!(updated.relationships.len(), 1);
    assert_eq!(updated.supersedes_id.as_deref(), Some(record.id.as_str()));

    let visible = table.get_by_external_id("doc-123#chunk-1").unwrap();
    assert_eq!(visible.id, updated.id);
    assert_eq!(visible, updated);
    assert_eq!(
        ids(&table.list_with(false, true)),
        [record.id.as_str(), updated.id.as_str()]
    );
}

#[test]
fn deferred_embedding_patch_makes_raw_record_searchable() {
    let mut table = Table::open();
    let mut by_ext = upsert_record("raw-ext", "doc-1#chunk-1", 0.0);
    by_ext.embedding = None;
    let mut by_id = text_record("raw-id", 0.0);
    by_id.embedding = None;
    table.add(&[by_ext.clone(), by_id.clone()]).unwrap();

    let query = make_embedding(1.0);
    assert!(table.search(&query, Some(10)).unwrap().is_empty());

    let enriched_ext = table
        .update_by_external_id(
            "doc-1#chunk-1",
            RecordPatch {
                embedding: Some(bits(&make_embedding(1.0))),
                ..Default::default()
            },
        )
        .unwrap();
    assert_eq!(enriched_ext.embedding, Some(bits(&make_embedding(1.0))));
    assert_eq!(enriched_ext.text_payload, by_ext.text_payload);

    let enriched_id = table
        .update_by_id(
            &by_id.id,
            RecordPatch {
                embedding: Some(bits(&make_embedding(0.0))),
                ..Default::default()
            },
        )
        .unwrap();
    assert_eq!(enriched_id.embedding, Some(bits(&make_embedding(0.0))));

    let results = table.search(&query, Some(10)).unwrap();
    let found: Vec<&str> = results.iter().map(|r| r.record.id.as_str()).collect();
    assert!(found.contains(&enriched_ext.id.as_str()));
    assert!(found.contains(&enriched_id.id.as_str()));
    assert_eq!(results[0].record.id, enriched_ext.id);
}

#[test]
fn relationships_roundtrip_and_support_related_lookup() {
    let mut table = Table::open();
    let mut related = text_record("related", 0.0);
    related.relationships = vec![
        Relationship {
            target_id: "doc-1#chunk-1".to_string(),
            relation: "cites".to_string(),
            weight: Some(0.75_f32.to_bits()),
        },
        Relationship {
            target_id: "service-a".to_string(),
            relation: "mentions".to_string(),
            weight: None,
        },
    ];
    table
        .add(&[related.clone(), text_record("unrelated", 1.0)])
        .unwrap();

    let listed = table.list();
    let roundtrip = listed
        .iter()
        .find(|record| record.id == related.id)
        .unwrap();
    assert_eq!(roundtrip.relationships, related.relationships);

    let by_target = related_records(table.list(), "doc-1#chunk-1", &None, None);
    assert_eq!(ids(&by_target), ["related"]);
    let cites = Some("cites".to_string());
    let by_relation = related_records(table.list(), "doc-1#chunk-1", &cites, None);
    assert_eq!(ids(&by_relation), ["related"]);
    let mentions = Some("mentions".to_string());
    assert!(related_records(table.list(), "doc-1#chunk-1", &mentions, None).is_empty());
}

#[test]
fn migrate_relationships_column_adds_missing_column() {
    let schema = schema_with_options(
        &Vec::new(),
        ColumnGroups {
            external_id: true,
            metadata: true,
            relationships: false,
            lifecycle: true,
            external_reference: true,
        },
        DEFAULT_EMBEDDING_DIM,
        DistanceMetric::default(),
    );
    let mut table = Table::over(schema, ContextStoreOptions::default(), false).unwrap();
    assert!(!table.has_relationships_column());

    let mut record = text_record("with-relationships", 0.0);
    record.relationships.push(Relationship {
        target_id: "target".to_string(),
        relation: "mentions".to_string(),
        weight: None,
    });
    let err = table.add(std::slice::from_ref(&record)).unwrap_err();
    assert!(err.message.contains("migrate_relationships_column"));

    assert!(table.migrate_relationships_column());
    assert!(table.has_relationships_column());
    assert!(!table.migrate_relationships_column());

    table.add(std::slice::from_ref(&record)).unwrap();
    let roundtrip = table.get_by_id(&record.id).unwrap();
    assert_eq!(roundtrip.relationships, record.relationships);
}

#[test]
fn add_rejects_duplicate_external_id() {
    let mut table = Table::open();
    table
        .add(&[upsert_record("a", "doc-123#chunk-1", 0.0)])
        .unwrap();
    let err = table
        .add(&[upsert_record("b", "doc-123#chunk-1", 0.0)])
        .unwrap_err();
    assert!(err.message.contains("external_id") && err.message.contains("already exists"));
}

#[test]
fn add_rejects_reserved_tombstone_content_type() {
    let mut table = Table::open();
    let mut record = text_record("a", 0.0);
    record.content_type = TOMBSTONE.to_string();
    let err = table.add(&[record]).unwrap_err();
    assert!(err.message.contains("reserved") && err.message.contains("tombstone"));
}

#[test]
fn add_rejects_duplicate_id_against_existing() {
    let mut table = Table::open();
    table.add(&[text_record("dup", 0.0)]).unwrap();
    let err = table.add(&[text_record("dup", 1.0)]).unwrap_err();
    assert!(err.message.contains("id 'dup'") && err.message.contains("already exists"));
}

#[test]
fn add_rejects_duplicate_id_within_batch() {
    let mut table = Table::open();
    let err = table
        .add(&[text_record("same", 0.0), text_record("same", 1.0)])
        .unwrap_err();
    assert!(err.message.contains("duplicate id 'same' in batch"));
}

#[test]
fn add_rejects_duplicate_external_id_within_batch() {
    let mut table = Table::open();
    let err = table
        .add(&[upsert_record("a", "ext", 0.0), upsert_record("b", "ext", 1.0)])
        .unwrap_err();
    assert!(err.message.contains("duplicate external_id 'ext' in batch"));
}

#[test]
fn add_allows_external_id_reuse_after_delete() {
    let mut table = Table::open();
    table.add(&[upsert_record("a", "ext", 0.0)]).unwrap();
    assert!(table.delete_by_external_id("ext"));
    table
        .add(&[upsert_record("b", "ext", 1.0)])
        .expect("external_id should be reusable after delete");
    assert_eq!(table.get_by_external_id("ext").unwrap().id, "b");
}

#[test]
fn add_allows_id_reuse_after_delete() {
    let mut table = Table::open();
    table.add(&[text_record("dup", 0.0)]).unwrap();
    assert!(table.delete_by_id("dup"));
    table
        .add(&[text_record("dup", 1.0)])
        .expect("id should be reusable after delete");
    assert_eq!(table.get_by_id("dup").unwrap().id, "dup");
}

#[test]
fn add_rejects_external_id_after_supersede() {
    let mut table = Table::open();
    table
        .upsert_by_external_id(upsert_record("a", "ext", 0.0))
        .unwrap();
    table
        .upsert_by_external_id(upsert_record("b", "ext", 1.0))
        .unwrap();
    let err = table.add(&[upsert_record("c", "ext", 2.0)]).unwrap_err();
    assert!(err.message.contains("external_id 'ext'") && err.message.contains("already exists"));
}

#[test]
fn validate_uniqueness_with_btree_index() {
    let mut table = Table::open_with_options(with_index(IdIndexType::BTree)).unwrap();
    table.add(&[upsert_record("idx-a", "ext", 0.0)]).unwrap();

    let dup_id = table.add(&[text_record("idx-a", 1.0)]).unwrap_err();
    assert!(dup_id.message.contains("id 'idx-a'") && dup_id.message.contains("already exists"));

    let dup_ext = table.add(&[upsert_record("idx-b", "ext", 1.0)]).unwrap_err();
    assert!(
        dup_ext.message.contains("external_id 'ext'") && dup_ext.message.contains("already exists")
    );

    assert!(table.delete_by_id("idx-a"));
    table
        .add(&[upsert_record("idx-a", "ext", 2.0)])
        .expect("keys should be reusable after delete with index configured");
}

#[test]
fn validate_uniqueness_against_large_store() {
    let mut table = Table::open_with_options(with_index(IdIndexType::BTree)).unwrap();
    for i in 0..300 {
        let record = upsert_record(&format!("rec-{i}"), &format!("ext-{i}"), i as f32);
        table.add(&[record]).unwrap();
    }

    assert!(table
        .add(&[upsert_record("rec-150", "ext-999", 0.0)])
        .unwrap_err()
        .message
        .contains("id 'rec-150'"));
    assert!(table
        .add(&[upsert_record("rec-new", "ext-42", 0.0)])
        .unwrap_err()
        .message
        .contains("external_id 'ext-42'"));

    table.add(&[upsert_record("rec-300", "ext-300", 0.0)]).unwrap();
    assert!(table.get_by_id("rec-300").is_some());
}

#[test]
fn validation_handles_external_id_with_single_quote() {
    let mut table = Table::open();
    let tricky = "o'brien#chunk-1";
    table.add(&[upsert_record("a", tricky, 0.0)]).unwrap();
    let err = table.add(&[upsert_record("b", tricky, 1.0)]).unwrap_err();
    assert!(err.message.contains("already exists"));

    table
        .add(&[upsert_record("c", "d'angelo#chunk-2", 2.0)])
        .unwrap();
    assert!(table.get_by_external_id("d'angelo#chunk-2").is_some());
}

#[test]
fn delete_by_external_id_hides_record_from_default_reads() {
    let mut table = Table::open();
    let first = upsert_record("a", "doc-123#chunk-1", 0.0);
    let second = text_record("b", 2.0);
    table.add(&[first.clone(), second.clone()]).unwrap();

    assert!(table.delete_by_external_id("doc-123#chunk-1"));
    assert!(table.get_by_external_id("doc-123#chunk-1").is_none());
    assert!(table.get_by_id(&first.id).is_none());
    assert_eq!(ids(&table.list()), ["b"]);

    let hits = table.search(&make_embedding(0.0), Some(10)).unwrap();
    assert_eq!(hits.len(), 1);
    assert_eq!(hits[0].record.id, second.id);
}

#[test]
fn delete_by_id_hides_record_from_default_reads() {
    let mut table = Table::open();
    let first = upsert_record("a", "doc-123#chunk-1", 0.0);
    let second = text_record("b", 2.0);
    table.add(&[first.clone(), second.clone()]).unwrap();

    assert!(table.delete_by_id(&first.id));
    assert!(table.get_by_id(&first.id).is_none());
    assert!(table.get_by_external_id("doc-123#chunk-1").is_none());
    assert_eq!(ids(&table.list()), ["b"]);

    let hits = table.search(&make_embedding(0.0), Some(10)).unwrap();
    assert_eq!(hits.len(), 1);
    assert_eq!(hits[0].record.id, second.id);
}

#[test]
fn forgetting_a_record_twice_does_nothing_more() {
    let mut table = Table::open();
    table
        .add(&[text_record("a", 0.0), text_record("b", 1.0), text_record("c", 2.0)])
        .unwrap();
    assert!(table.delete_by_id("b"));
    let after = table.list();
    assert_eq!(ids(&after), ["a", "c"]);
    assert!(!table.delete_by_id("b"));
    assert_eq!(table.list(), after);
    table.add(&[text_record("b", 3.0)]).unwrap();
    assert!(table.get_by_id("b").is_some());
}

#[test]
fn an_upsert_takes_the_id_of_a_forgotten_record() {
    let mut table = Table::open();
    table
        .add(&[upsert_record("a", "one", 0.0), upsert_record("b", "two", 1.0)])
        .unwrap();
    assert!(table.delete_by_id("b"));
    let plan = table
        .upsert_by_external_id(upsert_record("b", "one", 2.0))
        .unwrap();
    assert_eq!(plan.replaced_id.as_deref(), Some("a"));
    assert_eq!(ids(&table.list()), ["b"]);
    assert_eq!(table.get_by_external_id("one").unwrap().id, "b");
    assert!(table.get_by_external_id("two").is_none());
    assert_eq!(ids(&table.list_with(false, true)), ["a", "b"]);
}

#[test]
fn an_upsert_leaves_everything_else_as_it_was() {
    let mut table = Table::open();
    table
        .add(&[upsert_record("a", "one", 0.0), upsert_record("b", "two", 1.0)])
        .unwrap();
    let other = table.get_by_external_id("two").unwrap();
    let mut new = upsert_record("c", "one", 2.0);
    new.supersedes_id = Some("b".to_string());
    let plan = table.upsert_by_external_id(new).unwrap();
    assert_eq!(plan.replaced_id.as_deref(), Some("a"));
    assert_eq!(plan.record.supersedes_id.as_deref(), Some("a"));
    assert_eq!(table.get_by_external_id("one").unwrap().id, "c");
    assert_eq!(table.get_by_external_id("two").unwrap(), other);
    assert_eq!(ids(&table.list()), ["b", "c"]);
    assert_eq!(ids(&table.list_with(false, true)), ["a", "b", "c"]);
}

#[test]
fn delete_missing_id_is_noop() {
    let mut table = Table::open();
    assert!(!table.delete_by_id("missing"));
    assert!(!table.delete_by_external_id("missing"));
}

#[test]
fn external_id_can_be_reused_after_delete() {
    let mut table = Table::open();
    table
        .add(&[upsert_record("a", "doc-123#chunk-1", 0.0)])
        .unwrap();
    assert!(table.delete_by_external_id("doc-123#chunk-1"));
    table
        .add(&[upsert_record("b", "doc-123#chunk-1", 1.0)])
        .unwrap();
    assert_eq!(table.get_by_external_id("doc-123#chunk-1").unwrap().id, "b");
    assert_eq!(table.list().len(), 1);
}

#[test]
fn add_is_visible_on_return_by_default() {
    let mut table = Table::open();
    table.add(&[text_record("r1", 0.0)]).unwrap();
    assert_eq!(table.list().len(), 1);
    assert!(table.get_by_id("r1").is_some());
}

#[test]
fn deferred_seal_makes_add_durable_but_invisible_until_flush() {
    let mut table = Table::open_with_options(ContextStoreOptions {
        seal_on_add: false,
        ..Default::default()
    })
    .unwrap();
    table.add(&[text_record("r1", 0.0)]).unwrap();
    assert_eq!(table.list().len(), 0);

    table.flush();
    assert_eq!(table.list().len(), 1);
    assert!(table.get_by_id("r1").is_some());
}

#[test]
fn store_wal_generations_merge_into_the_base_table() {
    let mut table = Table::open();
    for i in 0..3 {
        table
            .add(&[text_record(&format!("r{i}"), i as f32)])
            .unwrap();
    }
    assert!(table.pending_wal_generations() > 0);
    assert!(table.cleanup_wal() > 0);
    assert_eq!(table.pending_wal_generations(), 0);
    assert_eq!(ids(&table.list()), ["r0", "r1", "r2"]);
}

#[test]
fn test_add_multiple_regions() {
    let mut table = Table::open();
    let mut record1 = text_record("r1", 0.0);
    record1.bot_id = Some("bot-A".to_string());
    record1.session_id = Some("session-1".to_string());
    let mut record2 = text_record("r2", 0.0);
    record2.bot_id = Some("bot-B".to_string());
    record2.session_id = Some("session-2".to_string());
    table.add(&[record1, record2]).unwrap();

    let reopened = table.reopen(ContextStoreOptions::default()).unwrap();
    assert_eq!(ids(&reopened.list()), ["r1", "r2"]);
}

#[test]
fn test_blob_binary_payload() {
    let mut table = Table::open_with_options(with_blobs(&["binary_payload"])).unwrap();
    let mut record = text_record("blob-bin-1", 0.0);
    record.binary_payload = Some(vec![0xDE, 0xAD, 0xBE, 0xEF]);
    table.add(&[record]).unwrap();

    let schema = ContextStore::schema(&table.store.blob_columns);
    let binary = field(&schema, "binary_payload");
    assert_eq!(entry(binary, BLOB_MARKER), Some("true"));
    assert!(entry(binary, LANCE_BLOB_ENCODING).is_none());
    let text = field(&schema, "text_payload");
    assert_eq!(text.data_type, scalar(Scalar::LargeUtf8));
    assert!(entry(text, BLOB_MARKER).is_none());

    assert!(table.list()[0].binary_payload.is_none());
}

#[test]
fn blob_binary_payload_round_trips_and_survives_wal_merge() {
    let mut table = Table::open_with_options(with_blobs(&["binary_payload"])).unwrap();
    let payload = vec![0xDE, 0xAD, 0xBE, 0xEF];
    let mut record = text_record("blob-roundtrip", 0.0);
    record.binary_payload = Some(payload.clone());
    table.add(&[record]).unwrap();

    assert_eq!(table.get_blob("blob-roundtrip"), Some(payload.clone()));
    assert_eq!(
        table.full_list()[0].binary_payload,
        Some(payload.clone())
    );

    assert!(table.cleanup_wal() > 0);
    assert_eq!(table.get_blob("blob-roundtrip"), Some(payload));
}

#[test]
fn blob_projection_configuration_survives_reopen() {
    let mut table =
        Table::open_with_options(with_blobs(&["text_payload", "binary_payload"])).unwrap();
    let mut record = text_record("persisted-blob-config", 0.0);
    record.text_payload = Some("large text".to_string());
    record.binary_payload = Some(vec![1, 2, 3]);
    table.add(&[record]).unwrap();

    let reopened = table.reopen(ContextStoreOptions::default()).unwrap();
    let mut kept = reopened.store.blob_columns.clone();
    kept.sort();
    assert_eq!(kept, ["binary_payload", "text_payload"]);
    let default_read = reopened.list();
    assert!(default_read[0].text_payload.is_none());
    assert!(default_read[0].binary_payload.is_none());

    let explicit_read = reopened.full_list();
    assert_eq!(explicit_read[0].text_payload.as_deref(), Some("large text"));
    assert_eq!(
        explicit_read[0].binary_payload.as_deref(),
        Some(&[1, 2, 3][..])
    );
}

#[test]
fn partial_update_preserves_lazy_blob_payload() {
    let mut table = Table::open_with_options(with_blobs(&["binary_payload"])).unwrap();
    let payload = vec![9, 8, 7, 6];
    let mut record = text_record("blob-update", 0.0);
    record.binary_payload = Some(payload.clone());
    table.add(&[record]).unwrap();

    let updated = table
        .update_by_id(
            "blob-update",
            RecordPatch {
                source: Some("patched".to_string()),
                ..Default::default()
            },
        )
        .unwrap();
    assert_eq!(updated.binary_payload, Some(payload.clone()));
    assert_eq!(table.get_blob(&updated.id), Some(payload));
}

#[test]
fn text_retrieval_materializes_lazy_text_for_scoring() {
    let mut table = Table::open_with_options(with_blobs(&["text_payload"])).unwrap();
    let mut record = text_record("lazy-text", 0.0);
    record.text_payload = Some("unique retrieval needle".to_string());
    table.add(&[record]).unwrap();

    assert!(table.list()[0].text_payload.is_none());
    let hits = table.retrieve(Some("needle"), None, Some(1)).unwrap();
    assert_eq!(hits[0].record.id, "lazy-text");
    assert_eq!(
        hits[0].record.text_payload.as_deref(),
        Some("unique retrieval needle")
    );
}

#[test]
fn legacy_blob_v2_schema_is_rejected() {
    let legacy = Field::new("binary_payload", scalar(Scalar::LargeBinary), true)
        .with_entry(LANCE_BLOB_ENCODING, "true");
    let schema = Schema {
        fields: vec![legacy],
        metadata: Vec::new(),
    };
    let error = reject_blob_v2_schema(&schema).unwrap_err();
    assert!(error.message.contains("unsupported blob-v2 encoding"));
    assert!(error.message.contains("binary_payload"));
}

#[test]
fn test_blob_text_payload() {
    let mut table = Table::open_with_options(with_blobs(&["text_payload"])).unwrap();
    let record = text_record("blob-txt-1", 0.0);
    table.add(std::slice::from_ref(&record)).unwrap();
    assert!(table.list()[0].text_payload.is_none());

    let batch = table
        .store
        .records_to_batch(&vec![record.clone()], &table.schema, ACTIVE)
        .unwrap();
    let text = &batch.columns[batch.index_of("text_payload").unwrap()];
    assert_eq!(text.data_type, scalar(Scalar::LargeBinary));

    let roundtripped = batch_to_records(&batch, ACTIVE).unwrap();
    assert_eq!(roundtripped.len(), 1);
    assert_eq!(roundtripped[0].text_payload, record.text_payload);
}

#[test]
fn test_blob_both_columns() {
    let mut table =
        Table::open_with_options(with_blobs(&["text_payload", "binary_payload"])).unwrap();
    let mut record = text_record("blob-both-1", 0.0);
    record.binary_payload = Some(b"hello binary".to_vec());
    table.add(std::slice::from_ref(&record)).unwrap();

    let schema = ContextStore::schema(&table.store.blob_columns);
    let text = field(&schema, "text_payload");
    let binary = field(&schema, "binary_payload");
    assert_eq!(entry(text, BLOB_MARKER), Some("true"));
    assert_eq!(entry(binary, BLOB_MARKER), Some("true"));
    assert!(entry(text, LANCE_BLOB_ENCODING).is_none());
    assert!(entry(binary, LANCE_BLOB_ENCODING).is_none());

    let batch = table
        .store
        .records_to_batch(&vec![record.clone()], &table.schema, ACTIVE)
        .unwrap();
    let roundtripped = batch_to_records(&batch, ACTIVE).unwrap();
    assert_eq!(roundtripped.len(), 1);
    assert_eq!(roundtripped[0].text_payload, record.text_payload);
    assert_eq!(roundtripped[0].binary_payload, record.binary_payload);
}

#[test]
fn test_no_blob_default() {
    let schema = ContextStore::schema(&Vec::new());
    let text = field(&schema, "text_payload");
    let binary = field(&schema, "binary_payload");
    assert_eq!(text.data_type, scalar(Scalar::LargeUtf8));
    assert!(entry(text, BLOB_MARKER).is_none());
    assert_eq!(binary.data_type, scalar(Scalar::LargeBinary));
    assert!(entry(binary, BLOB_MARKER).is_none());
}

#[test]
fn test_blob_schema_metadata() {
    let schema = ContextStore::schema(&names(&["text_payload", "binary_payload"]));
    let text = field(&schema, "text_payload");
    assert_eq!(text.data_type, DataType::Scalar(Scalar::LargeBinary));
    assert_eq!(entry(text, BLOB_MARKER), Some("true"));
    assert!(entry(text, LANCE_BLOB_ENCODING).is_none());

    let binary = field(&schema, "binary_payload");
    assert_eq!(binary.data_type, DataType::Scalar(Scalar::LargeBinary));
    assert_eq!(entry(binary, BLOB_MARKER), Some("true"));
    assert!(entry(binary, LANCE_BLOB_ENCODING).is_none());

    assert!(entry(field(&schema, "id"), BLOB_MARKER).is_none());
}

#[test]
fn test_blob_invalid_column_name() {
    let err = match Table::open_with_options(with_blobs(&["nonexistent_column"])) {
        Ok(_) => panic!("should reject invalid blob column names"),
        Err(err) => err,
    };
    assert!(err.message.contains("invalid blob column"));
}

#[test]
fn test_batch_to_records_autodetects_text_type() {
    let record = text_record("auto-1", 0.0);
    for options in [ContextStoreOptions::default(), with_blobs(&["text_payload"])] {
        let table = Table::open_with_options(options).unwrap();
        let batch = table
            .store
            .records_to_batch(&vec![record.clone()], &table.schema, ACTIVE)
            .unwrap();
        let results = batch_to_records(&batch, ACTIVE).unwrap();
        assert_eq!(results[0].text_payload, record.text_payload);
    }
}

#[test]
fn test_id_index_btree() {
    let table = Table::open_with_options(with_index(IdIndexType::BTree)).unwrap();
    assert!(table.store.needs_id_index(&Vec::new()));
}

#[test]
fn test_id_index_zonemap() {
    let table = Table::open_with_options(with_index(IdIndexType::ZoneMap)).unwrap();
    assert!(table.store.needs_id_index(&Vec::new()));
}

#[test]
fn test_id_index_none_by_default() {
    let table = Table::open();
    assert!(!table.store.needs_id_index(&Vec::new()));
}

#[test]
fn test_id_index_idempotent() {
    let table = Table::open_with_options(with_index(IdIndexType::BTree)).unwrap();
    assert!(table.store.needs_id_index(&names(&["other_idx"])));
    assert!(!table.store.needs_id_index(&names(&["id_idx"])));
}

#[test]
fn projection_excludes_binary_but_keeps_metadata() {
    let mut table = Table::open();
    let mut record = text_record("img", 0.0);
    record.content_type = "image/png".to_string();
    record.binary_payload = Some(vec![1, 2, 3, 4]);
    table.add(&[record]).unwrap();

    let full = table.list();
    assert_eq!(full[0].binary_payload.as_deref(), Some(&[1, 2, 3, 4][..]));
    assert!(full[0].embedding.is_some());

    let projected = table.read(None, None, DEFAULT_READ, ReadProjection::without_binary());
    assert_eq!(projected.len(), 1);
    assert!(projected[0].binary_payload.is_none());
    assert_eq!(projected[0].id, "img");
    assert_eq!(projected[0].content_type, "image/png");
    assert!(projected[0].embedding.is_some());

    let meta = table.read(None, None, DEFAULT_READ, ReadProjection::metadata_only());
    assert!(meta[0].binary_payload.is_none());
    assert!(meta[0].embedding.is_none());
    assert_eq!(meta[0].id, "img");

    assert_eq!(table.get_blob("img").as_deref(), Some(&[1, 2, 3, 4][..]));
    assert!(table.get_blob("missing").is_none());
}

#[test]
fn search_projection_excludes_binary_keeps_ranking() {
    let mut table = Table::open();
    let mut a = text_record("a", 0.0);
    a.binary_payload = Some(vec![9, 9, 9]);
    let mut b = text_record("b", 1.0);
    b.binary_payload = Some(vec![8, 8, 8]);
    table.add(&[a, b]).unwrap();

    let results = table
        .search_projected(
            &make_embedding(0.0),
            Some(5),
            DEFAULT_READ,
            ReadProjection::without_binary(),
        )
        .unwrap();
    assert_eq!(results.len(), 2);
    assert_eq!(results[0].record.id, "a");
    assert!(results.iter().all(|r| r.record.binary_payload.is_none()));
    assert!(results[0].record.embedding.is_some());
}

#[test]
fn search_drops_the_embedding_where_it_is_not_wanted() {
    let mut table = Table::open();
    table.add(&[text_record("a", 0.0), text_record("b", 1.0)]).unwrap();
    let results = table
        .search_projected(
            &make_embedding(1.0),
            Some(1),
            DEFAULT_READ,
            ReadProjection::metadata_only(),
        )
        .unwrap();
    assert_eq!(results.len(), 1);
    assert_eq!(results[0].record.id, "b");
    assert_eq!(results[0].record.embedding, None);
    assert!(table.search(&make_embedding(1.0), Some(0)).unwrap().is_empty());
}

#[test]
fn pages_follow_one_another() {
    let mut table = Table::open();
    let records: Vec<ContextRecord> = (0..5)
        .map(|i| text_record(&format!("p{i}"), i as f32))
        .collect();
    table.add(&records).unwrap();
    let page = |limit, offset| {
        table
            .read(limit, offset, DEFAULT_READ, ReadProjection::default())
            .into_iter()
            .map(|record| record.id)
            .collect::<Vec<_>>()
    };
    assert_eq!(page(Some(2), None), ["p0", "p1"]);
    assert_eq!(page(Some(2), Some(2)), ["p2", "p3"]);
    assert_eq!(page(None, Some(4)), ["p4"]);
    assert!(page(Some(2), Some(9)).is_empty());
}

#[test]
fn a_single_upsert_reports_each_refusal() {
    let mut table = Table::open();
    let message = |result: Result<UpsertPlan, StoreError>| result.unwrap_err().message;
    assert_eq!(
        message(table.upsert_by_external_id(text_record("a", 0.0))),
        "upsert_by_external_id requires external_id"
    );
    assert_eq!(
        message(table.upsert_by_external_id(upsert_record("a", "", 0.0))),
        "upsert_by_external_id requires a non-empty external_id"
    );
    let mut marked = upsert_record("a", "ext", 0.0);
    marked.content_type = TOMBSTONE.to_string();
    assert!(message(table.upsert_by_external_id(marked)).contains("is reserved"));
    table.add(&[text_record("taken", 0.0)]).unwrap();
    assert_eq!(
        message(table.upsert_by_external_id(upsert_record("taken", "ext", 0.0))),
        "id 'taken' already exists"
    );
    let mut rows = vec![upsert_record("x", "twice", 0.0), upsert_record("y", "twice", 0.0)];
    let plan = plan_upsert(
        upsert_record("z", "twice", 0.0),
        TOMBSTONE,
        &Vec::new(),
        &rows,
    );
    assert_eq!(
        plan.unwrap_err().message,
        "external_id 'twice' matches multiple visible records"
    );
    rows.pop();
    let plan = plan_upsert(
        upsert_record("z", "twice", 0.0),
        TOMBSTONE,
        &Vec::new(),
        &rows,
    );
    assert_eq!(plan.unwrap().replaced_id.as_deref(), Some("x"));
}

#[test]
fn updates_report_each_refusal() {
    let existing = text_record("a", 0.0);
    let empty = update_record(
        &existing,
        RecordPatch::default(),
        "b".to_string(),
        "run".to_string(),
        NOW,
    );
    assert_eq!(
        empty.unwrap_err().message,
        "update requires at least one patch field"
    );
    let rows = vec![upsert_record("x", "twice", 0.0), upsert_record("y", "twice", 0.0)];
    assert!(find_update_target_by_external_id(&rows, "twice").is_err());
    assert_eq!(find_update_target_by_external_id(&rows, "none").unwrap(), None);
    assert_eq!(find_update_target_by_id(&rows, "y").unwrap(), Some(1));
    assert_eq!(find_update_target_by_id(&rows, "z").unwrap(), None);
}

#[test]
fn a_tombstone_keeps_the_keys_and_drops_the_content() {
    let mut record = upsert_record("a", "ext", 1.0);
    record.binary_payload = Some(vec![1]);
    let marker = tombstone_for(record, NOW + 1, TOMBSTONE, ACTIVE);
    assert_eq!(marker.id, "a");
    assert_eq!(marker.content_type, TOMBSTONE);
    assert_eq!(marker.created_at, NOW + 1);
    assert_eq!(marker.text_payload, None);
    assert_eq!(marker.binary_payload, None);
    assert_eq!(marker.embedding, None);
    assert_eq!(marker.lifecycle_status, ACTIVE);
}
