//! Events written to and read from a log that is held in memory.

use lance_context_core::batch::Batch;
use lance_context_core::compaction::{CompactionConfig, CompactionOutcome};
use lance_context_core::datagen_checks::{validate_checkpoint_batch, validate_write_batch};
use lance_context_core::datagen_codec::events_to_batch;
use lance_context_core::datagen_columns::datagen_log_schema;
use lance_context_core::datagen_decode::{batch_to_events, EventHeader, RowVerdict};
use lance_context_core::datagen_event::{DatagenBlobValue, DatagenEvent, DatagenValue};
use lance_context_core::datagen_store::{
    event_filter, failures_filter, item_filter, newest_generations, order_events, root_events,
    root_filter, DatagenStore, DatagenStoreOptions,
};
use lance_context_core::error::StoreError;
use lance_context_core::merge::PreparedMerge;
use lance_context_core::point_read::payload_with_key;
use lance_context_core::shard::{
    drain_manifest, flushed_generation_uri, Generation, ShardManifest, ShardSnapshot,
};
use lance_context_core::storage::{start_put, step_put, PutAction, PutEvent};

const URI: &str = "mem://datagen";

fn event(item_id: &str, seq: i64, checkpoint_id: &str, ordinal: u32, kind: &str) -> DatagenEvent {
    DatagenEvent {
        event_id: format!("{item_id}:{checkpoint_id}:{ordinal}"),
        item_id: item_id.to_string(),
        root_item_id: item_id.split('/').next().unwrap().to_string(),
        parent_item_id: None,
        item_seq: seq,
        checkpoint_id: checkpoint_id.to_string(),
        event_type: kind.to_string(),
        step_name: None,
        step_kind: None,
        step_index: None,
        enclosing_step: None,
        selector_step: None,
        attempt: 0,
        run_id: "run-1".to_string(),
        writer_epoch: "writer-1".to_string(),
        field_name: None,
        field_type: None,
        codec_version: None,
        value: None,
        query_tags: None,
        status: None,
        error_type: None,
        error_dump: None,
        traceback: None,
        event_ts: 1_700_000_000_000_000 + seq,
        event_ts_below: 0,
        schema_version: 1,
    }
}

fn in_step(mut event: DatagenEvent) -> DatagenEvent {
    event.step_name = Some("grade".to_string());
    event.step_kind = Some("leaf".to_string());
    event.step_index = Some(2);
    event
}

fn field_event(
    seq: i64,
    ordinal: u32,
    kind: &str,
    field_name: &str,
    field_type: &str,
    value: DatagenValue,
) -> DatagenEvent {
    let mut event = in_step(event("item-1", seq, "grade-0", ordinal, kind));
    event.field_name = Some(field_name.to_string());
    event.field_type = Some(field_type.to_string());
    event.codec_version = Some(1);
    event.value = Some(value);
    event
}

fn completed_step(seq: i64, ordinal: u32) -> DatagenEvent {
    in_step(event("item-1", seq, "grade-0", ordinal, "STEP_COMPLETED"))
}

fn blob(bytes: &[u8]) -> DatagenValue {
    DatagenValue::Blob(DatagenBlobValue {
        bytes: Some(bytes.to_vec()),
        size: bytes.len() as i64,
        checksum: None,
    })
}

fn fine(count: usize) -> Vec<Option<String>> {
    vec![None; count]
}

fn read(batch: &Batch) -> Result<Vec<DatagenEvent>, StoreError> {
    let verdict = RowVerdict {
        event_type: None,
        step_kind: None,
        status: None,
        validity: None,
    };
    batch_to_events(batch, &vec![verdict; batch.rows])
}

struct Shard {
    manifest: ShardManifest,
    sealed: Vec<Vec<Batch>>,
}

struct Log {
    store: DatagenStore,
    fragments: Vec<Vec<Batch>>,
    shard: Shard,
    others: Vec<Batch>,
}

impl Log {
    fn open() -> Log {
        Log::open_with_options(DatagenStoreOptions::default())
    }

    fn open_with_options(options: DatagenStoreOptions) -> Log {
        let store = DatagenStore::open(URI.to_string(), options).unwrap();
        Log {
            store,
            fragments: Vec::new(),
            shard: Shard {
                manifest: ShardManifest {
                    version: 1,
                    writer_epoch: 1,
                    shard_spec_id: 0,
                    current_generation: 1,
                    replay_after_wal_entry_position: 0,
                    wal_entry_position_last_seen: 0,
                    flushed_generations: Vec::new(),
                },
                sealed: Vec::new(),
            },
            others: Vec::new(),
        }
    }

    fn put(&mut self, batch: Option<Batch>) {
        let mut batch = batch;
        let mut open: Vec<Batch> = Vec::new();
        let (mut stage, mut action) = start_put(batch.is_none());
        loop {
            let event = match action {
                PutAction::AcquireWriter | PutAction::ReplaceWriter(_) => PutEvent::WriterReady(1),
                PutAction::Put(_) => {
                    open.extend(batch.take());
                    PutEvent::PutDone
                }
                PutAction::Seal => {
                    let generation = self.shard.manifest.current_generation;
                    self.shard.manifest.current_generation += 1;
                    self.shard.manifest.flushed_generations.push(Generation {
                        generation,
                        path: format!("gen_{generation}"),
                    });
                    self.shard.sealed.push(std::mem::take(&mut open));
                    PutEvent::SealDone
                }
                PutAction::Succeed => return,
                PutAction::Fail(message) => panic!("{message}"),
            };
            let next = step_put(stage, self.store.base.seal_on_put, event);
            stage = next.0;
            action = next.1;
        }
    }

    fn append(&mut self, events: &[DatagenEvent]) -> Result<(), StoreError> {
        let batch = self.store.append(&events.to_vec(), &fine(events.len()))?;
        self.put(batch);
        Ok(())
    }

    fn append_checkpoint(&mut self, events: &[DatagenEvent]) -> Result<(), StoreError> {
        let batch = self
            .store
            .append_checkpoint(&events.to_vec(), &fine(events.len()))?;
        self.put(Some(batch));
        Ok(())
    }

    fn batches(&self) -> Vec<&Batch> {
        self.fragments
            .iter()
            .flatten()
            .chain(self.others.iter())
            .chain(self.shard.sealed.iter().flatten())
            .collect()
    }

    fn scan(&self) -> Vec<DatagenEvent> {
        let columns = DatagenStore::non_blob_columns(&datagen_log_schema());
        let mut events: Vec<DatagenEvent> = Vec::new();
        for batch in self.batches() {
            let mut shown = batch.clone();
            shown.columns.retain(|column| columns.contains(&column.name));
            for event in read(&shown).unwrap() {
                events.retain(|known| known.event_id != event.event_id);
                events.push(event);
            }
        }
        order_events(events)
    }

    fn events_for_item(&self, item_id: &str) -> Vec<DatagenEvent> {
        let mut events = self.scan();
        events.retain(|event| event.item_id == item_id);
        events
    }

    fn get_blob(&self, event_id: &str) -> Option<Vec<u8>> {
        for batch in self.batches().into_iter().rev() {
            if let Some(found) =
                payload_with_key(batch, "event_id", event_id, "value_blob").unwrap()
            {
                return found;
            }
        }
        None
    }

    fn pending_wal_generations(&self) -> usize {
        self.shard.manifest.flushed_generations.len()
    }

    fn cleanup_own_shard(&mut self) -> usize {
        let mut prepared = PreparedMerge::new(datagen_log_schema());
        for (generation, batches) in self
            .shard
            .manifest
            .flushed_generations
            .iter()
            .zip(&self.shard.sealed)
        {
            prepared.add_generation(generation, batches).unwrap();
        }
        self.shard.manifest =
            drain_manifest(&self.shard.manifest, &prepared.merged_generations);
        self.shard.sealed.clear();
        let count = prepared.generation_count();
        self.fragments.push(prepared.batches);
        count
    }
}

#[test]
fn single_log_roundtrip_retry_fold_trajectory_and_blob() {
    let blob_bytes = b"small-screenshot".to_vec();
    let mut log = Log::open();
    let mut created = event("item-1", 0, "created", 0, "ITEM_CREATED");
    created.query_tags = Some(r#"{"domain":"math"}"#.to_string());
    log.append(&[created.clone()]).unwrap();

    let checkpoint = vec![
        field_event(1, 0, "FIELD_SET", "score", "int", DatagenValue::Int(i64::MAX)),
        field_event(
            2,
            1,
            "FIELD_APPEND",
            "messages",
            "json",
            DatagenValue::Json(r#"{"content":"42","role":"assistant"}"#.to_string()),
        ),
        field_event(3, 2, "FIELD_SET", "screenshot", "image", blob(&blob_bytes)),
        completed_step(4, 3),
    ];
    log.append_checkpoint(&checkpoint).unwrap();
    log.append_checkpoint(&checkpoint).unwrap();

    let mut terminal = event("item-1", 5, "terminal", 0, "TERMINAL");
    terminal.status = Some("completed".to_string());
    log.append(&[terminal]).unwrap();

    let events = log.events_for_item("item-1");
    assert_eq!(events.len(), 6);
    assert_eq!(events[0], created);
    assert_eq!(events[1], checkpoint[0]);
    assert_eq!(events[2], checkpoint[1]);
    let blob_event = &events[3];
    assert_eq!(blob_event.field_name.as_deref(), Some("screenshot"));
    match blob_event.value.as_ref().unwrap() {
        DatagenValue::Blob(read) => {
            assert!(read.bytes.is_none());
            assert_eq!(read.size, blob_bytes.len() as i64);
        }
        other => panic!("screenshot should be a blob, not {other:?}"),
    }
    assert_eq!(log.get_blob(&blob_event.event_id), Some(blob_bytes));
    assert_eq!(log.get_blob(&events[1].event_id), None);
    assert_eq!(log.get_blob("missing"), None);
}

#[test]
fn no_op_checkpoint_requires_and_persists_completion_marker() {
    let mut log = Log::open();
    log.append(&[event("item-1", 0, "created", 0, "ITEM_CREATED")])
        .unwrap();
    log.append_checkpoint(&[completed_step(1, 0)]).unwrap();
    assert_eq!(log.events_for_item("item-1").len(), 2);

    let field_only = field_event(2, 0, "FIELD_SET", "score", "int", DatagenValue::Int(1));
    let error = log.append_checkpoint(&[field_only]).unwrap_err();
    assert!(error.message.contains("exactly one STEP_COMPLETED"));
}

#[test]
fn all_wal_shards_are_visible_and_failures_stay_in_the_log() {
    let shard = |name: &str| DatagenStoreOptions {
        shard_id: Some(name.to_string()),
        ..Default::default()
    };
    let mut writer_a = Log::open_with_options(shard("writer-a"));
    let mut writer_b = Log::open_with_options(shard("writer-b"));
    assert_ne!(writer_a.store.base.write_shard, writer_b.store.base.write_shard);
    writer_a
        .append(&[event("root-a", 0, "created-a", 0, "ITEM_CREATED")])
        .unwrap();

    let mut failed = event("root-b", 0, "failed-b", 0, "FAILED");
    failed.run_id = "run-failed".to_string();
    failed.writer_epoch = "writer-b".to_string();
    failed.step_name = Some("expand".to_string());
    failed.step_kind = Some("leaf".to_string());
    failed.step_index = Some(0);
    failed.error_type = Some("ValueError".to_string());
    failed.error_dump = Some("bad source item".to_string());
    writer_b.append(&[failed]).unwrap();

    writer_a.others = writer_b.shard.sealed.iter().flatten().cloned().collect();
    assert_eq!(writer_a.events_for_item("root-b").len(), 1);
    assert_eq!(
        failures_filter(&Some("run-failed".to_string())),
        "event_type = 'FAILED' AND run_id = 'run-failed'"
    );
    let mut failures = writer_a.scan();
    failures.retain(|event| event.event_type == "FAILED" && event.run_id == "run-failed");
    assert_eq!(failures.len(), 1);
    assert_eq!(failures[0].error_type.as_deref(), Some("ValueError"));
}

#[test]
fn cleanup_moves_events_to_base_without_changing_logical_results() {
    let mut log = Log::open_with_options(DatagenStoreOptions {
        shard_id: Some("writer-a".to_string()),
        ..Default::default()
    });
    let created = event("item-1", 0, "created", 0, "ITEM_CREATED");
    let image = field_event(1, 0, "FIELD_SET", "image", "image", blob(b"payload"));
    log.append(&[created]).unwrap();
    log.append_checkpoint(&[image.clone(), completed_step(2, 1)])
        .unwrap();
    assert_eq!(log.pending_wal_generations(), 2);
    let before = log.scan();

    assert_eq!(log.cleanup_own_shard(), 2);
    assert_eq!(log.pending_wal_generations(), 0);
    assert_eq!(log.events_for_item("item-1").len(), 3);
    assert_eq!(log.scan(), before);
    assert_eq!(log.get_blob(&image.event_id), Some(b"payload".to_vec()));
}

#[test]
fn fan_out_tree_reads_by_root_and_classifies_status() {
    let mut log = Log::open();
    let mut root_created = event("7", 0, "created-root", 0, "ITEM_CREATED");
    root_created.status = Some("running".to_string());
    log.append(&[root_created]).unwrap();
    let mut child_created = event("7/solve_twice:0", 0, "created-child", 0, "ITEM_CREATED");
    child_created.parent_item_id = Some("7".to_string());
    child_created.status = Some("running".to_string());
    log.append(&[child_created]).unwrap();
    let mut root_terminal = event("7", 1, "terminal", 0, "TERMINAL");
    root_terminal.status = Some("completed".to_string());
    log.append(&[root_terminal]).unwrap();

    assert_eq!(root_filter("7"), "root_item_id = '7'");
    let mut tree = log.scan();
    tree.retain(|event| event.root_item_id == "7");
    assert_eq!(tree.len(), 3);

    let own = root_events(tree, "7");
    assert_eq!(own.len(), 2);
    assert_eq!(own[1].status.as_deref(), Some("completed"));

    let child = log.events_for_item("7/solve_twice:0");
    assert_eq!(child.len(), 1);
    assert_eq!(child[0].status.as_deref(), Some("running"));
    assert_eq!(child[0].parent_item_id.as_deref(), Some("7"));
    assert!(log.events_for_item("7/solve_twice:1").is_empty());
}

#[test]
fn compaction_folds_merged_fragments_and_preserves_reads() {
    let mut log = Log::open();
    for seq in 0..4 {
        log.append(&[completed_step(seq, seq as u32)]).unwrap();
        log.cleanup_own_shard();
    }
    let before = log.store.base.compaction_stats(log.fragments.len()).total_fragments;
    assert!(before > 1, "each merge appends a fragment; got {before}");

    let config = CompactionConfig {
        min_fragments: 2,
        ..Default::default()
    };
    assert!(lance_context_core::compaction::should_compact(&config, before, 12));
    log.store.base.compaction.begin().unwrap();
    let merged = std::mem::take(&mut log.fragments).into_iter().flatten().collect();
    log.fragments.push(merged);
    log.store.base.finish_compaction(CompactionOutcome::Done(1));
    assert!(log.store.base.compaction_stats(log.fragments.len()).total_fragments < before);
    assert_eq!(log.events_for_item("item-1").len(), 4);
}

#[test]
fn append_after_merge_reuses_the_writer_without_being_fenced() {
    let mut log = Log::open_with_options(DatagenStoreOptions {
        shard_id: Some("writer-a".to_string()),
        ..Default::default()
    });
    log.append(&[event("item-1", 0, "created", 0, "ITEM_CREATED")])
        .unwrap();
    assert_eq!(log.pending_wal_generations(), 1);
    assert_eq!(log.cleanup_own_shard(), 1);
    log.append(&[event("item-2", 0, "created-2", 0, "ITEM_CREATED")])
        .unwrap();
    assert_eq!(log.events_for_item("item-1").len(), 1);
    assert_eq!(log.events_for_item("item-2").len(), 1);

    log.cleanup_own_shard();
    assert_eq!(log.pending_wal_generations(), 0);
    assert_eq!(log.events_for_item("item-1").len(), 1);
    assert_eq!(log.events_for_item("item-2").len(), 1);
}

#[test]
fn events_of_every_kind_read_back() {
    let values = [
        DatagenValue::Int(-3),
        DatagenValue::Float(2.5_f64.to_bits()),
        DatagenValue::Bool(true),
        DatagenValue::Str("it's".to_string()),
        DatagenValue::Json(r#"{"a":[1,null]}"#.to_string()),
        blob(b"\x00\xff"),
    ];
    let kinds: Vec<&str> = values.iter().map(DatagenValue::kind).collect();
    assert_eq!(kinds, ["int", "float", "bool", "str", "json", "blob"]);
    let mut events: Vec<DatagenEvent> = values
        .into_iter()
        .enumerate()
        .map(|(at, value)| field_event(at as i64, at as u32, "FIELD_SET", "f", "t", value))
        .collect();
    let mut failed = event("item-1", 9, "failed", 0, "FAILED");
    failed.error_type = Some("ValueError".to_string());
    failed.error_dump = Some("dump".to_string());
    failed.traceback = Some("trace".to_string());
    failed.enclosing_step = Some("outer".to_string());
    failed.selector_step = Some("pick".to_string());
    failed.parent_item_id = Some("item-0".to_string());
    failed.query_tags = Some(r#"{"k":1}"#.to_string());
    events.push(failed);
    let batch = events_to_batch(&events);
    assert_eq!(read(&batch).unwrap(), events);
    assert!(read(&events_to_batch(&Vec::new())).unwrap().is_empty());
}

#[test]
fn a_refused_word_is_reported() {
    let batch = events_to_batch(&vec![completed_step(1, 0)]);
    let header = EventHeader::read(&batch).unwrap();
    let words = header.words(&batch, 0);
    assert_eq!(words.event_type, "STEP_COMPLETED");
    assert_eq!(words.step_kind.as_deref(), Some("leaf"));
    assert_eq!(words.status, None);

    let verdict = |at: usize| {
        let word = |wanted: usize| (wanted == at).then_some("refused".to_string());
        RowVerdict {
            event_type: word(0),
            step_kind: word(1),
            status: word(2),
            validity: word(3),
        }
    };
    for at in [0, 1, 3] {
        let error = batch_to_events(&batch, &vec![verdict(at)]).unwrap_err();
        assert!(error.message.contains("refused"), "{}", error.message);
    }
}

#[test]
fn a_log_needs_its_columns() {
    let mut batch = events_to_batch(&vec![completed_step(1, 0)]);
    batch.columns.retain(|column| column.name != "event_ts");
    assert_eq!(
        read(&batch).unwrap_err().message,
        "column 'event_ts' not found"
    );
}

#[test]
fn zeros_are_equal_whatever_their_sign() {
    let with_json = |value: &str, tags: &str| {
        let value = DatagenValue::Json(value.to_string());
        let mut event = field_event(1, 0, "FIELD_SET", "score", "json", value);
        event.query_tags = Some(tags.to_string());
        event
    };
    let accepted = |left: DatagenEvent, right: DatagenEvent| {
        validate_write_batch(&vec![left, right], &fine(2)).is_ok()
    };
    let plain = || with_json("[0.0,{\"a\":-0.05}]", "{\"z\":0.0}");
    assert!(accepted(plain(), plain()));
    assert!(accepted(plain(), with_json("[-0.0,{\"a\":-0.05}]", "{\"z\":-0.0}")));
    assert!(!accepted(plain(), with_json("[0.0,{\"a\":0.05}]", "{\"z\":0.0}")));
    assert!(!accepted(
        with_json("[\"-0.0\"]", "{}"),
        with_json("[\"0.0\"]", "{}")
    ));
    assert!(!accepted(
        with_json("[\"\\\"-0.0\"]", "{}"),
        with_json("[\"\\\"0.0\"]", "{}")
    ));
}

#[test]
fn times_are_told_apart_below_the_microsecond() {
    let first = completed_step(1, 0);
    let mut later = first.clone();
    later.event_ts_below = 1;
    assert!(validate_write_batch(&vec![later.clone(), later.clone()], &fine(2)).is_ok());
    assert_eq!(
        validate_write_batch(&vec![first.clone(), later.clone()], &fine(2))
            .unwrap_err()
            .message,
        "event_id 'item-1:grade-0:0' was reused with different content"
    );
    let batch = events_to_batch(&vec![later]);
    assert_eq!(read(&batch).unwrap(), vec![first]);
}

#[test]
fn write_batches_report_each_refusal() {
    let message = |events: Vec<DatagenEvent>| {
        let verdicts = fine(events.len());
        validate_write_batch(&events, &verdicts).unwrap_err().message
    };
    let first = completed_step(1, 0);
    let mut changed = first.clone();
    changed.attempt = 1;
    assert_eq!(
        message(vec![first.clone(), changed]),
        "event_id 'item-1:grade-0:0' was reused with different content"
    );
    assert_eq!(
        message(vec![first.clone(), completed_step(1, 1)]),
        "item 'item-1' has duplicate item_seq 1 in one batch"
    );
    let mut empty = field_event(1, 0, "FIELD_SET", "f", "t", blob(b"abc"));
    empty.value = Some(DatagenValue::Blob(DatagenBlobValue {
        bytes: None,
        size: 3,
        checksum: None,
    }));
    assert_eq!(
        message(vec![empty]),
        "blob event 'item-1:grade-0:0' has no bytes on the write path"
    );
    let mut short = field_event(1, 0, "FIELD_SET", "f", "t", blob(b"abc"));
    short.value = Some(DatagenValue::Blob(DatagenBlobValue {
        bytes: Some(b"abc".to_vec()),
        size: 4,
        checksum: None,
    }));
    assert_eq!(
        message(vec![short]),
        "blob event 'item-1:grade-0:0' declares 4 bytes but contains 3"
    );
    assert!(validate_write_batch(&vec![first.clone(), first.clone()], &fine(2)).is_ok());
    let refused = validate_write_batch(&vec![first], &vec![Some("no".to_string())]);
    assert_eq!(refused.unwrap_err().message, "no");
}

#[test]
fn checkpoints_report_each_refusal() {
    let message = |events: Vec<DatagenEvent>| {
        let verdicts = fine(events.len());
        validate_checkpoint_batch(&events, &verdicts)
            .unwrap_err()
            .message
    };
    assert_eq!(message(Vec::new()), "checkpoint batch must not be empty");
    let mut other_run = completed_step(2, 1);
    other_run.run_id = "run-2".to_string();
    assert_eq!(
        message(vec![completed_step(1, 0), other_run]),
        "checkpoint batch must share item_id, checkpoint_id, run_id, writer_epoch, and attempt"
    );
    assert_eq!(
        message(vec![event("item-1", 0, "grade-0", 0, "TERMINAL")]),
        "checkpoint batch may contain only FIELD_SET, FIELD_APPEND, and STEP_COMPLETED events"
    );
    assert_eq!(
        message(vec![completed_step(1, 0), completed_step(2, 1)]),
        "checkpoint batch requires exactly one STEP_COMPLETED event, found 2"
    );
    let mut elsewhere = field_event(1, 0, "FIELD_SET", "f", "t", DatagenValue::Int(1));
    elsewhere.step_name = Some("other".to_string());
    assert_eq!(
        message(vec![elsewhere, completed_step(2, 1)]),
        "all field events must share the STEP_COMPLETED step identity"
    );
}

#[test]
fn reads_come_in_log_order() {
    let events = order_events(vec![
        event("b", 0, "c", 0, "ITEM_CREATED"),
        event("a", 2, "c", 1, "ITEM_CREATED"),
        event("a", 1, "c", 2, "ITEM_CREATED"),
        event("a", 1, "c", 1, "ITEM_CREATED"),
    ]);
    let order: Vec<&str> = events.iter().map(|event| event.event_id.as_str()).collect();
    assert_eq!(order, ["a:c:1", "a:c:2", "a:c:1", "b:c:0"]);
}

#[test]
fn filters_quote_their_values() {
    assert_eq!(item_filter("o'brien"), "item_id = 'o''brien'");
    assert_eq!(event_filter("e-1"), "event_id = 'e-1'");
    assert_eq!(failures_filter(&None), "event_type = 'FAILED'");
}

#[test]
fn blobs_are_sought_from_the_newest_generation() {
    let generation = |number: u64| Generation {
        generation: number,
        path: format!("gen_{number}"),
    };
    let snapshots = vec![
        ShardSnapshot {
            shard_id: 1,
            flushed_generations: vec![generation(1), generation(3)],
        },
        ShardSnapshot {
            shard_id: 2,
            flushed_generations: vec![generation(2), generation(3)],
        },
    ];
    let found = newest_generations(URI, &snapshots);
    let places: Vec<String> = found.into_iter().map(|located| located.uri).collect();
    assert_eq!(
        places,
        [
            flushed_generation_uri(URI, 1, "gen_3"),
            flushed_generation_uri(URI, 2, "gen_3"),
            flushed_generation_uri(URI, 2, "gen_2"),
            flushed_generation_uri(URI, 1, "gen_1"),
        ]
    );
}

#[test]
fn the_merge_timer_has_a_pass_timeout() {
    let schedule = |secs: Option<u64>| {
        Log::open_with_options(DatagenStoreOptions {
            cleanup_interval_secs: secs,
            ..Default::default()
        })
        .store
        .cleanup_schedule()
    };
    assert_eq!(schedule(None), None);
    assert_eq!(schedule(Some(0)), None);
    assert_eq!(schedule(Some(2)), Some((2, 30)));
    assert_eq!(schedule(Some(60)), Some((60, 300)));
    assert_eq!(schedule(Some(u64::MAX)), Some((u64::MAX, u64::MAX)));
}
