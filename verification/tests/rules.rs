//! The rules of the library, each on values of its own.

use std::cmp::Ordering;

use lance_context_core::batch::{
    align_batch_to_schema, AlignError, Batch, Cell, Column, EncodeError, FitError,
};
use lance_context_core::compaction::{
    limit_tasks, should_compact, CompactionConfig, CompactionOutcome, CompactionState,
    ONE_TENTH_BITS,
};
use lance_context_core::context_decode::batch_to_records;
use lance_context_core::context_schema::{
    blob_columns_from_schema, distance_metric_from_schema, embedding_dim_from_schema,
    render_names, sorted_strings, validate_embedding_dim, validate_query_dimension,
};
use lance_context_core::context_store::{ContextStore, ContextStoreOptions};
use lance_context_core::error::ErrorKind;
use lance_context_core::fusion::{
    compare_optional_distance, compare_optional_score, compare_retrieve_results, float_key,
    plan_retrieve, RetrieveResult,
};
use lance_context_core::merge_commit::{start_commit, CommitAction, CommitEvent};
use lance_context_core::metric::DistanceMetric;
use lance_context_core::number::{decimal_i64, decimal_u64, decimal_usize};
use lance_context_core::point_read::{find_row_id, row_ids};
use lance_context_core::projection::{
    default_read_projection, projected_columns, IdIndexType, ReadProjection,
};
use lance_context_core::record::{ContextRecord, Relationship, StateMetadata};
use lance_context_core::retrieve::{lexical_match, tokenize_for_retrieval, unique_query_terms};
use lance_context_core::rollout_columns::rollout_schema;
use lance_context_core::rollout_sql::{
    check_statements, count_scanned, ensure_select_only, SqlQueryResult, SQL_MAX_RESULT_ROWS,
    SQL_MAX_SCAN_ROWS,
};
use lance_context_core::schema::{scalar, DataType, Field, Form, ItemType, Scalar, Schema};
use lance_context_core::shard::{derive_shard_id, drain_manifest, uuid_text, Generation, ShardManifest};
use lance_context_core::sql::{escape_sql_literal, membership_filter, sql_quoted_list};
use lance_context_core::storage::{
    after_drain, after_seal, is_fenced_error, is_not_found_error, plan_evolution, start_flush,
    start_put, step_put, wal_setup, FlushOutcome, FlushStep, PutAction, PutEvent, StorageBase,
    StorageBaseOptions, WalSetup, WriterSlot,
};

const ACTIVE: &str = "active";

fn names(values: &[&str]) -> Vec<String> {
    values.iter().map(|value| value.to_string()).collect()
}

fn record(id: &str) -> ContextRecord {
    ContextRecord {
        id: id.to_string(),
        external_id: Some(format!("ext-{id}")),
        run_id: "run".to_string(),
        bot_id: Some("bot".to_string()),
        session_id: Some("session".to_string()),
        tenant: Some("tenant".to_string()),
        source: Some("source".to_string()),
        created_at: 1_700_000_000_000_001,
        role: "user".to_string(),
        state_metadata: Some(StateMetadata {
            step: Some(-1),
            active_plan_id: None,
            tokens_used: Some(7),
            custom: Some("free".to_string()),
        }),
        metadata: Some(r#"{"k":[1,null,"x"]}"#.to_string()),
        relationships: vec![Relationship {
            target_id: "t".to_string(),
            relation: "r".to_string(),
            weight: Some(0.5_f32.to_bits()),
        }],
        expires_at: Some(-5),
        retention_policy: Some("keep".to_string()),
        lifecycle_status: "retired".to_string(),
        retired_at: Some(6),
        retired_reason: Some("why".to_string()),
        supersedes_id: Some("older".to_string()),
        superseded_by_id: Some("newer".to_string()),
        content_type: "text/plain".to_string(),
        text_payload: Some("t\u{e9}xt".to_string()),
        binary_payload: Some(vec![0, 255]),
        payload_uri: Some("s3://x".to_string()),
        payload_size: Some(2),
        payload_checksum: Some("sum".to_string()),
        embedding: Some(vec![1.0_f32.to_bits(), f32::NAN.to_bits()]),
    }
}

fn small_table(blobs: &[&str]) -> (ContextStore, Schema) {
    let options = ContextStoreOptions {
        embedding_dim: Some(2),
        blob_columns: names(blobs),
        ..Default::default()
    };
    let schema = ContextStore::schema_for_new_table(&options.blob_columns, 2, DistanceMetric::Dot);
    (ContextStore::from_schema(options, true, &schema).unwrap(), schema)
}

fn encoded(blobs: &[&str]) -> Batch {
    let (store, schema) = small_table(blobs);
    store
        .records_to_batch(&vec![record("a"), record("b")], &schema, ACTIVE)
        .unwrap()
}

fn column<'a>(batch: &'a mut Batch, name: &str) -> &'a mut Column {
    let at = batch.index_of(name).unwrap();
    &mut batch.columns[at]
}

#[test]
fn a_new_table_gives_back_every_field() {
    for blobs in [&[][..], &["text_payload"][..]] {
        let batch = encoded(blobs);
        assert_eq!(
            batch_to_records(&batch, ACTIVE).unwrap(),
            [record("a"), record("b")]
        );
    }
}

#[test]
fn documents_read_back_without_spaces() {
    let mut batch = encoded(&[]);
    column(&mut batch, "metadata").cells[0] = Cell::Text("{ \"k\" : [ 1 ] }".to_string());
    let read = batch_to_records(&batch, ACTIVE).unwrap();
    assert_eq!(read[0].metadata.as_deref(), Some("{\"k\":[1]}"));
}

#[test]
fn broken_documents_are_reported() {
    let mut batch = encoded(&[]);
    column(&mut batch, "metadata").cells[1] = Cell::Text("{".to_string());
    let error = batch_to_records(&batch, ACTIVE).unwrap_err();
    assert_eq!(error.kind, ErrorKind::InvalidArgument);
    assert!(error.message.contains("EOF"), "{}", error.message);
}

#[test]
fn timestamps_out_of_range_are_reported() {
    let mut batch = encoded(&[]);
    column(&mut batch, "created_at").cells[0] = Cell::Int(i64::MAX);
    let error = batch_to_records(&batch, ACTIVE).unwrap_err();
    assert!(error.message.contains("created_at"), "{}", error.message);
    for (micros, taken) in [
        (-8_334_601_228_800_000_000, true),
        (-8_334_601_228_800_000_001, false),
        (8_210_266_876_799_999_999, true),
        (8_210_266_876_800_000_000, false),
    ] {
        column(&mut batch, "created_at").cells[0] = Cell::Int(micros);
        assert_eq!(batch_to_records(&batch, ACTIVE).is_ok(), taken, "{micros}");
    }
}

#[test]
fn bytes_that_are_no_text_are_replaced() {
    let mut batch = encoded(&["text_payload"]);
    column(&mut batch, "text_payload").cells[0] = Cell::Bytes(vec![b'a', 0xff, b'b']);
    let read = batch_to_records(&batch, ACTIVE).unwrap();
    assert_eq!(read[0].text_payload.as_deref(), Some("a\u{fffd}b"));
    assert_eq!(read[1].text_payload.as_deref(), Some("t\u{e9}xt"));
}

#[test]
fn missing_and_mistyped_columns_are_reported() {
    let mut batch = encoded(&[]);
    batch.columns.retain(|column| column.name != "role");
    assert_eq!(
        batch_to_records(&batch, ACTIVE).unwrap_err().message,
        "column 'role' not found"
    );
    let mut batch = encoded(&[]);
    column(&mut batch, "id").data_type = scalar(Scalar::Int64);
    assert_eq!(
        batch_to_records(&batch, ACTIVE).unwrap_err().message,
        "column 'id' has unexpected data type"
    );
}

#[test]
fn an_embedding_of_another_length_is_refused() {
    let (store, schema) = small_table(&[]);
    let mut wrong = record("a");
    wrong.embedding = Some(vec![0]);
    let error = store.records_to_batch(&vec![wrong], &schema, ACTIVE).unwrap_err().report("", "");
    assert!(error.message.contains("embedding"), "{}", error.message);
}

#[test]
fn an_old_table_refuses_what_it_cannot_hold() {
    let (store, mut schema) = small_table(&[]);
    for missing in [
        "external_id",
        "metadata",
        "tenant",
        "source",
        "payload_uri",
        "expires_at",
        "relationships",
    ] {
        let kept = schema.fields.clone();
        schema.fields.retain(|field| field.name != missing);
        assert!(
            store.records_to_batch(&vec![record("a")], &schema, ACTIVE).is_err(),
            "a table without {missing} must refuse the record"
        );
        schema.fields = kept;
    }
}

#[test]
fn columns_that_do_not_fit_a_table_are_refused() {
    let (store, schema) = small_table(&[]);
    let rows = vec![record("a")];
    let at = schema.index_of("id").unwrap();
    let mut numbered = schema.clone();
    numbered.fields[at].data_type = scalar(Scalar::Int64);
    let error = store.records_to_batch(&rows, &numbered, ACTIVE).unwrap_err();
    assert_eq!(
        error,
        EncodeError::Unfit(FitError::TypeMismatch {
            index: at,
            expected: scalar(Scalar::Int64),
            found: scalar(Scalar::Utf8),
        })
    );
    assert_eq!(
        error.report("Int64", "Utf8").message,
        format!("column types must match schema types, expected Int64 but found Utf8 at column index {at}")
    );

    let mut strict = schema.clone();
    let at = strict.index_of("bot_id").unwrap();
    strict.fields[at].nullable = false;
    let mut nobody = record("a");
    nobody.bot_id = None;
    let error = store.records_to_batch(&vec![nobody], &strict, ACTIVE).unwrap_err();
    assert_eq!(
        error.report("", "").message,
        "Column 'bot_id' is declared as non-nullable but contains null values"
    );

    let renamed = Schema {
        fields: schema
            .fields
            .iter()
            .map(|field| match field.data_type {
                DataType::FixedSizeList(item, dim, _) => Field {
                    data_type: DataType::FixedSizeList(item, dim, Form::Other(1)),
                    ..field.clone()
                },
                _ => field.clone(),
            })
            .collect(),
        ..schema.clone()
    };
    assert!(store.records_to_batch(&rows, &renamed, ACTIVE).is_err());
    let nothing = Schema { fields: Vec::new(), metadata: Vec::new() };
    let mut plain = record("a");
    plain.external_id = None;
    assert!(store.records_to_batch(&vec![plain], &nothing, ACTIVE).is_err());
}

#[test]
fn a_store_opens_with_its_handle() {
    let options = ContextStoreOptions {
        seal_on_add: false,
        merge_after_generations: Some(3),
        shard_id: Some("one".to_string()),
        ..ContextStoreOptions::default()
    };
    let schema = ContextStore::schema(&Vec::new());
    let (store, base) =
        ContextStore::open("mem://c".to_string(), options, true, &schema).unwrap();
    assert_eq!(store.embedding_dim(), 1536);
    assert_eq!(base.uri, "mem://c");
    assert_eq!(base.key_column, "id");
    assert_eq!(base.merge_after_generations, 3);
    assert_eq!(base.write_shard, derive_shard_id(&Some("one".to_string())));
    assert!(!base.seal_on_put);
    assert!(base.latest_schema.is_none());

    let own = store.compactor_options(&None);
    assert_eq!(own.compaction, store.compaction_config);

    let mut keyless = schema.clone();
    keyless.fields.retain(|field| field.name != "id");
    let refused = ContextStore::open(
        "mem://c".to_string(),
        ContextStoreOptions::default(),
        false,
        &keyless,
    );
    assert_eq!(refused.unwrap_err().kind, ErrorKind::Schema);
}

#[test]
fn schemas_report_each_refusal() {
    let bare = |data_type| Schema {
        fields: vec![Field::new("embedding", data_type, true)],
        metadata: Vec::new(),
    };
    let absent = Schema {
        fields: vec![Field::new("id", scalar(Scalar::Utf8), false)],
        metadata: Vec::new(),
    };
    let error = embedding_dim_from_schema(&absent).unwrap_err();
    assert_eq!(error.kind, ErrorKind::Schema);
    assert_eq!(
        error.message,
        "Unable to get field named \"embedding\". Valid fields: [\"id\"]"
    );
    let listed = |item, dim| bare(DataType::FixedSizeList(ItemType::Scalar(item), dim, Form::Own));
    assert_eq!(embedding_dim_from_schema(&listed(Scalar::Float32, 8)).unwrap(), 8);
    assert!(embedding_dim_from_schema(&listed(Scalar::Int8, 8))
        .unwrap_err()
        .message
        .contains("Float32 values"));
    assert!(embedding_dim_from_schema(&bare(scalar(Scalar::Utf8)))
        .unwrap_err()
        .message
        .contains("FixedSizeList<Float32>"));
    assert!(embedding_dim_from_schema(&listed(Scalar::Float32, 0)).is_err());
    assert!(validate_embedding_dim(0).is_err());
    assert!(validate_embedding_dim(1).is_ok());
    assert!(validate_query_dimension(3, 3).is_ok());
    assert!(validate_query_dimension(2, 3).unwrap_err().message.contains("embedding dimension 3"));

    let mut odd = absent.clone();
    odd.metadata = vec![(
        "lance-context:distance_metric".to_string(),
        "manhattan".to_string(),
    )];
    assert!(distance_metric_from_schema(&odd).unwrap_err().message.contains("manhattan"));
}

#[test]
fn opening_with_other_blob_columns_is_refused() {
    let (_, schema) = small_table(&["text_payload"]);
    assert_eq!(blob_columns_from_schema(&schema), ["text_payload"]);
    let options = ContextStoreOptions {
        blob_columns: names(&["binary_payload"]),
        ..Default::default()
    };
    let error = ContextStore::from_schema(options, false, &schema).unwrap_err();
    assert_eq!(
        error.message,
        "existing context blob columns [\"text_payload\"] do not match requested columns [\"binary_payload\"]"
    );
    assert_eq!(sorted_strings(&names(&["b", "a", "b"])), ["a", "b", "b"]);
    assert_eq!(render_names(&names(&["a", "b"])), "[\"a\", \"b\"]");
    assert_eq!(render_names(&Vec::new()), "[]");
}

#[test]
fn metrics_have_one_name_each() {
    for metric in [DistanceMetric::L2, DistanceMetric::Cosine, DistanceMetric::Dot] {
        assert_eq!(DistanceMetric::parse(metric.as_str()).unwrap(), metric);
    }
    let error = DistanceMetric::parse("manhattan").unwrap_err();
    assert!(error.message.contains("manhattan"), "{}", error.message);
}

#[test]
fn reads_leave_configured_payloads_out() {
    let columns = names(&["id", "text_payload", "binary_payload", "embedding"]);
    let lazy = default_read_projection(&names(&["text_payload", "binary_payload"]));
    assert_eq!(projected_columns(&columns, lazy), ["id", "embedding"]);
    assert_eq!(projected_columns(&columns, ReadProjection::default()), columns);
    assert_eq!(projected_columns(&columns, ReadProjection::metadata_only()), ["id"]);
    assert!(ReadProjection::default().loads_all());
    assert_eq!(IdIndexType::default(), IdIndexType::NoIndex);
}

#[test]
fn literals_are_escaped() {
    assert_eq!(escape_sql_literal("o'b''c"), "o''b''''c");
    assert_eq!(sql_quoted_list(&names(&["a", "o'b"])), "'a','o''b'");
    assert_eq!(membership_filter("id", &names(&["a", "b"])), "id IN ('a','b')");
}

#[test]
fn numbers_are_written_in_decimal() {
    assert_eq!(decimal_u64(u64::MAX), u64::MAX.to_string());
    assert_eq!(decimal_usize(0), "0");
    assert_eq!(decimal_i64(i64::MIN), i64::MIN.to_string());
    assert_eq!(decimal_i64(-42), "-42");
}

#[test]
fn words_are_letters_and_numbers_in_lower_case() {
    assert_eq!(
        tokenize_for_retrieval("POLICY-123, \u{c9}t\u{e9}!"),
        ["policy", "123", "\u{e9}t\u{e9}"]
    );
    assert!(tokenize_for_retrieval(" -- ").is_empty());
    assert_eq!(unique_query_terms("b a B"), ["b", "a"]);
    assert!(unique_query_terms(" -- ?!").is_empty());
    assert_eq!(unique_query_terms("\u{130}"), ["i\u{307}"]);
    assert_eq!(tokenize_for_retrieval("a1,,b  C").len(), 3);
    let terms = names(&["policy", "absent"]);
    let text = Some("Policy policy".to_string());
    assert_eq!(lexical_match(&terms, &text), Some((1, 2)));
    assert_eq!(lexical_match(&terms, &Some("other".to_string())), None);
    assert_eq!(lexical_match(&terms, &None), None);
}

#[test]
fn retrieval_needs_text_or_a_vector() {
    let error = plan_retrieve(&Vec::new(), None, 3, None).unwrap_err();
    assert_eq!(error.message, "retrieve requires text or vector");
    assert!(plan_retrieve(&Vec::new(), Some(2), 3, None).is_err());
    assert_eq!(plan_retrieve(&Vec::new(), Some(3), 3, Some(0)).unwrap(), None);
    let plan = plan_retrieve(&names(&["a"]), None, 3, None).unwrap().unwrap();
    assert!(plan.has_text);
    assert_eq!(plan.wanted, 10);
}

fn result(id: &str, score: f32, distance: Option<f32>, text: Option<f32>) -> RetrieveResult {
    let mut found = record(id);
    found.embedding = None;
    RetrieveResult {
        record: found,
        score: score.to_bits(),
        vector_distance: distance.map(f32::to_bits),
        text_score: text.map(f32::to_bits),
        matched_channels: Vec::new(),
    }
}

#[test]
fn floats_are_ordered_totally() {
    let values = [
        f32::NEG_INFINITY,
        -1.0,
        -0.0,
        0.0,
        f32::MIN_POSITIVE,
        1.0,
        f32::INFINITY,
        f32::NAN,
    ];
    for left in values {
        for right in values {
            assert_eq!(
                float_key(left.to_bits()).cmp(&float_key(right.to_bits())),
                left.total_cmp(&right)
            );
        }
    }
}

#[test]
fn results_come_by_score_then_distance_then_text_then_id() {
    let best = result("z", 2.0, None, None);
    let near = result("y", 1.0, Some(0.5), None);
    let far = result("x", 1.0, Some(0.7), Some(1.0));
    let spoken = result("w", 1.0, None, Some(1.0));
    let faint = result("v", 1.0, None, Some(0.5));
    let silent = result("t", 1.0, None, None);
    let last = result("u", 1.0, None, None);
    let order = [best, near, far, spoken, faint, silent, last];
    for (i, left) in order.iter().enumerate() {
        for (j, right) in order.iter().enumerate() {
            assert_eq!(compare_retrieve_results(left, right), i.cmp(&j), "{i} {j}");
        }
    }
    assert_eq!(compare_optional_distance(None, None), Ordering::Equal);
    assert_eq!(compare_optional_distance(Some(0), None), Ordering::Less);
    assert_eq!(compare_optional_score(Some(0), None), Ordering::Less);
}

#[test]
fn a_fenced_append_is_repeated_once() {
    let (stage, action) = start_put(false);
    assert_eq!(action, PutAction::AcquireWriter);
    let (stage, action) = step_put(stage, false, PutEvent::WriterReady(1));
    assert_eq!(action, PutAction::Put(1));
    let fenced = || PutEvent::PutFailed("writer was fenced".to_string());
    let (stage, action) = step_put(stage, false, fenced());
    assert_eq!(action, PutAction::ReplaceWriter(1));
    let (stage, action) = step_put(stage, false, PutEvent::WriterReady(2));
    assert_eq!(action, PutAction::Put(2));
    let (_, action) = step_put(stage, false, fenced());
    assert_eq!(action, PutAction::Fail("writer was fenced".to_string()));

    assert_eq!(start_put(true).1, PutAction::Succeed);
    assert!(is_fenced_error("Epoch Fenced") && is_fenced_error("was fenced"));
    assert!(!is_fenced_error("defence"));
}

#[test]
fn other_failures_of_an_append_end_it() {
    let (stage, _) = start_put(false);
    let (stage, _) = step_put(stage, true, PutEvent::WriterReady(1));
    let (_, action) = step_put(stage, true, PutEvent::PutFailed("disk".to_string()));
    assert_eq!(action, PutAction::Fail("disk".to_string()));
    let (stage, action) = step_put(stage, true, PutEvent::PutDone);
    assert_eq!(action, PutAction::Seal);
    let (_, action) = step_put(stage, true, PutEvent::SealFailed("late".to_string()));
    assert_eq!(action, PutAction::Fail("late".to_string()));
    let (stage, _) = start_put(false);
    let (_, action) = step_put(stage, true, PutEvent::WriterFailed("gone".to_string()));
    assert_eq!(action, PutAction::Fail("gone".to_string()));
}

#[test]
fn a_flush_tells_which_path_it_took() {
    let mut slot = WriterSlot::new();
    assert_eq!(start_flush(&slot), FlushStep::Ended(FlushOutcome::Noop));
    assert_eq!(slot.install(4), 4);
    assert_eq!(slot.install(5), 4);
    assert_eq!(start_flush(&slot), FlushStep::Seal(4));
    assert_eq!(after_seal(4, Ok(())), FlushStep::Drain(4));
    assert_eq!(
        after_seal(4, Err("fenced".to_string())),
        FlushStep::EndedFenced(4)
    );
    assert_eq!(
        after_seal(4, Err("disk".to_string())),
        FlushStep::Failed("disk".to_string())
    );
    assert_eq!(after_drain(Ok(())), FlushStep::Ended(FlushOutcome::Sealed));
    assert_eq!(
        after_drain(Err("disk".to_string())),
        FlushStep::Failed("disk".to_string())
    );
    slot.invalidate(3);
    assert_eq!(slot.resident, Some(4));
    slot.invalidate(4);
    assert_eq!(slot.take(), None);
}

#[test]
fn missing_tables_are_recognized() {
    assert!(is_not_found_error(true, ""));
    assert!(is_not_found_error(false, "Dataset at x was not found"));
    assert!(is_not_found_error(false, "NotFound"));
    assert!(!is_not_found_error(false, "permission denied"));
}

#[test]
fn a_log_that_another_writer_set_up_is_taken() {
    assert_eq!(wal_setup(true, None, None), WalSetup::Ready);
    assert_eq!(wal_setup(false, None, None), WalSetup::Create);
    assert_eq!(wal_setup(false, Some(true), None), WalSetup::Ready);
    assert_eq!(wal_setup(false, Some(false), None), WalSetup::Recheck);
    assert_eq!(wal_setup(false, Some(false), Some(true)), WalSetup::Ready);
    assert_eq!(wal_setup(false, Some(false), Some(false)), WalSetup::Failed);
}

#[test]
fn a_handle_needs_its_key_column() {
    let options = || StorageBaseOptions {
        storage_options: None,
        shard_id: None,
        merge_after_generations: Some(4),
        key_column: "id".to_string(),
        latest_schema: None,
        seal_on_put: true,
    };
    let base = StorageBase::new("mem://x".to_string(), &rollout_schema(), options()).unwrap();
    assert_eq!(base.merge_trigger(), Some(4));
    assert_eq!(base.write_shard, derive_shard_id(&None));
    let empty = Schema {
        fields: Vec::new(),
        metadata: Vec::new(),
    };
    let error = StorageBase::new("mem://x".to_string(), &empty, options()).unwrap_err();
    assert_eq!(
        error.message,
        "key column 'id' is not present in the store schema"
    );
}

fn merge_actions(has_rows: bool, paths: usize, events: Vec<CommitEvent>) -> Vec<CommitAction> {
    let mut base = pinned_base();
    let (mut stage, action) = start_commit();
    let mut actions = vec![action];
    for event in events {
        let next = base.step_commit(stage, has_rows, paths, event);
        stage = next.0;
        actions.push(next.1);
    }
    assert_eq!(
        base.is_version_pinned(),
        !actions.contains(&CommitAction::Succeed) && !actions.contains(&CommitAction::Drain)
    );
    actions
}

fn pinned_base() -> StorageBase {
    let options = StorageBaseOptions {
        storage_options: None,
        shard_id: None,
        merge_after_generations: None,
        key_column: "id".to_string(),
        latest_schema: None,
        seal_on_put: false,
    };
    let mut base = StorageBase::new("mem://x".to_string(), &rollout_schema(), options).unwrap();
    base.pin_version(3);
    base
}

#[test]
fn merges_are_safe_to_interrupt() {
    let done = || CommitEvent::Done;
    let failed = || CommitEvent::Failed("disk".to_string());
    assert_eq!(
        merge_actions(true, 2, vec![done(), done(), done(), done(), failed(), done()]),
        [
            CommitAction::EvolveSchema,
            CommitAction::Append,
            CommitAction::Drain,
            CommitAction::Locate,
            CommitAction::Delete(0),
            CommitAction::Delete(1),
            CommitAction::Succeed,
        ]
    );
    assert_eq!(
        merge_actions(true, 1, vec![done(), failed()]),
        [
            CommitAction::EvolveSchema,
            CommitAction::Append,
            CommitAction::Fail("disk".to_string()),
        ]
    );
    let (stage, _) = start_commit();
    let mut base = pinned_base();
    assert_eq!(base.step_commit(stage, false, 0, done()).1, CommitAction::Drain);
    assert!(base.is_version_pinned());
}

#[test]
fn tables_evolve_by_nullable_columns_only() {
    let latest = rollout_schema();
    let mut base = rollout_schema();
    base.fields.retain(|field| field.name != "rationale");
    let added = plan_evolution(&base, &latest).unwrap();
    assert_eq!(added.len(), 1);
    assert_eq!(added[0].name, "rationale");
    assert!(plan_evolution(&latest, &latest).unwrap().is_empty());
}

#[test]
fn batches_align_or_say_why_not() {
    let target = Schema {
        fields: vec![
            Field::new("id", scalar(Scalar::Utf8), false),
            Field::new("note", scalar(Scalar::Utf8), true),
        ],
        metadata: Vec::new(),
    };
    let batch = |columns: Vec<(&str, Scalar)>| Batch {
        columns: columns
            .into_iter()
            .map(|(name, kind)| Column {
                name: name.to_string(),
                data_type: scalar(kind),
                cells: vec![Cell::Text("x".to_string())],
            })
            .collect(),
        rows: 1,
    };
    let aligned = align_batch_to_schema(&batch(vec![("id", Scalar::Utf8)]), &target).unwrap();
    assert_eq!(aligned.columns.len(), 2);
    assert_eq!(aligned.columns[1].cells, [Cell::Null]);

    let unknown = batch(vec![("id", Scalar::Utf8), ("odd", Scalar::Utf8)]);
    let error = align_batch_to_schema(&unknown, &target).unwrap_err();
    assert_eq!(error, AlignError::UnknownColumn("odd".to_string()));
    assert_eq!(
        error.report("", "").message,
        "WAL generation column 'odd' does not exist in the base table schema"
    );
    let error = align_batch_to_schema(&batch(vec![("id", Scalar::Int64)]), &target).unwrap_err();
    assert_eq!(
        error.report("Int64", "Utf8").message,
        "WAL generation column 'id' has type Int64, expected Utf8"
    );
    let error = align_batch_to_schema(&batch(vec![("note", Scalar::Utf8)]), &target).unwrap_err();
    assert_eq!(
        error.report("", "").message,
        "required base table column 'id' is missing from the WAL generation"
    );
}

#[test]
fn a_drain_keeps_what_was_not_merged() {
    let generation = |number: u64| Generation {
        generation: number,
        path: format!("gen_{number}"),
    };
    let manifest = ShardManifest {
        version: 7,
        writer_epoch: 3,
        shard_spec_id: 1,
        current_generation: 5,
        replay_after_wal_entry_position: 11,
        wal_entry_position_last_seen: 12,
        flushed_generations: vec![generation(2), generation(3), generation(4)],
    };
    let drained = drain_manifest(&manifest, &vec![3, 2]);
    assert_eq!(drained.version, 8);
    assert_eq!(drained.flushed_generations, [generation(4)]);
    assert_eq!(drained.current_generation, 5);
    assert_eq!(drained.writer_epoch, 3);
    assert_eq!(drained.replay_after_wal_entry_position, 11);
}

#[test]
fn shards_are_name_based() {
    let shard = derive_shard_id(&Some("rollout-0".to_string()));
    let expected = uuid::Uuid::new_v5(&uuid::Uuid::NAMESPACE_OID, b"rollout-0");
    assert_eq!(shard, expected.as_u128());
    assert_eq!(uuid_text(shard), expected.to_string());
}

#[test]
fn one_compaction_runs_at_a_time() {
    let mut state = CompactionState::new();
    state.begin().unwrap();
    assert_eq!(
        state.begin().unwrap_err().message,
        "Compaction already in progress"
    );
    assert!(state.stats(3).is_compacting);
    state.finish(CompactionOutcome::Failed("disk".to_string()));
    let stats = state.stats(3);
    assert_eq!(stats.last_error.as_deref(), Some("disk"));
    assert_eq!(stats.total_compactions, 0);
    state.begin().unwrap();
    state.finish(CompactionOutcome::Done(9));
    let stats = state.stats(2);
    assert_eq!(stats.total_fragments, 2);
    assert_eq!(stats.last_compaction, Some(9));
    assert_eq!(stats.last_error, None);
    assert_eq!(stats.total_compactions, 1);
}

#[test]
fn quiet_hours_hold_compaction_back() {
    let config = CompactionConfig {
        min_fragments: 2,
        quiet_hours: vec![(9, 17)],
        ..Default::default()
    };
    assert!(!should_compact(&config, 1, 3));
    assert!(should_compact(&config, 2, 8));
    assert!(!should_compact(&config, 2, 9));
    assert!(!should_compact(&config, 2, 16));
    assert!(should_compact(&config, 2, 17));
    assert_eq!(f32::from_bits(ONE_TENTH_BITS), 0.1);
    assert_eq!(
        limit_tasks(&vec![vec![1, 2], vec![3, 4], vec![5]], 3),
        [vec![1, 2], vec![3]]
    );
}

#[test]
fn statements_report_each_refusal() {
    assert!(check_statements(Ok(vec![true])).is_ok());
    for refused in [Ok(vec![]), Ok(vec![false]), Ok(vec![true, true])] {
        assert_eq!(
            check_statements(refused).unwrap_err().kind,
            ErrorKind::InvalidInput
        );
    }
    let broken = check_statements(Err("near x".to_string())).unwrap_err();
    assert!(broken.message.contains("near x"));
    assert!(ensure_select_only("SELEC 1").unwrap_err().message.len() > 0);
}

#[test]
fn queries_are_bounded() {
    assert_eq!(count_scanned(0, SQL_MAX_SCAN_ROWS).unwrap(), SQL_MAX_SCAN_ROWS);
    assert!(count_scanned(1, SQL_MAX_SCAN_ROWS).is_err());
    let mut result = SqlQueryResult::new(names(&["n"]));
    let rows = |count: usize| vec![vec![("n".to_string(), "1".to_string())]; count];
    result.add_rows(&rows(SQL_MAX_RESULT_ROWS));
    assert!(!result.truncated);
    result.add_rows(&rows(1));
    assert!(result.truncated);
    assert_eq!(result.rows.len(), SQL_MAX_RESULT_ROWS);
}

#[test]
fn rows_are_found_by_their_key() {
    let text = |values: &[&str]| {
        values
            .iter()
            .map(|value| Cell::Text(value.to_string()))
            .collect::<Vec<_>>()
    };
    let batch = Batch {
        columns: vec![
            Column {
                name: "id".to_string(),
                data_type: scalar(Scalar::Utf8),
                cells: text(&["a", "b"]),
            },
            Column {
                name: "_rowid".to_string(),
                data_type: scalar(Scalar::UInt64),
                cells: vec![Cell::Unsigned(7), Cell::Unsigned(u64::MAX)],
            },
        ],
        rows: 2,
    };
    assert_eq!(row_ids(&batch, "id").unwrap(), [7, u64::MAX]);
    assert_eq!(find_row_id(&batch, "id", "b").unwrap(), Some(u64::MAX));
    assert_eq!(find_row_id(&batch, "id", "c").unwrap(), None);
    assert!(find_row_id(&batch, "other", "b").is_err());
}
