//! A store over a declared schema, on a table that is held in memory.

use lance_context_core::batch::{Batch, Cell, Column};
use lance_context_core::error::{ErrorKind, StoreError};
use lance_context_core::generic_store::{
    check_batches, check_declaration, get_columns, get_filter, put_entry, scan_window,
    schema_source, schema_with_spec, seal_on_add_from_schema, spec_from_schema, GenericStore,
    GenericStoreOptions, SchemaSource,
};
use lance_context_core::listing::paged;
use lance_context_core::merge::PreparedMerge;
use lance_context_core::point_read::payload_with_key;
use lance_context_core::projection::non_blob_columns;
use lance_context_core::schema::{primary_key_field, scalar, Field, Scalar, Schema};
use lance_context_core::shard::{
    drain_manifest, generation_numbers, Generation, ShardManifest,
};
use lance_context_core::storage::{start_put, step_put, PutAction, PutEvent};

const SPEC: &str = r#"{"columns":[["id","string"],["user_id","string"],["score","float32"],["payload","binary"]]}"#;
const URI: &str = "mem://generic";

fn columns() -> Schema {
    Schema {
        fields: vec![
            primary_key_field("id"),
            Field::new("user_id", scalar(Scalar::Utf8), true),
            Field::new("score", scalar(Scalar::Float32), true),
            Field::new("payload", scalar(Scalar::LargeBinary), true),
        ],
        metadata: Vec::new(),
    }
}

fn sealing() -> GenericStoreOptions {
    GenericStoreOptions {
        seal_on_add: true,
        ..Default::default()
    }
}

#[derive(Clone, Default)]
struct Row {
    id: String,
    user_id: Option<String>,
    score: Option<f32>,
    payload: Option<Vec<u8>>,
}

fn row(id: &str) -> Row {
    Row {
        id: id.to_string(),
        ..Default::default()
    }
}

fn encode(rows: &[Row]) -> Batch {
    let schema = columns();
    let cells: [Vec<Cell>; 4] = [
        rows.iter().map(|row| Cell::Text(row.id.clone())).collect(),
        rows.iter().map(|row| Cell::from_text(&row.user_id)).collect(),
        rows.iter()
            .map(|row| Cell::from_float(row.score.map(f32::to_bits)))
            .collect(),
        rows.iter().map(|row| Cell::from_bytes(&row.payload)).collect(),
    ];
    Batch {
        columns: schema
            .fields
            .iter()
            .zip(cells)
            .map(|(field, cells)| Column {
                name: field.name.clone(),
                data_type: field.data_type,
                cells,
            })
            .collect(),
        rows: rows.len(),
    }
}

/// What lies at a location.
#[derive(Clone)]
struct Stored {
    schema: Schema,
    base: Vec<Batch>,
    manifest: ShardManifest,
    sealed: Vec<Vec<Batch>>,
}

struct Table {
    store: GenericStore,
    stored: Stored,
    open: Vec<Batch>,
}

fn valid(spec: &str) -> Result<(), String> {
    if spec.contains("\"id\"") {
        Ok(())
    } else {
        Err("schema must declare an 'id' column".to_string())
    }
}

fn open_at(
    place: &Option<Stored>,
    spec: Option<&str>,
    create_if_missing: bool,
    options: GenericStoreOptions,
) -> Result<Table, StoreError> {
    let verdict = spec.map(valid);
    let source = schema_source(&verdict, create_if_missing)?;
    let stored = match place {
        Some(stored) => stored.clone(),
        None => {
            assert_eq!(source, SchemaSource::Declared);
            let text = spec.unwrap_or_default().to_string();
            Stored {
                schema: schema_with_spec(columns(), Ok(text), options.seal_on_add)?,
                base: Vec::new(),
                manifest: ShardManifest {
                    version: 1,
                    writer_epoch: 1,
                    shard_spec_id: 0,
                    current_generation: 1,
                    replay_after_wal_entry_position: 0,
                    wal_entry_position_last_seen: 0,
                    flushed_generations: Vec::new(),
                },
                sealed: Vec::new(),
            }
        }
    };
    let kept = spec_from_schema(&stored.schema)?;
    let declared = check_declaration(URI, Ok(kept), &spec.map(String::from))?;
    let store = GenericStore::open(URI.to_string(), stored.schema.clone(), declared, options)?;
    Ok(Table {
        store,
        stored,
        open: Vec::new(),
    })
}

fn create(options: GenericStoreOptions) -> Table {
    open_at(&None, Some(SPEC), true, options).unwrap()
}

fn open_existing(table: Table, options: GenericStoreOptions) -> Table {
    open_at(&Some(table.stored), None, false, options).unwrap()
}

impl Table {
    fn add(&mut self, rows: &[Row]) {
        let mut batch = if rows.is_empty() { None } else { Some(encode(rows)) };
        let (mut stage, mut action) = start_put(batch.is_none());
        loop {
            let event = match action {
                PutAction::AcquireWriter | PutAction::ReplaceWriter(_) => PutEvent::WriterReady(1),
                PutAction::Put(_) => {
                    self.open.extend(batch.take());
                    PutEvent::PutDone
                }
                PutAction::Seal => {
                    self.flush();
                    PutEvent::SealDone
                }
                PutAction::Succeed => return,
                PutAction::Fail(message) => panic!("{message}"),
            };
            let next = step_put(stage, self.store.base.seal_on_put, event);
            stage = next.0;
            action = next.1;
        }
    }

    fn flush(&mut self) {
        let rows = std::mem::take(&mut self.open);
        let generation = self.stored.manifest.current_generation;
        self.stored.manifest.current_generation += 1;
        self.stored.manifest.flushed_generations.push(Generation {
            generation,
            path: format!("gen_{generation}"),
        });
        self.stored.sealed.push(rows);
    }

    fn batches(&self) -> Vec<&Batch> {
        self.stored
            .base
            .iter()
            .chain(self.stored.sealed.iter().flatten())
            .collect()
    }

    /// The newest row of each id, as pairs of column and cell.
    fn list(&self, limit: Option<usize>, offset: Option<usize>) -> Vec<Vec<(String, Cell)>> {
        let shown = non_blob_columns(&self.store.schema.column_names(), "payload");
        let mut rows: Vec<Vec<(String, Cell)>> = Vec::new();
        for batch in self.batches() {
            for at in 0..batch.rows {
                let read: Vec<(String, Cell)> = batch
                    .columns
                    .iter()
                    .filter(|column| shown.contains(&column.name))
                    .map(|column| (column.name.clone(), column.cells[at].clone()))
                    .collect();
                rows.retain(|row| row[0].1 != read[0].1);
                rows.push(read);
            }
        }
        match scan_window(limit, offset) {
            Some((count, skipped)) => paged(rows, Some(count), skipped),
            None => rows,
        }
    }

    fn payload(&self, id: &str) -> Option<Vec<u8>> {
        for batch in self.batches().into_iter().rev() {
            if let Some(found) = payload_with_key(batch, "id", id, "payload").unwrap() {
                return found;
            }
        }
        None
    }

    fn cleanup_wal(&mut self) -> usize {
        let mut prepared = PreparedMerge::new(self.stored.schema.clone());
        for (generation, batches) in self
            .stored
            .manifest
            .flushed_generations
            .iter()
            .zip(&self.stored.sealed)
        {
            prepared.add_generation(generation, batches).unwrap();
        }
        self.stored.manifest =
            drain_manifest(&self.stored.manifest, &prepared.merged_generations);
        self.stored.sealed.clear();
        let count = prepared.generation_count();
        self.stored.base.extend(prepared.batches);
        count
    }

    fn pending(&self) -> usize {
        generation_numbers(&self.stored.manifest).len()
    }
}

fn cell<'a>(row: &'a [(String, Cell)], name: &str) -> Option<&'a Cell> {
    row.iter().find(|(key, _)| key == name).map(|(_, cell)| cell)
}

fn text(value: &str) -> Cell {
    Cell::Text(value.to_string())
}

#[test]
fn user_schema_round_trips_add_and_read() {
    let mut table = create(sealing());
    table.add(&[
        Row {
            user_id: Some("u1".to_string()),
            score: Some(0.5),
            ..row("r1")
        },
        Row {
            user_id: Some("u2".to_string()),
            ..row("r2")
        },
    ]);
    let rows = table.list(None, None);
    assert_eq!(rows.len(), 2);
    let found = rows.iter().find(|row| row[0].1 == text("r1")).unwrap();
    assert_eq!(cell(found, "user_id"), Some(&text("u1")));
    assert_eq!(cell(found, "score"), Some(&Cell::Float32(0.5_f32.to_bits())));
    assert!(!rows.iter().any(|row| row[0].1 == text("missing")));
}

#[test]
fn schema_is_persisted_and_reopens_without_being_redeclared() {
    let mut table = create(sealing());
    table.add(&[row("r1")]);
    let reopened = open_existing(table, sealing());
    assert_eq!(reopened.store.spec(), SPEC);
    assert_eq!(reopened.list(None, None).len(), 1);
}

#[test]
fn seal_mode_survives_a_reopen() {
    let table = create(sealing());
    assert!(table.store.seal_on_add());

    let mut reopened = open_existing(table, GenericStoreOptions::default());
    assert!(reopened.store.seal_on_add());
    reopened.add(&[row("r1")]);
    assert_eq!(reopened.list(None, None).len(), 1);
}

#[test]
fn deferred_seal_mode_also_survives_a_reopen() {
    let table = create(GenericStoreOptions::default());
    let mut reopened = open_existing(table, sealing());
    assert!(!reopened.store.seal_on_add());

    reopened.add(&[row("r1")]);
    assert_eq!(reopened.list(None, None).len(), 0);
    reopened.flush();
    assert_eq!(reopened.list(None, None).len(), 1);
}

#[test]
fn reopening_with_a_conflicting_schema_is_rejected() {
    let table = create(sealing());
    let other = SPEC.replace("]]", "],[\"extra\",\"int64\"]]");
    let err = open_at(&Some(table.stored), Some(&other), true, sealing())
        .err()
        .expect("conflicting schema must be rejected");
    assert!(err.message.contains("different schema"), "{}", err.message);
}

#[test]
fn invalid_schema_is_rejected_before_anything_is_created() {
    let err = open_at(&None, Some(r#"{"columns":[["name","string"]]}"#), true, sealing())
        .err()
        .expect("invalid schema must be rejected");
    assert!(err.message.contains("must declare an 'id'"), "{}", err.message);
}

#[test]
fn blob_columns_are_excluded_from_list_but_fetchable_per_row() {
    let mut table = create(sealing());
    table.add(&[Row {
        payload: Some(vec![1, 2, 3]),
        ..row("r1")
    }]);
    let listed = table.list(None, None);
    assert!(cell(&listed[0], "payload").is_none());
    assert_eq!(table.payload("r1"), Some(vec![1, 2, 3]));
    assert_eq!(
        get_columns(Some(vec!["payload".to_string()]), Vec::new()),
        ["payload", "id"]
    );
}

#[test]
fn large_blob_round_trips_and_survives_wal_merge() {
    let mut table = create(sealing());
    let payload: Vec<u8> = (0..4 * 1024 * 1024).map(|i| (i % 251) as u8).collect();
    table.add(&[Row {
        payload: Some(payload.clone()),
        ..row("big")
    }]);
    table.cleanup_wal();
    assert_eq!(table.pending(), 0);
    let fetched = table.payload("big").unwrap();
    assert_eq!(fetched.len(), 4 * 1024 * 1024);
    assert!(fetched == payload);
}

#[test]
fn deferred_seal_defers_visibility_like_the_rollout_store() {
    let mut table = create(GenericStoreOptions::default());
    table.add(&[row("r1")]);
    assert_eq!(table.list(None, None).len(), 0);
    table.flush();
    assert_eq!(table.list(None, None).len(), 1);
}

#[test]
fn generic_store_wal_generations_merge_into_the_base_table() {
    let mut table = create(sealing());
    for i in 0..3 {
        table.add(&[row(&format!("r{i}"))]);
    }
    assert!(table.pending() > 0);
    assert!(table.cleanup_wal() > 0);
    assert_eq!(table.pending(), 0);
    let base_rows: usize = table.stored.base.iter().map(|batch| batch.rows).sum();
    assert_eq!(base_rows, 3);
    assert_eq!(table.list(None, None).len(), 3);
}

#[test]
fn filters_and_paging_work_over_user_columns() {
    let mut table = create(sealing());
    let rows: Vec<Row> = (0..6)
        .map(|i| Row {
            user_id: Some(if i % 2 == 0 { "even" } else { "odd" }.to_string()),
            score: Some(i as f32),
            ..row(&format!("r{i}"))
        })
        .collect();
    table.add(&rows);
    let evens: Vec<_> = table
        .list(None, None)
        .into_iter()
        .filter(|row| cell(row, "user_id") == Some(&text("even")))
        .collect();
    assert_eq!(evens.len(), 3);
    assert_eq!(table.list(Some(2), Some(1)).len(), 2);
    assert_eq!(table.list(None, Some(4)).len(), 2);
}

#[test]
fn a_store_keeps_what_it_was_created_with() {
    let table = create(sealing());
    assert_eq!(spec_from_schema(&table.stored.schema).unwrap(), SPEC);
    assert_eq!(seal_on_add_from_schema(&table.stored.schema), Some(true));
    assert_eq!(seal_on_add_from_schema(&columns()), None);
    let unreadable = Schema {
        fields: columns().fields,
        metadata: put_entry(Vec::new(), "lance-context:seal_on_add", "maybe"),
    };
    assert_eq!(seal_on_add_from_schema(&unreadable), None);
}

#[test]
fn opening_reports_each_refusal() {
    let needed = schema_source(&None, true).unwrap_err();
    assert_eq!(needed.kind, ErrorKind::Schema);
    assert_eq!(needed.message, "a schema is required to create a store");
    assert_eq!(schema_source(&None, false).unwrap(), SchemaSource::Table);

    let foreign = spec_from_schema(&columns()).unwrap_err();
    assert!(foreign.message.contains("it was not created as a generic store"));

    let broken = check_declaration(URI, Err("bad".to_string()), &None).unwrap_err();
    assert_eq!(broken.message, "stored schema spec is invalid: bad");

    let unwritten = schema_with_spec(columns(), Err("bad".to_string()), true).unwrap_err();
    assert!(unwritten.message.contains("bad"));

    let keyless = Schema {
        fields: Vec::new(),
        metadata: Vec::new(),
    };
    let missing = GenericStore::open(URI.to_string(), keyless, String::new(), sealing());
    assert_eq!(
        missing.unwrap_err().message,
        "key column 'id' is not present in the store schema"
    );
}

#[test]
fn batches_must_have_the_columns_of_the_store() {
    assert!(check_batches(&vec![columns()], &columns()).is_ok());
    let mut other = columns();
    other.fields[1].nullable = false;
    let error = check_batches(&vec![columns(), other], &columns()).unwrap_err();
    assert_eq!(error.kind, ErrorKind::Schema);
}

#[test]
fn a_lookup_quotes_its_id() {
    assert_eq!(get_filter("o'brien"), "id = 'o''brien'");
    assert_eq!(scan_window(None, None), None);
    assert_eq!(scan_window(None, Some(3)), Some((usize::MAX, Some(3))));
    assert_eq!(scan_window(Some(2), None), Some((2, None)));
}

#[test]
fn duplicate_ids_dedup_to_the_newest_write() {
    let mut table = create(sealing());
    for user in ["first", "second"] {
        table.add(&[Row {
            user_id: Some(user.to_string()),
            ..row("r1")
        }]);
    }
    let rows = table.list(None, None);
    assert_eq!(rows.len(), 1);
    assert_eq!(cell(&rows[0], "user_id"), Some(&text("second")));
}
