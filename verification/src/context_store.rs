//! Opening a context store: its options, and what an existing table decides.

use vstd::prelude::*;

use crate::batch::{Batch, EncodeError};
use crate::collect::{collected, lemma_failure_stays};
use crate::compaction::CompactionConfig;
use crate::context_codec::{encoded, records_to_batch};
use crate::context_schema::{
    all_groups, blob_columns_from_schema, blob_v2_failure, context_schema, dim_failure,
    distance_metric_from_schema, embedding_dim_from_schema, flagged_columns, name_list,
    reject_blob_v2_schema, render_names, schema_dim, schema_metric, schema_with_options,
    sorted_strings, sorted_texts, valid_blob_columns, validate_embedding_dim, ColumnGroups,
};
use crate::error::{invalid_argument, schema_failure, Failure, StoreError};
use crate::metric::{metric_name, parsed_metric, DistanceMetric};
use crate::number::{decimal, decimal_i64};
use crate::projection::{default_read_projection, IdIndexType, ReadProjection};
use crate::record::{record_views, ContextRecord};
use crate::schema::{
    copy_entries, entries, relationship_field, relationships_view, value_of, DataType, Entry, Field,
    ItemType, Scalar, Schema, SchemaView,
};
use crate::shard::shard_of;
use crate::storage::{StorageBase, StorageBaseOptions};
use crate::text::{clone_opt, contains_text, join3, opt_text, same_text, texts};

verus! {

/// Embedding width of a table that is made without naming one.
pub const DEFAULT_EMBEDDING_DIM: i32 = 1536;

/// Additional configuration when opening a [`ContextStore`].
#[derive(Debug, Clone, PartialEq)]
pub struct ContextStoreOptions {
    /// Object-store configuration, as keys and values.
    pub storage_options: Option<Vec<(String, String)>>,
    pub compaction: CompactionConfig,
    /// Embedding width of a new table; an existing table keeps its own.
    pub embedding_dim: Option<i32>,
    /// Payload columns to keep out of bulk reads: `text_payload`,
    /// `binary_payload`.
    pub blob_columns: Vec<String>,
    /// Type of scalar index to create on the `id` column.
    pub id_index_type: IdIndexType,
    /// Metric of a new table; an existing table keeps its own.
    pub distance_metric: Option<DistanceMetric>,
    /// Stable identity of this writer instance.
    pub shard_id: Option<String>,
    /// Merge this instance's flushed generations once there are this many.
    pub merge_after_generations: Option<usize>,
    /// Whether an append seals before it returns, so that its rows can be read
    /// at once.
    pub seal_on_add: bool,
}

impl Default for ContextStoreOptions {
    fn default() -> (options: Self)
        ensures
            options.storage_options is None,
            options.embedding_dim is None,
            options.blob_columns@.len() == 0,
            options.id_index_type == IdIndexType::NoIndex,
            options.distance_metric is None,
            options.shard_id is None,
            options.merge_after_generations is None,
            options.seal_on_add,
            options.compaction.is_default(),
    {
        ContextStoreOptions {
            storage_options: None,
            compaction: CompactionConfig::default(),
            embedding_dim: None,
            blob_columns: Vec::new(),
            id_index_type: IdIndexType::default(),
            distance_metric: None,
            shard_id: None,
            merge_after_generations: None,
            seal_on_add: true,
        }
    }
}

/// The model of an object-store configuration.
pub open spec fn opt_entries(options: Option<Vec<(String, String)>>) -> Option<Seq<Entry>> {
    match options {
        Some(options) => Some(entries(options@)),
        None => None,
    }
}

impl ContextStoreOptions {
    /// A copy of the object-store configuration.
    pub fn storage_options(&self) -> (result: Option<Vec<(String, String)>>)
        ensures
            opt_entries(result) == opt_entries(self.storage_options),
    {
        match &self.storage_options {
            Some(options) => Some(copy_entries(options)),
            None => None,
        }
    }
}

/// Whether a requested blob column can be one.
pub open spec fn blob_column_check(requested: Seq<Seq<char>>) -> spec_fn(int) -> Result<
    (),
    Failure,
> {
    |i: int|
        if valid_blob_columns().contains(requested[i]) {
            Ok(())
        } else {
            Err(
                invalid_argument(
                    "invalid blob column '"@ + requested[i]
                        + "': valid columns are [\"text_payload\", \"binary_payload\"]"@,
                ),
            )
        }
}

/// The embedding width that is asked for, or why the options are refused
/// before any table is looked at.
pub open spec fn requested_dim(
    requested: Seq<Seq<char>>,
    embedding_dim: Option<i32>,
) -> Result<i32, Failure> {
    match collected(blob_column_check(requested), requested.len()) {
        Err(failure) => Err(failure),
        Ok(_) => match embedding_dim {
            None => Ok(DEFAULT_EMBEDDING_DIM),
            Some(dim) => match dim_failure(dim) {
                Some(failure) => Err(failure),
                None => Ok(dim),
            },
        },
    }
}

/// Checks the options before any table is looked at, and gives the embedding
/// width that a new table would get.
pub fn validate_options(options: &ContextStoreOptions) -> (result: Result<i32, StoreError>)
    ensures
        match requested_dim(texts(options.blob_columns@), options.embedding_dim) {
            Ok(dim) => result is Ok && result->Ok_0 == dim && dim > 0,
            Err(failure) => result is Err && result->Err_0@ == failure,
        },
{
    let ghost requested = texts(options.blob_columns@);
    let ghost step = blob_column_check(requested);
    let ghost mut seen: Seq<()> = Seq::empty();
    let mut index: usize = 0;
    while index < options.blob_columns.len()
        invariant
            index <= options.blob_columns.len(),
            requested == texts(options.blob_columns@),
            step == blob_column_check(requested),
            collected(step, index as nat) == Ok::<Seq<()>, Failure>(seen),
        decreases options.blob_columns.len() - index,
    {
        let name = options.blob_columns[index].as_str();
        assert(requested[index as int] == name@);
        let valid = same_text(name, "text_payload") || same_text(name, "binary_payload");
        proof {
            let columns = valid_blob_columns();
            assert(columns[0] == "text_payload"@ && columns[1] == "binary_payload"@);
            assert(valid == columns.contains(name@));
        }
        if !valid {
            let error = StoreError::invalid_argument(
                join3(
                    "invalid blob column '",
                    name,
                    "': valid columns are [\"text_payload\", \"binary_payload\"]",
                ),
            );
            proof {
                assert(step(index as int) == Err::<(), Failure>(error@));
                assert(collected(step, (index + 1) as nat) is Err);
                lemma_failure_stays(step, (index + 1) as nat, requested.len());
            }
            return Err(error);
        }
        proof {
            assert(step(index as int) == Ok::<(), Failure>(()));
            seen = seen.push(());
        }
        index = index + 1;
    }
    match options.embedding_dim {
        None => Ok(DEFAULT_EMBEDDING_DIM),
        Some(dim) => match validate_embedding_dim(dim) {
            Err(error) => Err(error),
            Ok(_) => Ok(dim),
        },
    }
}

/// What an open store knows of its table.
#[derive(Debug, Clone, PartialEq)]
pub struct ContextStore {
    pub compaction_config: CompactionConfig,
    pub blob_columns: Vec<String>,
    pub id_index_type: IdIndexType,
    pub embedding_dim: i32,
    pub distance_metric: DistanceMetric,
}

/// What opening decides from the table: its blob columns, width and metric.
#[verifier::ext_equal]
pub struct TableFacts {
    pub blob_columns: Seq<Seq<char>>,
    pub embedding_dim: i32,
    pub distance_metric: DistanceMetric,
}

impl ContextStore {
    /// What the store took from its table. The compaction settings and the kind
    /// of the id index are the caller's and stand beside it.
    pub open spec fn table_facts(self) -> TableFacts {
        TableFacts {
            blob_columns: texts(self.blob_columns@),
            embedding_dim: self.embedding_dim,
            distance_metric: self.distance_metric,
        }
    }

    /// The embedding width is positive.
    pub open spec fn well_formed(self) -> bool {
        self.embedding_dim > 0
    }
}

/// The failure of blob columns that differ from those of an existing table.
pub open spec fn blob_mismatch(
    created: bool,
    requested: Seq<Seq<char>>,
    persisted: Seq<Seq<char>>,
) -> Option<Failure> {
    if !created && requested.len() > 0 && requested.to_set() != persisted.to_set() {
        Some(
            invalid_argument(
                "existing context blob columns "@ + name_list(sorted_texts(persisted))
                    + " do not match requested columns "@ + name_list(sorted_texts(requested)),
            ),
        )
    } else {
        None
    }
}

/// The failure of a width that differs from that of an existing table.
pub open spec fn dim_mismatch(created: bool, requested: Option<i32>, persisted: i32) -> Option<
    Failure,
> {
    if !created && requested is Some && requested->Some_0 != persisted {
        Some(
            invalid_argument(
                "existing context embedding dimension "@ + decimal(persisted as int)
                    + " does not match requested dimension "@ + decimal(
                    requested->Some_0 as int,
                ),
            ),
        )
    } else {
        None
    }
}

/// The failure of a metric that differs from that of an existing table.
pub open spec fn metric_mismatch(
    created: bool,
    requested: Option<DistanceMetric>,
    persisted: DistanceMetric,
) -> Option<Failure> {
    if !created && requested is Some && requested->Some_0 != persisted {
        Some(
            invalid_argument(
                "existing context distance metric '"@ + metric_name(persisted)
                    + "' does not match requested metric '"@ + metric_name(requested->Some_0)
                    + "'"@,
            ),
        )
    } else {
        None
    }
}

/// What the store takes from a table, or why the table does not fit what was
/// asked for. A table that was just created has what was asked for.
pub open spec fn opened(
    created: bool,
    schema: SchemaView,
    requested_blobs: Seq<Seq<char>>,
    requested_dim: Option<i32>,
    requested_metric: Option<DistanceMetric>,
) -> Result<TableFacts, Failure> {
    let persisted = flagged_columns(schema, "lance-context:blob"@);
    match blob_v2_failure(schema) {
        Some(failure) => Err(failure),
        None => match blob_mismatch(created, requested_blobs, persisted) {
            Some(failure) => Err(failure),
            None => match schema_dim(schema) {
                Err(failure) => Err(failure),
                Ok(dim) => match dim_mismatch(created, requested_dim, dim) {
                    Some(failure) => Err(failure),
                    None => match schema_metric(schema) {
                        Err(failure) => Err(failure),
                        Ok(metric) => match metric_mismatch(created, requested_metric, metric) {
                            Some(failure) => Err(failure),
                            None => Ok(
                                TableFacts {
                                    blob_columns: persisted,
                                    embedding_dim: dim,
                                    distance_metric: metric,
                                },
                            ),
                        },
                    },
                },
            },
        },
    }
}

fn covers_names(names: &Vec<String>, others: &Vec<String>) -> (result: bool)
    ensures
        result == texts(names@).to_set().subset_of(texts(others@).to_set()),
{
    let ghost all = texts(names@);
    let ghost into = texts(others@);
    let mut index: usize = 0;
    while index < names.len()
        invariant
            index <= names.len(),
            all == texts(names@),
            into == texts(others@),
            forall|k: int| 0 <= k < index ==> into.contains(#[trigger] all[k]),
        decreases names.len() - index,
    {
        if !contains_text(others, names[index].as_str()) {
            proof {
                let missing = all[index as int];
                assert(all.contains(missing));
                assert(all.to_set().contains(missing));
                assert(!into.to_set().contains(missing));
            }
            return false;
        }
        assert(all[index as int] == names@[index as int]@);
        index = index + 1;
    }
    proof {
        assert forall|name: Seq<char>| all.to_set().contains(name) implies into.to_set().contains(
            name,
        ) by {
            let k = choose|k: int| 0 <= k < all.len() && all[k] == name;
            assert(into.contains(all[k]));
        }
    }
    true
}

/// Whether two lists hold the same names.
pub fn same_names(left: &Vec<String>, right: &Vec<String>) -> (result: bool)
    ensures
        result == (texts(left@).to_set() == texts(right@).to_set()),
{
    let forth = covers_names(left, right);
    let back = covers_names(right, left);
    proof {
        if forth && back {
            assert(texts(left@).to_set() =~= texts(right@).to_set());
        }
    }
    forth && back
}

impl ContextStore {
    /// Opens a store on a table with this schema, which was just created or
    /// found. What a found table holds wins; asking for something else is an
    /// error.
    pub fn from_schema(options: ContextStoreOptions, created: bool, schema: &Schema) -> (result: Result<
        ContextStore,
        StoreError,
    >)
        ensures
            match opened(
                created,
                schema@,
                texts(options.blob_columns@),
                options.embedding_dim,
                options.distance_metric,
            ) {
                Ok(facts) => result is Ok && result->Ok_0.table_facts() == facts
                    && result->Ok_0.well_formed() && result->Ok_0.compaction_config
                    == options.compaction && result->Ok_0.id_index_type == options.id_index_type,
                Err(failure) => result is Err && result->Err_0@ == failure,
            },
    {
        match reject_blob_v2_schema(schema) {
            Err(error) => {
                return Err(error);
            },
            Ok(_) => {},
        }
        let blob_columns = blob_columns_from_schema(schema);
        assert(options.blob_columns@.len() == texts(options.blob_columns@).len());
        if !created && options.blob_columns.len() > 0 && !same_names(
            &options.blob_columns,
            &blob_columns,
        ) {
            let persisted = render_names(&sorted_strings(&blob_columns));
            let requested = render_names(&sorted_strings(&options.blob_columns));
            let mut message = join3(
                "existing context blob columns ",
                persisted.as_str(),
                " do not match requested columns ",
            );
            message.append(requested.as_str());
            return Err(StoreError::invalid_argument(message));
        }
        let embedding_dim = match embedding_dim_from_schema(schema) {
            Err(error) => {
                return Err(error);
            },
            Ok(dim) => dim,
        };
        if !created {
            if let Some(requested) = options.embedding_dim {
                if requested != embedding_dim {
                    let found = decimal_i64(embedding_dim as i64);
                    let wanted = decimal_i64(requested as i64);
                    let mut message = join3(
                        "existing context embedding dimension ",
                        found.as_str(),
                        " does not match requested dimension ",
                    );
                    message.append(wanted.as_str());
                    return Err(StoreError::invalid_argument(message));
                }
            }
        }
        let distance_metric = match distance_metric_from_schema(schema) {
            Err(error) => {
                return Err(error);
            },
            Ok(metric) => metric,
        };
        if !created {
            if let Some(requested) = options.distance_metric {
                if requested != distance_metric {
                    let mut message = join3(
                        "existing context distance metric '",
                        distance_metric.as_str(),
                        "' does not match requested metric '",
                    );
                    message.append(requested.as_str());
                    message.append("'");
                    return Err(StoreError::invalid_argument(message));
                }
            }
        }
        Ok(
            ContextStore {
                compaction_config: options.compaction,
                blob_columns,
                id_index_type: options.id_index_type,
                embedding_dim,
                distance_metric,
            },
        )
    }

    /// Opens the table at `uri` with this schema, which was just created or
    /// found: what the store takes from it, and the handle that its rows are
    /// written and merged through. Rows are keyed by `id`, and the table is
    /// never brought to another schema by a merge.
    pub fn open(uri: String, options: ContextStoreOptions, created: bool, schema: &Schema) -> (result: Result<
        (ContextStore, StorageBase),
        StoreError,
    >)
        ensures
            match opened(
                created,
                schema@,
                texts(options.blob_columns@),
                options.embedding_dim,
                options.distance_metric,
            ) {
                Ok(facts) => if schema@.has("id"@) {
                    &&& result is Ok
                    &&& result->Ok_0.0.table_facts() == facts
                    &&& result->Ok_0.0.well_formed()
                    &&& result->Ok_0.0.compaction_config == options.compaction
                    &&& result->Ok_0.0.id_index_type == options.id_index_type
                    &&& result->Ok_0.1.uri@ == uri@
                    &&& result->Ok_0.1.write_shard == shard_of(opt_text(options.shard_id))
                    &&& opt_entries(result->Ok_0.1.storage_options) == opt_entries(
                        options.storage_options,
                    )
                    &&& result->Ok_0.1.key_column@ == "id"@
                    &&& result->Ok_0.1.latest_schema is None
                    &&& result->Ok_0.1.seal_on_put == options.seal_on_add
                    &&& result->Ok_0.1.merge_after_generations == (
                    match options.merge_after_generations {
                        Some(count) => count,
                        None => 0,
                    })
                    &&& result->Ok_0.1.is_fresh()
                } else {
                    result is Err && result->Err_0@ == schema_failure(
                        "key column '"@ + "id"@ + "' is not present in the store schema"@,
                    )
                },
                Err(failure) => result is Err && result->Err_0@ == failure,
            },
    {
        let base_options = StorageBaseOptions {
            storage_options: options.storage_options(),
            shard_id: clone_opt(&options.shard_id),
            merge_after_generations: options.merge_after_generations,
            key_column: "id".to_owned(),
            latest_schema: None,
            seal_on_put: options.seal_on_add,
        };
        let store = match Self::from_schema(options, created, schema) {
            Err(error) => {
                return Err(error);
            },
            Ok(store) => store,
        };
        match StorageBase::new(uri, schema, base_options) {
            Err(error) => Err(error),
            Ok(base) => Ok((store, base)),
        }
    }

    /// Embedding width of the table.
    pub fn embedding_dim(&self) -> (dim: i32)
        ensures
            dim == self.embedding_dim,
    {
        self.embedding_dim
    }

    /// Metric that search results are ranked with.
    pub fn distance_metric(&self) -> (metric: DistanceMetric)
        ensures
            metric == self.distance_metric,
    {
        self.distance_metric
    }

    /// The projection of a read that names none.
    pub fn default_read_projection(&self) -> (projection: ReadProjection)
        ensures
            projection.text == !self.table_facts().blob_columns.contains("text_payload"@),
            projection.binary == !self.table_facts().blob_columns.contains("binary_payload"@),
            projection.embedding,
    {
        default_read_projection(&self.blob_columns)
    }

    /// Turns records into the batch that the store's table takes.
    pub fn records_to_batch(
        &self,
        records: &Vec<ContextRecord>,
        schema: &Schema,
        active_status: &str,
    ) -> (result: Result<Batch, EncodeError>)
        requires
            self.well_formed(),
        ensures
            match encoded(
                record_views(records@),
                schema@,
                self.embedding_dim,
                self.table_facts().blob_columns.contains("text_payload"@),
                active_status@,
            ) {
                Ok(model) => result is Ok && result->Ok_0@ == model && model.well_formed(),
                Err(failure) => result is Err && result->Err_0@ == failure,
            },
    {
        let text_is_blob = contains_text(&self.blob_columns, "text_payload");
        records_to_batch(records, schema, self.embedding_dim, text_is_blob, active_status)
    }

    /// Schema of a context table with the default width.
    pub fn schema(blob_columns: &Vec<String>) -> (schema: Schema)
        ensures
            schema@ == context_schema(
                texts(blob_columns@),
                all_groups(),
                DEFAULT_EMBEDDING_DIM,
                DistanceMetric::L2,
            ),
    {
        Self::schema_with_embedding_dim(blob_columns, DEFAULT_EMBEDDING_DIM)
    }

    /// Schema of a context table with a chosen width.
    pub fn schema_with_embedding_dim(blob_columns: &Vec<String>, embedding_dim: i32) -> (schema: Schema)
        ensures
            schema@ == context_schema(
                texts(blob_columns@),
                all_groups(),
                embedding_dim,
                DistanceMetric::L2,
            ),
    {
        Self::schema_for_new_table(blob_columns, embedding_dim, DistanceMetric::default())
    }

    /// Schema of a new table: every column, the chosen width and metric.
    pub fn schema_for_new_table(
        blob_columns: &Vec<String>,
        embedding_dim: i32,
        distance_metric: DistanceMetric,
    ) -> (schema: Schema)
        ensures
            schema@ == context_schema(
                texts(blob_columns@),
                all_groups(),
                embedding_dim,
                distance_metric,
            ),
    {
        schema_with_options(
            blob_columns,
            ColumnGroups {
                external_id: true,
                metadata: true,
                relationships: true,
                lifecycle: true,
                external_reference: true,
            },
            embedding_dim,
            distance_metric,
        )
    }

    /// Whether the configured index still has to be created, given the names
    /// of the indices that exist.
    pub fn needs_id_index(&self, existing: &Vec<String>) -> (result: bool)
        ensures
            result == (self.id_index_type != IdIndexType::NoIndex && !texts(existing@).contains(
                "id_idx"@,
            )),
    {
        self.id_index_type != IdIndexType::NoIndex && !contains_text(existing, "id_idx")
    }

    /// Whether a background compactor is to be started: compaction is enabled
    /// and none runs yet.
    pub fn starts_compactor(&self, running: bool) -> (result: bool)
        ensures
            result == (self.compaction_config.enabled && !running),
    {
        self.compaction_config.enabled && !running
    }

    /// The options that a background compactor opens the same table with. It
    /// asks for what the table holds, never appends, and starts no compactor
    /// of its own.
    pub fn compactor_options(&self, storage_options: &Option<Vec<(String, String)>>) -> (options: ContextStoreOptions)
        ensures
            !options.compaction.enabled,
            options.compaction.compacts_like(self.compaction_config),
            options.embedding_dim == Some(self.embedding_dim),
            texts(options.blob_columns@) == self.table_facts().blob_columns,
            options.id_index_type == self.id_index_type,
            options.distance_metric == Some(self.distance_metric),
            options.shard_id is None,
            options.merge_after_generations is None,
            !options.seal_on_add,
            opt_entries(options.storage_options) == opt_entries(*storage_options),
    {
        let mut blob_columns: Vec<String> = Vec::new();
        let mut index: usize = 0;
        while index < self.blob_columns.len()
            invariant
                index <= self.blob_columns.len(),
                blob_columns@ == self.blob_columns@.take(index as int),
            decreases self.blob_columns.len() - index,
        {
            blob_columns.push(self.blob_columns[index].clone());
            index = index + 1;
            assert(blob_columns@ =~= self.blob_columns@.take(index as int));
        }
        assert(blob_columns@ =~= self.blob_columns@);
        ContextStoreOptions {
            storage_options: match storage_options {
                Some(given) => Some(copy_entries(given)),
                None => None,
            },
            compaction: self.compaction_config.with_enabled(false),
            embedding_dim: Some(self.embedding_dim),
            blob_columns,
            id_index_type: self.id_index_type,
            distance_metric: Some(self.distance_metric),
            shard_id: None,
            merge_after_generations: None,
            seal_on_add: false,
        }
    }
}

/// The column that an older table lacks for relationships, if it lacks it.
pub fn missing_relationships_column(schema: &Schema) -> (result: Option<Field>)
    ensures
        schema@.has("relationships"@) ==> result is None,
        !schema@.has("relationships"@) ==> result is Some && result->Some_0@
            == relationships_view(),
{
    if schema.has_column("relationships") {
        None
    } else {
        Some(relationship_field())
    }
}

/// A table that was created with some options opens again with the same
/// options, and with none: it has the blob columns, the width and the metric
/// it was created with.
pub proof fn law_created_table_reopens(
    blob_columns: Seq<Seq<char>>,
    groups: ColumnGroups,
    dim: i32,
    metric: DistanceMetric,
    ask_blobs: bool,
    ask_dim: bool,
    ask_metric: bool,
)
    requires
        dim > 0,
        forall|i: int|
            0 <= i < blob_columns.len() ==> valid_blob_columns().contains(#[trigger] blob_columns[i]),
    ensures
        ({
            let schema = context_schema(blob_columns, groups, dim, metric);
            let result = opened(
                false,
                schema,
                if ask_blobs {
                    blob_columns
                } else {
                    Seq::empty()
                },
                if ask_dim {
                    Some(dim)
                } else {
                    None
                },
                if ask_metric {
                    Some(metric)
                } else {
                    None
                },
            );
            &&& result is Ok
            &&& result->Ok_0.embedding_dim == dim
            &&& result->Ok_0.distance_metric == metric
            &&& result->Ok_0.blob_columns.to_set() == blob_columns.to_set()
        }),
{
    let schema = context_schema(blob_columns, groups, dim, metric);
    crate::context_table_laws::law_metric_is_kept(blob_columns, groups, dim, metric);
    crate::context_table_laws::law_dimension_is_kept(blob_columns, groups, dim, metric);
    crate::context_table_laws::law_blob_columns_are_kept(blob_columns, groups, dim, metric);
    crate::context_table_laws::law_new_table_is_accepted(blob_columns, groups, dim, metric);
    let wanted = |name: Seq<char>| blob_columns.contains(name);
    let persisted = valid_blob_columns().filter(wanted);
    assert(persisted.to_set() =~= blob_columns.to_set()) by {
        assert forall|name: Seq<char>| persisted.contains(name) == blob_columns.contains(name) by {
            if blob_columns.contains(name) {
                let i = choose|i: int| 0 <= i < blob_columns.len() && blob_columns[i] == name;
                assert(valid_blob_columns().contains(blob_columns[i]));
                let k = choose|k: int|
                    0 <= k < valid_blob_columns().len() && valid_blob_columns()[k] == name;
                valid_blob_columns().lemma_filter_contains(wanted, k);
            }
            if persisted.contains(name) {
                let k = choose|k: int| 0 <= k < persisted.len() && persisted[k] == name;
                valid_blob_columns().lemma_filter_pred(wanted, k);
            }
        }
    }
}

/// A column that may hold blobs.
pub open spec fn is_payload(name: Seq<char>) -> bool {
    name == "text_payload"@ || name == "binary_payload"@
}

/// Options are taken exactly where each blob column is a payload column and the
/// embedding width, if there is one, is positive. The width is then the asked-for
/// one, or 1536.
pub proof fn law_which_options_are_taken(requested: Seq<Seq<char>>, dim: Option<i32>)
    ensures
        requested_dim(requested, dim) is Ok <==> (forall|i: int|
            0 <= i < requested.len() ==> is_payload(#[trigger] requested[i])) && (dim is Some
            ==> dim->Some_0 > 0),
        requested_dim(requested, dim) is Ok && dim is Some ==> requested_dim(requested, dim)->Ok_0
            == dim->Some_0,
        requested_dim(requested, dim) is Ok && dim is None ==> requested_dim(requested, dim)->Ok_0
            == 1536,
{
    let step = blob_column_check(requested);
    lemma_payload_columns();
    if collected(step, requested.len()) is Ok {
        crate::collect::lemma_success_holds_values(step, requested.len());
        assert forall|i: int| 0 <= i < requested.len() implies is_payload(#[trigger] requested[i]) by {
            assert(step(i) is Ok);
        }
    } else {
        let at = crate::collect::lemma_first_failure(step, requested.len());
        assert(!is_payload(requested[at]));
    }
}

proof fn lemma_payload_columns()
    ensures
        forall|name: Seq<char>| #[trigger] valid_blob_columns().contains(name) == is_payload(name),
{
    assert(valid_blob_columns()[0] == "text_payload"@);
    assert(valid_blob_columns()[1] == "binary_payload"@);
}

/// A payload column is flagged where its field carries the key with the word
/// `true`.
pub open spec fn carries_flag(schema: SchemaView, name: Seq<char>, key: Seq<char>) -> bool {
    &&& is_payload(name)
    &&& schema.field(name) is Some
    &&& value_of(schema.field(name)->Some_0.metadata, key) == Some("true"@)
}

proof fn lemma_flagged_columns(schema: SchemaView, key: Seq<char>)
    ensures
        forall|name: Seq<char>| #[trigger]
            flagged_columns(schema, key).contains(name) <==> carries_flag(schema, name, key),
        flagged_columns(schema, key).len() == 0 <==> forall|name: Seq<char>|
            !#[trigger] carries_flag(schema, name, key),
{
    lemma_payload_columns();
    let keep = |name: Seq<char>| crate::context_schema::column_flagged(schema, name, key);
    let flagged = flagged_columns(schema, key);
    assert forall|name: Seq<char>| #[trigger] flagged.contains(name) <==> carries_flag(
        schema,
        name,
        key,
    ) by {
        if flagged.contains(name) {
            let at = flagged.index_of(name);
            valid_blob_columns().lemma_filter_pred(keep, at);
            assert(valid_blob_columns().contains(name)) by {
                valid_blob_columns().lemma_filter_contains_rev(keep, name);
            }
        }
        if carries_flag(schema, name, key) {
            assert(valid_blob_columns().contains(name));
            let at = valid_blob_columns().index_of(name);
            valid_blob_columns().lemma_filter_contains(keep, at);
        }
    }
    if flagged.len() > 0 {
        assert(flagged.contains(flagged[0]));
        assert(carries_flag(schema, flagged[0], key));
    } else {
        assert forall|name: Seq<char>| !#[trigger] carries_flag(schema, name, key) by {
            assert(!flagged.contains(name));
        }
    }
}

/// When a table opens: exactly where no payload column is in the unsupported
/// encoding, the table's embedding column is a list of floats of positive width,
/// its metric is one that is known, and what the caller asks for of an existing
/// table is what the table has. The store then has the table's blob columns, its
/// width and its metric.
pub proof fn law_when_a_table_opens(
    created: bool,
    schema: SchemaView,
    blobs: Seq<Seq<char>>,
    dim: Option<i32>,
    metric: Option<DistanceMetric>,
)
    ensures
        ({
            let result = opened(created, schema, blobs, dim, metric);
            let column = schema.field("embedding"@);
            let named = value_of(schema.metadata, "lance-context:distance_metric"@);
            let agrees = |width: i32, kept: DistanceMetric|
                {
                    &&& created || blobs.len() == 0 || forall|name: Seq<char>|
                        blobs.contains(name) <==> #[trigger] carries_flag(
                            schema,
                            name,
                            "lance-context:blob"@,
                        )
                    &&& created || dim is None || dim == Some(width)
                    &&& created || metric is None || metric == Some(kept)
                };
            let legacy = exists|name: Seq<char>| #[trigger]
                carries_flag(schema, name, "lance-encoding:blob"@);
            let width_known = column is Some && (column->Some_0.data_type matches
                DataType::FixedSizeList(item, width, _) && item == ItemType::Scalar(Scalar::Float32)
                && width > 0);
            let metric_known = named is Some ==> parsed_metric(named->Some_0) is Ok;
            let width = column->Some_0.data_type->FixedSizeList_1;
            let kept = if named is Some {
                parsed_metric(named->Some_0)->Ok_0
            } else {
                DistanceMetric::L2
            };
            &&& result is Ok <==> !legacy && width_known && metric_known && agrees(width, kept)
            &&& result is Ok ==> {
                &&& result->Ok_0.embedding_dim == width
                &&& result->Ok_0.distance_metric == kept
                &&& forall|name: Seq<char>| #[trigger]
                    result->Ok_0.blob_columns.contains(name) <==> carries_flag(
                        schema,
                        name,
                        "lance-context:blob"@,
                    )
            }
        }),
{
    lemma_flagged_columns(schema, "lance-context:blob"@);
    lemma_flagged_columns(schema, "lance-encoding:blob"@);
    let persisted = flagged_columns(schema, "lance-context:blob"@);
    if blobs.to_set() == persisted.to_set() {
        assert forall|name: Seq<char>|
            blobs.contains(name)
                <==> #[trigger] carries_flag(schema, name, "lance-context:blob"@) by {
            assert(blobs.to_set().contains(name) == persisted.to_set().contains(name));
            assert(persisted.contains(name) == carries_flag(schema, name, "lance-context:blob"@));
        }
    }
    if forall|name: Seq<char>|
        blobs.contains(name) <==> #[trigger] carries_flag(schema, name, "lance-context:blob"@) {
        assert forall|name: Seq<char>|
            blobs.to_set().contains(name) == #[trigger] persisted.to_set().contains(name) by {
            assert(persisted.contains(name) == carries_flag(schema, name, "lance-context:blob"@));
        }
        assert(blobs.to_set() =~= persisted.to_set());
    }
}

/// What a store knows of its table is what it holds, and a store is well formed
/// where its width is positive.
pub proof fn law_a_store_holds_the_facts_of_its_table(
    store: ContextStore,
    options: Option<Vec<(String, String)>>,
)
    ensures
        store.table_facts().blob_columns == texts(store.blob_columns@),
        store.table_facts().embedding_dim == store.embedding_dim,
        store.table_facts().distance_metric == store.distance_metric,
        store.well_formed() <==> store.embedding_dim > 0,
        opt_entries(options) is Some <==> options is Some,
        options is Some ==> opt_entries(options)->Some_0 == entries(options->Some_0@),
{
}

} // verus!
