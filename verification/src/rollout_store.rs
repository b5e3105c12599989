//! A handle on a rollout table.

use vstd::prelude::*;

use crate::batch::{AlignError, Batch, EncodeError};
use crate::compaction::{is_quiet, should_compact, CompactionConfig, CompactionStats};
use crate::error::StoreError;
use crate::projection::non_blob_columns;
use crate::rollout_codec::{rollout_encoded, rollouts_to_batch};
use crate::rollout_columns::{
    law_rollout_table_has_every_column, rollout_schema, rollout_table, RolloutColumn,
};
use crate::rollout_record::{rollout_views, RolloutRecord};
use crate::schema::{field_views, names_of, Field, Schema};
use crate::shard::{flushed_generation_uri, generation_uri, shard_of};
use crate::storage::{evolution, StorageBase, StorageBaseOptions};
use crate::text::{opt_text, texts};

verus! {

/// How a rollout store is opened.
#[derive(Debug, Clone, PartialEq)]
pub struct RolloutStoreOptions {
    /// Credentials and settings of the object store.
    pub storage_options: Option<Vec<(String, String)>>,
    /// Stable identity of the writing instance, which decides the shard it
    /// writes to.
    pub shard_id: Option<String>,
    /// How many pending generations trigger a merge; none or zero disables it.
    pub merge_after_generations: Option<usize>,
}

impl Default for RolloutStoreOptions {
    fn default() -> (options: Self)
        ensures
            options.storage_options is None,
            options.shard_id is None,
            options.merge_after_generations is None,
    {
        RolloutStoreOptions { storage_options: None, shard_id: None, merge_after_generations: None }
    }
}

/// A handle on a rollout table.
#[derive(Debug, Clone, PartialEq)]
pub struct RolloutStore {
    pub base: StorageBase,
}

impl RolloutStore {
    /// A handle on the table at `uri`. Appends are keyed by `id` and are not
    /// sealed one by one; a merge first brings an older table to the current
    /// schema.
    pub fn open(uri: String, options: RolloutStoreOptions) -> (result: Result<
        RolloutStore,
        StoreError,
    >)
        ensures
            ({
                &&& result is Ok
                &&& result->Ok_0.base.uri@ == uri@
                &&& result->Ok_0.base.write_shard == shard_of(opt_text(options.shard_id))
                &&& result->Ok_0.base.storage_options == options.storage_options
                &&& result->Ok_0.base.key_column@ == "id"@
                &&& result->Ok_0.base.latest_schema is Some
                &&& result->Ok_0.base.latest_schema->Some_0@ == rollout_table()
                &&& !result->Ok_0.base.seal_on_put
                &&& result->Ok_0.base.merge_after_generations == (
                match options.merge_after_generations {
                    Some(count) => count,
                    None => 0,
                })
                &&& result->Ok_0.base.is_fresh()
            }),
    {
        proof {
            law_rollout_table_has_every_column(RolloutColumn::Id);
        }
        let opened = StorageBase::new(
            uri,
            &rollout_schema(),
            StorageBaseOptions {
                storage_options: options.storage_options,
                shard_id: options.shard_id,
                merge_after_generations: options.merge_after_generations,
                key_column: "id".to_owned(),
                latest_schema: Some(rollout_schema()),
                seal_on_put: false,
            },
        );
        match opened {
            Ok(base) => Ok(RolloutStore { base }),
            Err(error) => Err(error),
        }
    }

    /// Where the table lies.
    pub fn uri(&self) -> (uri: String)
        ensures
            uri@ == self.base.uri@,
    {
        self.base.uri.clone()
    }

    /// Notes that the handle was checked out to a version.
    pub fn checkout(&mut self, version: u64)
        ensures
            final(self).base == (StorageBase { pinned_version: Some(version), ..old(self).base }),
    {
        self.base.pin_version(version);
    }

    /// Whether the handle was checked out to a version.
    pub fn is_version_pinned(&self) -> (result: bool)
        ensures
            result == (self.base.pinned_version is Some),
    {
        self.base.is_version_pinned()
    }

    /// What an append hands to the writer: nothing where there are no records.
    pub fn add(&self, records: &Vec<RolloutRecord>, schema: &Schema) -> (result: Result<
        Option<Batch>,
        EncodeError,
    >)
        ensures
            records@.len() == 0 ==> result is Ok && result->Ok_0 is None,
            records@.len() > 0 ==> match rollout_encoded(rollout_views(records@), schema@) {
                Ok(model) => {
                    &&& result is Ok
                    &&& result->Ok_0 is Some
                    &&& result->Ok_0->Some_0@ == model
                },
                Err(failure) => result is Err && result->Err_0@ == failure,
            },
    {
        if records.len() == 0 {
            return Ok(None);
        }
        match rollouts_to_batch(records, schema) {
            Ok(batch) => Ok(Some(batch)),
            Err(error) => Err(error),
        }
    }

    /// The columns that a merge adds to an older table.
    pub fn schema_changes(&self, base: &Schema) -> (result: Result<Vec<Field>, AlignError>)
        ensures
            match self.base.latest_schema {
                Some(latest) => match evolution(base@, latest@) {
                    Ok(fields) => result is Ok && field_views(result->Ok_0@) == fields,
                    Err(failure) => result is Err && result->Err_0@ == failure,
                },
                None => result is Ok && result->Ok_0@.len() == 0,
            },
    {
        self.base.schema_changes(base)
    }

    /// The columns that list-style reads load: all but the artifact bytes.
    pub fn non_blob_columns(schema: &Schema) -> (result: Vec<String>)
        ensures
            texts(result@) == names_of(schema@.fields).filter(
                |name: Seq<char>| name != "binary_payload"@,
            ),
    {
        non_blob_columns(&schema.column_names(), "binary_payload")
    }

    /// Whether the table has enough fragments to be worth compacting, outside
    /// the quiet hours.
    pub fn should_compact(&self, config: &CompactionConfig, fragments: usize, hour: u8) -> (result: bool)
        ensures
            result == (fragments >= config.min_fragments && !is_quiet(config.quiet_hours@, hour)),
    {
        should_compact(config, fragments, hour)
    }

    /// Statistics of a table of this many fragments.
    pub fn compaction_stats(&self, fragments: usize) -> (stats: CompactionStats)
        ensures
            stats.total_fragments == fragments,
            !stats.is_compacting,
            stats.last_compaction == self.base.compaction.last_compaction,
            opt_text(stats.last_error) == opt_text(self.base.compaction.last_error),
            stats.total_compactions == self.base.compaction.total_compactions,
    {
        self.base.compaction_stats(fragments)
    }

    /// Where a flushed generation of a shard lies.
    pub fn flushed_generation_uri(&self, shard: u128, path: &str) -> (result: String)
        ensures
            result@ == generation_uri(self.base.uri@, shard, path@),
    {
        flushed_generation_uri(self.base.uri.as_str(), shard, path)
    }
}

} // verus!
