//! What a rollout table gives back of what it was given.

use vstd::prelude::*;

use crate::batch::{
    cell_text, column_names, distinct_count, has_null, lemma_columns_fit, lemma_distinct_grows,
    scanned, BatchView, ColumnView, DICTIONARY_SIZE,
};
use crate::collect::{lemma_all_succeed, lemma_success_holds_values};
use crate::error::Failure;
use crate::outside::{json_compact, timestamp_in_range};
use crate::read::{large_text_field, law_relationships_read_back, text_field};
use crate::rollout_codec::{
    rollout_cell, rollout_column, rollout_encoded, rollout_roles, rollout_row_check, rollout_write,
};
use crate::rollout_columns::{
    law_rollout_names_are_distinct, law_rollout_table_has_every_column, lemma_rollout_named,
    rollout_field, rollout_name, rollout_nullable, rollout_table, rollout_type, RolloutColumn,
};
use crate::rollout_decode::{
    lists_read, rollout_header_failure, rollout_of, rollout_read, rollouts_decoded, values_read,
    RolloutLists, RolloutValues,
};
use crate::rollout_record::RolloutView;
use crate::schema::{
    find_name, first_at, lemma_find_name, lemma_find_name_exists, lemma_find_name_is,
    lemma_find_name_none, names_of, DataType, Scalar, SchemaView,
};

verus! {

/// A value that is kept only where its column was read.
pub open spec fn if_read<T>(names: Seq<Seq<char>>, name: Seq<char>, value: Option<T>) -> Option<T> {
    if names.contains(name) {
        value
    } else {
        None
    }
}

/// A record of which only the columns of these names were read.
pub open spec fn partial(record: RolloutView, names: Seq<Seq<char>>) -> RolloutView {
    RolloutView {
        dataset: if_read(names, "dataset"@, record.dataset),
        content: if_read(names, "content"@, record.content),
        model_input_string: if_read(names, "model_input_string"@, record.model_input_string),
        model_output_string: if_read(names, "model_output_string"@, record.model_output_string),
        rationale: if_read(names, "rationale"@, record.rationale),
        problem_text: if_read(names, "problem_text"@, record.problem_text),
        user_metadata: if_read(names, "user_metadata"@, record.user_metadata),
        input_tokens: if_read(names, "input_tokens"@, record.input_tokens),
        output_tokens: if_read(names, "output_tokens"@, record.output_tokens),
        num_input_tokens: if_read(names, "num_input_tokens"@, record.num_input_tokens),
        num_output_tokens: if_read(names, "num_output_tokens"@, record.num_output_tokens),
        output_logprobs: if_read(names, "output_logprobs"@, record.output_logprobs),
        input_logprobs: if_read(names, "input_logprobs"@, record.input_logprobs),
        ref_logprobs: if_read(names, "ref_logprobs"@, record.ref_logprobs),
        loss_mask: if_read(names, "loss_mask"@, record.loss_mask),
        advantage: if_read(names, "advantage"@, record.advantage),
        reward: if_read(names, "reward"@, record.reward),
        raw_reward: if_read(names, "raw_reward"@, record.raw_reward),
        grader_id: if_read(names, "grader_id"@, record.grader_id),
        score: if_read(names, "score"@, record.score),
        include_in_training: if_read(names, "include_in_training"@, record.include_in_training),
        exclude_reason: if_read(names, "exclude_reason"@, record.exclude_reason),
        policy_version: if_read(names, "policy_version"@, record.policy_version),
        relationships: if names.contains("relationships"@) {
            record.relationships
        } else {
            Seq::empty()
        },
        binary_payload: if_read(names, "binary_payload"@, record.binary_payload),
        payload_size: if_read(names, "payload_size"@, record.payload_size),
        payload_checksum: if_read(names, "payload_checksum"@, record.payload_checksum),
        artifact_type: if_read(names, "artifact_type"@, record.artifact_type),
        metadata: if_read(names, "metadata"@, record.metadata),
        ..record
    }
}

/// The names cover the columns that every record has a value in.
pub open spec fn covers_required(names: Seq<Seq<char>>) -> bool {
    forall|column: RolloutColumn|
        !rollout_nullable(column) ==> names.contains(#[trigger] rollout_name(column))
}

/// The record's creation time is a point in time and its metadata is JSON as
/// it is written.
pub open spec fn rollout_readable(record: RolloutView) -> bool {
    &&& timestamp_in_range(record.created_at)
    &&& record.metadata is Some ==> json_compact(record.metadata->Some_0) == Ok::<
        Seq<char>,
        Seq<char>,
    >(record.metadata->Some_0)
}

/// The batch holds the named columns of the records, and no other.
#[verifier::opaque]
spec fn holds(batch: BatchView, records: Seq<RolloutView>, names: Seq<Seq<char>>) -> bool {
    forall|column: RolloutColumn|
        {
            let found = batch.find(#[trigger] rollout_name(column));
            if names.contains(rollout_name(column)) {
                &&& found is Some
                &&& 0 <= found->Some_0 < batch.columns.len()
                &&& batch.columns[found->Some_0] == rollout_column(records, column)
            } else {
                found is None
            }
        }
}

proof fn lemma_written(records: Seq<RolloutView>, schema: SchemaView, column: RolloutColumn)
    requires
        rollout_encoded(records, schema) is Ok,
        schema.has(rollout_name(column)),
    ensures
        ({
            let batch = rollout_encoded(records, schema)->Ok_0;
            let found = batch.find(rollout_name(column));
            &&& found is Some
            &&& 0 <= found->Some_0 < batch.columns.len()
            &&& batch.columns[found->Some_0] == rollout_column(records, column)
        }),
{
    let batch = rollout_encoded(records, schema)->Ok_0;
    let names = names_of(schema.fields);
    lemma_written_names(records, schema);
    let at = find_name(names, rollout_name(column))->Some_0;
    lemma_find_name(names, rollout_name(column));
    assert(first_at(names, rollout_name(column), at));
    let step = rollout_write(records, schema);
    lemma_success_holds_values(step, schema.fields.len());
    assert(step(at) == Ok::<ColumnView, Failure>(batch.columns[at]));
    law_rollout_names_are_distinct(column);
}

proof fn lemma_written_names(records: Seq<RolloutView>, schema: SchemaView)
    requires
        rollout_encoded(records, schema) is Ok,
    ensures
        column_names(rollout_encoded(records, schema)->Ok_0.columns) == names_of(schema.fields),
{
    let batch = rollout_encoded(records, schema)->Ok_0;
    let step = rollout_write(records, schema);
    lemma_success_holds_values(step, schema.fields.len());
    let names = names_of(schema.fields);
    assert forall|j: int| 0 <= j < names.len() implies #[trigger] column_names(batch.columns)[j]
        == names[j] by {
        assert(step(j) == Ok::<ColumnView, Failure>(batch.columns[j]));
        lemma_rollout_named(schema.fields[j].name);
    }
    assert(column_names(batch.columns) =~= names);
}

proof fn lemma_scan_holds(records: Seq<RolloutView>, schema: SchemaView, names: Seq<Seq<char>>)
    requires
        rollout_encoded(records, schema) is Ok,
        forall|i: int| 0 <= i < names.len() ==> schema.has(#[trigger] names[i]),
    ensures
        holds(scanned(rollout_encoded(records, schema)->Ok_0, names), records, names),
{
    let whole = rollout_encoded(records, schema)->Ok_0;
    let batch = scanned(whole, names);
    lemma_written_names(records, schema);
    assert forall|i: int| 0 <= i < names.len() implies #[trigger] column_names(batch.columns)[i]
        == names[i] by {
        assert(schema.has(names[i]));
        lemma_find_name(names_of(schema.fields), names[i]);
    }
    assert(column_names(batch.columns) =~= names);
    reveal(holds);
    assert forall|column: RolloutColumn| #![trigger rollout_name(column)] {
        let found = batch.find(rollout_name(column));
        if names.contains(rollout_name(column)) {
            &&& found is Some
            &&& 0 <= found->Some_0 < batch.columns.len()
            &&& batch.columns[found->Some_0] == rollout_column(records, column)
        } else {
            found is None
        }
    } by {
        let name = rollout_name(column);
        if names.contains(name) {
            let at = choose|at: int| 0 <= at < names.len() && names[at] == name;
            lemma_find_name_exists(names, name, at);
            lemma_find_name(names, name);
            assert(schema.has(names[at]));
            lemma_written(records, schema, column);
        } else {
            assert forall|j: int| 0 <= j < names.len() implies #[trigger] names[j] != name by {
                assert(names.contains(names[j]));
            }
            lemma_find_name_none(names, name);
        }
    }
}

proof fn lemma_read_column(
    batch: BatchView,
    records: Seq<RolloutView>,
    names: Seq<Seq<char>>,
    column: RolloutColumn,
)
    requires
        holds(batch, records, names),
    ensures
        ({
            let found = batch.find(rollout_name(column));
            if names.contains(rollout_name(column)) {
                &&& found is Some
                &&& 0 <= found->Some_0 < batch.columns.len()
                &&& batch.columns[found->Some_0].data_type == rollout_type(column)
                &&& batch.columns[found->Some_0].cells.len() == records.len()
                &&& forall|row: int|
                    0 <= row < records.len() ==> #[trigger] batch.columns[found->Some_0].cells[row]
                        == rollout_cell(records[row], column)
            } else {
                found is None
            }
        }),
{
    reveal(holds);
}

proof fn lemma_header(batch: BatchView, records: Seq<RolloutView>, names: Seq<Seq<char>>)
    requires
        holds(batch, records, names),
        covers_required(names),
    ensures
        rollout_header_failure(batch) is None,
{
    assert(names.contains(rollout_name(RolloutColumn::Id)));
    lemma_read_column(batch, records, names, RolloutColumn::Id);
    assert(names.contains(rollout_name(RolloutColumn::RolloutId)));
    lemma_read_column(batch, records, names, RolloutColumn::RolloutId);
    assert(names.contains(rollout_name(RolloutColumn::ProblemId)));
    lemma_read_column(batch, records, names, RolloutColumn::ProblemId);
    assert(names.contains(rollout_name(RolloutColumn::SequenceOrder)));
    lemma_read_column(batch, records, names, RolloutColumn::SequenceOrder);
    assert(names.contains(rollout_name(RolloutColumn::Role)));
    lemma_read_column(batch, records, names, RolloutColumn::Role);
    assert(names.contains(rollout_name(RolloutColumn::CreatedAt)));
    lemma_read_column(batch, records, names, RolloutColumn::CreatedAt);
    assert(names.contains(rollout_name(RolloutColumn::ContentType)));
    lemma_read_column(batch, records, names, RolloutColumn::ContentType);
}

/// The text columns of a row.
proof fn lemma_text(
    batch: BatchView,
    records: Seq<RolloutView>,
    names: Seq<Seq<char>>,
    column: RolloutColumn,
    row: int,
)
    requires
        holds(batch, records, names),
        rollout_type(column) == DataType::Scalar(Scalar::Utf8),
        0 <= row < records.len(),
    ensures
        text_field(batch, rollout_name(column), row) == if_read(
            names,
            rollout_name(column),
            cell_text(rollout_cell(records[row], column)),
        ),
{
    lemma_read_column(batch, records, names, column);
}

/// The large text columns of a row.
proof fn lemma_large_text(
    batch: BatchView,
    records: Seq<RolloutView>,
    names: Seq<Seq<char>>,
    column: RolloutColumn,
    row: int,
)
    requires
        holds(batch, records, names),
        rollout_type(column) == DataType::Scalar(Scalar::LargeUtf8),
        0 <= row < records.len(),
    ensures
        large_text_field(batch, rollout_name(column), row) == if_read(
            names,
            rollout_name(column),
            cell_text(rollout_cell(records[row], column)),
        ),
{
    lemma_read_column(batch, records, names, column);
}

proof fn lemma_values(
    batch: BatchView,
    records: Seq<RolloutView>,
    names: Seq<Seq<char>>,
    row: int,
)
    requires
        holds(batch, records, names),
        covers_required(names),
        0 <= row < records.len(),
        rollout_readable(records[row]),
    ensures
        ({
            let kept = partial(records[row], names);
            values_read(batch, row) == Ok::<RolloutValues, Failure>(
                RolloutValues {
                    created_at: kept.created_at,
                    role: kept.role,
                    metadata: kept.metadata,
                    relationships: kept.relationships,
                },
            )
        }),
{
    assert(names.contains(rollout_name(RolloutColumn::CreatedAt)));
    assert(names.contains(rollout_name(RolloutColumn::Role)));
    lemma_read_column(batch, records, names, RolloutColumn::CreatedAt);
    lemma_read_column(batch, records, names, RolloutColumn::Role);
    lemma_large_text(batch, records, names, RolloutColumn::Metadata, row);
    lemma_read_column(batch, records, names, RolloutColumn::Relationships);
    law_relationships_read_back(records[row].relationships);
}

proof fn lemma_lists(batch: BatchView, records: Seq<RolloutView>, names: Seq<Seq<char>>, row: int)
    requires
        holds(batch, records, names),
        0 <= row < records.len(),
    ensures
        ({
            let kept = partial(records[row], names);
            lists_read(batch, row) == Ok::<RolloutLists, Failure>(
                RolloutLists {
                    input_tokens: kept.input_tokens,
                    output_tokens: kept.output_tokens,
                    output_logprobs: kept.output_logprobs,
                    input_logprobs: kept.input_logprobs,
                    ref_logprobs: kept.ref_logprobs,
                    loss_mask: kept.loss_mask,
                },
            )
        }),
{
    lemma_read_column(batch, records, names, RolloutColumn::InputTokens);
    lemma_read_column(batch, records, names, RolloutColumn::OutputTokens);
    lemma_read_column(batch, records, names, RolloutColumn::OutputLogprobs);
    lemma_read_column(batch, records, names, RolloutColumn::InputLogprobs);
    lemma_read_column(batch, records, names, RolloutColumn::RefLogprobs);
    lemma_read_column(batch, records, names, RolloutColumn::LossMask);
}

proof fn lemma_plain(batch: BatchView, records: Seq<RolloutView>, names: Seq<Seq<char>>, row: int)
    requires
        holds(batch, records, names),
        covers_required(names),
        0 <= row < records.len(),
    ensures
        ({
            let kept = partial(records[row], names);
            rollout_of(
                batch,
                row,
                RolloutValues {
                    created_at: kept.created_at,
                    role: kept.role,
                    metadata: kept.metadata,
                    relationships: kept.relationships,
                },
                RolloutLists {
                    input_tokens: kept.input_tokens,
                    output_tokens: kept.output_tokens,
                    output_logprobs: kept.output_logprobs,
                    input_logprobs: kept.input_logprobs,
                    ref_logprobs: kept.ref_logprobs,
                    loss_mask: kept.loss_mask,
                },
            ) == kept
        }),
{
    assert(names.contains(rollout_name(RolloutColumn::Id)));
    lemma_text(batch, records, names, RolloutColumn::Id, row);
    assert(names.contains(rollout_name(RolloutColumn::RolloutId)));
    lemma_text(batch, records, names, RolloutColumn::RolloutId, row);
    assert(names.contains(rollout_name(RolloutColumn::ProblemId)));
    lemma_text(batch, records, names, RolloutColumn::ProblemId, row);
    lemma_text(batch, records, names, RolloutColumn::Dataset, row);
    assert(names.contains(rollout_name(RolloutColumn::SequenceOrder)));
    lemma_read_column(batch, records, names, RolloutColumn::SequenceOrder);
    lemma_large_text(batch, records, names, RolloutColumn::Content, row);
    assert(names.contains(rollout_name(RolloutColumn::ContentType)));
    lemma_text(batch, records, names, RolloutColumn::ContentType, row);
    lemma_large_text(batch, records, names, RolloutColumn::ModelInputString, row);
    lemma_large_text(batch, records, names, RolloutColumn::ModelOutputString, row);
    lemma_large_text(batch, records, names, RolloutColumn::Rationale, row);
    lemma_large_text(batch, records, names, RolloutColumn::ProblemText, row);
    lemma_large_text(batch, records, names, RolloutColumn::UserMetadata, row);
    lemma_read_column(batch, records, names, RolloutColumn::NumInputTokens);
    lemma_read_column(batch, records, names, RolloutColumn::NumOutputTokens);
    lemma_read_column(batch, records, names, RolloutColumn::Advantage);
    lemma_read_column(batch, records, names, RolloutColumn::Reward);
    lemma_read_column(batch, records, names, RolloutColumn::RawReward);
    lemma_text(batch, records, names, RolloutColumn::GraderId, row);
    lemma_read_column(batch, records, names, RolloutColumn::Score);
    lemma_read_column(batch, records, names, RolloutColumn::IncludeInTraining);
    lemma_text(batch, records, names, RolloutColumn::ExcludeReason, row);
    lemma_text(batch, records, names, RolloutColumn::PolicyVersion, row);
    lemma_read_column(batch, records, names, RolloutColumn::BinaryPayload);
    lemma_read_column(batch, records, names, RolloutColumn::PayloadSize);
    lemma_text(batch, records, names, RolloutColumn::PayloadChecksum, row);
    lemma_text(batch, records, names, RolloutColumn::ArtifactType, row);
}

/// What is written reads back: of records written to a table, a scan of some
/// of its columns gives every record, in order, with the fields of those
/// columns as they were and the others absent.
///
/// Left out are times outside the range that a point in time can have, and
/// metadata that is no JSON in its compact form, which no writer produces.
pub proof fn law_rollouts_read_back(
    records: Seq<RolloutView>,
    schema: SchemaView,
    names: Seq<Seq<char>>,
)
    requires
        rollout_encoded(records, schema) is Ok,
        forall|i: int| 0 <= i < names.len() ==> schema.has(#[trigger] names[i]),
        covers_required(names),
    ensures
        (forall|i: int| 0 <= i < records.len() ==> rollout_readable(#[trigger] records[i]))
            ==> rollouts_decoded(scanned(rollout_encoded(records, schema)->Ok_0, names)) == Ok::<
            Seq<RolloutView>,
            Failure,
        >(Seq::new(records.len(), |i: int| partial(records[i], names))),
{
    let batch = scanned(rollout_encoded(records, schema)->Ok_0, names);
    if forall|i: int| 0 <= i < records.len() ==> rollout_readable(#[trigger] records[i]) {
        lemma_scan_holds(records, schema, names);
        lemma_header(batch, records, names);
        let step = rollout_read(batch);
        let kept = Seq::new(records.len(), |i: int| partial(records[i], names));
        assert forall|i: int| 0 <= i < records.len() implies #[trigger] step(i) == Ok::<
            RolloutView,
            Failure,
        >(kept[i]) by {
            lemma_values(batch, records, names, i);
            lemma_lists(batch, records, names, i);
            lemma_plain(batch, records, names, i);
        }
        lemma_all_succeed(step, records.len(), kept);
    }
}

/// Records written to a new rollout table are taken if a dictionary takes their
/// roles, and come back whole when all of its columns are read.
pub proof fn law_new_rollout_table_reads_back(records: Seq<RolloutView>)
    requires
        distinct_count(rollout_roles(records), records.len()) <= DICTIONARY_SIZE,
    ensures
        rollout_encoded(records, rollout_table()) is Ok,
        (forall|i: int| 0 <= i < records.len() ==> rollout_readable(#[trigger] records[i]))
            ==> rollouts_decoded(rollout_encoded(records, rollout_table())->Ok_0) == Ok::<
            Seq<RolloutView>,
            Failure,
        >(records),
{
    let schema = rollout_table();
    let names = names_of(schema.fields);
    lemma_new_table_takes(records);
    assert forall|column: RolloutColumn| names.contains(#[trigger] rollout_name(column)) by {
        law_rollout_table_has_every_column(column);
        lemma_find_name(names, rollout_name(column));
        assert(first_at(
            names,
            rollout_name(column),
            find_name(names, rollout_name(column))->Some_0,
        ));
    }
    assert forall|i: int| 0 <= i < names.len() implies schema.has(#[trigger] names[i]) by {
        lemma_find_name_exists(names, names[i], i);
    }
    if forall|i: int| 0 <= i < records.len() ==> rollout_readable(#[trigger] records[i]) {
        law_rollouts_read_back(records, schema, names);
        let batch = rollout_encoded(records, schema)->Ok_0;
        lemma_written_names(records, schema);
        assert(scanned(batch, names) =~= batch) by {
            assert forall|i: int| 0 <= i < names.len() implies #[trigger] scanned(
                batch,
                names,
            ).columns[i] == batch.columns[i] by {
                lemma_new_table_position(i);
            }
        }
        assert(Seq::new(records.len(), |i: int| partial(records[i], names)) =~= records) by {
            assert forall|i: int| 0 <= i < records.len() implies #[trigger] partial(
                records[i],
                names,
            ) == records[i] by {
                lemma_partial_whole(records[i], names);
            }
        }
    }
}

proof fn lemma_partial_whole(record: RolloutView, names: Seq<Seq<char>>)
    requires
        forall|column: RolloutColumn| names.contains(#[trigger] rollout_name(column)),
    ensures
        partial(record, names) == record,
{
    assert(names.contains(rollout_name(RolloutColumn::Dataset)));
    assert(names.contains(rollout_name(RolloutColumn::Content)));
    assert(names.contains(rollout_name(RolloutColumn::ModelInputString)));
    assert(names.contains(rollout_name(RolloutColumn::ModelOutputString)));
    assert(names.contains(rollout_name(RolloutColumn::Rationale)));
    assert(names.contains(rollout_name(RolloutColumn::ProblemText)));
    assert(names.contains(rollout_name(RolloutColumn::UserMetadata)));
    assert(names.contains(rollout_name(RolloutColumn::InputTokens)));
    assert(names.contains(rollout_name(RolloutColumn::OutputTokens)));
    assert(names.contains(rollout_name(RolloutColumn::NumInputTokens)));
    assert(names.contains(rollout_name(RolloutColumn::NumOutputTokens)));
    assert(names.contains(rollout_name(RolloutColumn::OutputLogprobs)));
    assert(names.contains(rollout_name(RolloutColumn::InputLogprobs)));
    assert(names.contains(rollout_name(RolloutColumn::RefLogprobs)));
    assert(names.contains(rollout_name(RolloutColumn::LossMask)));
    assert(names.contains(rollout_name(RolloutColumn::Advantage)));
    assert(names.contains(rollout_name(RolloutColumn::Reward)));
    assert(names.contains(rollout_name(RolloutColumn::RawReward)));
    assert(names.contains(rollout_name(RolloutColumn::GraderId)));
    assert(names.contains(rollout_name(RolloutColumn::Score)));
    assert(names.contains(rollout_name(RolloutColumn::IncludeInTraining)));
    assert(names.contains(rollout_name(RolloutColumn::ExcludeReason)));
    assert(names.contains(rollout_name(RolloutColumn::PolicyVersion)));
    assert(names.contains(rollout_name(RolloutColumn::Relationships)));
    assert(names.contains(rollout_name(RolloutColumn::BinaryPayload)));
    assert(names.contains(rollout_name(RolloutColumn::PayloadSize)));
    assert(names.contains(rollout_name(RolloutColumn::PayloadChecksum)));
    assert(names.contains(rollout_name(RolloutColumn::ArtifactType)));
    assert(names.contains(rollout_name(RolloutColumn::Metadata)));
    assert(partial(record, names) =~= record);
}

proof fn lemma_new_table_position(i: int)
    requires
        0 <= i < rollout_table().fields.len(),
    ensures
        find_name(names_of(rollout_table().fields), rollout_table().fields[i].name) == Some(i),
{
    let names = names_of(rollout_table().fields);
    let columns = crate::rollout_columns::rollout_columns();
    let name = rollout_table().fields[i].name;
    assert(name == rollout_name(columns[i]));
    law_rollout_names_are_distinct(columns[i]);
    assert forall|j: int| 0 <= j < i implies #[trigger] names[j] != name by {
        assert(names[j] == rollout_name(columns[j]));
        law_rollout_names_are_distinct(columns[j]);
        crate::rollout_columns::lemma_columns_are_distinct(i, j);
    }
    lemma_find_name_is(names, name, i);
}

proof fn lemma_new_table_takes(records: Seq<RolloutView>)
    requires
        distinct_count(rollout_roles(records), records.len()) <= DICTIONARY_SIZE,
    ensures
        rollout_encoded(records, rollout_table()) is Ok,
{
    let schema = rollout_table();
    let columns = crate::rollout_columns::rollout_columns();
    law_rollout_table_has_every_column(RolloutColumn::Relationships);
    law_rollout_table_has_every_column(RolloutColumn::Metadata);
    let step = rollout_write(records, schema);
    let values = Seq::new(columns.len(), |i: int| rollout_column(records, columns[i]));
    assert forall|i: int| 0 <= i < columns.len() implies #[trigger] step(i) == Ok::<
        ColumnView,
        Failure,
    >(values[i]) by {
        law_rollout_names_are_distinct(columns[i]);
        assert(schema.fields[i].name == rollout_name(columns[i]));
        lemma_new_table_position(i);
    }
    lemma_all_succeed(step, columns.len(), values);
    let check = rollout_row_check(records);
    let passed = Seq::new(records.len(), |i: int| ());
    assert forall|i: int| 0 <= i < records.len() implies #[trigger] check(i) == Ok::<(), Failure>(
        passed[i],
    ) by {
        lemma_distinct_grows(rollout_roles(records), (i + 1) as nat, records.len());
    }
    lemma_all_succeed(check, records.len(), passed);
    assert forall|j: int| 0 <= j < columns.len() implies (#[trigger] values[j]).data_type
        == schema.fields[j].data_type by {
        assert(schema.fields[j] == rollout_field(columns[j]));
    }
    assert forall|j: int| 0 <= j < columns.len() implies (#[trigger] schema.fields[j]).nullable
        || !has_null(values[j]) by {
        assert(schema.fields[j] == rollout_field(columns[j]));
    }
    lemma_columns_fit(values, schema.fields);
}

} // verus!
