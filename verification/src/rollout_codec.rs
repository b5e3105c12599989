//! Rollout records turned into table rows.

use vstd::prelude::*;

use crate::batch::{
    bytes_cell, cell_views, check_fit, column_views, dictionary_check, fit_failure, flag_cell,
    float_cell, floats_cell, int32_cell, int_cell, ints32_cell, ints8_cell, take_text, text_cell,
    Batch, BatchView, Cell, CellView, Column, ColumnView, DictionaryTexts, EncodeError,
    EncodeFailure,
};
use crate::collect::{collected, lemma_failure_stays};
use crate::error::{invalid_argument, Failure, StoreError};
use crate::read::{links_of, relationships_cell};
use crate::rollout_columns::{
    find_rollout_column, law_rollout_names_are_distinct, lemma_rollout_named, rollout_data_type,
    rollout_name, rollout_named, rollout_type, RolloutColumn,
};
use crate::rollout_record::{rollout_views, RolloutRecord, RolloutView};
use crate::schema::{find_name, names_of, Schema, SchemaView};
use crate::text::join3;

verus! {

/// Some record has relationships.
pub open spec fn has_relationships(records: Seq<RolloutView>) -> bool {
    exists|i: int| 0 <= i < records.len() && (#[trigger] records[i]).relationships.len() > 0
}

/// Some record has metadata.
pub open spec fn has_metadata(records: Seq<RolloutView>) -> bool {
    exists|i: int| 0 <= i < records.len() && (#[trigger] records[i]).metadata is Some
}

/// What the records hold that the table has no column for.
pub open spec fn unsupported_values(records: Seq<RolloutView>, schema: SchemaView) -> Option<Failure> {
    if !schema.has("relationships"@) && has_relationships(records) {
        Some(
            invalid_argument(
                "relationships require a rollout dataset created with relationships support"@,
            ),
        )
    } else if !schema.has("metadata"@) && has_metadata(records) {
        Some(
            invalid_argument(
                "metadata requires a rollout dataset created with metadata support"@,
            ),
        )
    } else {
        None
    }
}

/// The value of a record in a column.
pub open spec fn rollout_cell(record: RolloutView, column: RolloutColumn) -> CellView {
    match column {
        RolloutColumn::Id => CellView::Text(record.id),
        RolloutColumn::RolloutId => CellView::Text(record.rollout_id),
        RolloutColumn::ProblemId => CellView::Text(record.problem_id),
        RolloutColumn::Dataset => text_cell(record.dataset),
        RolloutColumn::SequenceOrder => int32_cell(Some(record.sequence_order)),
        RolloutColumn::Role => CellView::Text(record.role),
        RolloutColumn::CreatedAt => CellView::Int(record.created_at),
        RolloutColumn::Content => text_cell(record.content),
        RolloutColumn::ContentType => CellView::Text(record.content_type),
        RolloutColumn::ModelInputString => text_cell(record.model_input_string),
        RolloutColumn::ModelOutputString => text_cell(record.model_output_string),
        RolloutColumn::Rationale => text_cell(record.rationale),
        RolloutColumn::ProblemText => text_cell(record.problem_text),
        RolloutColumn::UserMetadata => text_cell(record.user_metadata),
        RolloutColumn::InputTokens => ints32_cell(record.input_tokens),
        RolloutColumn::OutputTokens => ints32_cell(record.output_tokens),
        RolloutColumn::NumInputTokens => int32_cell(record.num_input_tokens),
        RolloutColumn::NumOutputTokens => int32_cell(record.num_output_tokens),
        RolloutColumn::OutputLogprobs => floats_cell(record.output_logprobs),
        RolloutColumn::InputLogprobs => floats_cell(record.input_logprobs),
        RolloutColumn::RefLogprobs => floats_cell(record.ref_logprobs),
        RolloutColumn::LossMask => ints8_cell(record.loss_mask),
        RolloutColumn::Advantage => float_cell(record.advantage),
        RolloutColumn::Reward => float_cell(record.reward),
        RolloutColumn::RawReward => float_cell(record.raw_reward),
        RolloutColumn::GraderId => text_cell(record.grader_id),
        RolloutColumn::Score => float_cell(record.score),
        RolloutColumn::IncludeInTraining => flag_cell(record.include_in_training),
        RolloutColumn::ExcludeReason => text_cell(record.exclude_reason),
        RolloutColumn::PolicyVersion => text_cell(record.policy_version),
        RolloutColumn::Relationships => CellView::Links(links_of(record.relationships)),
        RolloutColumn::BinaryPayload => bytes_cell(record.binary_payload),
        RolloutColumn::PayloadSize => int_cell(record.payload_size),
        RolloutColumn::PayloadChecksum => text_cell(record.payload_checksum),
        RolloutColumn::ArtifactType => text_cell(record.artifact_type),
        RolloutColumn::Metadata => text_cell(record.metadata),
    }
}

/// The column a table gets for a batch of records.
pub open spec fn rollout_column(records: Seq<RolloutView>, column: RolloutColumn) -> ColumnView {
    ColumnView {
        name: rollout_name(column),
        data_type: rollout_type(column),
        cells: Seq::new(records.len(), |i: int| rollout_cell(records[i], column)),
    }
}

/// What one column of the table gets: each known column is filled once.
pub open spec fn rollout_write(records: Seq<RolloutView>, schema: SchemaView) -> spec_fn(
    int,
) -> Result<ColumnView, Failure> {
    |j: int|
        {
            let name = schema.fields[j].name;
            match rollout_named(name) {
                Some(column) if find_name(names_of(schema.fields), name) == Some(j) => Ok(
                    rollout_column(records, column),
                ),
                _ => Err(invalid_argument("unsupported rollout dataset column '"@ + name + "'"@)),
            }
        }
}

/// The roles of records.
pub open spec fn rollout_roles(records: Seq<RolloutView>) -> Seq<Seq<char>> {
    Seq::new(records.len(), |i: int| records[i].role)
}

/// Whether a record can be written behind the ones before it: the dictionary of
/// roles takes its role.
pub open spec fn rollout_row_check(records: Seq<RolloutView>) -> spec_fn(int) -> Result<
    (),
    Failure,
> {
    |i: int|
        match dictionary_check(rollout_roles(records), i) {
            Some(failure) => Err(failure),
            None => Ok(()),
        }
}

/// The batch that a table with this schema gets for the records, or why it
/// gets none.
pub open spec fn rollout_encoded(records: Seq<RolloutView>, schema: SchemaView) -> Result<
    BatchView,
    EncodeFailure,
> {
    match unsupported_values(records, schema) {
        Some(failure) => Err(EncodeFailure::Refused(failure)),
        None => match collected(rollout_row_check(records), records.len()) {
            Err(failure) => Err(EncodeFailure::Refused(failure)),
            Ok(_) => match collected(rollout_write(records, schema), schema.fields.len()) {
                Err(failure) => Err(EncodeFailure::Refused(failure)),
                Ok(columns) => match fit_failure(columns, schema.fields) {
                    Some(failure) => Err(EncodeFailure::Unfit(failure)),
                    None => Ok(BatchView { columns, rows: records.len() }),
                },
            },
        },
    }
}

fn check_rows(records: &Vec<RolloutRecord>) -> (result: Result<(), StoreError>)
    ensures
        match collected(rollout_row_check(rollout_views(records@)), records@.len()) {
            Err(failure) => result is Err && result->Err_0@ == failure,
            Ok(_) => result is Ok,
        },
{
    let ghost views = rollout_views(records@);
    let ghost step = rollout_row_check(views);
    let ghost mut seen: Seq<()> = Seq::empty();
    let mut dictionary = DictionaryTexts::new();
    let mut index: usize = 0;
    while index < records.len()
        invariant
            index <= records.len(),
            views == rollout_views(records@),
            step == rollout_row_check(views),
            dictionary.holds(rollout_roles(views), index as nat),
            collected(step, index as nat) == Ok::<Seq<()>, Failure>(seen),
        decreases records.len() - index,
    {
        assert(rollout_roles(views)[index as int] == records@[index as int].role@);
        match take_text(
            &mut dictionary,
            records[index].role.as_str(),
            Ghost(rollout_roles(views)),
            Ghost(index as nat),
        ) {
            Err(error) => {
                proof {
                    assert(step(index as int) == Err::<(), Failure>(error@));
                    assert(collected(step, (index + 1) as nat) is Err);
                    lemma_failure_stays(step, (index + 1) as nat, views.len());
                }
                return Err(error);
            },
            Ok(_) => {},
        }
        proof {
            assert(step(index as int) == Ok::<(), Failure>(()));
            seen = seen.push(());
        }
        index = index + 1;
    }
    Ok(())
}

fn any_relationships(records: &Vec<RolloutRecord>) -> (result: bool)
    ensures
        result == has_relationships(rollout_views(records@)),
{
    let ghost views = rollout_views(records@);
    let mut index: usize = 0;
    while index < records.len()
        invariant
            index <= records.len(),
            views == rollout_views(records@),
            forall|i: int| 0 <= i < index ==> (#[trigger] views[i]).relationships.len() == 0,
        decreases records.len() - index,
    {
        if records[index].relationships.len() > 0 {
            assert(views[index as int].relationships.len() > 0);
            return true;
        }
        index = index + 1;
    }
    false
}

fn any_metadata(records: &Vec<RolloutRecord>) -> (result: bool)
    ensures
        result == has_metadata(rollout_views(records@)),
{
    let ghost views = rollout_views(records@);
    let mut index: usize = 0;
    while index < records.len()
        invariant
            index <= records.len(),
            views == rollout_views(records@),
            forall|i: int| 0 <= i < index ==> (#[trigger] views[i]).metadata is None,
        decreases records.len() - index,
    {
        if records[index].metadata.is_some() {
            assert(views[index as int].metadata is Some);
            return true;
        }
        index = index + 1;
    }
    false
}

fn cell_of(record: &RolloutRecord, column: RolloutColumn) -> (cell: Cell)
    ensures
        cell@ == rollout_cell(record@, column),
{
    match column {
        RolloutColumn::Id => Cell::Text(record.id.clone()),
        RolloutColumn::RolloutId => Cell::Text(record.rollout_id.clone()),
        RolloutColumn::ProblemId => Cell::Text(record.problem_id.clone()),
        RolloutColumn::Dataset => Cell::from_text(&record.dataset),
        RolloutColumn::SequenceOrder => Cell::from_int32(Some(record.sequence_order)),
        RolloutColumn::Role => Cell::Text(record.role.clone()),
        RolloutColumn::CreatedAt => Cell::Int(record.created_at),
        RolloutColumn::Content => Cell::from_text(&record.content),
        RolloutColumn::ContentType => Cell::Text(record.content_type.clone()),
        RolloutColumn::ModelInputString => Cell::from_text(&record.model_input_string),
        RolloutColumn::ModelOutputString => Cell::from_text(&record.model_output_string),
        RolloutColumn::Rationale => Cell::from_text(&record.rationale),
        RolloutColumn::ProblemText => Cell::from_text(&record.problem_text),
        RolloutColumn::UserMetadata => Cell::from_text(&record.user_metadata),
        RolloutColumn::InputTokens => Cell::from_ints32(&record.input_tokens),
        RolloutColumn::OutputTokens => Cell::from_ints32(&record.output_tokens),
        RolloutColumn::NumInputTokens => Cell::from_int32(record.num_input_tokens),
        RolloutColumn::NumOutputTokens => Cell::from_int32(record.num_output_tokens),
        RolloutColumn::OutputLogprobs => Cell::from_floats(&record.output_logprobs),
        RolloutColumn::InputLogprobs => Cell::from_floats(&record.input_logprobs),
        RolloutColumn::RefLogprobs => Cell::from_floats(&record.ref_logprobs),
        RolloutColumn::LossMask => Cell::from_ints8(&record.loss_mask),
        RolloutColumn::Advantage => Cell::from_float(record.advantage),
        RolloutColumn::Reward => Cell::from_float(record.reward),
        RolloutColumn::RawReward => Cell::from_float(record.raw_reward),
        RolloutColumn::GraderId => Cell::from_text(&record.grader_id),
        RolloutColumn::Score => Cell::from_float(record.score),
        RolloutColumn::IncludeInTraining => Cell::from_flag(record.include_in_training),
        RolloutColumn::ExcludeReason => Cell::from_text(&record.exclude_reason),
        RolloutColumn::PolicyVersion => Cell::from_text(&record.policy_version),
        RolloutColumn::Relationships => relationships_cell(&record.relationships),
        RolloutColumn::BinaryPayload => Cell::from_bytes(&record.binary_payload),
        RolloutColumn::PayloadSize => Cell::from_int(record.payload_size),
        RolloutColumn::PayloadChecksum => Cell::from_text(&record.payload_checksum),
        RolloutColumn::ArtifactType => Cell::from_text(&record.artifact_type),
        RolloutColumn::Metadata => Cell::from_text(&record.metadata),
    }
}

fn build_column(records: &Vec<RolloutRecord>, column: RolloutColumn, name: &str) -> (result: Column)
    requires
        name@ == rollout_name(column),
    ensures
        result@ == rollout_column(rollout_views(records@), column),
{
    let ghost views = rollout_views(records@);
    let ghost wanted = rollout_column(views, column).cells;
    let mut cells: Vec<Cell> = Vec::new();
    let mut index: usize = 0;
    while index < records.len()
        invariant
            index <= records.len(),
            cells.len() == index,
            views == rollout_views(records@),
            wanted == rollout_column(views, column).cells,
            forall|k: int| 0 <= k < index ==> (#[trigger] cells@[k])@ == wanted[k],
        decreases records.len() - index,
    {
        cells.push(cell_of(&records[index], column));
        index = index + 1;
    }
    assert(cell_views(cells@) =~= wanted);
    Column { name: name.to_owned(), data_type: rollout_data_type(column), cells }
}

/// Turns rollout records into the batch that a table with this schema takes.
///
/// Refused are relationships and metadata that the table has no column for,
/// more roles than a dictionary takes, and tables with a column that records do
/// not have. The columns come in table order, and must have the table's types,
/// and nulls only where the table takes them.
pub fn rollouts_to_batch(records: &Vec<RolloutRecord>, schema: &Schema) -> (result: Result<
    Batch,
    EncodeError,
>)
    ensures
        match rollout_encoded(rollout_views(records@), schema@) {
            Ok(model) => result is Ok && result->Ok_0@ == model && model.well_formed(),
            Err(failure) => result is Err && result->Err_0@ == failure,
        },
{
    let ghost views = rollout_views(records@);
    if !schema.has_column("relationships") && any_relationships(records) {
        return Err(
            EncodeError::Refused(
                StoreError::invalid_argument(
                    "relationships require a rollout dataset created with relationships support".to_owned(),
                ),
            ),
        );
    }
    if !schema.has_column("metadata") && any_metadata(records) {
        return Err(
            EncodeError::Refused(
                StoreError::invalid_argument(
                    "metadata requires a rollout dataset created with metadata support".to_owned(),
                ),
            ),
        );
    }
    match check_rows(records) {
        Err(error) => {
            return Err(EncodeError::Refused(error));
        },
        Ok(_) => {},
    }
    let ghost step = rollout_write(views, schema@);
    let ghost rows = views.len();
    let mut columns: Vec<Column> = Vec::new();
    let mut j: usize = 0;
    assert(column_views(columns@) =~= Seq::<ColumnView>::empty());
    while j < schema.fields.len()
        invariant
            j <= schema.fields.len(),
            views == rollout_views(records@),
            rows == views.len(),
            step == rollout_write(views, schema@),
            unsupported_values(views, schema@) is None,
            collected(rollout_row_check(views), views.len()) is Ok,
            columns@.len() == j,
            collected(step, j as nat) == Ok::<Seq<ColumnView>, Failure>(column_views(columns@)),
            forall|k: int|
                0 <= k < columns.len() ==> (#[trigger] column_views(columns@)[k]).cells.len() == rows,
        decreases schema.fields.len() - j,
    {
        let name = schema.fields[j].name.as_str();
        let ghost position = j as int;
        assert(schema@.fields[position].name == name@);
        let known = find_rollout_column(name);
        let first = schema.index_of(name);
        let column = match (known, first) {
            (Some(column), Some(at)) => if at == j {
                proof {
                    lemma_rollout_named(name@);
                }
                Some(build_column(records, column, name))
            } else {
                None
            },
            _ => None,
        };
        match column {
            Some(column) => {
                let ghost before = columns@;
                assert(step(position) == Ok::<ColumnView, Failure>(column@));
                columns.push(column);
                proof {
                    assert(column_views(columns@) =~= column_views(before).push(column@));
                    assert forall|k: int| 0 <= k < columns.len() implies (#[trigger] column_views(
                        columns@,
                    )[k]).cells.len() == rows by {
                        if k < before.len() {
                            assert(column_views(columns@)[k] == column_views(before)[k]);
                        }
                    }
                }
            },
            None => {
                let error = StoreError::invalid_argument(
                    join3("unsupported rollout dataset column '", name, "'"),
                );
                proof {
                    assert(step(position) == Err::<ColumnView, Failure>(error@));
                    assert(collected(step, (j + 1) as nat) is Err);
                    lemma_failure_stays(step, (j + 1) as nat, schema@.fields.len());
                }
                return Err(EncodeError::Refused(error));
            },
        }
        j = j + 1;
    }
    match check_fit(&columns, schema) {
        Err(error) => {
            return Err(EncodeError::Unfit(error));
        },
        Ok(_) => {},
    }
    Ok(Batch { columns, rows: records.len() })
}

/// A rollout is written field by field: its batch has the table's columns in
/// order, and a row of the column of a name holds the record's field of that name.
pub proof fn law_a_rollout_is_written_field_by_field(
    records: Seq<RolloutView>,
    schema: SchemaView,
    at: int,
    row: int,
)
    requires
        rollout_encoded(records, schema) is Ok,
        0 <= at < schema.fields.len(),
        0 <= row < records.len(),
    ensures
        ({
            let batch = rollout_encoded(records, schema)->Ok_0;
            let name = batch.columns[at].name;
            let cell = batch.columns[at].cells[row];
            let record = records[row];
            &&& batch.rows == records.len()
            &&& batch.columns.len() == schema.fields.len()
            &&& batch.columns[at].cells.len() == records.len()
            &&& name == schema.fields[at].name
            &&& name == "id"@ ==> cell == CellView::Text(record.id)
            &&& name == "rollout_id"@ ==> cell == CellView::Text(record.rollout_id)
            &&& name == "problem_id"@ ==> cell == CellView::Text(record.problem_id)
            &&& name == "dataset"@ ==> cell == text_cell(record.dataset)
            &&& name == "sequence_order"@ ==> cell == CellView::Int(record.sequence_order as i64)
            &&& name == "role"@ ==> cell == CellView::Text(record.role)
            &&& name == "created_at"@ ==> cell == CellView::Int(record.created_at)
            &&& name == "content"@ ==> cell == text_cell(record.content)
            &&& name == "content_type"@ ==> cell == CellView::Text(record.content_type)
            &&& name == "model_input_string"@ ==> cell == text_cell(record.model_input_string)
            &&& name == "model_output_string"@ ==> cell == text_cell(record.model_output_string)
            &&& name == "rationale"@ ==> cell == text_cell(record.rationale)
            &&& name == "problem_text"@ ==> cell == text_cell(record.problem_text)
            &&& name == "user_metadata"@ ==> cell == text_cell(record.user_metadata)
            &&& name == "input_tokens"@ ==> cell == ints32_cell(record.input_tokens)
            &&& name == "output_tokens"@ ==> cell == ints32_cell(record.output_tokens)
            &&& name == "num_input_tokens"@ ==> cell == int32_cell(record.num_input_tokens)
            &&& name == "num_output_tokens"@ ==> cell == int32_cell(record.num_output_tokens)
            &&& name == "output_logprobs"@ ==> cell == floats_cell(record.output_logprobs)
            &&& name == "input_logprobs"@ ==> cell == floats_cell(record.input_logprobs)
            &&& name == "ref_logprobs"@ ==> cell == floats_cell(record.ref_logprobs)
            &&& name == "loss_mask"@ ==> cell == ints8_cell(record.loss_mask)
            &&& name == "advantage"@ ==> cell == float_cell(record.advantage)
            &&& name == "reward"@ ==> cell == float_cell(record.reward)
            &&& name == "raw_reward"@ ==> cell == float_cell(record.raw_reward)
            &&& name == "grader_id"@ ==> cell == text_cell(record.grader_id)
            &&& name == "score"@ ==> cell == float_cell(record.score)
            &&& name == "include_in_training"@ ==> cell == flag_cell(record.include_in_training)
            &&& name == "exclude_reason"@ ==> cell == text_cell(record.exclude_reason)
            &&& name == "policy_version"@ ==> cell == text_cell(record.policy_version)
            &&& name == "relationships"@ ==> cell == CellView::Links(links_of(record.relationships))
            &&& name == "binary_payload"@ ==> cell == bytes_cell(record.binary_payload)
            &&& name == "payload_size"@ ==> cell == int_cell(record.payload_size)
            &&& name == "payload_checksum"@ ==> cell == text_cell(record.payload_checksum)
            &&& name == "artifact_type"@ ==> cell == text_cell(record.artifact_type)
            &&& name == "metadata"@ ==> cell == text_cell(record.metadata)
        }),
{
    let step = rollout_write(records, schema);
    crate::collect::lemma_success_holds_values(step, schema.fields.len());
    assert(step(at) is Ok);
    let column = rollout_named(schema.fields[at].name)->Some_0;
    lemma_rollout_named(schema.fields[at].name);
    law_rollout_names_are_distinct(RolloutColumn::Id);
    law_rollout_names_are_distinct(RolloutColumn::RolloutId);
    law_rollout_names_are_distinct(RolloutColumn::ProblemId);
    law_rollout_names_are_distinct(RolloutColumn::Dataset);
    law_rollout_names_are_distinct(RolloutColumn::SequenceOrder);
    law_rollout_names_are_distinct(RolloutColumn::Role);
    law_rollout_names_are_distinct(RolloutColumn::CreatedAt);
    law_rollout_names_are_distinct(RolloutColumn::Content);
    law_rollout_names_are_distinct(RolloutColumn::ContentType);
    law_rollout_names_are_distinct(RolloutColumn::ModelInputString);
    law_rollout_names_are_distinct(RolloutColumn::ModelOutputString);
    law_rollout_names_are_distinct(RolloutColumn::Rationale);
    law_rollout_names_are_distinct(RolloutColumn::ProblemText);
    law_rollout_names_are_distinct(RolloutColumn::UserMetadata);
    law_rollout_names_are_distinct(RolloutColumn::InputTokens);
    law_rollout_names_are_distinct(RolloutColumn::OutputTokens);
    law_rollout_names_are_distinct(RolloutColumn::NumInputTokens);
    law_rollout_names_are_distinct(RolloutColumn::NumOutputTokens);
    law_rollout_names_are_distinct(RolloutColumn::OutputLogprobs);
    law_rollout_names_are_distinct(RolloutColumn::InputLogprobs);
    law_rollout_names_are_distinct(RolloutColumn::RefLogprobs);
    law_rollout_names_are_distinct(RolloutColumn::LossMask);
    law_rollout_names_are_distinct(RolloutColumn::Advantage);
    law_rollout_names_are_distinct(RolloutColumn::Reward);
    law_rollout_names_are_distinct(RolloutColumn::RawReward);
    law_rollout_names_are_distinct(RolloutColumn::GraderId);
    law_rollout_names_are_distinct(RolloutColumn::Score);
    law_rollout_names_are_distinct(RolloutColumn::IncludeInTraining);
    law_rollout_names_are_distinct(RolloutColumn::ExcludeReason);
    law_rollout_names_are_distinct(RolloutColumn::PolicyVersion);
    law_rollout_names_are_distinct(RolloutColumn::Relationships);
    law_rollout_names_are_distinct(RolloutColumn::BinaryPayload);
    law_rollout_names_are_distinct(RolloutColumn::PayloadSize);
    law_rollout_names_are_distinct(RolloutColumn::PayloadChecksum);
    law_rollout_names_are_distinct(RolloutColumn::ArtifactType);
    law_rollout_names_are_distinct(RolloutColumn::Metadata);
}

/// What a table cannot hold is refused: relationships and metadata where it has no
/// column for them, and more than 128 different roles.
pub proof fn law_a_rollout_without_a_column_is_refused(
    records: Seq<RolloutView>,
    schema: SchemaView,
    row: int,
)
    requires
        rollout_encoded(records, schema) is Ok,
        0 <= row < records.len(),
    ensures
        records[row].relationships.len() > 0 ==> schema.has("relationships"@),
        records[row].metadata is Some ==> schema.has("metadata"@),
        crate::batch::distinct_count(rollout_roles(records), records.len()) <= 128,
        rollout_roles(records)[row] == records[row].role,
{
    assert(records[row].relationships.len() >= 0);
    let step = rollout_row_check(records);
    crate::collect::lemma_success_holds_values(step, records.len());
    assert(step(records.len() - 1) is Ok);
}

} // verus!
