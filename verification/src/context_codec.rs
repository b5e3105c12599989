//! Context records turned into table rows.

use vstd::prelude::*;

use crate::batch::{
    bytes_cell, cell_views, check_fit, column_views, dictionary_check, fit_failure, floats_cell,
    int_cell, take_text, text_cell, Batch, BatchView, Cell, CellView, Column, ColumnView,
    DictionaryTexts, EncodeError, EncodeFailure,
};
use crate::collect::{collected, lemma_failure_stays};
use crate::context_columns::{
    column_name, column_named, column_type, find_column, law_column_names_are_distinct,
    lemma_named_column, written_type, ContextColumn,
};
use crate::error::{invalid_argument, Failure, StoreError};
use crate::number::{decimal, decimal_i64, decimal_usize};
use crate::read::{links_of, relationships_cell};
use crate::record::{record_views, ContextRecord, RecordView};
use crate::schema::{find_name, names_of, Schema, SchemaView};
use crate::text::join3;

verus! {

/// An optional group of columns that older tables may lack.
#[derive(Debug, Clone, Copy, PartialEq, Eq, Structural)]
pub enum Feature {
    ExternalId,
    Metadata,
    Tenant,
    Source,
    Relationships,
    ExternalReference,
    Lifecycle,
}

/// The column whose presence shows that a table has the feature.
pub open spec fn feature_column(feature: Feature) -> Seq<char> {
    match feature {
        Feature::ExternalId => "external_id"@,
        Feature::Metadata => "metadata"@,
        Feature::Tenant => "tenant"@,
        Feature::Source => "source"@,
        Feature::Relationships => "relationships"@,
        Feature::ExternalReference => "payload_uri"@,
        Feature::Lifecycle => "expires_at"@,
    }
}

/// What is reported where a record uses a feature the table lacks.
pub open spec fn feature_message(feature: Feature) -> Seq<char> {
    match feature {
        Feature::ExternalId
        => "external_id requires a context dataset created with external_id support"@,
        Feature::Metadata => "metadata requires a context dataset created with metadata support"@,
        Feature::Tenant
        => "tenant requires a context dataset created with partition-key column support"@,
        Feature::Source
        => "source requires a context dataset created with partition-key column support"@,
        Feature::Relationships
        => "relationships require a context dataset with relationships support; run migrate_relationships_column() on older datasets"@,
        Feature::ExternalReference
        => "external payload references require a context dataset created with external-reference support"@,
        Feature::Lifecycle
        => "lifecycle fields require a context dataset created with lifecycle support"@,
    }
}

/// Whether a record holds something that only the feature's columns can keep.
pub open spec fn uses_feature(record: RecordView, feature: Feature, active: Seq<char>) -> bool {
    match feature {
        Feature::ExternalId => record.external_id is Some,
        Feature::Metadata => record.metadata is Some,
        Feature::Tenant => record.tenant is Some,
        Feature::Source => record.source is Some,
        Feature::Relationships => record.relationships.len() > 0,
        Feature::ExternalReference => record.payload_uri is Some || record.payload_size is Some
            || record.payload_checksum is Some,
        Feature::Lifecycle => record.has_non_default_lifecycle(active),
    }
}

/// Whether some record uses a feature the table lacks.
pub open spec fn feature_missing(
    records: Seq<RecordView>,
    schema: SchemaView,
    active: Seq<char>,
    feature: Feature,
) -> bool {
    &&& !schema.has(feature_column(feature))
    &&& exists|i: int| 0 <= i < records.len() && uses_feature(#[trigger] records[i], feature, active)
}

/// The first feature that records use and the table lacks, in the order in
/// which they are checked.
pub open spec fn missing_feature(
    records: Seq<RecordView>,
    schema: SchemaView,
    active: Seq<char>,
) -> Option<Feature> {
    if feature_missing(records, schema, active, Feature::ExternalId) {
        Some(Feature::ExternalId)
    } else if feature_missing(records, schema, active, Feature::Metadata) {
        Some(Feature::Metadata)
    } else if feature_missing(records, schema, active, Feature::Tenant) {
        Some(Feature::Tenant)
    } else if feature_missing(records, schema, active, Feature::Source) {
        Some(Feature::Source)
    } else if feature_missing(records, schema, active, Feature::Relationships) {
        Some(Feature::Relationships)
    } else if feature_missing(records, schema, active, Feature::ExternalReference) {
        Some(Feature::ExternalReference)
    } else if feature_missing(records, schema, active, Feature::Lifecycle) {
        Some(Feature::Lifecycle)
    } else {
        None
    }
}

/// Whether the table keeps a known column: the lifecycle columns come with
/// `expires_at`, the external reference columns with `payload_uri`.
pub open spec fn column_kept(schema: SchemaView, column: ContextColumn) -> bool {
    match column {
        ContextColumn::ExpiresAt
        | ContextColumn::RetentionPolicy
        | ContextColumn::LifecycleStatus
        | ContextColumn::RetiredAt
        | ContextColumn::RetiredReason
        | ContextColumn::SupersedesId
        | ContextColumn::SupersededById => schema.has("expires_at"@),
        ContextColumn::PayloadUri
        | ContextColumn::PayloadSize
        | ContextColumn::PayloadChecksum => schema.has("payload_uri"@),
        _ => true,
    }
}

/// The value of a record in a column.
pub open spec fn record_cell(record: RecordView, column: ContextColumn, text_is_blob: bool) -> CellView {
    match column {
        ContextColumn::Id => CellView::Text(record.id),
        ContextColumn::ExternalId => text_cell(record.external_id),
        ContextColumn::RunId => CellView::Text(record.run_id),
        ContextColumn::BotId => text_cell(record.bot_id),
        ContextColumn::SessionId => text_cell(record.session_id),
        ContextColumn::Tenant => text_cell(record.tenant),
        ContextColumn::Source => text_cell(record.source),
        ContextColumn::CreatedAt => CellView::Int(record.created_at),
        ContextColumn::Role => CellView::Text(record.role),
        ContextColumn::StateMetadata => match record.state_metadata {
            Some(state) => CellView::State(state),
            None => CellView::Null,
        },
        ContextColumn::Metadata => text_cell(record.metadata),
        ContextColumn::Relationships => CellView::Links(links_of(record.relationships)),
        ContextColumn::ExpiresAt => int_cell(record.expires_at),
        ContextColumn::RetentionPolicy => text_cell(record.retention_policy),
        ContextColumn::LifecycleStatus => CellView::Text(record.lifecycle_status),
        ContextColumn::RetiredAt => int_cell(record.retired_at),
        ContextColumn::RetiredReason => text_cell(record.retired_reason),
        ContextColumn::SupersedesId => text_cell(record.supersedes_id),
        ContextColumn::SupersededById => text_cell(record.superseded_by_id),
        ContextColumn::ContentType => CellView::Text(record.content_type),
        ContextColumn::TextPayload => if text_is_blob {
            match record.text_payload {
                Some(text) => CellView::Bytes(vstd::utf8::encode_utf8(text)),
                None => CellView::Null,
            }
        } else {
            text_cell(record.text_payload)
        },
        ContextColumn::BinaryPayload => bytes_cell(record.binary_payload),
        ContextColumn::PayloadUri => text_cell(record.payload_uri),
        ContextColumn::PayloadSize => int_cell(record.payload_size),
        ContextColumn::PayloadChecksum => text_cell(record.payload_checksum),
        ContextColumn::Embedding => floats_cell(record.embedding),
    }
}

/// The column a table gets for a batch of records.
pub open spec fn record_column(
    records: Seq<RecordView>,
    column: ContextColumn,
    dim: i32,
    text_is_blob: bool,
) -> ColumnView {
    ColumnView {
        name: column_name(column),
        data_type: column_type(column, dim, text_is_blob),
        cells: Seq::new(records.len(), |i: int| record_cell(records[i], column, text_is_blob)),
    }
}

/// The roles of records.
pub open spec fn roles(records: Seq<RecordView>) -> Seq<Seq<char>> {
    Seq::new(records.len(), |i: int| records[i].role)
}

/// Why a record's embedding does not have the table's width.
pub open spec fn embedding_failure(record: RecordView, dim: i32) -> Option<Failure> {
    match record.embedding {
        Some(embedding) if embedding.len() != dim => Some(
            invalid_argument(
                "embedding length "@ + decimal(embedding.len() as int)
                    + " does not match expected dimension "@ + decimal(dim as int),
            ),
        ),
        _ => None,
    }
}

/// Whether a record can be written behind the ones before it: the dictionary of
/// roles takes its role, and its embedding has the table's width.
pub open spec fn row_check(records: Seq<RecordView>, dim: i32) -> spec_fn(int) -> Result<
    (),
    Failure,
> {
    |i: int|
        match dictionary_check(roles(records), i) {
            Some(failure) => Err(failure),
            None => match embedding_failure(records[i], dim) {
                Some(failure) => Err(failure),
                None => Ok(()),
            },
        }
}

/// What one column of the table gets: each known column is filled once.
pub open spec fn column_write(
    records: Seq<RecordView>,
    schema: SchemaView,
    dim: i32,
    text_is_blob: bool,
) -> spec_fn(int) -> Result<ColumnView, Failure> {
    |j: int|
        {
            let name = schema.fields[j].name;
            match column_named(name) {
                Some(column) if column_kept(schema, column) && find_name(
                    names_of(schema.fields),
                    name,
                ) == Some(j) => Ok(record_column(records, column, dim, text_is_blob)),
                _ => Err(invalid_argument("unsupported dataset column '"@ + name + "'"@)),
            }
        }
}

/// The batch that a table with this schema gets for the records, or why it
/// gets none.
pub open spec fn encoded(
    records: Seq<RecordView>,
    schema: SchemaView,
    dim: i32,
    text_is_blob: bool,
    active: Seq<char>,
) -> Result<BatchView, EncodeFailure> {
    match missing_feature(records, schema, active) {
        Some(feature) => Err(EncodeFailure::Refused(invalid_argument(feature_message(feature)))),
        None => match collected(row_check(records, dim), records.len()) {
            Err(failure) => Err(EncodeFailure::Refused(failure)),
            Ok(_) => match collected(
                column_write(records, schema, dim, text_is_blob),
                schema.fields.len(),
            ) {
                Err(failure) => Err(EncodeFailure::Refused(failure)),
                Ok(columns) => match fit_failure(columns, schema.fields) {
                    Some(failure) => Err(EncodeFailure::Unfit(failure)),
                    None => Ok(BatchView { columns, rows: records.len() }),
                },
            },
        },
    }
}

fn record_uses(record: &ContextRecord, feature: Feature, active: &str) -> (result: bool)
    ensures
        result == uses_feature(record@, feature, active@),
{
    match feature {
        Feature::ExternalId => record.external_id.is_some(),
        Feature::Metadata => record.metadata.is_some(),
        Feature::Tenant => record.tenant.is_some(),
        Feature::Source => record.source.is_some(),
        Feature::Relationships => record.relationships.len() > 0,
        Feature::ExternalReference => record.payload_uri.is_some() || record.payload_size.is_some()
            || record.payload_checksum.is_some(),
        Feature::Lifecycle => record.has_non_default_lifecycle(active),
    }
}

fn feature_column_name(feature: Feature) -> (name: &'static str)
    ensures
        name@ == feature_column(feature),
{
    match feature {
        Feature::ExternalId => "external_id",
        Feature::Metadata => "metadata",
        Feature::Tenant => "tenant",
        Feature::Source => "source",
        Feature::Relationships => "relationships",
        Feature::ExternalReference => "payload_uri",
        Feature::Lifecycle => "expires_at",
    }
}

fn feature_error(feature: Feature) -> (error: StoreError)
    ensures
        error@ == invalid_argument(feature_message(feature)),
{
    let message = match feature {
        Feature::ExternalId
        => "external_id requires a context dataset created with external_id support",
        Feature::Metadata => "metadata requires a context dataset created with metadata support",
        Feature::Tenant
        => "tenant requires a context dataset created with partition-key column support",
        Feature::Source
        => "source requires a context dataset created with partition-key column support",
        Feature::Relationships
        => "relationships require a context dataset with relationships support; run migrate_relationships_column() on older datasets",
        Feature::ExternalReference
        => "external payload references require a context dataset created with external-reference support",
        Feature::Lifecycle
        => "lifecycle fields require a context dataset created with lifecycle support",
    };
    StoreError::invalid_argument(message.to_owned())
}

fn lacks_feature(
    records: &Vec<ContextRecord>,
    schema: &Schema,
    active: &str,
    feature: Feature,
) -> (result: bool)
    ensures
        result == feature_missing(record_views(records@), schema@, active@, feature),
{
    if schema.has_column(feature_column_name(feature)) {
        return false;
    }
    let ghost views = record_views(records@);
    let mut index: usize = 0;
    while index < records.len()
        invariant
            index <= records.len(),
            views == record_views(records@),
            !schema@.has(feature_column(feature)),
            forall|i: int| 0 <= i < index ==> !uses_feature(#[trigger] views[i], feature, active@),
        decreases records.len() - index,
    {
        if record_uses(&records[index], feature, active) {
            assert(uses_feature(views[index as int], feature, active@));
            return true;
        }
        index = index + 1;
    }
    false
}

fn check_features(records: &Vec<ContextRecord>, schema: &Schema, active: &str) -> (result: Result<
    (),
    StoreError,
>)
    ensures
        match missing_feature(record_views(records@), schema@, active@) {
            Some(feature) => result is Err && result->Err_0@ == invalid_argument(
                feature_message(feature),
            ),
            None => result is Ok,
        },
{
    if lacks_feature(records, schema, active, Feature::ExternalId) {
        Err(feature_error(Feature::ExternalId))
    } else if lacks_feature(records, schema, active, Feature::Metadata) {
        Err(feature_error(Feature::Metadata))
    } else if lacks_feature(records, schema, active, Feature::Tenant) {
        Err(feature_error(Feature::Tenant))
    } else if lacks_feature(records, schema, active, Feature::Source) {
        Err(feature_error(Feature::Source))
    } else if lacks_feature(records, schema, active, Feature::Relationships) {
        Err(feature_error(Feature::Relationships))
    } else if lacks_feature(records, schema, active, Feature::ExternalReference) {
        Err(feature_error(Feature::ExternalReference))
    } else if lacks_feature(records, schema, active, Feature::Lifecycle) {
        Err(feature_error(Feature::Lifecycle))
    } else {
        Ok(())
    }
}

fn check_rows(records: &Vec<ContextRecord>, dim: i32) -> (result: Result<(), StoreError>)
    requires
        dim > 0,
    ensures
        match collected(row_check(record_views(records@), dim), records@.len()) {
            Err(failure) => result is Err && result->Err_0@ == failure,
            Ok(_) => result is Ok,
        },
{
    let ghost views = record_views(records@);
    let ghost step = row_check(views, dim);
    let ghost mut seen: Seq<()> = Seq::empty();
    let mut dictionary = DictionaryTexts::new();
    let mut index: usize = 0;
    while index < records.len()
        invariant
            index <= records.len(),
            dim > 0,
            views == record_views(records@),
            step == row_check(views, dim),
            dictionary.holds(roles(views), index as nat),
            collected(step, index as nat) == Ok::<Seq<()>, Failure>(seen),
        decreases records.len() - index,
    {
        assert(views[index as int] == records@[index as int]@);
        assert(roles(views)[index as int] == records@[index as int].role@);
        match take_text(
            &mut dictionary,
            records[index].role.as_str(),
            Ghost(roles(views)),
            Ghost(index as nat),
        ) {
            Err(error) => {
                proof {
                    assert(step(index as int) == Err::<(), Failure>(error@));
                    assert(collected(step, (index + 1) as nat) is Err);
                    lemma_failure_stays(step, (index + 1) as nat, views.len());
                }
                return Err(error);
            },
            Ok(_) => {},
        }
        match &records[index].embedding {
            Some(embedding) => {
                if embedding.len() != dim as usize {
                    let found = decimal_usize(embedding.len());
                    let expected = decimal_i64(dim as i64);
                    let mut message = join3(
                        "embedding length ",
                        found.as_str(),
                        " does not match expected dimension ",
                    );
                    message.append(expected.as_str());
                    let error = StoreError::invalid_argument(message);
                    proof {
                        assert(step(index as int) == Err::<(), Failure>(error@));
                        assert(collected(step, (index + 1) as nat) is Err);
                        lemma_failure_stays(step, (index + 1) as nat, views.len());
                    }
                    return Err(error);
                }
            },
            None => {},
        }
        proof {
            assert(step(index as int) == Ok::<(), Failure>(()));
            seen = seen.push(());
        }
        index = index + 1;
    }
    Ok(())
}

fn cell_of(record: &ContextRecord, column: ContextColumn, text_is_blob: bool) -> (cell: Cell)
    ensures
        cell@ == record_cell(record@, column, text_is_blob),
{
    match column {
        ContextColumn::Id => Cell::Text(record.id.clone()),
        ContextColumn::ExternalId => Cell::from_text(&record.external_id),
        ContextColumn::RunId => Cell::Text(record.run_id.clone()),
        ContextColumn::BotId => Cell::from_text(&record.bot_id),
        ContextColumn::SessionId => Cell::from_text(&record.session_id),
        ContextColumn::Tenant => Cell::from_text(&record.tenant),
        ContextColumn::Source => Cell::from_text(&record.source),
        ContextColumn::CreatedAt => Cell::Int(record.created_at),
        ContextColumn::Role => Cell::Text(record.role.clone()),
        ContextColumn::StateMetadata => match &record.state_metadata {
            Some(state) => Cell::State(state.copy()),
            None => Cell::Null,
        },
        ContextColumn::Metadata => Cell::from_text(&record.metadata),
        ContextColumn::Relationships => relationships_cell(&record.relationships),
        ContextColumn::ExpiresAt => Cell::from_int(record.expires_at),
        ContextColumn::RetentionPolicy => Cell::from_text(&record.retention_policy),
        ContextColumn::LifecycleStatus => Cell::Text(record.lifecycle_status.clone()),
        ContextColumn::RetiredAt => Cell::from_int(record.retired_at),
        ContextColumn::RetiredReason => Cell::from_text(&record.retired_reason),
        ContextColumn::SupersedesId => Cell::from_text(&record.supersedes_id),
        ContextColumn::SupersededById => Cell::from_text(&record.superseded_by_id),
        ContextColumn::ContentType => Cell::Text(record.content_type.clone()),
        ContextColumn::TextPayload => if text_is_blob {
            match &record.text_payload {
                Some(text) => Cell::Bytes(text.as_str().as_bytes_vec()),
                None => Cell::Null,
            }
        } else {
            Cell::from_text(&record.text_payload)
        },
        ContextColumn::BinaryPayload => Cell::from_bytes(&record.binary_payload),
        ContextColumn::PayloadUri => Cell::from_text(&record.payload_uri),
        ContextColumn::PayloadSize => Cell::from_int(record.payload_size),
        ContextColumn::PayloadChecksum => Cell::from_text(&record.payload_checksum),
        ContextColumn::Embedding => Cell::from_floats(&record.embedding),
    }
}

fn build_column(
    records: &Vec<ContextRecord>,
    column: ContextColumn,
    name: &str,
    dim: i32,
    text_is_blob: bool,
) -> (result: Column)
    requires
        name@ == column_name(column),
    ensures
        result@ == record_column(record_views(records@), column, dim, text_is_blob),
{
    let ghost views = record_views(records@);
    let ghost wanted = record_column(views, column, dim, text_is_blob).cells;
    let mut cells: Vec<Cell> = Vec::new();
    let mut index: usize = 0;
    while index < records.len()
        invariant
            index <= records.len(),
            cells.len() == index,
            views == record_views(records@),
            wanted == record_column(views, column, dim, text_is_blob).cells,
            forall|k: int| 0 <= k < index ==> (#[trigger] cells@[k])@ == wanted[k],
        decreases records.len() - index,
    {
        cells.push(cell_of(&records[index], column, text_is_blob));
        index = index + 1;
    }
    assert(cell_views(cells@) =~= wanted);
    Column { name: name.to_owned(), data_type: written_type(column, dim, text_is_blob), cells }
}

fn keeps_column(schema: &Schema, column: ContextColumn) -> (result: bool)
    ensures
        result == column_kept(schema@, column),
{
    match column {
        ContextColumn::ExpiresAt
        | ContextColumn::RetentionPolicy
        | ContextColumn::LifecycleStatus
        | ContextColumn::RetiredAt
        | ContextColumn::RetiredReason
        | ContextColumn::SupersedesId
        | ContextColumn::SupersededById => schema.has_column("expires_at"),
        ContextColumn::PayloadUri
        | ContextColumn::PayloadSize
        | ContextColumn::PayloadChecksum => schema.has_column("payload_uri"),
        _ => true,
    }
}

/// Turns records into the batch that a table with this schema takes.
///
/// Refused are records that use a feature the table lacks, more roles than a
/// dictionary takes, embeddings of another width than `dim`, and tables with a
/// column that records do not have. The columns come in table order, and must
/// have the table's types, and nulls only where the table takes them.
pub fn records_to_batch(
    records: &Vec<ContextRecord>,
    schema: &Schema,
    dim: i32,
    text_is_blob: bool,
    active_status: &str,
) -> (result: Result<Batch, EncodeError>)
    requires
        dim > 0,
    ensures
        match encoded(record_views(records@), schema@, dim, text_is_blob, active_status@) {
            Ok(model) => result is Ok && result->Ok_0@ == model && model.well_formed(),
            Err(failure) => result is Err && result->Err_0@ == failure,
        },
{
    let ghost views = record_views(records@);
    match check_features(records, schema, active_status) {
        Err(error) => {
            return Err(EncodeError::Refused(error));
        },
        Ok(_) => {},
    }
    match check_rows(records, dim) {
        Err(error) => {
            return Err(EncodeError::Refused(error));
        },
        Ok(_) => {},
    }
    let ghost step = column_write(views, schema@, dim, text_is_blob);
    let ghost rows = views.len();
    let mut columns: Vec<Column> = Vec::new();
    let mut j: usize = 0;
    assert(column_views(columns@) =~= Seq::<ColumnView>::empty());
    while j < schema.fields.len()
        invariant
            j <= schema.fields.len(),
            views == record_views(records@),
            rows == views.len(),
            step == column_write(views, schema@, dim, text_is_blob),
            missing_feature(views, schema@, active_status@) is None,
            collected(row_check(views, dim), views.len()) is Ok,
            collected(step, j as nat) == Ok::<Seq<ColumnView>, Failure>(column_views(columns@)),
            columns@.len() == j,
            forall|k: int|
                0 <= k < columns.len() ==> (#[trigger] column_views(columns@)[k]).cells.len() == rows,
        decreases schema.fields.len() - j,
    {
        let name = schema.fields[j].name.as_str();
        let ghost position = j as int;
        assert(schema@.fields[position].name == name@);
        let known = find_column(name);
        let first = schema.index_of(name);
        let column = match (known, first) {
            (Some(column), Some(at)) => if at == j && keeps_column(schema, column) {
                proof {
                    lemma_named_column(name@);
                }
                Some(build_column(records, column, name, dim, text_is_blob))
            } else {
                None
            },
            _ => None,
        };
        match column {
            Some(column) => {
                let ghost before = columns@;
                assert(step(position) == Ok::<ColumnView, Failure>(column@));
                columns.push(column);
                proof {
                    assert(column_views(columns@) =~= column_views(before).push(column@));
                    assert forall|k: int| 0 <= k < columns.len() implies (#[trigger] column_views(
                        columns@,
                    )[k]).cells.len() == rows by {
                        if k < before.len() {
                            assert(column_views(columns@)[k] == column_views(before)[k]);
                        }
                    }
                }
            },
            None => {
                let error = StoreError::invalid_argument(
                    join3("unsupported dataset column '", name, "'"),
                );
                proof {
                    assert(step(position) == Err::<ColumnView, Failure>(error@));
                    assert(collected(step, (j + 1) as nat) is Err);
                    lemma_failure_stays(step, (j + 1) as nat, schema@.fields.len());
                }
                return Err(EncodeError::Refused(error));
            },
        }
        j = j + 1;
    }
    match check_fit(&columns, schema) {
        Err(error) => {
            return Err(EncodeError::Unfit(error));
        },
        Ok(_) => {},
    }
    Ok(Batch { columns, rows: records.len() })
}

/// A record is written field by field: its batch has the table's columns in
/// order, and a row of the column of a name holds the record's field of that name.
/// A text payload is written as its bytes where the table keeps it as a blob.
pub proof fn law_a_record_is_written_field_by_field(
    records: Seq<RecordView>,
    schema: SchemaView,
    dim: i32,
    text_is_blob: bool,
    active: Seq<char>,
    at: int,
    row: int,
)
    requires
        encoded(records, schema, dim, text_is_blob, active) is Ok,
        0 <= at < schema.fields.len(),
        0 <= row < records.len(),
    ensures
        ({
            let batch = encoded(records, schema, dim, text_is_blob, active)->Ok_0;
            let name = batch.columns[at].name;
            let cell = batch.columns[at].cells[row];
            let record = records[row];
            &&& batch.rows == records.len()
            &&& batch.columns.len() == schema.fields.len()
            &&& batch.columns[at].cells.len() == records.len()
            &&& name == schema.fields[at].name
            &&& name == "id"@ ==> cell == CellView::Text(record.id)
            &&& name == "external_id"@ ==> cell == text_cell(record.external_id)
            &&& name == "run_id"@ ==> cell == CellView::Text(record.run_id)
            &&& name == "bot_id"@ ==> cell == text_cell(record.bot_id)
            &&& name == "session_id"@ ==> cell == text_cell(record.session_id)
            &&& name == "tenant"@ ==> cell == text_cell(record.tenant)
            &&& name == "source"@ ==> cell == text_cell(record.source)
            &&& name == "created_at"@ ==> cell == CellView::Int(record.created_at)
            &&& name == "role"@ ==> cell == CellView::Text(record.role)
            &&& name == "state_metadata"@ ==> cell == (match record.state_metadata {
                Some(state) => CellView::State(state),
                None => CellView::Null,
            })
            &&& name == "metadata"@ ==> cell == text_cell(record.metadata)
            &&& name == "relationships"@ ==> cell == CellView::Links(links_of(record.relationships))
            &&& name == "expires_at"@ ==> cell == int_cell(record.expires_at)
            &&& name == "retention_policy"@ ==> cell == text_cell(record.retention_policy)
            &&& name == "lifecycle_status"@ ==> cell == CellView::Text(record.lifecycle_status)
            &&& name == "retired_at"@ ==> cell == int_cell(record.retired_at)
            &&& name == "retired_reason"@ ==> cell == text_cell(record.retired_reason)
            &&& name == "supersedes_id"@ ==> cell == text_cell(record.supersedes_id)
            &&& name == "superseded_by_id"@ ==> cell == text_cell(record.superseded_by_id)
            &&& name == "content_type"@ ==> cell == CellView::Text(record.content_type)
            &&& name == "text_payload"@ ==> cell == (match record.text_payload {
                Some(text) if text_is_blob => CellView::Bytes(vstd::utf8::encode_utf8(text)),
                Some(text) => CellView::Text(text),
                None => CellView::Null,
            })
            &&& name == "binary_payload"@ ==> cell == bytes_cell(record.binary_payload)
            &&& name == "payload_uri"@ ==> cell == text_cell(record.payload_uri)
            &&& name == "payload_size"@ ==> cell == int_cell(record.payload_size)
            &&& name == "payload_checksum"@ ==> cell == text_cell(record.payload_checksum)
            &&& name == "embedding"@ ==> cell == floats_cell(record.embedding)
        }),
{
    let step = column_write(records, schema, dim, text_is_blob);
    crate::collect::lemma_success_holds_values(step, schema.fields.len());
    assert(step(at) is Ok);
    lemma_named_column(schema.fields[at].name);
    law_column_names_are_distinct(ContextColumn::Id);
    law_column_names_are_distinct(ContextColumn::ExternalId);
    law_column_names_are_distinct(ContextColumn::RunId);
    law_column_names_are_distinct(ContextColumn::BotId);
    law_column_names_are_distinct(ContextColumn::SessionId);
    law_column_names_are_distinct(ContextColumn::Tenant);
    law_column_names_are_distinct(ContextColumn::Source);
    law_column_names_are_distinct(ContextColumn::CreatedAt);
    law_column_names_are_distinct(ContextColumn::Role);
    law_column_names_are_distinct(ContextColumn::StateMetadata);
    law_column_names_are_distinct(ContextColumn::Metadata);
    law_column_names_are_distinct(ContextColumn::Relationships);
    law_column_names_are_distinct(ContextColumn::ExpiresAt);
    law_column_names_are_distinct(ContextColumn::RetentionPolicy);
    law_column_names_are_distinct(ContextColumn::LifecycleStatus);
    law_column_names_are_distinct(ContextColumn::RetiredAt);
    law_column_names_are_distinct(ContextColumn::RetiredReason);
    law_column_names_are_distinct(ContextColumn::SupersedesId);
    law_column_names_are_distinct(ContextColumn::SupersededById);
    law_column_names_are_distinct(ContextColumn::ContentType);
    law_column_names_are_distinct(ContextColumn::TextPayload);
    law_column_names_are_distinct(ContextColumn::BinaryPayload);
    law_column_names_are_distinct(ContextColumn::PayloadUri);
    law_column_names_are_distinct(ContextColumn::PayloadSize);
    law_column_names_are_distinct(ContextColumn::PayloadChecksum);
    law_column_names_are_distinct(ContextColumn::Embedding);
}

/// What a table cannot hold is refused: a value of a field that it has no column
/// for, an embedding of another width, and more than 128 different roles.
pub proof fn law_a_value_without_a_column_is_refused(
    records: Seq<RecordView>,
    schema: SchemaView,
    dim: i32,
    text_is_blob: bool,
    active: Seq<char>,
    row: int,
)
    requires
        encoded(records, schema, dim, text_is_blob, active) is Ok,
        0 <= row < records.len(),
    ensures
        records[row].external_id is Some ==> schema.has("external_id"@),
        records[row].metadata is Some ==> schema.has("metadata"@),
        records[row].tenant is Some ==> schema.has("tenant"@),
        records[row].source is Some ==> schema.has("source"@),
        records[row].relationships.len() > 0 ==> schema.has("relationships"@),
        records[row].payload_uri is Some || records[row].payload_size is Some
            || records[row].payload_checksum is Some ==> schema.has("payload_uri"@),
        records[row].expires_at is Some || records[row].retention_policy is Some
            || records[row].lifecycle_status != active || records[row].retired_at is Some
            || records[row].retired_reason is Some || records[row].supersedes_id is Some
            || records[row].superseded_by_id is Some ==> schema.has("expires_at"@),
        records[row].embedding matches Some(embedding) ==> embedding.len() == dim,
        crate::batch::distinct_count(roles(records), records.len()) <= 128,
        roles(records)[row] == records[row].role,
{
    assert(uses_feature(records[row], Feature::ExternalId, active) ==> schema.has("external_id"@));
    assert(uses_feature(records[row], Feature::Metadata, active) ==> schema.has("metadata"@));
    assert(uses_feature(records[row], Feature::Tenant, active) ==> schema.has("tenant"@));
    assert(uses_feature(records[row], Feature::Source, active) ==> schema.has("source"@));
    assert(uses_feature(records[row], Feature::Relationships, active) ==> schema.has(
        "relationships"@,
    ));
    assert(uses_feature(records[row], Feature::ExternalReference, active) ==> schema.has(
        "payload_uri"@,
    ));
    assert(uses_feature(records[row], Feature::Lifecycle, active) ==> schema.has("expires_at"@));
    let step = row_check(records, dim);
    crate::collect::lemma_success_holds_values(step, records.len());
    assert(step(row) is Ok);
    assert(step(records.len() - 1) is Ok);
}

} // verus!
