//! What a new context table's schema says of itself, and what it gives back.

use vstd::prelude::*;

use crate::batch::{
    distinct_count, has_null, lemma_columns_fit, lemma_distinct_grows, ColumnView, DICTIONARY_SIZE,
};
use crate::collect::lemma_all_succeed;
use crate::context_codec::{
    column_write, encoded, missing_feature, record_column, roles, row_check,
};
use crate::context_columns::{
    column_name, column_type, law_column_names_are_distinct, ContextColumn,
};
use crate::context_decode::decoded;
use crate::context_laws::{full_schema, law_records_read_back, readable};
use crate::context_schema::{
    all_groups, blob_v2_failure, column_flagged, context_schema, flagged_columns,
    identity_fields, lifecycle_fields, payload_fields, schema_dim, schema_metric,
    valid_blob_columns, ColumnGroups,
};
use crate::error::Failure;
use crate::metric::{law_metric_name_parses_back, DistanceMetric};
use crate::record::RecordView;
use crate::schema::{
    find_name, first_at, lemma_find_name_is, lemma_find_name_none, names_of, value_of, FieldView,
};

verus! {

/// Whether a table with these column groups has a column.
pub open spec fn in_groups(column: ContextColumn, groups: ColumnGroups) -> bool {
    match column {
        ContextColumn::ExternalId => groups.external_id,
        ContextColumn::Metadata => groups.metadata,
        ContextColumn::Relationships => groups.relationships,
        ContextColumn::ExpiresAt
        | ContextColumn::RetentionPolicy
        | ContextColumn::LifecycleStatus
        | ContextColumn::RetiredAt
        | ContextColumn::RetiredReason
        | ContextColumn::SupersedesId
        | ContextColumn::SupersededById => groups.lifecycle,
        ContextColumn::PayloadUri
        | ContextColumn::PayloadSize
        | ContextColumn::PayloadChecksum => groups.external_reference,
        _ => true,
    }
}

/// How many columns an optional group adds.
pub open spec fn added(present: bool, columns: int) -> int {
    if present {
        columns
    } else {
        0
    }
}

/// Where the content type stands.
pub open spec fn content_place(groups: ColumnGroups) -> int {
    9 + added(groups.external_id, 1) + added(groups.metadata, 1) + added(groups.relationships, 1)
        + added(groups.lifecycle, 7)
}

/// Where a column stands in a new context table that has it.
pub open spec fn place(column: ContextColumn, groups: ColumnGroups) -> int {
    let state = 8 + added(groups.external_id, 1);
    let lifecycle = state + 1 + added(groups.metadata, 1) + added(groups.relationships, 1);
    let content = content_place(groups);
    match column {
        ContextColumn::Id => 0,
        ContextColumn::ExternalId => 1,
        ContextColumn::RunId => state - 7,
        ContextColumn::BotId => state - 6,
        ContextColumn::SessionId => state - 5,
        ContextColumn::Tenant => state - 4,
        ContextColumn::Source => state - 3,
        ContextColumn::CreatedAt => state - 2,
        ContextColumn::Role => state - 1,
        ContextColumn::StateMetadata => state,
        ContextColumn::Metadata => state + 1,
        ContextColumn::Relationships => state + 1 + added(groups.metadata, 1),
        ContextColumn::ExpiresAt => lifecycle,
        ContextColumn::RetentionPolicy => lifecycle + 1,
        ContextColumn::LifecycleStatus => lifecycle + 2,
        ContextColumn::RetiredAt => lifecycle + 3,
        ContextColumn::RetiredReason => lifecycle + 4,
        ContextColumn::SupersedesId => lifecycle + 5,
        ContextColumn::SupersededById => lifecycle + 6,
        ContextColumn::ContentType => content,
        ContextColumn::TextPayload => content + 1,
        ContextColumn::BinaryPayload => content + 2,
        ContextColumn::PayloadUri => content + 3,
        ContextColumn::PayloadSize => content + 4,
        ContextColumn::PayloadChecksum => content + 5,
        ContextColumn::Embedding => content + 3 + added(groups.external_reference, 3),
    }
}

/// How many columns a new context table has.
pub open spec fn width(groups: ColumnGroups) -> int {
    content_place(groups) + 4 + added(groups.external_reference, 3)
}

/// The column at a place among the first ones.
pub open spec fn identity_at(index: int, groups: ColumnGroups) -> ContextColumn {
    let at = index - added(groups.external_id, 1);
    if index == 0 {
        ContextColumn::Id
    } else if at == 0 {
        ContextColumn::ExternalId
    } else if at == 1 {
        ContextColumn::RunId
    } else if at == 2 {
        ContextColumn::BotId
    } else if at == 3 {
        ContextColumn::SessionId
    } else if at == 4 {
        ContextColumn::Tenant
    } else if at == 5 {
        ContextColumn::Source
    } else if at == 6 {
        ContextColumn::CreatedAt
    } else if at == 7 {
        ContextColumn::Role
    } else {
        ContextColumn::StateMetadata
    }
}

/// The column at a place behind the first ones and before the content type.
pub open spec fn lifecycle_at(index: int, groups: ColumnGroups) -> ContextColumn {
    let at = index - content_place(groups);
    if at == -7 && groups.lifecycle {
        ContextColumn::ExpiresAt
    } else if at == -6 && groups.lifecycle {
        ContextColumn::RetentionPolicy
    } else if at == -5 && groups.lifecycle {
        ContextColumn::LifecycleStatus
    } else if at == -4 && groups.lifecycle {
        ContextColumn::RetiredAt
    } else if at == -3 && groups.lifecycle {
        ContextColumn::RetiredReason
    } else if at == -2 && groups.lifecycle {
        ContextColumn::SupersedesId
    } else if at == -1 && groups.lifecycle {
        ContextColumn::SupersededById
    } else if index == 9 + added(groups.external_id, 1) && groups.metadata {
        ContextColumn::Metadata
    } else {
        ContextColumn::Relationships
    }
}

/// The column at a place from the content type on.
pub open spec fn payload_at(index: int, groups: ColumnGroups) -> ContextColumn {
    let at = index - content_place(groups);
    if at == 0 {
        ContextColumn::ContentType
    } else if at == 1 {
        ContextColumn::TextPayload
    } else if at == 2 {
        ContextColumn::BinaryPayload
    } else if at == 3 && groups.external_reference {
        ContextColumn::PayloadUri
    } else if at == 4 && groups.external_reference {
        ContextColumn::PayloadSize
    } else if at == 5 && groups.external_reference {
        ContextColumn::PayloadChecksum
    } else {
        ContextColumn::Embedding
    }
}

/// The column at a place of a new context table.
pub open spec fn column_at(index: int, groups: ColumnGroups) -> ContextColumn {
    if index < 9 + added(groups.external_id, 1) {
        identity_at(index, groups)
    } else if index < content_place(groups) {
        lifecycle_at(index, groups)
    } else {
        payload_at(index, groups)
    }
}

proof fn lemma_places(index: int, groups: ColumnGroups)
    requires
        0 <= index < width(groups),
    ensures
        place(column_at(index, groups), groups) == index,
        in_groups(column_at(index, groups), groups),
{
}

proof fn lemma_order(column: ContextColumn, groups: ColumnGroups)
    requires
        in_groups(column, groups),
    ensures
        0 <= place(column, groups) < width(groups),
        column_at(place(column, groups), groups) == column,
{
}

/// Whether a new table takes nulls in a column.
pub open spec fn takes_nulls(column: ContextColumn) -> bool {
    match column {
        ContextColumn::Id
        | ContextColumn::RunId
        | ContextColumn::CreatedAt
        | ContextColumn::Role
        | ContextColumn::LifecycleStatus
        | ContextColumn::ContentType => false,
        _ => true,
    }
}

/// A field is the one that a new table has for a column.
pub open spec fn is_field_of(
    field: FieldView,
    column: ContextColumn,
    blob_columns: Seq<Seq<char>>,
    dim: i32,
) -> bool {
    &&& field.name == column_name(column)
    &&& field.data_type == column_type(column, dim, blob_columns.contains("text_payload"@))
    &&& field.nullable == takes_nulls(column)
}

proof fn lemma_identity_fields(groups: ColumnGroups, blob_columns: Seq<Seq<char>>, dim: i32)
    ensures
        identity_fields(groups).len() == 9 + added(groups.external_id, 1),
        forall|i: int|
            0 <= i < identity_fields(groups).len() ==> is_field_of(
                #[trigger] identity_fields(groups)[i],
                identity_at(i, groups),
                blob_columns,
                dim,
            ),
{
    if groups.external_id {
    } else {
    }
}

proof fn lemma_lifecycle_fields(groups: ColumnGroups, blob_columns: Seq<Seq<char>>, dim: i32)
    ensures
        lifecycle_fields(groups).len() == added(groups.metadata, 1) + added(
            groups.relationships,
            1,
        ) + added(groups.lifecycle, 7),
        forall|i: int|
            0 <= i < lifecycle_fields(groups).len() ==> is_field_of(
                #[trigger] lifecycle_fields(groups)[i],
                lifecycle_at(9 + added(groups.external_id, 1) + i, groups),
                blob_columns,
                dim,
            ),
{
    if groups.metadata {
        if groups.relationships {
            if groups.lifecycle {
            }
        } else if groups.lifecycle {
        }
    } else if groups.relationships {
        if groups.lifecycle {
        }
    } else if groups.lifecycle {
    }
}

proof fn lemma_payload_fields(groups: ColumnGroups, blob_columns: Seq<Seq<char>>, dim: i32)
    ensures
        payload_fields(groups, blob_columns, dim).len() == 4 + added(groups.external_reference, 3),
        forall|i: int|
            0 <= i < payload_fields(groups, blob_columns, dim).len() ==> is_field_of(
                #[trigger] payload_fields(groups, blob_columns, dim)[i],
                payload_at(content_place(groups) + i, groups),
                blob_columns,
                dim,
            ),
        payload_fields(groups, blob_columns, dim)[1].metadata == if blob_columns.contains(
            "text_payload"@,
        ) {
            seq![("lance-context:blob"@, "true"@)]
        } else {
            Seq::empty()
        },
        payload_fields(groups, blob_columns, dim)[2].metadata == if blob_columns.contains(
            "binary_payload"@,
        ) {
            seq![("lance-context:blob"@, "true"@)]
        } else {
            Seq::empty()
        },
{
    if groups.external_reference {
    } else {
    }
}

proof fn lemma_fields(
    blob_columns: Seq<Seq<char>>,
    groups: ColumnGroups,
    dim: i32,
    metric: DistanceMetric,
)
    ensures
        ({
            let fields = context_schema(blob_columns, groups, dim, metric).fields;
            &&& fields.len() == width(groups)
            &&& forall|i: int|
                0 <= i < width(groups) ==> is_field_of(
                    #[trigger] fields[i],
                    column_at(i, groups),
                    blob_columns,
                    dim,
                )
        }),
{
    lemma_identity_fields(groups, blob_columns, dim);
    lemma_lifecycle_fields(groups, blob_columns, dim);
    lemma_payload_fields(groups, blob_columns, dim);
    let fields = context_schema(blob_columns, groups, dim, metric).fields;
    let first = identity_fields(groups);
    let second = lifecycle_fields(groups);
    let third = payload_fields(groups, blob_columns, dim);
    assert forall|i: int| 0 <= i < width(groups) implies is_field_of(
        #[trigger] fields[i],
        column_at(i, groups),
        blob_columns,
        dim,
    ) by {
        if i < first.len() {
            assert(fields[i] == first[i]);
        } else if i < content_place(groups) {
            assert(fields[i] == second[i - first.len()]);
        } else {
            assert(fields[i] == third[i - content_place(groups)]);
        }
    }
}

/// A new context table has exactly the columns of its groups, each at its
/// place.
pub proof fn lemma_column_place(
    blob_columns: Seq<Seq<char>>,
    groups: ColumnGroups,
    dim: i32,
    metric: DistanceMetric,
    column: ContextColumn,
)
    ensures
        find_name(
            names_of(context_schema(blob_columns, groups, dim, metric).fields),
            column_name(column),
        ) == if in_groups(column, groups) {
            Some(place(column, groups))
        } else {
            None
        },
{
    let names = names_of(context_schema(blob_columns, groups, dim, metric).fields);
    lemma_fields(blob_columns, groups, dim, metric);
    law_column_names_are_distinct(column);
    assert forall|j: int|
        0 <= j < names.len() && (in_groups(column, groups) ==> j != place(column, groups)) implies
        #[trigger] names[j] != column_name(column) by {
        lemma_places(j, groups);
        law_column_names_are_distinct(column_at(j, groups));
        assert(context_schema(blob_columns, groups, dim, metric).fields[j].name == names[j]);
    }
    if in_groups(column, groups) {
        lemma_order(column, groups);
        let at = place(column, groups);
        assert(context_schema(blob_columns, groups, dim, metric).fields[at].name == names[at]);
        assert(first_at(names, column_name(column), at));
        lemma_find_name_is(names, column_name(column), at);
    } else {
        lemma_find_name_none(names, column_name(column));
    }
}

/// A new context table has the columns of its groups and no others; with all
/// groups it has every column of a record.
pub proof fn law_new_table_is_full(
    blob_columns: Seq<Seq<char>>,
    groups: ColumnGroups,
    dim: i32,
    metric: DistanceMetric,
)
    ensures
        forall|column: ContextColumn|
            context_schema(blob_columns, groups, dim, metric).has(#[trigger] column_name(column))
                == in_groups(column, groups),
        groups == all_groups() ==> full_schema(context_schema(blob_columns, groups, dim, metric)),
{
    let schema = context_schema(blob_columns, groups, dim, metric);
    assert forall|column: ContextColumn| schema.has(#[trigger] column_name(column)) == in_groups(
        column,
        groups,
    ) by {
        lemma_column_place(blob_columns, groups, dim, metric, column);
    }
}

/// The metric of a new table is the one it was made with.
pub proof fn law_metric_is_kept(
    blob_columns: Seq<Seq<char>>,
    groups: ColumnGroups,
    dim: i32,
    metric: DistanceMetric,
)
    ensures
        schema_metric(context_schema(blob_columns, groups, dim, metric)) == Ok::<
            DistanceMetric,
            Failure,
        >(metric),
{
    law_metric_name_parses_back(metric);
    reveal_with_fuel(value_of, 2);
}

/// The embedding width of a new table is the one it was made with.
pub proof fn law_dimension_is_kept(
    blob_columns: Seq<Seq<char>>,
    groups: ColumnGroups,
    dim: i32,
    metric: DistanceMetric,
)
    requires
        dim > 0,
    ensures
        schema_dim(context_schema(blob_columns, groups, dim, metric)) == Ok::<i32, Failure>(dim),
{
    lemma_column_place(blob_columns, groups, dim, metric, ContextColumn::Embedding);
    lemma_fields(blob_columns, groups, dim, metric);
    lemma_order(ContextColumn::Embedding, groups);
    let schema = context_schema(blob_columns, groups, dim, metric);
    let at = place(ContextColumn::Embedding, groups);
    assert(is_field_of(schema.fields[at], column_at(at, groups), blob_columns, dim));
}

proof fn lemma_flag(
    blob_columns: Seq<Seq<char>>,
    groups: ColumnGroups,
    dim: i32,
    metric: DistanceMetric,
    column: ContextColumn,
)
    requires
        column == ContextColumn::TextPayload || column == ContextColumn::BinaryPayload,
    ensures
        ({
            let schema = context_schema(blob_columns, groups, dim, metric);
            &&& column_flagged(schema, column_name(column), "lance-context:blob"@)
                == blob_columns.contains(column_name(column))
            &&& !column_flagged(schema, column_name(column), "lance-encoding:blob"@)
        }),
{
    let schema = context_schema(blob_columns, groups, dim, metric);
    lemma_column_place(blob_columns, groups, dim, metric, column);
    lemma_fields(blob_columns, groups, dim, metric);
    lemma_identity_fields(groups, blob_columns, dim);
    lemma_lifecycle_fields(groups, blob_columns, dim);
    lemma_payload_fields(groups, blob_columns, dim);
    lemma_order(column, groups);
    reveal_strlit("lance-context:blob");
    reveal_strlit("lance-encoding:blob");
    assert("lance-context:blob"@.len() != "lance-encoding:blob"@.len());
    reveal_with_fuel(value_of, 2);
    let at = place(column, groups);
    let field = schema.fields[at];
    assert(field == payload_fields(groups, blob_columns, dim)[at - content_place(groups)]);
    assert(is_field_of(schema.fields[at], column_at(at, groups), blob_columns, dim));
    if blob_columns.contains(column_name(column)) {
        assert(field.metadata =~= seq![("lance-context:blob"@, "true"@)]);
        assert(field.metadata.drop_first() =~= Seq::empty());
    }
}

/// The blob columns of a new table are the ones it was made with, among the
/// columns that can be one.
pub proof fn law_blob_columns_are_kept(
    blob_columns: Seq<Seq<char>>,
    groups: ColumnGroups,
    dim: i32,
    metric: DistanceMetric,
)
    ensures
        flagged_columns(
            context_schema(blob_columns, groups, dim, metric),
            "lance-context:blob"@,
        ) == valid_blob_columns().filter(|name: Seq<char>| blob_columns.contains(name)),
{
    let schema = context_schema(blob_columns, groups, dim, metric);
    let flagged = |name: Seq<char>| column_flagged(schema, name, "lance-context:blob"@);
    let wanted = |name: Seq<char>| blob_columns.contains(name);
    lemma_flag(blob_columns, groups, dim, metric, ContextColumn::TextPayload);
    lemma_flag(blob_columns, groups, dim, metric, ContextColumn::BinaryPayload);
    let empty = Seq::<Seq<char>>::empty();
    assert(valid_blob_columns() =~= empty.push("text_payload"@).push("binary_payload"@));
    assert(empty.filter(flagged) =~= empty.filter(wanted)) by {
        reveal(Seq::filter);
    }
    empty.lemma_filter_push("text_payload"@, flagged);
    empty.push("text_payload"@).lemma_filter_push("binary_payload"@, flagged);
    empty.lemma_filter_push("text_payload"@, wanted);
    empty.push("text_payload"@).lemma_filter_push("binary_payload"@, wanted);
}

/// A new table is never refused for how it stores its payloads.
pub proof fn law_new_table_is_accepted(
    blob_columns: Seq<Seq<char>>,
    groups: ColumnGroups,
    dim: i32,
    metric: DistanceMetric,
)
    ensures
        blob_v2_failure(context_schema(blob_columns, groups, dim, metric)) is None,
{
    let schema = context_schema(blob_columns, groups, dim, metric);
    let flagged = |name: Seq<char>| column_flagged(schema, name, "lance-encoding:blob"@);
    lemma_flag(blob_columns, groups, dim, metric, ContextColumn::TextPayload);
    lemma_flag(blob_columns, groups, dim, metric, ContextColumn::BinaryPayload);
    let empty = Seq::<Seq<char>>::empty();
    assert(valid_blob_columns() =~= empty.push("text_payload"@).push("binary_payload"@));
    assert(empty.filter(flagged) =~= empty) by {
        reveal(Seq::filter);
    }
    empty.lemma_filter_push("text_payload"@, flagged);
    empty.push("text_payload"@).lemma_filter_push("binary_payload"@, flagged);
}

/// A new table takes records if their embeddings have the table's width, they
/// use no column group that the table lacks, and a dictionary takes their roles.
pub proof fn law_new_table_takes_records(
    records: Seq<RecordView>,
    blob_columns: Seq<Seq<char>>,
    groups: ColumnGroups,
    dim: i32,
    metric: DistanceMetric,
    active: Seq<char>,
)
    requires
        missing_feature(records, context_schema(blob_columns, groups, dim, metric), active) is None,
        distinct_count(roles(records), records.len()) <= DICTIONARY_SIZE,
        forall|i: int|
            0 <= i < records.len() ==> ((#[trigger] records[i]).embedding is Some
                ==> records[i].embedding->Some_0.len() == dim),
    ensures
        encoded(
            records,
            context_schema(blob_columns, groups, dim, metric),
            dim,
            blob_columns.contains("text_payload"@),
            active,
        ) is Ok,
{
    let schema = context_schema(blob_columns, groups, dim, metric);
    let text_is_blob = blob_columns.contains("text_payload"@);
    law_new_table_is_full(blob_columns, groups, dim, metric);
    let check = row_check(records, dim);
    let passed = Seq::new(records.len(), |i: int| ());
    assert forall|i: int| 0 <= i < records.len() implies #[trigger] check(i) == Ok::<(), Failure>(
        passed[i],
    ) by {
        assert(records[i] == records[i]);
        lemma_distinct_grows(roles(records), (i + 1) as nat, records.len());
    }
    lemma_all_succeed(check, records.len(), passed);
    let step = column_write(records, schema, dim, text_is_blob);
    let count = width(groups) as nat;
    let columns = Seq::new(
        count,
        |j: int| record_column(records, column_at(j, groups), dim, text_is_blob),
    );
    lemma_fields(blob_columns, groups, dim, metric);
    assert forall|j: int| 0 <= j < count implies #[trigger] step(j) == Ok::<ColumnView, Failure>(
        columns[j],
    ) by {
        let column = column_at(j, groups);
        lemma_places(j, groups);
        lemma_column_place(blob_columns, groups, dim, metric, column);
        law_column_names_are_distinct(column);
        assert(is_field_of(schema.fields[j], column, blob_columns, dim));
        assert(schema.has(column_name(ContextColumn::ExpiresAt)) == groups.lifecycle);
        assert(schema.has(column_name(ContextColumn::PayloadUri)) == groups.external_reference);
    }
    lemma_all_succeed(step, count, columns);
    assert forall|j: int| 0 <= j < count implies (#[trigger] columns[j]).data_type
        == schema.fields[j].data_type by {
        assert(is_field_of(schema.fields[j], column_at(j, groups), blob_columns, dim));
    }
    assert forall|j: int| 0 <= j < count implies (#[trigger] schema.fields[j]).nullable
        || !has_null(columns[j]) by {
        assert(is_field_of(schema.fields[j], column_at(j, groups), blob_columns, dim));
    }
    lemma_columns_fit(columns, schema.fields);
}

/// What is written to a new table with every column group reads back, whatever
/// its blob columns, width and metric: the records are taken if their
/// embeddings have the table's width and a dictionary takes their roles, and
/// come back as they were.
pub proof fn law_new_table_reads_back(
    records: Seq<RecordView>,
    blob_columns: Seq<Seq<char>>,
    dim: i32,
    metric: DistanceMetric,
    active: Seq<char>,
)
    requires
        distinct_count(roles(records), records.len()) <= DICTIONARY_SIZE,
        forall|i: int|
            0 <= i < records.len() ==> ((#[trigger] records[i]).embedding is Some
                ==> records[i].embedding->Some_0.len() == dim),
    ensures
        ({
            let schema = context_schema(blob_columns, all_groups(), dim, metric);
            let text_is_blob = blob_columns.contains("text_payload"@);
            let batch = encoded(records, schema, dim, text_is_blob, active);
            &&& batch is Ok
            &&& (forall|i: int| 0 <= i < records.len() ==> readable(#[trigger] records[i]))
                ==> decoded(batch->Ok_0, active) == Ok::<Seq<RecordView>, Failure>(records)
        }),
{
    let schema = context_schema(blob_columns, all_groups(), dim, metric);
    let text_is_blob = blob_columns.contains("text_payload"@);
    law_new_table_is_full(blob_columns, all_groups(), dim, metric);
    assert(schema.has(column_name(ContextColumn::ExternalId)));
    assert(schema.has(column_name(ContextColumn::Metadata)));
    assert(schema.has(column_name(ContextColumn::Tenant)));
    assert(schema.has(column_name(ContextColumn::Source)));
    assert(schema.has(column_name(ContextColumn::Relationships)));
    assert(schema.has(column_name(ContextColumn::PayloadUri)));
    assert(schema.has(column_name(ContextColumn::ExpiresAt)));
    assert(missing_feature(records, schema, active) is None);
    law_new_table_takes_records(records, blob_columns, all_groups(), dim, metric, active);
    law_records_read_back(records, schema, dim, text_is_blob, active);
}

/// The columns of a new table that are never null, and only these.
pub proof fn law_columns_of_a_new_table_that_are_never_null(
    blob_columns: Seq<Seq<char>>,
    groups: ColumnGroups,
    dim: i32,
    metric: DistanceMetric,
    at: int,
)
    requires
        0 <= at < context_schema(blob_columns, groups, dim, metric).fields.len(),
    ensures
        ({
            let field = context_schema(blob_columns, groups, dim, metric).fields[at];
            !field.nullable <==> {
                ||| field.name == "id"@
                ||| field.name == "run_id"@
                ||| field.name == "created_at"@
                ||| field.name == "role"@
                ||| field.name == "lifecycle_status"@
                ||| field.name == "content_type"@
            }
        }),
{
    lemma_fields(blob_columns, groups, dim, metric);
    let column = column_at(at, groups);
    law_column_names_are_distinct(column);
    law_column_names_are_distinct(ContextColumn::Id);
    law_column_names_are_distinct(ContextColumn::RunId);
    law_column_names_are_distinct(ContextColumn::CreatedAt);
    law_column_names_are_distinct(ContextColumn::Role);
    law_column_names_are_distinct(ContextColumn::LifecycleStatus);
    law_column_names_are_distinct(ContextColumn::ContentType);
}

/// A new table with every group has these columns, in this order.
pub proof fn law_a_new_table_has_its_columns_in_order(
    blob_columns: Seq<Seq<char>>,
    dim: i32,
    metric: DistanceMetric,
)
    ensures
        ({
            let fields = context_schema(blob_columns, all_groups(), dim, metric).fields;
            &&& fields.len() == 26
            &&& fields[0].name == "id"@
            &&& fields[1].name == "external_id"@
            &&& fields[2].name == "run_id"@
            &&& fields[3].name == "bot_id"@
            &&& fields[4].name == "session_id"@
            &&& fields[5].name == "tenant"@
            &&& fields[6].name == "source"@
            &&& fields[7].name == "created_at"@
            &&& fields[8].name == "role"@
            &&& fields[9].name == "state_metadata"@
            &&& fields[10].name == "metadata"@
            &&& fields[11].name == "relationships"@
            &&& fields[12].name == "expires_at"@
            &&& fields[13].name == "retention_policy"@
            &&& fields[14].name == "lifecycle_status"@
            &&& fields[15].name == "retired_at"@
            &&& fields[16].name == "retired_reason"@
            &&& fields[17].name == "supersedes_id"@
            &&& fields[18].name == "superseded_by_id"@
            &&& fields[19].name == "content_type"@
            &&& fields[20].name == "text_payload"@
            &&& fields[21].name == "binary_payload"@
            &&& fields[22].name == "payload_uri"@
            &&& fields[23].name == "payload_size"@
            &&& fields[24].name == "payload_checksum"@
            &&& fields[25].name == "embedding"@
        }),
{
    lemma_fields(blob_columns, all_groups(), dim, metric);
    let fields = context_schema(blob_columns, all_groups(), dim, metric).fields;
    assert forall|i: int| 0 <= i < fields.len() implies (#[trigger] fields[i]).name == column_name(
        column_at(i, all_groups()),
    ) by {
        assert(is_field_of(fields[i], column_at(i, all_groups()), blob_columns, dim));
    }
}

/// A group of columns is in a new table exactly where it is asked for.
pub proof fn law_a_new_table_has_the_groups_asked_for(
    blob_columns: Seq<Seq<char>>,
    groups: ColumnGroups,
    dim: i32,
    metric: DistanceMetric,
)
    ensures
        ({
            let schema = context_schema(blob_columns, groups, dim, metric);
            &&& schema.has("external_id"@) == groups.external_id
            &&& schema.has("metadata"@) == groups.metadata
            &&& schema.has("relationships"@) == groups.relationships
            &&& schema.has("expires_at"@) == groups.lifecycle
            &&& schema.has("retention_policy"@) == groups.lifecycle
            &&& schema.has("lifecycle_status"@) == groups.lifecycle
            &&& schema.has("retired_at"@) == groups.lifecycle
            &&& schema.has("retired_reason"@) == groups.lifecycle
            &&& schema.has("supersedes_id"@) == groups.lifecycle
            &&& schema.has("superseded_by_id"@) == groups.lifecycle
            &&& schema.has("payload_uri"@) == groups.external_reference
            &&& schema.has("payload_size"@) == groups.external_reference
            &&& schema.has("payload_checksum"@) == groups.external_reference
            &&& schema.has("id"@)
            &&& schema.has("run_id"@)
            &&& schema.has("bot_id"@)
            &&& schema.has("session_id"@)
            &&& schema.has("tenant"@)
            &&& schema.has("source"@)
            &&& schema.has("created_at"@)
            &&& schema.has("role"@)
            &&& schema.has("state_metadata"@)
            &&& schema.has("content_type"@)
            &&& schema.has("text_payload"@)
            &&& schema.has("binary_payload"@)
            &&& schema.has("embedding"@)
        }),
{
    lemma_column_place(blob_columns, groups, dim, metric, ContextColumn::Id);
    lemma_column_place(blob_columns, groups, dim, metric, ContextColumn::ExternalId);
    lemma_column_place(blob_columns, groups, dim, metric, ContextColumn::RunId);
    lemma_column_place(blob_columns, groups, dim, metric, ContextColumn::BotId);
    lemma_column_place(blob_columns, groups, dim, metric, ContextColumn::SessionId);
    lemma_column_place(blob_columns, groups, dim, metric, ContextColumn::Tenant);
    lemma_column_place(blob_columns, groups, dim, metric, ContextColumn::Source);
    lemma_column_place(blob_columns, groups, dim, metric, ContextColumn::CreatedAt);
    lemma_column_place(blob_columns, groups, dim, metric, ContextColumn::Role);
    lemma_column_place(blob_columns, groups, dim, metric, ContextColumn::StateMetadata);
    lemma_column_place(blob_columns, groups, dim, metric, ContextColumn::Metadata);
    lemma_column_place(blob_columns, groups, dim, metric, ContextColumn::Relationships);
    lemma_column_place(blob_columns, groups, dim, metric, ContextColumn::ExpiresAt);
    lemma_column_place(blob_columns, groups, dim, metric, ContextColumn::RetentionPolicy);
    lemma_column_place(blob_columns, groups, dim, metric, ContextColumn::LifecycleStatus);
    lemma_column_place(blob_columns, groups, dim, metric, ContextColumn::RetiredAt);
    lemma_column_place(blob_columns, groups, dim, metric, ContextColumn::RetiredReason);
    lemma_column_place(blob_columns, groups, dim, metric, ContextColumn::SupersedesId);
    lemma_column_place(blob_columns, groups, dim, metric, ContextColumn::SupersededById);
    lemma_column_place(blob_columns, groups, dim, metric, ContextColumn::ContentType);
    lemma_column_place(blob_columns, groups, dim, metric, ContextColumn::TextPayload);
    lemma_column_place(blob_columns, groups, dim, metric, ContextColumn::BinaryPayload);
    lemma_column_place(blob_columns, groups, dim, metric, ContextColumn::PayloadUri);
    lemma_column_place(blob_columns, groups, dim, metric, ContextColumn::PayloadSize);
    lemma_column_place(blob_columns, groups, dim, metric, ContextColumn::PayloadChecksum);
    lemma_column_place(blob_columns, groups, dim, metric, ContextColumn::Embedding);
}

} // verus!
