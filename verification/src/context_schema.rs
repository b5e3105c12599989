//! The schema of a context table and what is kept in it.

use vstd::prelude::*;

use crate::error::{invalid_argument, schema_failure, Failure, StoreError};
use crate::metric::{metric_name, parsed_metric, DistanceMetric};
use crate::number::{decimal, decimal_i64, decimal_usize};
use crate::order::{
    arrange, arranged, lemma_rank_order_has_no_duplicates, lemma_text_le_antisymmetric,
    lemma_text_le_reflexive, lemma_text_le_total, lemma_text_le_transitive, rank_order,
    text_at_most, text_le, Ranking,
};
use crate::outside::{arrow_missing_field, missing_field_message};
use crate::schema::{
    key_field, lemma_find_name, metadata_value, names_of, plain, primary_key_field, push_field,
    relationship_field, relationships_view, scalar, state_struct_data_type, state_type, value_of,
    DataType, Field, FieldView, Form, ItemType, Scalar, Schema, SchemaView,
};
use crate::text::{contains_text, join2, join3, same_text, texts};

verus! {

/// Order of a list of texts.
struct TextRanking<'a> {
    values: &'a Vec<String>,
}

impl<'a> Ranking for TextRanking<'a> {
    closed spec fn size(&self) -> nat {
        self.values@.len()
    }

    closed spec fn ranks(&self, left: int, right: int) -> bool {
        text_le(self.values@[left]@, self.values@[right]@)
    }

    proof fn lemma_total(&self, left: int, right: int) {
        lemma_text_le_total(self.values@[left]@, self.values@[right]@);
    }

    proof fn lemma_transitive(&self, first: int, second: int, third: int) {
        lemma_text_le_transitive(
            self.values@[first]@,
            self.values@[second]@,
            self.values@[third]@,
        );
    }

    fn at_most(&self, left: usize, right: usize) -> (result: bool) {
        text_at_most(self.values[left].as_str(), self.values[right].as_str())
    }
}

/// The texts in text order.
pub open spec fn sorted_texts(values: Seq<Seq<char>>) -> Seq<Seq<char>> {
    values.sort_by(|left: Seq<char>, right: Seq<char>| text_le(left, right))
}

proof fn lemma_text_order_is_total()
    ensures
        vstd::relations::total_ordering(
            |left: Seq<char>, right: Seq<char>| text_le(left, right),
        ),
{
    let order = |left: Seq<char>, right: Seq<char>| text_le(left, right);
    assert forall|x: Seq<char>| #[trigger] order(x, x) by {
        lemma_text_le_reflexive(x);
    }
    assert forall|x: Seq<char>, y: Seq<char>| #[trigger] order(x, y) && #[trigger] order(y, x) implies x
        == y by {
        lemma_text_le_antisymmetric(x, y);
    }
    assert forall|x: Seq<char>, y: Seq<char>, z: Seq<char>| #[trigger]
        order(x, y) && #[trigger] order(y, z) implies order(x, z) by {
        lemma_text_le_transitive(x, y, z);
    }
    assert forall|x: Seq<char>, y: Seq<char>| #[trigger] order(x, y) || order(y, x) by {
        lemma_text_le_total(x, y);
    }
}

/// A list of the same texts in text order is the sorted list.
pub proof fn lemma_sorted_is_unique(values: Seq<Seq<char>>, candidate: Seq<Seq<char>>)
    requires
        candidate.to_multiset() == values.to_multiset(),
        forall|i: int, j: int|
            0 <= i < j < candidate.len() ==> text_le(#[trigger] candidate[i], #[trigger] candidate[j]),
    ensures
        candidate == sorted_texts(values),
{
    let order = |left: Seq<char>, right: Seq<char>| text_le(left, right);
    lemma_text_order_is_total();
    values.lemma_sort_by_ensures(order);
    assert(vstd::relations::sorted_by(candidate, order)) by {
        assert forall|i: int, j: int| 0 <= i < j < candidate.len() implies #[trigger] order(
            candidate[i],
            candidate[j],
        ) by {}
    }
    vstd::seq_lib::lemma_sorted_unique(candidate, sorted_texts(values), order);
}

/// The texts of a set in text order.
pub fn sorted_strings(values: &Vec<String>) -> (result: Vec<String>)
    ensures
        texts(result@) == sorted_texts(texts(values@)),
{
    let ranking = TextRanking { values };
    let order = rank_order(&ranking, values.len());
    let mut copies: Vec<String> = Vec::new();
    let mut index: usize = 0;
    while index < values.len()
        invariant
            index <= values.len(),
            copies@ == values@.take(index as int),
        decreases values.len() - index,
    {
        copies.push(values[index].clone());
        index = index + 1;
        assert(copies@ =~= values@.take(index as int));
    }
    assert(copies@ =~= values@);
    proof {
        lemma_rank_order_has_no_duplicates(&ranking, order@);
    }
    let result = arrange(copies, &order);
    proof {
        let sorted = texts(result@);
        assert(sorted =~= arranged(texts(values@), order@));
        crate::order::lemma_arranged_keeps_items(texts(values@), order@);
        assert forall|i: int, j: int| 0 <= i < j < sorted.len() implies text_le(
            #[trigger] sorted[i],
            #[trigger] sorted[j],
        ) by {
            assert(crate::order::comes_before(&ranking, order@[i] as int, order@[j] as int));
        }
        lemma_sorted_is_unique(texts(values@), sorted);
    }
    result
}

/// Names in brackets, each in double quotes, with commas between them.
pub open spec fn name_list(names: Seq<Seq<char>>) -> Seq<char> {
    "["@ + quoted_names(names) + "]"@
}

/// Names in double quotes with commas between them.
pub open spec fn quoted_names(names: Seq<Seq<char>>) -> Seq<char>
    decreases names.len(),
{
    if names.len() == 0 {
        Seq::empty()
    } else if names.len() == 1 {
        "\""@ + names[0] + "\""@
    } else {
        quoted_names(names.drop_last()) + ", \""@ + names.last() + "\""@
    }
}

/// Renders names in brackets. Meant for column names, which hold no quotes.
pub fn render_names(names: &Vec<String>) -> (result: String)
    ensures
        result@ == name_list(texts(names@)),
{
    let ghost all = texts(names@);
    let mut body = String::new();
    let mut index: usize = 0;
    assert(all.take(0) =~= Seq::<Seq<char>>::empty());
    while index < names.len()
        invariant
            index <= names.len(),
            all == texts(names@),
            body@ == quoted_names(all.take(index as int)),
        decreases names.len() - index,
    {
        proof {
            assert(all.take(index + 1).drop_last() =~= all.take(index as int));
            assert(all.take(index + 1).last() == names@[index as int]@);
        }
        if index == 0 {
            body = join3("\"", names[index].as_str(), "\"");
        } else {
            body.append(", \"");
            body.append(names[index].as_str());
            body.append("\"");
        }
        index = index + 1;
    }
    assert(all.take(all.len() as int) =~= all);
    join3("[", body.as_str(), "]")
}

/// The columns that may be kept out of bulk reads.
pub open spec fn valid_blob_columns() -> Seq<Seq<char>> {
    seq!["text_payload"@, "binary_payload"@]
}

/// A payload column: nullable, and marked where it is kept out of bulk reads.
pub open spec fn payload_view(name: Seq<char>, data_type: DataType, is_blob: bool) -> FieldView {
    if is_blob {
        FieldView {
            name,
            data_type,
            nullable: true,
            metadata: seq![("lance-context:blob"@, "true"@)],
        }
    } else {
        plain(name, data_type, true)
    }
}

/// A payload column of a table with these blob columns.
pub fn payload_field(name: &str, data_type: DataType, blob_columns: &Vec<String>) -> (field: Field)
    ensures
        field@ == payload_view(name@, data_type, texts(blob_columns@).contains(name@)),
{
    let field = Field::new(name, data_type, true);
    if contains_text(blob_columns, name) {
        field.with_entry("lance-context:blob", "true")
    } else {
        field
    }
}

/// Which optional column groups a context table has.
#[derive(Debug, Clone, Copy, PartialEq, Eq, Structural)]
pub struct ColumnGroups {
    pub external_id: bool,
    pub metadata: bool,
    pub relationships: bool,
    pub lifecycle: bool,
    pub external_reference: bool,
}

/// Every optional column group.
pub open spec fn all_groups() -> ColumnGroups {
    ColumnGroups {
        external_id: true,
        metadata: true,
        relationships: true,
        lifecycle: true,
        external_reference: true,
    }
}

pub open spec fn utf8(name: Seq<char>, nullable: bool) -> FieldView {
    plain(name, DataType::Scalar(Scalar::Utf8), nullable)
}

pub open spec fn timestamp(name: Seq<char>, nullable: bool) -> FieldView {
    plain(name, DataType::Scalar(Scalar::Timestamp), nullable)
}

/// The fields from the key to the state.
pub open spec fn identity_fields(groups: ColumnGroups) -> Seq<FieldView> {
    seq![key_field("id"@)] + (if groups.external_id {
        seq![utf8("external_id"@, true)]
    } else {
        Seq::empty()
    }) + seq![
        utf8("run_id"@, false),
        utf8("bot_id"@, true),
        utf8("session_id"@, true),
        utf8("tenant"@, true),
        utf8("source"@, true),
        timestamp("created_at"@, false),
        plain("role"@, DataType::Dictionary(Scalar::Int8, Scalar::Utf8), false),
        plain("state_metadata"@, DataType::Struct(state_type(), Form::Own), true),
    ]
}

/// The fields from the metadata to the end of the lifecycle.
pub open spec fn lifecycle_fields(groups: ColumnGroups) -> Seq<FieldView> {
    (if groups.metadata {
        seq![plain("metadata"@, DataType::Scalar(Scalar::LargeUtf8), true)]
    } else {
        Seq::empty()
    }) + (if groups.relationships {
        seq![relationships_view()]
    } else {
        Seq::empty()
    }) + (if groups.lifecycle {
        seq![
            timestamp("expires_at"@, true),
            utf8("retention_policy"@, true),
            utf8("lifecycle_status"@, false),
            timestamp("retired_at"@, true),
            utf8("retired_reason"@, true),
            utf8("supersedes_id"@, true),
            utf8("superseded_by_id"@, true),
        ]
    } else {
        Seq::empty()
    })
}

/// The fields from the content type to the embedding.
pub open spec fn payload_fields(
    groups: ColumnGroups,
    blob_columns: Seq<Seq<char>>,
    dim: i32,
) -> Seq<FieldView> {
    seq![
        utf8("content_type"@, false),
        payload_view(
            "text_payload"@,
            if blob_columns.contains("text_payload"@) {
                DataType::Scalar(Scalar::LargeBinary)
            } else {
                DataType::Scalar(Scalar::LargeUtf8)
            },
            blob_columns.contains("text_payload"@),
        ),
        payload_view(
            "binary_payload"@,
            DataType::Scalar(Scalar::LargeBinary),
            blob_columns.contains("binary_payload"@),
        ),
    ] + (if groups.external_reference {
        seq![
            utf8("payload_uri"@, true),
            plain("payload_size"@, DataType::Scalar(Scalar::Int64), true),
            utf8("payload_checksum"@, true),
        ]
    } else {
        Seq::empty()
    }) + seq![
        plain(
            "embedding"@,
            DataType::FixedSizeList(ItemType::Scalar(Scalar::Float32), dim, Form::Own),
            true,
        ),
    ]
}

/// The schema of a context table.
pub open spec fn context_schema(
    blob_columns: Seq<Seq<char>>,
    groups: ColumnGroups,
    dim: i32,
    metric: DistanceMetric,
) -> SchemaView {
    SchemaView {
        fields: identity_fields(groups) + lifecycle_fields(groups) + payload_fields(
            groups,
            blob_columns,
            dim,
        ),
        metadata: seq![("lance-context:distance_metric"@, metric_name(metric))],
    }
}

fn utf8_field(name: &str, nullable: bool) -> (field: Field)
    ensures
        field@ == utf8(name@, nullable),
{
    Field::new(name, scalar(Scalar::Utf8), nullable)
}

fn timestamp_field(name: &str, nullable: bool) -> (field: Field)
    ensures
        field@ == timestamp(name@, nullable),
{
    Field::new(name, scalar(Scalar::Timestamp), nullable)
}

fn push_identity_fields(fields: &mut Vec<Field>, groups: ColumnGroups)
    requires
        old(fields)@.len() == 0,
    ensures
        crate::schema::field_views(final(fields)@) == identity_fields(groups),
{
    push_field(fields, primary_key_field("id"));
    if groups.external_id {
        push_field(fields, utf8_field("external_id", true));
    }
    push_field(fields, utf8_field("run_id", false));
    push_field(fields, utf8_field("bot_id", true));
    push_field(fields, utf8_field("session_id", true));
    push_field(fields, utf8_field("tenant", true));
    push_field(fields, utf8_field("source", true));
    push_field(fields, timestamp_field("created_at", false));
    push_field(
        fields,
        Field::new("role", DataType::Dictionary(Scalar::Int8, Scalar::Utf8), false),
    );
    push_field(
        fields,
        Field::new("state_metadata", DataType::Struct(state_struct_data_type(), Form::Own), true),
    );
    assert(crate::schema::field_views(fields@) =~= identity_fields(groups));
}

fn push_lifecycle_fields(fields: &mut Vec<Field>, groups: ColumnGroups)
    ensures
        crate::schema::field_views(final(fields)@) == crate::schema::field_views(old(fields)@)
            + lifecycle_fields(groups),
{
    let ghost before = crate::schema::field_views(fields@);
    if groups.metadata {
        push_field(fields, Field::new("metadata", scalar(Scalar::LargeUtf8), true));
    }
    if groups.relationships {
        push_field(fields, relationship_field());
    }
    if groups.lifecycle {
        push_field(fields, timestamp_field("expires_at", true));
        push_field(fields, utf8_field("retention_policy", true));
        push_field(fields, utf8_field("lifecycle_status", false));
        push_field(fields, timestamp_field("retired_at", true));
        push_field(fields, utf8_field("retired_reason", true));
        push_field(fields, utf8_field("supersedes_id", true));
        push_field(fields, utf8_field("superseded_by_id", true));
    }
    assert(crate::schema::field_views(fields@) =~= before + lifecycle_fields(groups));
}

fn push_payload_fields(
    fields: &mut Vec<Field>,
    groups: ColumnGroups,
    blob_columns: &Vec<String>,
    dim: i32,
)
    ensures
        crate::schema::field_views(final(fields)@) == crate::schema::field_views(old(fields)@)
            + payload_fields(groups, texts(blob_columns@), dim),
{
    let ghost before = crate::schema::field_views(fields@);
    push_field(fields, utf8_field("content_type", false));
    let text_type = if contains_text(blob_columns, "text_payload") {
        DataType::Scalar(Scalar::LargeBinary)
    } else {
        DataType::Scalar(Scalar::LargeUtf8)
    };
    push_field(fields, payload_field("text_payload", text_type, blob_columns));
    push_field(
        fields,
        payload_field("binary_payload", DataType::Scalar(Scalar::LargeBinary), blob_columns),
    );
    if groups.external_reference {
        push_field(fields, utf8_field("payload_uri", true));
        push_field(fields, Field::new("payload_size", scalar(Scalar::Int64), true));
        push_field(fields, utf8_field("payload_checksum", true));
    }
    push_field(
        fields,
        Field::new(
            "embedding",
            DataType::FixedSizeList(ItemType::Scalar(Scalar::Float32), dim, Form::Own),
            true,
        ),
    );
    assert(crate::schema::field_views(fields@) =~= before + payload_fields(
        groups,
        texts(blob_columns@),
        dim,
    ));
}

/// The schema of a context table with these blob columns, column groups,
/// embedding width and metric. The metric is kept in the schema's metadata.
pub fn schema_with_options(
    blob_columns: &Vec<String>,
    groups: ColumnGroups,
    embedding_dim: i32,
    distance_metric: DistanceMetric,
) -> (schema: Schema)
    ensures
        schema@ == context_schema(texts(blob_columns@), groups, embedding_dim, distance_metric),
{
    let mut fields: Vec<Field> = Vec::new();
    push_identity_fields(&mut fields, groups);
    push_lifecycle_fields(&mut fields, groups);
    push_payload_fields(&mut fields, groups, blob_columns, embedding_dim);
    let mut metadata: Vec<(String, String)> = Vec::new();
    metadata.push(
        ("lance-context:distance_metric".to_owned(), distance_metric.as_str().to_owned()),
    );
    let schema = Schema { fields, metadata };
    assert(schema@.metadata =~= seq![
        ("lance-context:distance_metric"@, metric_name(distance_metric)),
    ]);
    schema
}

/// Whether the named column is there and carries the entry `key` = `true`.
pub open spec fn column_flagged(schema: SchemaView, name: Seq<char>, key: Seq<char>) -> bool {
    match schema.field(name) {
        Some(field) => value_of(field.metadata, key) == Some("true"@),
        None => false,
    }
}

/// The payload columns that carry the entry `key` = `true`.
pub open spec fn flagged_columns(schema: SchemaView, key: Seq<char>) -> Seq<Seq<char>> {
    valid_blob_columns().filter(|name: Seq<char>| column_flagged(schema, name, key))
}

fn is_flagged(schema: &Schema, name: &str, key: &str) -> (result: bool)
    ensures
        result == column_flagged(schema@, name@, key@),
{
    match schema.index_of(name) {
        Some(index) => match metadata_value(&schema.fields[index].metadata, key) {
            Some(value) => same_text(value.as_str(), "true"),
            None => false,
        },
        None => false,
    }
}

fn collect_flagged(schema: &Schema, key: &str) -> (result: Vec<String>)
    ensures
        texts(result@) == flagged_columns(schema@, key@),
{
    let ghost keep = |name: Seq<char>| column_flagged(schema@, name, key@);
    let mut result: Vec<String> = Vec::new();
    let text = is_flagged(schema, "text_payload", key);
    let binary = is_flagged(schema, "binary_payload", key);
    if text {
        result.push("text_payload".to_owned());
    }
    if binary {
        result.push("binary_payload".to_owned());
    }
    proof {
        let empty = Seq::<Seq<char>>::empty();
        assert(valid_blob_columns() =~= empty.push("text_payload"@).push("binary_payload"@));
        assert(empty.filter(keep) =~= empty) by {
            reveal(Seq::filter);
        }
        empty.lemma_filter_push("text_payload"@, keep);
        empty.push("text_payload"@).lemma_filter_push("binary_payload"@, keep);
        assert(texts(result@) =~= flagged_columns(schema@, key@));
    }
    result
}

/// The columns that a table keeps out of bulk reads, as its schema marks them.
pub fn blob_columns_from_schema(schema: &Schema) -> (result: Vec<String>)
    ensures
        texts(result@) == flagged_columns(schema@, "lance-context:blob"@),
{
    collect_flagged(schema, "lance-context:blob")
}

/// The failure of a table whose payload columns are stored as blobs that no
/// merge can read.
pub open spec fn blob_v2_failure(schema: SchemaView) -> Option<Failure> {
    let legacy = flagged_columns(schema, "lance-encoding:blob"@);
    if legacy.len() == 0 {
        None
    } else {
        Some(
            invalid_argument(
                "context dataset uses unsupported blob-v2 encoding for columns "@ + name_list(
                    sorted_texts(legacy),
                ) + "; MemWAL cannot read or merge those values, so create a new context with inline blob columns"@,
            ),
        )
    }
}

/// Refuses a table whose payload columns are stored as blobs that no merge can
/// read.
pub fn reject_blob_v2_schema(schema: &Schema) -> (result: Result<(), StoreError>)
    ensures
        crate::error::check_failure(result) == blob_v2_failure(schema@),
{
    let legacy = collect_flagged(schema, "lance-encoding:blob");
    if legacy.len() == 0 {
        assert(texts(legacy@).len() == 0);
        Ok(())
    } else {
        assert(texts(legacy@).len() > 0);
        let sorted = sorted_strings(&legacy);
        let names = render_names(&sorted);
        Err(
            StoreError::invalid_argument(
                join3(
                    "context dataset uses unsupported blob-v2 encoding for columns ",
                    names.as_str(),
                    "; MemWAL cannot read or merge those values, so create a new context with inline blob columns",
                ),
            ),
        )
    }
}

/// The failure of an embedding width that is not positive.
pub open spec fn dim_failure(dim: i32) -> Option<Failure> {
    if dim <= 0 {
        Some(invalid_argument("embedding_dim must be positive, got "@ + decimal(dim as int)))
    } else {
        None
    }
}

/// Checks that an embedding width is positive.
pub fn validate_embedding_dim(dim: i32) -> (result: Result<(), StoreError>)
    ensures
        crate::error::check_failure(result) == dim_failure(dim),
{
    if dim <= 0 {
        let digits = decimal_i64(dim as i64);
        Err(
            StoreError::invalid_argument(
                join2("embedding_dim must be positive, got ", digits.as_str()),
            ),
        )
    } else {
        Ok(())
    }
}

/// The failure of a query vector of another width than the table's.
pub open spec fn query_failure(length: int, dim: i32) -> Option<Failure> {
    if length != dim {
        Some(
            invalid_argument(
                "query length "@ + decimal(length) + " does not match embedding dimension "@
                    + decimal(dim as int),
            ),
        )
    } else {
        None
    }
}

/// Checks that a query vector has the table's width.
pub fn validate_query_dimension(length: usize, dim: i32) -> (result: Result<(), StoreError>)
    requires
        dim > 0,
    ensures
        crate::error::check_failure(result) == query_failure(length as int, dim),
{
    if length != dim as usize {
        let found = decimal_usize(length);
        let expected = decimal_i64(dim as i64);
        let mut message = join3(
            "query length ",
            found.as_str(),
            " does not match embedding dimension ",
        );
        message.append(expected.as_str());
        Err(StoreError::invalid_argument(message))
    } else {
        Ok(())
    }
}

/// The embedding width that a schema holds, or why it holds none.
pub open spec fn schema_dim(schema: SchemaView) -> Result<i32, Failure> {
    match schema.field("embedding"@) {
        None => Err(
            schema_failure(arrow_missing_field(names_of(schema.fields), "embedding"@)),
        ),
        Some(field) => match field.data_type {
            DataType::FixedSizeList(item, dim, _) => if item != ItemType::Scalar(Scalar::Float32) {
                Err(invalid_argument("embedding column must contain Float32 values"@))
            } else {
                match dim_failure(dim) {
                    Some(failure) => Err(failure),
                    None => Ok(dim),
                }
            },
            _ => Err(invalid_argument("embedding column must be a FixedSizeList<Float32>"@)),
        },
    }
}

/// Reads the embedding width from a schema.
pub fn embedding_dim_from_schema(schema: &Schema) -> (result: Result<i32, StoreError>)
    ensures
        match schema_dim(schema@) {
            Ok(dim) => result is Ok && result->Ok_0 == dim && dim > 0,
            Err(failure) => result is Err && result->Err_0@ == failure,
        },
{
    match schema.index_of("embedding") {
        None => {
            let names = schema.column_names();
            proof {
                lemma_find_name(names_of(schema@.fields), "embedding"@);
            }
            let message = missing_field_message(&names, "embedding");
            Err(StoreError::schema(message))
        },
        Some(index) => match schema.fields[index].data_type {
            DataType::FixedSizeList(item, dim, _) => if item != ItemType::Scalar(Scalar::Float32) {
                Err(
                    StoreError::invalid_argument(
                        "embedding column must contain Float32 values".to_owned(),
                    ),
                )
            } else {
                match validate_embedding_dim(dim) {
                    Err(error) => Err(error),
                    Ok(_) => Ok(dim),
                }
            },
            _ => Err(
                StoreError::invalid_argument(
                    "embedding column must be a FixedSizeList<Float32>".to_owned(),
                ),
            ),
        },
    }
}

/// The metric that a schema holds; Euclidean where it holds none.
pub open spec fn schema_metric(schema: SchemaView) -> Result<DistanceMetric, Failure> {
    match value_of(schema.metadata, "lance-context:distance_metric"@) {
        Some(value) => parsed_metric(value),
        None => Ok(DistanceMetric::L2),
    }
}

/// Reads the metric from a schema. A table written before metrics were kept
/// has none, and ranks by Euclidean distance.
pub fn distance_metric_from_schema(schema: &Schema) -> (result: Result<DistanceMetric, StoreError>)
    ensures
        match schema_metric(schema@) {
            Ok(metric) => result is Ok && result->Ok_0 == metric,
            Err(failure) => result is Err && result->Err_0@ == failure,
        },
{
    match metadata_value(&schema.metadata, "lance-context:distance_metric") {
        Some(value) => DistanceMetric::parse(value.as_str()),
        None => Ok(DistanceMetric::default()),
    }
}

/// A query vector is refused exactly where it is not as wide as the column, and a
/// width exactly where it is not positive.
pub proof fn law_which_widths_are_refused(length: int, dim: i32)
    ensures
        query_failure(length, dim) is None <==> length == dim,
        dim_failure(dim) is None <==> dim > 0,
{
}

/// Names are listed in quotes, with a comma between each two, in square brackets.
pub proof fn law_names_are_listed_in_quotes(names: Seq<Seq<char>>, next: Seq<char>)
    ensures
        name_list(Seq::empty()) == "["@ + "]"@,
        name_list(seq![next]) == "["@ + ("\""@ + next + "\""@) + "]"@,
        name_list(names) == "["@ + quoted_names(names) + "]"@,
        names.len() > 0 ==> quoted_names(names.push(next)) == quoted_names(names) + ", \""@ + next
            + "\""@,
{
    assert("["@ + Seq::<char>::empty() =~= "["@);
    assert(names.push(next).drop_last() =~= names);
}

/// Sorted names are the names, each as often, in the order of texts.
pub proof fn law_sorted_names_are_the_names(values: Seq<Seq<char>>, left: int, right: int)
    ensures
        sorted_texts(values).len() == values.len(),
        sorted_texts(values).to_multiset() == values.to_multiset(),
        0 <= left < right < values.len() ==> text_le(
            sorted_texts(values)[left],
            sorted_texts(values)[right],
        ),
{
    let order = |left: Seq<char>, right: Seq<char>| text_le(left, right);
    lemma_text_order_is_total();
    values.lemma_sort_by_ensures(order);
    sorted_texts(values).to_multiset_ensures();
    values.to_multiset_ensures();
    if 0 <= left < right < values.len() {
        assert(order(sorted_texts(values)[left], sorted_texts(values)[right]));
    }
}

/// A payload column takes nulls, and is marked where it holds blobs.
pub proof fn law_a_payload_column_is_marked_where_it_holds_blobs(
    name: Seq<char>,
    data_type: DataType,
    is_blob: bool,
)
    ensures
        payload_view(name, data_type, is_blob).name == name,
        payload_view(name, data_type, is_blob).data_type == data_type,
        payload_view(name, data_type, is_blob).nullable,
        is_blob
            <==> value_of(payload_view(name, data_type, is_blob).metadata, "lance-context:blob"@)
            == Some("true"@),
{
    if is_blob {
        assert(payload_view(name, data_type, is_blob).metadata[0].0 == "lance-context:blob"@);
    }
}

} // verus!
