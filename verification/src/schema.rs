//! Table schemas: column types, fields and their metadata.

use vstd::prelude::*;

use crate::text::{same_text, texts};

verus! {

/// A column type without inner structure.
#[derive(Debug, Clone, Copy, PartialEq, Eq, Structural)]
pub enum Scalar {
    Utf8,
    LargeUtf8,
    LargeBinary,
    Boolean,
    Int8,
    Int32,
    Int64,
    UInt64,
    Float32,
    Float64,
    /// Microseconds since the Unix epoch, without a time zone.
    Timestamp,
    /// Microseconds since the Unix epoch, in UTC.
    TimestampUtc,
    /// Any type the library does not read, told apart by a code.
    Other(u32),
}

/// What tells nested types apart whose inner types are alike: the names, the
/// nullability and the metadata of the inner fields, and the types of the
/// children of a struct behind the fourth.
#[derive(Debug, Clone, Copy, PartialEq, Eq, Structural)]
pub enum Form {
    /// As the library writes the type: every inner field is nullable and has no
    /// metadata, the item of a list is called `item`, and the children of a
    /// relationship and of a state have the names of their parts.
    Own,
    /// Any other form, told apart by a code.
    Other(u32),
}

/// The types of the first four children of a struct column, and how many
/// children it has. A child that is not there counts as [`Scalar::Other`].
#[derive(Debug, Clone, Copy, PartialEq, Eq, Structural)]
pub struct StructType {
    pub children: u32,
    pub first: Scalar,
    pub second: Scalar,
    pub third: Scalar,
    pub fourth: Scalar,
}

/// The item type of a list column.
#[derive(Debug, Clone, Copy, PartialEq, Eq, Structural)]
pub enum ItemType {
    Scalar(Scalar),
    Struct(StructType),
}

/// The type of a column. Two columns have the same type exactly where these are
/// equal.
#[derive(Debug, Clone, Copy, PartialEq, Eq, Structural)]
pub enum DataType {
    Scalar(Scalar),
    /// A dictionary: its key type and its value type.
    Dictionary(Scalar, Scalar),
    List(ItemType, Form),
    /// A list of fixed length.
    FixedSizeList(ItemType, i32, Form),
    Struct(StructType, Form),
    /// Any type the library does not read, told apart by a code.
    Other(u32),
}

/// A key with its value.
pub type Entry = (Seq<char>, Seq<char>);

/// The views of metadata entries.
pub open spec fn entries(metadata: Seq<(String, String)>) -> Seq<Entry> {
    Seq::new(metadata.len(), |i: int| (metadata[i].0@, metadata[i].1@))
}

/// The value of the first entry under `key`.
pub open spec fn value_of(metadata: Seq<Entry>, key: Seq<char>) -> Option<Seq<char>>
    decreases metadata.len(),
{
    if metadata.len() == 0 {
        None
    } else if metadata[0].0 == key {
        Some(metadata[0].1)
    } else {
        value_of(metadata.drop_first(), key)
    }
}

/// One column of a schema.
#[derive(Debug, Clone, PartialEq)]
pub struct Field {
    pub name: String,
    pub data_type: DataType,
    pub nullable: bool,
    pub metadata: Vec<(String, String)>,
}

/// The model of a [`Field`].
#[verifier::ext_equal]
pub struct FieldView {
    pub name: Seq<char>,
    pub data_type: DataType,
    pub nullable: bool,
    pub metadata: Seq<Entry>,
}

impl View for Field {
    type V = FieldView;

    open spec fn view(&self) -> FieldView {
        FieldView {
            name: self.name@,
            data_type: self.data_type,
            nullable: self.nullable,
            metadata: entries(self.metadata@),
        }
    }
}

/// The views of a sequence of fields.
pub open spec fn field_views(fields: Seq<Field>) -> Seq<FieldView> {
    Seq::new(fields.len(), |i: int| fields[i]@)
}

/// The names of a sequence of fields.
pub open spec fn names_of(fields: Seq<FieldView>) -> Seq<Seq<char>> {
    Seq::new(fields.len(), |i: int| fields[i].name)
}

/// The columns of a table and the metadata kept with them.
#[derive(Debug, Clone, PartialEq)]
pub struct Schema {
    pub fields: Vec<Field>,
    pub metadata: Vec<(String, String)>,
}

/// The model of a [`Schema`].
#[verifier::ext_equal]
pub struct SchemaView {
    pub fields: Seq<FieldView>,
    pub metadata: Seq<Entry>,
}

impl View for Schema {
    type V = SchemaView;

    open spec fn view(&self) -> SchemaView {
        SchemaView { fields: field_views(self.fields@), metadata: entries(self.metadata@) }
    }
}

/// `index` is the first place where `name` stands.
pub open spec fn first_at(names: Seq<Seq<char>>, name: Seq<char>, index: int) -> bool {
    &&& 0 <= index < names.len()
    &&& names[index] == name
    &&& forall|j: int| 0 <= j < index ==> #[trigger] names[j] != name
}

/// The first place where `name` stands, if any.
#[verifier::opaque]
pub open spec fn find_name(names: Seq<Seq<char>>, name: Seq<char>) -> Option<int> {
    if exists|index: int| first_at(names, name, index) {
        Some(choose|index: int| first_at(names, name, index))
    } else {
        None
    }
}

/// The first place is the only one that [`find_name`] gives.
pub proof fn lemma_find_name_is(names: Seq<Seq<char>>, name: Seq<char>, index: int)
    requires
        first_at(names, name, index),
    ensures
        find_name(names, name) == Some(index),
{
    reveal(find_name);
    let found = choose|k: int| first_at(names, name, k);
    assert(first_at(names, name, found));
    if found < index {
        assert(names[found] != name);
    } else if index < found {
        assert(names[index] != name);
    }
}

/// What [`find_name`] gives is the first place, and it gives nothing only where
/// the name stands nowhere.
pub proof fn lemma_find_name(names: Seq<Seq<char>>, name: Seq<char>)
    ensures
        match find_name(names, name) {
            Some(index) => first_at(names, name, index),
            None => forall|j: int| 0 <= j < names.len() ==> #[trigger] names[j] != name,
        },
{
    reveal(find_name);
    if find_name(names, name) is None {
        assert forall|j: int| 0 <= j < names.len() implies #[trigger] names[j] != name by {
            if names[j] == name {
                lemma_find_name_exists(names, name, j);
            }
        }
    }
}

/// A name that stands nowhere is not found.
pub proof fn lemma_find_name_none(names: Seq<Seq<char>>, name: Seq<char>)
    requires
        forall|j: int| 0 <= j < names.len() ==> #[trigger] names[j] != name,
    ensures
        find_name(names, name) is None,
{
    reveal(find_name);
}

/// A name that stands somewhere is found.
pub proof fn lemma_find_name_exists(names: Seq<Seq<char>>, name: Seq<char>, at: int)
    requires
        0 <= at < names.len(),
        names[at] == name,
    ensures
        find_name(names, name) is Some,
        first_at(names, name, find_name(names, name)->Some_0),
    decreases at,
{
    reveal(find_name);
    if forall|j: int| 0 <= j < at ==> #[trigger] names[j] != name {
        assert(first_at(names, name, at));
        lemma_find_name_is(names, name, at);
    } else {
        let earlier = choose|j: int| 0 <= j < at && #[trigger] names[j] == name;
        lemma_find_name_exists(names, name, earlier);
    }
}

impl SchemaView {
    /// The first column of this name.
    pub open spec fn field(self, name: Seq<char>) -> Option<FieldView> {
        match find_name(names_of(self.fields), name) {
            Some(index) => Some(self.fields[index]),
            None => None,
        }
    }

    /// Whether a column of this name exists.
    pub open spec fn has(self, name: Seq<char>) -> bool {
        find_name(names_of(self.fields), name) is Some
    }
}

impl Field {
    /// A column without metadata.
    pub fn new(name: &str, data_type: DataType, nullable: bool) -> (field: Field)
        ensures
            field@ == (FieldView { name: name@, data_type, nullable, metadata: Seq::empty() }),
    {
        let field = Field { name: name.to_owned(), data_type, nullable, metadata: Vec::new() };
        assert(field@.metadata =~= Seq::<Entry>::empty());
        field
    }

    /// The column with one metadata entry.
    pub fn with_entry(self, key: &str, value: &str) -> (field: Field)
        ensures
            field@ == (FieldView { metadata: seq![(key@, value@)], ..self@ }),
    {
        let mut metadata: Vec<(String, String)> = Vec::new();
        metadata.push((key.to_owned(), value.to_owned()));
        let field = Field {
            name: self.name,
            data_type: self.data_type,
            nullable: self.nullable,
            metadata,
        };
        assert(field@.metadata =~= seq![(key@, value@)]);
        field
    }

    /// A copy of the column.
    pub fn copy(&self) -> (field: Field)
        ensures
            field@ == self@,
    {
        Field {
            name: self.name.clone(),
            data_type: self.data_type,
            nullable: self.nullable,
            metadata: copy_entries(&self.metadata),
        }
    }
}

/// A copy of metadata entries.
pub fn copy_entries(metadata: &Vec<(String, String)>) -> (result: Vec<(String, String)>)
    ensures
        entries(result@) == entries(metadata@),
{
    let mut result: Vec<(String, String)> = Vec::new();
    let mut index: usize = 0;
    while index < metadata.len()
        invariant
            index <= metadata.len(),
            result.len() == index,
            forall|k: int|
                0 <= k < index ==> (#[trigger] result@[k]).0@ == metadata@[k].0@ && result@[k].1@
                    == metadata@[k].1@,
        decreases metadata.len() - index,
    {
        let entry = (metadata[index].0.clone(), metadata[index].1.clone());
        result.push(entry);
        index = index + 1;
    }
    assert(entries(result@) =~= entries(metadata@));
    result
}

/// The value of the first entry under `key`.
pub fn metadata_value<'a>(metadata: &'a Vec<(String, String)>, key: &str) -> (result: Option<&'a String>)
    ensures
        match value_of(entries(metadata@), key@) {
            Some(value) => result is Some && result->Some_0@ == value,
            None => result is None,
        },
{
    let ghost all = entries(metadata@);
    let mut index: usize = 0;
    assert(all.skip(0) =~= all);
    while index < metadata.len()
        invariant
            index <= metadata.len(),
            all == entries(metadata@),
            value_of(all, key@) == value_of(all.skip(index as int), key@),
        decreases metadata.len() - index,
    {
        assert(all.skip(index as int).drop_first() =~= all.skip(index + 1));
        if same_text(metadata[index].0.as_str(), key) {
            return Some(&metadata[index].1);
        }
        index = index + 1;
    }
    None
}

/// Adds a column at the end.
pub fn push_field(fields: &mut Vec<Field>, field: Field)
    ensures
        field_views(final(fields)@) == field_views(old(fields)@).push(field@),
{
    let ghost before = fields@;
    fields.push(field);
    assert(field_views(fields@) =~= field_views(before).push(field@));
}

impl Schema {
    /// Where the first column of this name stands.
    pub fn index_of(&self, name: &str) -> (result: Option<usize>)
        ensures
            match result {
                Some(index) => find_name(names_of(self@.fields), name@) == Some(index as int) && index
                    < self.fields.len() && self@.field(name@) == Some(self.fields@[index as int]@),
                None => find_name(names_of(self@.fields), name@) is None,
            },
    {
        let ghost names = names_of(self@.fields);
        let mut index: usize = 0;
        while index < self.fields.len()
            invariant
                index <= self.fields.len(),
                names == names_of(self@.fields),
                forall|j: int| 0 <= j < index ==> #[trigger] names[j] != name@,
            decreases self.fields.len() - index,
        {
            if same_text(self.fields[index].name.as_str(), name) {
                proof {
                    assert(names[index as int] == name@);
                    lemma_find_name_is(names, name@, index as int);
                }
                return Some(index);
            }
            index = index + 1;
        }
        proof {
            lemma_find_name_none(names, name@);
        }
        None
    }

    /// Whether a column of this name exists.
    pub fn has_column(&self, name: &str) -> (result: bool)
        ensures
            result == self@.has(name@),
    {
        self.index_of(name).is_some()
    }

    /// The names of all columns, in order.
    pub fn column_names(&self) -> (result: Vec<String>)
        ensures
            texts(result@) == names_of(self@.fields),
    {
        let mut result: Vec<String> = Vec::new();
        let mut index: usize = 0;
        while index < self.fields.len()
            invariant
                index <= self.fields.len(),
                result.len() == index,
                forall|k: int| 0 <= k < index ==> (#[trigger] result@[k])@ == self.fields@[k].name@,
            decreases self.fields.len() - index,
        {
            result.push(self.fields[index].name.clone());
            index = index + 1;
        }
        assert(texts(result@) =~= names_of(self@.fields));
        result
    }
}

/// A type without inner structure, as a column type.
pub fn scalar(kind: Scalar) -> (data_type: DataType)
    ensures
        data_type == DataType::Scalar(kind),
{
    DataType::Scalar(kind)
}

/// The struct type of one relationship: target, relation, weight.
pub open spec fn relationship_type() -> StructType {
    StructType {
        children: 3,
        first: Scalar::Utf8,
        second: Scalar::Utf8,
        third: Scalar::Float32,
        fourth: Scalar::Other(0),
    }
}

/// The struct type of a record's state: step, plan, tokens, custom.
pub open spec fn state_type() -> StructType {
    StructType {
        children: 4,
        first: Scalar::Int32,
        second: Scalar::Utf8,
        third: Scalar::Int32,
        fourth: Scalar::Utf8,
    }
}

/// The struct type of one relationship.
pub fn relationship_struct_data_type() -> (result: StructType)
    ensures
        result == relationship_type(),
{
    StructType {
        children: 3,
        first: Scalar::Utf8,
        second: Scalar::Utf8,
        third: Scalar::Float32,
        fourth: Scalar::Other(0),
    }
}

/// The struct type of a record's state.
pub fn state_struct_data_type() -> (result: StructType)
    ensures
        result == state_type(),
{
    StructType {
        children: 4,
        first: Scalar::Int32,
        second: Scalar::Utf8,
        third: Scalar::Int32,
        fourth: Scalar::Utf8,
    }
}

/// A plain column in a model schema.
pub open spec fn plain(name: Seq<char>, data_type: DataType, nullable: bool) -> FieldView {
    FieldView { name, data_type, nullable, metadata: Seq::empty() }
}

/// A key column: text, never null, marked as the primary key a merge goes by.
pub open spec fn key_field(name: Seq<char>) -> FieldView {
    FieldView {
        name,
        data_type: DataType::Scalar(Scalar::Utf8),
        nullable: false,
        metadata: seq![("lance-schema:unenforced-primary-key"@, "true"@)],
    }
}

/// The relationships column of a model schema.
pub open spec fn relationships_view() -> FieldView {
    plain("relationships"@, DataType::List(ItemType::Struct(relationship_type()), Form::Own), true)
}

/// The relationships column: a nullable list of relationship structs.
pub fn relationship_field() -> (field: Field)
    ensures
        field@ == relationships_view(),
{
    Field::new(
        "relationships",
        DataType::List(ItemType::Struct(relationship_struct_data_type()), Form::Own),
        true,
    )
}

/// A key column of this name.
pub fn primary_key_field(name: &str) -> (field: Field)
    ensures
        field@ == key_field(name@),
{
    Field::new(name, scalar(Scalar::Utf8), false).with_entry(
        "lance-schema:unenforced-primary-key",
        "true",
    )
}

/// A nullable list column of primitive items.
pub fn list_field(name: &str, item: Scalar) -> (field: Field)
    ensures
        field@ == plain(name@, DataType::List(ItemType::Scalar(item), Form::Own), true),
{
    Field::new(name, DataType::List(ItemType::Scalar(item), Form::Own), true)
}

/// A column of a name is found exactly where a field has the name, and it is the
/// first such field.
pub proof fn law_a_column_is_found_by_its_name(fields: Seq<FieldView>, name: Seq<char>)
    ensures
        match find_name(names_of(fields), name) {
            Some(at) => {
                &&& 0 <= at < fields.len()
                &&& fields[at].name == name
                &&& forall|i: int| 0 <= i < at ==> (#[trigger] fields[i]).name != name
            },
            None => forall|i: int| 0 <= i < fields.len() ==> (#[trigger] fields[i]).name != name,
        },
{
    let names = names_of(fields);
    lemma_find_name(names, name);
    assert forall|i: int| 0 <= i < fields.len() implies (#[trigger] fields[i]).name
        == names[i] by {}
}

/// The value under a key is that of the first entry with the key.
pub proof fn law_a_value_is_found_by_its_key(metadata: Seq<Entry>, key: Seq<char>)
    ensures
        match value_of(metadata, key) {
            Some(value) => exists|i: int|
                {
                    &&& 0 <= i < metadata.len()
                    &&& #[trigger] metadata[i] == (key, value)
                    &&& forall|j: int| 0 <= j < i ==> (#[trigger] metadata[j]).0 != key
                },
            None => forall|i: int| 0 <= i < metadata.len() ==> (#[trigger] metadata[i]).0 != key,
        },
    decreases metadata.len(),
{
    if metadata.len() > 0 {
        let rest = metadata.drop_first();
        law_a_value_is_found_by_its_key(rest, key);
        if metadata[0].0 == key {
            assert(metadata[0] == (key, metadata[0].1));
        } else {
            match value_of(rest, key) {
                Some(value) => {
                    let i = choose|i: int|
                        {
                            &&& 0 <= i < rest.len()
                            &&& #[trigger] rest[i] == (key, value)
                            &&& forall|j: int| 0 <= j < i ==> (#[trigger] rest[j]).0 != key
                        };
                    assert(metadata[i + 1] == (key, value));
                    assert forall|j: int| 0 <= j < i + 1 implies (#[trigger] metadata[j]).0 != key by {
                        if j > 0 {
                            assert(rest[j - 1] == metadata[j]);
                        }
                    }
                },
                None => {
                    assert forall|j: int| 0 <= j < metadata.len() implies (#[trigger] metadata[j]).0
                        != key by {
                        if j > 0 {
                            assert(rest[j - 1] == metadata[j]);
                        }
                    }
                },
            }
        }
    }
}

/// The model of a field holds each of its parts.
pub proof fn law_a_fields_model_is_whole(field: Field)
    ensures
        field@.name == field.name@,
        field@.data_type == field.data_type,
        field@.nullable == field.nullable,
        field@.metadata == entries(field.metadata@),
{
}

/// The model of a schema holds each of its parts.
pub proof fn law_a_schemas_model_is_whole(schema: Schema)
    ensures
        schema@.fields == field_views(schema.fields@),
        schema@.metadata == entries(schema.metadata@),
{
}

/// The models stand in the order of what they are of, one for each.
pub proof fn law_field_views_stand_in_order(fields: Seq<Field>, at: int)
    requires
        0 <= at < fields.len(),
    ensures
        field_views(fields).len() == fields.len(),
        field_views(fields)[at] == fields[at]@,
{
}

/// The models of entries stand in their order, each with its key and its value,
/// and the names of fields in the order of the fields.
pub proof fn law_entries_stand_in_order(
    metadata: Seq<(String, String)>,
    fields: Seq<FieldView>,
    at: int,
    place: int,
)
    requires
        0 <= at < metadata.len(),
        0 <= place < fields.len(),
    ensures
        entries(metadata).len() == metadata.len(),
        entries(metadata)[at].0 == metadata[at].0@,
        entries(metadata)[at].1 == metadata[at].1@,
        names_of(fields).len() == fields.len(),
        names_of(fields)[place] == fields[place].name,
{
}

/// A key column is a text that is never null and is marked as the key; any other
/// is as it is described and marked with nothing.
pub proof fn law_a_key_column_is_marked(
    name: Seq<char>,
    data_type: DataType,
    nullable: bool,
    key: Seq<char>,
)
    ensures
        key_field(name).name == name,
        key_field(name).data_type == DataType::Scalar(Scalar::Utf8),
        !key_field(name).nullable,
        value_of(key_field(name).metadata, "lance-schema:unenforced-primary-key"@) == Some("true"@),
        plain(name, data_type, nullable).name == name,
        plain(name, data_type, nullable).data_type == data_type,
        plain(name, data_type, nullable).nullable == nullable,
        value_of(plain(name, data_type, nullable).metadata, key) is None,
{
    assert(key_field(name).metadata.len() == 1);
    assert(key_field(name).metadata.last() == ("lance-schema:unenforced-primary-key"@, "true"@));
}

/// The column of relationships is a list that takes nulls, each item a target and
/// a relation, both texts, and a weight.
pub proof fn law_the_column_of_relationships()
    ensures
        relationships_view().name == "relationships"@,
        relationships_view().nullable,
        relationships_view().metadata.len() == 0,
        relationships_view().data_type matches DataType::List(ItemType::Struct(shape), form) && form
            == Form::Own && shape.children == 3 && shape.first == Scalar::Utf8 && shape.second
            == Scalar::Utf8 && shape.third == Scalar::Float32,
        state_type().children == 4 && state_type().first == Scalar::Int32 && state_type().second
            == Scalar::Utf8 && state_type().third == Scalar::Int32 && state_type().fourth
            == Scalar::Utf8,
{
}

} // verus!
