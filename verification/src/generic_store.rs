//! A store over a schema that its user declares.
//!
//! The declaration is kept with the table in serialized form, so that it is
//! given once. Declarations are compared by their serialized text.

use vstd::prelude::*;

use crate::error::{schema_failure, Failure, StoreError};
use crate::schema::{
    entries, metadata_value, value_of, Entry, Field, FieldView, Schema,
    SchemaView,
};
use crate::shard::shard_of;
use crate::sql::{equality_filter, equals_text};
use crate::storage::{StorageBase, StorageBaseOptions};
use crate::text::{contains_text, join2, join3, opt_text, same_text, texts};

verus! {

/// How a store over a declared schema is opened.
#[derive(Debug, Clone, PartialEq)]
pub struct GenericStoreOptions {
    /// Credentials and settings of the object store.
    pub storage_options: Option<Vec<(String, String)>>,
    /// Stable identity of the writing instance, which decides the shard it
    /// writes to.
    pub shard_id: Option<String>,
    /// How many pending generations trigger a merge; none or zero disables it.
    pub merge_after_generations: Option<usize>,
    /// Whether an append to a new store is readable as soon as it returns.
    pub seal_on_add: bool,
}

impl Default for GenericStoreOptions {
    fn default() -> (options: Self)
        ensures
            options.storage_options is None,
            options.shard_id is None,
            options.merge_after_generations is None,
            !options.seal_on_add,
    {
        GenericStoreOptions {
            storage_options: None,
            shard_id: None,
            merge_after_generations: None,
            seal_on_add: false,
        }
    }
}

/// The entries with another key.
pub open spec fn other_key(key: Seq<char>) -> spec_fn(Entry) -> bool {
    |entry: Entry| entry.0 != key
}

/// A map with one more entry, which replaces an entry of the same key.
pub open spec fn with_entry(metadata: Seq<Entry>, key: Seq<char>, value: Seq<char>) -> Seq<Entry> {
    metadata.filter(other_key(key)).push((key, value))
}

/// Puts an entry into a map.
pub fn put_entry(metadata: Vec<(String, String)>, key: &str, value: &str) -> (result: Vec<
    (String, String),
>)
    ensures
        entries(result@) == with_entry(entries(metadata@), key@, value@),
{
    let ghost all = entries(metadata@);
    let ghost keep = other_key(key@);
    let mut result: Vec<(String, String)> = Vec::new();
    let mut index: usize = 0;
    proof {
        assert(all.take(0).filter(keep) =~= Seq::<Entry>::empty()) by {
            reveal(Seq::filter);
        }
        assert(entries(result@) =~= Seq::<Entry>::empty());
    }
    while index < metadata.len()
        invariant
            index <= metadata.len(),
            all == entries(metadata@),
            keep == other_key(key@),
            entries(result@) == all.take(index as int).filter(keep),
        decreases metadata.len() - index,
    {
        proof {
            assert(all.take(index + 1) =~= all.take(index as int).push(all[index as int]));
            all.take(index as int).lemma_filter_push(all[index as int], keep);
        }
        let ghost before = result@;
        if !same_text(metadata[index].0.as_str(), key) {
            result.push((metadata[index].0.clone(), metadata[index].1.clone()));
            assert(entries(result@) =~= entries(before).push(all[index as int]));
        }
        index = index + 1;
    }
    assert(all.take(all.len() as int) =~= all);
    let ghost before = result@;
    result.push((key.to_owned(), value.to_owned()));
    assert(entries(result@) =~= entries(before).push((key@, value@)));
    result
}

/// How a flag is written.
pub open spec fn flag_word(flag: bool) -> Seq<char> {
    if flag {
        "true"@
    } else {
        "false"@
    }
}

/// The flag that a word stands for.
pub open spec fn flag_read(word: Seq<char>) -> Option<bool> {
    if word == "true"@ {
        Some(true)
    } else if word == "false"@ {
        Some(false)
    } else {
        None
    }
}

/// The schema of a new table: the declared columns, with the declaration and
/// the sealing mode kept beside them.
pub open spec fn declared_table(columns: SchemaView, declaration: Seq<char>, seal_on_add: bool) -> SchemaView {
    SchemaView {
        fields: columns.fields,
        metadata: with_entry(
            with_entry(columns.metadata, "lance-context:schema_spec"@, declaration),
            "lance-context:seal_on_add"@,
            flag_word(seal_on_add),
        ),
    }
}

/// The schema of a new table, given the declared columns and the serialized
/// declaration, or the words of the serializer where it failed.
pub fn schema_with_spec(
    columns: Schema,
    declaration: Result<String, String>,
    seal_on_add: bool,
) -> (result: Result<Schema, StoreError>)
    ensures
        match declaration {
            Ok(text) => result is Ok && result->Ok_0@ == declared_table(
                columns@,
                text@,
                seal_on_add,
            ),
            Err(message) => result is Err && result->Err_0@ == schema_failure(
                "could not serialize schema: "@ + message@,
            ),
        },
{
    let text = match declaration {
        Ok(text) => text,
        Err(message) => {
            return Err(
                StoreError::schema(join2("could not serialize schema: ", message.as_str())),
            );
        },
    };
    let word = if seal_on_add {
        "true"
    } else {
        "false"
    };
    let kept = put_entry(columns.metadata, "lance-context:schema_spec", text.as_str());
    let metadata = put_entry(kept, "lance-context:seal_on_add", word);
    Ok(Schema { fields: columns.fields, metadata })
}

/// The sealing mode kept with a table; none where it was written before modes
/// were kept.
pub open spec fn kept_seal_mode(table: SchemaView) -> Option<bool> {
    match value_of(table.metadata, "lance-context:seal_on_add"@) {
        Some(word) => flag_read(word),
        None => None,
    }
}

/// Reads the sealing mode kept with a table.
pub fn seal_on_add_from_schema(table: &Schema) -> (mode: Option<bool>)
    ensures
        mode == kept_seal_mode(table@),
{
    match metadata_value(&table.metadata, "lance-context:seal_on_add") {
        Some(word) => if same_text(word.as_str(), "true") {
            Some(true)
        } else if same_text(word.as_str(), "false") {
            Some(false)
        } else {
            None
        },
        None => None,
    }
}

/// The sealing mode of a store: the one kept with its table, or else the
/// caller's. A new table is created with the caller's.
pub open spec fn seal_mode(table: SchemaView, requested: bool) -> bool {
    match kept_seal_mode(table) {
        Some(mode) => mode,
        None => requested,
    }
}

/// Where an opened store gets its columns from.
#[derive(Debug, Clone, Copy, PartialEq, Eq, Structural)]
pub enum SchemaSource {
    /// From the caller's declaration.
    Declared,
    /// From the table, which must exist.
    Table,
}

/// Where an opened store gets its columns from, given what the rules for
/// declarations say of the caller's, if there is one.
pub fn schema_source(declaration: &Option<Result<(), String>>, create_if_missing: bool) -> (result: Result<
    SchemaSource,
    StoreError,
>)
    ensures
        match declaration {
            Some(Err(message)) => result is Err && result->Err_0@ == schema_failure(message@),
            Some(Ok(_)) => result is Ok && result->Ok_0 == SchemaSource::Declared,
            None => if create_if_missing {
                result is Err && result->Err_0@ == schema_failure(
                    "a schema is required to create a store"@,
                )
            } else {
                result is Ok && result->Ok_0 == SchemaSource::Table
            },
        },
{
    match declaration {
        Some(Err(message)) => Err(StoreError::schema(message.clone())),
        Some(Ok(_)) => Ok(SchemaSource::Declared),
        None => if create_if_missing {
            Err(StoreError::schema("a schema is required to create a store".to_owned()))
        } else {
            Ok(SchemaSource::Table)
        },
    }
}

/// The declaration kept with a table, as text.
pub open spec fn kept_declaration(table: SchemaView) -> Result<Seq<char>, Failure> {
    match value_of(table.metadata, "lance-context:schema_spec"@) {
        Some(text) => Ok(text),
        None => Err(
            schema_failure(
                "dataset has no stored schema spec: it was not created as a generic store"@,
            ),
        ),
    }
}

/// Reads the declaration kept with a table, as text.
pub fn spec_from_schema(table: &Schema) -> (result: Result<String, StoreError>)
    ensures
        match kept_declaration(table@) {
            Ok(text) => result is Ok && result->Ok_0@ == text,
            Err(failure) => result is Err && result->Err_0@ == failure,
        },
{
    match metadata_value(&table.metadata, "lance-context:schema_spec") {
        Some(text) => Ok(text.clone()),
        None => Err(
            StoreError::schema(
                "dataset has no stored schema spec: it was not created as a generic store".to_owned(),
            ),
        ),
    }
}

/// Checks the declaration of an opened store, given how the kept one reads
/// (its text, or the words of the parser) and the caller's, if there is one.
/// A caller's declaration must be the kept one.
pub fn check_declaration(
    uri: &str,
    kept: Result<String, String>,
    requested: &Option<String>,
) -> (result: Result<String, StoreError>)
    ensures
        match kept {
            Err(message) => result is Err && result->Err_0@ == schema_failure(
                "stored schema spec is invalid: "@ + message@,
            ),
            Ok(text) => if *requested is Some && requested->Some_0@ != text@ {
                result is Err && result->Err_0@ == schema_failure(
                    "store at '"@ + uri@
                        + "' was created with a different schema; open it without a schema to use the persisted one"@,
                )
            } else {
                result is Ok && result->Ok_0@ == text@
            },
        },
{
    let text = match kept {
        Ok(text) => text,
        Err(message) => {
            return Err(
                StoreError::schema(join2("stored schema spec is invalid: ", message.as_str())),
            );
        },
    };
    match requested {
        Some(wanted) => {
            if !same_text(wanted.as_str(), text.as_str()) {
                return Err(
                    StoreError::schema(
                        join3(
                            "store at '",
                            uri,
                            "' was created with a different schema; open it without a schema to use the persisted one",
                        ),
                    ),
                );
            }
        },
        None => {},
    }
    Ok(text)
}

proof fn lemma_entry_found(metadata: Seq<Entry>, key: Seq<char>, value: Seq<char>)
    ensures
        value_of(with_entry(metadata, key, value), key) == Some(value),
{
    let kept = metadata.filter(other_key(key));
    assert forall|i: int| 0 <= i < kept.len() implies (#[trigger] kept[i]).0 != key by {
        metadata.lemma_filter_pred(other_key(key), i);
    }
    lemma_value_at_end(kept, key, value);
}

proof fn lemma_value_at_end(kept: Seq<Entry>, key: Seq<char>, value: Seq<char>)
    requires
        forall|i: int| 0 <= i < kept.len() ==> (#[trigger] kept[i]).0 != key,
    ensures
        value_of(kept.push((key, value)), key) == Some(value),
    decreases kept.len(),
{
    let all = kept.push((key, value));
    if kept.len() > 0 {
        assert(all[0] == kept[0]);
        assert(all.drop_first() =~= kept.drop_first().push((key, value)));
        assert forall|i: int| 0 <= i < kept.drop_first().len() implies (
        #[trigger] kept.drop_first()[i]).0 != key by {
            assert(kept.drop_first()[i] == kept[i + 1]);
        }
        lemma_value_at_end(kept.drop_first(), key, value);
    } else {
        assert(all[0] == (key, value));
    }
}

proof fn lemma_other_entry_stays(
    metadata: Seq<Entry>,
    key: Seq<char>,
    value: Seq<char>,
    other: Seq<char>,
)
    requires
        other != key,
    ensures
        value_of(with_entry(metadata, key, value), other) == value_of(metadata, other),
    decreases metadata.len(),
{
    reveal_with_fuel(value_of, 2);
    let keep = other_key(key);
    if metadata.len() == 0 {
        assert(metadata.filter(keep) =~= Seq::<Entry>::empty()) by {
            reveal(Seq::filter);
        }
        let all = with_entry(metadata, key, value);
        assert(all[0] == (key, value));
        assert(all.drop_first() =~= Seq::<Entry>::empty());
    } else {
        let rest = metadata.drop_first();
        lemma_other_entry_stays(rest, key, value, other);
        lemma_filter_first(metadata, keep);
        let all = with_entry(metadata, key, value);
        if keep(metadata[0]) {
            assert(all[0] == metadata[0]);
            assert(all.drop_first() =~= with_entry(rest, key, value));
        } else {
            assert(all =~= with_entry(rest, key, value));
        }
    }
}

proof fn lemma_filter_first(metadata: Seq<Entry>, keep: spec_fn(Entry) -> bool)
    requires
        metadata.len() > 0,
    ensures
        metadata.filter(keep) == (if keep(metadata[0]) {
            seq![metadata[0]] + metadata.drop_first().filter(keep)
        } else {
            metadata.drop_first().filter(keep)
        }),
    decreases metadata.len(),
{
    let rest = metadata.drop_first();
    let last = metadata.last();
    if metadata.len() == 1 {
        assert(rest =~= Seq::<Entry>::empty());
        assert(rest.filter(keep) =~= Seq::<Entry>::empty()) by {
            reveal(Seq::filter);
        }
        assert(metadata =~= Seq::<Entry>::empty().push(metadata[0]));
        Seq::<Entry>::empty().lemma_filter_push(metadata[0], keep);
        assert(Seq::<Entry>::empty().filter(keep) =~= Seq::<Entry>::empty()) by {
            reveal(Seq::filter);
        }
        assert(metadata.filter(keep) =~= if keep(metadata[0]) {
            seq![metadata[0]] + rest.filter(keep)
        } else {
            rest.filter(keep)
        });
    } else {
        let shorter = metadata.drop_last();
        lemma_filter_first(shorter, keep);
        assert(metadata =~= shorter.push(last));
        shorter.lemma_filter_push(last, keep);
        assert(rest =~= shorter.drop_first().push(last));
        shorter.drop_first().lemma_filter_push(last, keep);
        assert(metadata.filter(keep) =~= if keep(metadata[0]) {
            seq![metadata[0]] + rest.filter(keep)
        } else {
            rest.filter(keep)
        });
    }
}

/// A store keeps what it was created with: its declaration and its sealing
/// mode read back from the table of a new store, whatever a later caller asks
/// for.
pub proof fn law_declaration_is_kept(
    columns: SchemaView,
    declaration: Seq<char>,
    seal_on_add: bool,
    requested: bool,
)
    ensures
        kept_declaration(declared_table(columns, declaration, seal_on_add)) == Ok::<
            Seq<char>,
            Failure,
        >(declaration),
        seal_mode(declared_table(columns, declaration, seal_on_add), requested) == seal_on_add,
        declared_table(columns, declaration, seal_on_add).fields == columns.fields,
{
    let spec_key = "lance-context:schema_spec"@;
    let seal_key = "lance-context:seal_on_add"@;
    let first = with_entry(columns.metadata, spec_key, declaration);
    reveal_strlit("lance-context:schema_spec");
    reveal_strlit("lance-context:seal_on_add");
    assert("lance-context:schema_spec"@[15] == 'c');
    assert("lance-context:seal_on_add"@[15] == 'e');
    reveal_strlit("true");
    reveal_strlit("false");
    assert("true"@.len() == 4);
    assert("false"@.len() == 5);
    lemma_entry_found(columns.metadata, spec_key, declaration);
    lemma_other_entry_stays(first, seal_key, flag_word(seal_on_add), spec_key);
    lemma_entry_found(first, seal_key, flag_word(seal_on_add));
}

/// The columns of a lookup: the wanted ones, or those of a scan, and always the
/// id.
pub open spec fn lookup_names(columns: Seq<Seq<char>>) -> Seq<Seq<char>> {
    if columns.contains("id"@) {
        columns
    } else {
        columns.push("id"@)
    }
}

/// The columns of a lookup by id.
pub fn get_columns(wanted: Option<Vec<String>>, scan_columns: Vec<String>) -> (result: Vec<String>)
    ensures
        texts(result@) == lookup_names(
            match wanted {
                Some(columns) => texts(columns@),
                None => texts(scan_columns@),
            },
        ),
{
    let mut columns = match wanted {
        Some(columns) => columns,
        None => scan_columns,
    };
    let ghost before = columns@;
    if !contains_text(&columns, "id") {
        columns.push("id".to_owned());
        assert(texts(columns@) =~= texts(before).push("id"@));
    }
    columns
}

/// The filter of a lookup by id.
pub fn get_filter(id: &str) -> (filter: String)
    ensures
        filter@ == equals_text("id"@, id@),
{
    equality_filter("id", id)
}

/// The limit and offset that a scan gets, if it gets any: an offset alone goes
/// with the largest limit.
pub fn scan_window(limit: Option<usize>, offset: Option<usize>) -> (window: Option<
    (usize, Option<usize>),
>)
    ensures
        window == if limit is None && offset is None {
            None
        } else {
            Some(
                (
                    match limit {
                        Some(count) => count,
                        None => usize::MAX,
                    },
                    offset,
                ),
            )
        },
{
    match (limit, offset) {
        (None, None) => None,
        (Some(count), _) => Some((count, offset)),
        (None, Some(_)) => Some((usize::MAX, offset)),
    }
}

/// A scan gives the asked-for page of the rows, with a limit or without one.
pub proof fn law_scan_window_gives_the_page<T>(rows: Seq<T>, offset: Option<usize>)
    requires
        rows.len() <= usize::MAX,
    ensures
        crate::listing::page(rows, Some(usize::MAX), offset) == crate::listing::page(
            rows,
            None,
            offset,
        ),
{
}

/// Two maps hold the same entries.
pub open spec fn same_map(left: Seq<Entry>, right: Seq<Entry>) -> bool {
    forall|key: Seq<char>| #[trigger] value_of(left, key) == value_of(right, key)
}

/// Two columns are declared alike.
pub open spec fn same_field(left: FieldView, right: FieldView) -> bool {
    &&& left.name == right.name
    &&& left.data_type == right.data_type
    &&& left.nullable == right.nullable
    &&& same_map(left.metadata, right.metadata)
}

/// Two lists of columns are declared alike.
pub open spec fn same_fields(left: Seq<FieldView>, right: Seq<FieldView>) -> bool {
    &&& left.len() == right.len()
    &&& forall|i: int| 0 <= i < left.len() ==> same_field(#[trigger] left[i], right[i])
}

proof fn lemma_missing_key(metadata: Seq<Entry>, key: Seq<char>)
    requires
        forall|i: int| 0 <= i < metadata.len() ==> (#[trigger] metadata[i]).0 != key,
    ensures
        value_of(metadata, key) is None,
    decreases metadata.len(),
{
    if metadata.len() > 0 {
        assert forall|i: int| 0 <= i < metadata.drop_first().len() implies (
        #[trigger] metadata.drop_first()[i]).0 != key by {
            assert(metadata.drop_first()[i] == metadata[i + 1]);
        }
        lemma_missing_key(metadata.drop_first(), key);
    }
}

/// Whether each entry of `left` reads alike in `right`.
fn entries_found(left: &Vec<(String, String)>, right: &Vec<(String, String)>) -> (result: bool)
    ensures
        result == (forall|i: int|
            0 <= i < left@.len() ==> value_of(entries(left@), #[trigger] entries(left@)[i].0)
                == value_of(entries(right@), entries(left@)[i].0)),
{
    let ghost first = entries(left@);
    let ghost second = entries(right@);
    let mut index: usize = 0;
    while index < left.len()
        invariant
            index <= left.len(),
            first == entries(left@),
            second == entries(right@),
            forall|i: int|
                0 <= i < index ==> value_of(first, #[trigger] first[i].0) == value_of(
                    second,
                    first[i].0,
                ),
        decreases left.len() - index,
    {
        let key = left[index].0.as_str();
        assert(first[index as int].0 == key@);
        let alike = match (metadata_value(left, key), metadata_value(right, key)) {
            (Some(a), Some(b)) => same_text(a.as_str(), b.as_str()),
            (None, None) => true,
            _ => false,
        };
        if !alike {
            assert(value_of(first, first[index as int].0) != value_of(
                second,
                first[index as int].0,
            ));
            return false;
        }
        index = index + 1;
    }
    true
}

fn maps_alike(left: &Vec<(String, String)>, right: &Vec<(String, String)>) -> (result: bool)
    ensures
        result == same_map(entries(left@), entries(right@)),
{
    let ghost first = entries(left@);
    let ghost second = entries(right@);
    let there = entries_found(left, right);
    let back = entries_found(right, left);
    proof {
        if there && back {
            assert forall|key: Seq<char>| #[trigger] value_of(first, key) == value_of(second, key) by {
                if exists|i: int| 0 <= i < first.len() && (#[trigger] first[i]).0 == key {
                    let i = choose|i: int| 0 <= i < first.len() && (#[trigger] first[i]).0 == key;
                    assert(value_of(first, first[i].0) == value_of(second, first[i].0));
                } else if exists|i: int| 0 <= i < second.len() && (#[trigger] second[i]).0 == key {
                    let i = choose|i: int| 0 <= i < second.len() && (#[trigger] second[i]).0 == key;
                    assert(value_of(second, second[i].0) == value_of(first, second[i].0));
                } else {
                    lemma_missing_key(first, key);
                    lemma_missing_key(second, key);
                }
            }
        } else if same_map(first, second) {
            assert(there);
            assert(back);
        }
    }
    there && back
}

fn fields_alike(left: &Field, right: &Field) -> (result: bool)
    ensures
        result == same_field(left@, right@),
{
    same_text(left.name.as_str(), right.name.as_str()) && left.data_type == right.data_type
        && left.nullable == right.nullable && maps_alike(&left.metadata, &right.metadata)
}

/// Whether two tables have the same columns.
pub fn columns_alike(left: &Schema, right: &Schema) -> (result: bool)
    ensures
        result == same_fields(left@.fields, right@.fields),
{
    if left.fields.len() != right.fields.len() {
        return false;
    }
    let mut index: usize = 0;
    while index < left.fields.len()
        invariant
            index <= left.fields.len(),
            left@.fields.len() == right@.fields.len(),
            left.fields@.len() == right.fields@.len(),
            forall|i: int|
                0 <= i < index ==> same_field(#[trigger] left@.fields[i], right@.fields[i]),
        decreases left.fields.len() - index,
    {
        if !fields_alike(&left.fields[index], &right.fields[index]) {
            assert(!same_field(left@.fields[index as int], right@.fields[index as int]));
            return false;
        }
        index = index + 1;
    }
    true
}

/// Checks batches that are appended as they are: each must have exactly the
/// store's columns.
pub fn check_batches(batches: &Vec<Schema>, store: &Schema) -> (result: Result<(), StoreError>)
    ensures
        if forall|i: int|
            0 <= i < batches@.len() ==> same_fields(
                (#[trigger] batches@[i])@.fields,
                store@.fields,
            ) {
            result is Ok
        } else {
            result is Err && result->Err_0@ == schema_failure(
                "record batch schema does not match the store schema"@,
            )
        },
{
    let mut index: usize = 0;
    while index < batches.len()
        invariant
            index <= batches.len(),
            forall|i: int|
                0 <= i < index ==> same_fields((#[trigger] batches@[i])@.fields, store@.fields),
        decreases batches.len() - index,
    {
        if !columns_alike(&batches[index], store) {
            assert(!same_fields(batches@[index as int]@.fields, store@.fields));
            return Err(
                StoreError::schema(
                    "record batch schema does not match the store schema".to_owned(),
                ),
            );
        }
        index = index + 1;
    }
    Ok(())
}

/// A handle on a store over a declared schema.
#[derive(Debug, Clone, PartialEq)]
pub struct GenericStore {
    pub base: StorageBase,
    /// The declaration kept with the table.
    pub spec: String,
    /// The table's schema as it is stored.
    pub schema: Schema,
    pub seal_on_add: bool,
}

impl GenericStore {
    /// A handle on the table at `uri`, whose declaration was checked. Appends
    /// are keyed by `id`, and sealed one by one where the store was created
    /// so.
    pub fn open(
        uri: String,
        schema: Schema,
        declaration: String,
        options: GenericStoreOptions,
    ) -> (result: Result<GenericStore, StoreError>)
        ensures
            if schema@.has("id"@) {
                &&& result is Ok
                &&& result->Ok_0.base.uri@ == uri@
                &&& result->Ok_0.base.write_shard == shard_of(opt_text(options.shard_id))
                &&& result->Ok_0.base.storage_options == options.storage_options
                &&& result->Ok_0.base.key_column@ == "id"@
                &&& result->Ok_0.base.latest_schema is None
                &&& result->Ok_0.base.seal_on_put == result->Ok_0.seal_on_add
                &&& result->Ok_0.base.merge_after_generations == (
                match options.merge_after_generations {
                    Some(count) => count,
                    None => 0,
                })
                &&& result->Ok_0.base.is_fresh()
                &&& result->Ok_0.spec@ == declaration@
                &&& result->Ok_0.schema@ == schema@
                &&& result->Ok_0.seal_on_add == seal_mode(schema@, options.seal_on_add)
            } else {
                result is Err && result->Err_0@ == schema_failure(
                    "key column '"@ + "id"@ + "' is not present in the store schema"@,
                )
            },
    {
        let seal_on_add = match seal_on_add_from_schema(&schema) {
            Some(mode) => mode,
            None => options.seal_on_add,
        };
        let opened = StorageBase::new(
            uri,
            &schema,
            StorageBaseOptions {
                storage_options: options.storage_options,
                shard_id: options.shard_id,
                merge_after_generations: options.merge_after_generations,
                key_column: "id".to_owned(),
                latest_schema: None,
                seal_on_put: seal_on_add,
            },
        );
        match opened {
            Ok(base) => Ok(GenericStore { base, spec: declaration, schema, seal_on_add }),
            Err(error) => Err(error),
        }
    }

    /// The declaration that the store was created with.
    pub fn spec(&self) -> (declaration: &str)
        ensures
            declaration@ == self.spec@,
    {
        self.spec.as_str()
    }

    /// Whether an append is readable as soon as it returns.
    pub fn seal_on_add(&self) -> (result: bool)
        ensures
            result == self.seal_on_add,
    {
        self.seal_on_add
    }

    /// Where the table lies.
    pub fn uri(&self) -> (uri: String)
        ensures
            uri@ == self.base.uri@,
    {
        self.base.uri.clone()
    }

    /// Whether the handle was checked out to a version.
    pub fn is_version_pinned(&self) -> (result: bool)
        ensures
            result == (self.base.pinned_version is Some),
    {
        self.base.is_version_pinned()
    }
}

/// Putting an entry gives its key the value and leaves what every other key has.
pub proof fn law_an_entry_is_put_under_its_key(
    metadata: Seq<Entry>,
    key: Seq<char>,
    value: Seq<char>,
    other: Seq<char>,
)
    ensures
        value_of(with_entry(metadata, key, value), key) == Some(value),
        other != key ==> value_of(with_entry(metadata, key, value), other) == value_of(
            metadata,
            other,
        ),
{
    lemma_entry_found(metadata, key, value);
    if other != key {
        lemma_other_entry_stays(metadata, key, value, other);
    }
}

/// A store seals as its table says, and where the table says nothing that can be
/// read, as the caller asks.
pub proof fn law_a_store_seals_as_its_table_says(table: SchemaView, requested: bool)
    ensures
        value_of(table.metadata, "lance-context:seal_on_add"@) == Some("true"@) ==> seal_mode(
            table,
            requested,
        ),
        value_of(table.metadata, "lance-context:seal_on_add"@) == Some("false"@) ==> !seal_mode(
            table,
            requested,
        ),
        value_of(table.metadata, "lance-context:seal_on_add"@) != Some("true"@) && value_of(
            table.metadata,
            "lance-context:seal_on_add"@,
        ) != Some("false"@) ==> seal_mode(table, requested) == requested,
        value_of(table.metadata, "lance-context:seal_on_add"@) is None ==> kept_seal_mode(
            table,
        ) is None,
{
    reveal_strlit("true");
    reveal_strlit("false");
    assert("true"@.len() == 4);
    assert("false"@.len() == 5);
}

/// A lookup reads the asked-for columns in their order, and after them the id
/// where it is not among them.
pub proof fn law_a_lookup_reads_the_id(columns: Seq<Seq<char>>)
    ensures
        lookup_names(columns).contains("id"@),
        columns.is_prefix_of(lookup_names(columns)),
        lookup_names(columns).len() <= columns.len() + 1,
        columns.contains("id"@) ==> lookup_names(columns) == columns,
{
    if !columns.contains("id"@) {
        assert(columns.push("id"@)[columns.len() as int] == "id"@);
        assert(columns.push("id"@).take(columns.len() as int) =~= columns);
    }
}

/// Batches fit a store column by column: as many, each of one name and one type,
/// both nullable or neither, and with one value under each key.
pub proof fn law_columns_alike_agree_in_everything(
    left: Seq<FieldView>,
    right: Seq<FieldView>,
    at: int,
    key: Seq<char>,
)
    requires
        0 <= at < left.len(),
    ensures
        same_fields(left, right) ==> {
            &&& left.len() == right.len()
            &&& left[at].name == right[at].name
            &&& left[at].data_type == right[at].data_type
            &&& left[at].nullable == right[at].nullable
            &&& value_of(left[at].metadata, key) == value_of(right[at].metadata, key)
        },
        left == right ==> same_fields(left, right),
{
    if same_fields(left, right) {
        assert(same_field(left[at], right[at]));
        assert(value_of(left[at].metadata, key) == value_of(right[at].metadata, key));
    }
}

} // verus!
