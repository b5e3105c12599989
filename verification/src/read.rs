//! Reading single values back from a batch: times, JSON and relationships.

use vstd::prelude::*;

use crate::batch::{
    cell_at, cell_float, cell_int32, cell_text, link_views, opt_index, optional_column, required_column, valid_index,
    ArrayKind, Batch, BatchView, Cell, CellView, LinkCell, LinkView,
};
use crate::collect::{collected, lemma_failure_stays};
use crate::error::{invalid_argument, Failure, StoreError};
use crate::number::{decimal, decimal_i64};
use crate::outside::{compact_json, is_timestamp, json_compact, timestamp_in_range};
use crate::record::{relationship_views, Relationship, RelationshipView};
use crate::schema::{DataType, ItemType, Scalar};
use crate::text::{join2, join3, opt_text};

verus! {

/// The time that a count of microseconds stands for, or the failure of the
/// column that holds it.
pub open spec fn timestamp_read(value: i64, column: Seq<char>) -> Result<i64, Failure> {
    if timestamp_in_range(value) {
        Ok(value)
    } else {
        Err(
            invalid_argument(
                "invalid timestamp value "@ + decimal(value as int) + " in column '"@ + column + "'"@,
            ),
        )
    }
}

/// Reads a time from a count of microseconds.
pub fn timestamp_from_micros(value: i64, column: &str) -> (result: Result<i64, StoreError>)
    ensures
        match timestamp_read(value, column@) {
            Ok(micros) => result is Ok && result->Ok_0 == micros,
            Err(failure) => result is Err && result->Err_0@ == failure,
        },
{
    if is_timestamp(value) {
        Ok(value)
    } else {
        let digits = decimal_i64(value);
        let mut message = join3("invalid timestamp value ", digits.as_str(), " in column '");
        message.append(column);
        message.append("'");
        Err(StoreError::invalid_argument(message))
    }
}

/// The time of a column that may hold none.
pub open spec fn optional_timestamp_read(value: Option<i64>, column: Seq<char>) -> Result<
    Option<i64>,
    Failure,
> {
    match value {
        None => Ok(None),
        Some(micros) => match timestamp_read(micros, column) {
            Ok(time) => Ok(Some(time)),
            Err(failure) => Err(failure),
        },
    }
}

/// Reads the time of a column that may hold none.
pub fn optional_timestamp(value: Option<i64>, column: &str) -> (result: Result<
    Option<i64>,
    StoreError,
>)
    ensures
        match optional_timestamp_read(value, column@) {
            Ok(time) => result is Ok && result->Ok_0 == time,
            Err(failure) => result is Err && result->Err_0@ == failure,
        },
{
    match value {
        None => Ok(None),
        Some(micros) => match timestamp_from_micros(micros, column) {
            Ok(time) => Ok(Some(time)),
            Err(error) => Err(error),
        },
    }
}

/// The JSON document of a column that may hold none, or the failure of the
/// row it stands in: `intro`, the row's key, and the parser's own words.
pub open spec fn json_read(value: Option<Seq<char>>, intro: Seq<char>) -> Result<
    Option<Seq<char>>,
    Failure,
> {
    match value {
        None => Ok(None),
        Some(text) => match json_compact(text) {
            Ok(compact) => Ok(Some(compact)),
            Err(message) => Err(invalid_argument(intro + message)),
        },
    }
}

/// Reads the JSON document of a column that may hold none.
pub fn optional_json(value: Option<String>, intro: &str) -> (result: Result<
    Option<String>,
    StoreError,
>)
    ensures
        match json_read(opt_text(value), intro@) {
            Ok(document) => result is Ok && opt_text(result->Ok_0) == document,
            Err(failure) => result is Err && result->Err_0@ == failure,
        },
{
    match value {
        None => Ok(None),
        Some(text) => match compact_json(text.as_str()) {
            Ok(compact) => Ok(Some(compact)),
            Err(message) => Err(StoreError::invalid_argument(join2(intro, message.as_str()))),
        },
    }
}

/// Relationships as a list column holds them.
pub open spec fn links_of(relationships: Seq<RelationshipView>) -> Seq<Option<LinkView>> {
    Seq::new(
        relationships.len(),
        |i: int|
            Some(
                LinkView {
                    target_id: Some(relationships[i].target_id),
                    relation: Some(relationships[i].relation),
                    weight: relationships[i].weight,
                },
            ),
    )
}

/// The cell of a record's relationships.
pub fn relationships_cell(relationships: &Vec<Relationship>) -> (cell: Cell)
    ensures
        cell@ == CellView::Links(links_of(relationship_views(relationships@))),
{
    let ghost wanted = links_of(relationship_views(relationships@));
    let mut links: Vec<Option<LinkCell>> = Vec::new();
    let mut index: usize = 0;
    while index < relationships.len()
        invariant
            index <= relationships.len(),
            links.len() == index,
            wanted == links_of(relationship_views(relationships@)),
            forall|k: int| 0 <= k < index ==> #[trigger] link_views(links@)[k] == wanted[k],
        decreases relationships.len() - index,
    {
        let ghost before = links@;
        links.push(
            Some(
                LinkCell {
                    target_id: Some(relationships[index].target_id.clone()),
                    relation: Some(relationships[index].relation.clone()),
                    weight: relationships[index].weight,
                },
            ),
        );
        assert forall|k: int| 0 <= k < index + 1 implies #[trigger] link_views(links@)[k]
            == wanted[k] by {
            if k < index {
                assert(link_views(before)[k] == wanted[k]);
                assert(links@[k] == before[k]);
            }
        }
        index = index + 1;
    }
    assert(link_views(links@) =~= wanted);
    Cell::Links(links)
}

/// One entry of a relationship list: nothing for a null entry, else the
/// relationship, whose target and relation must be there.
pub open spec fn link_read(links: Seq<Option<LinkView>>) -> spec_fn(int) -> Result<
    Option<RelationshipView>,
    Failure,
> {
    |i: int|
        match links[i] {
            None => Ok(None),
            Some(link) => match (link.target_id, link.relation) {
                (None, _) => Err(
                    invalid_argument("relationships.target_id contains null values"@),
                ),
                (Some(_), None) => Err(
                    invalid_argument("relationships.relation contains null values"@),
                ),
                (Some(target_id), Some(relation)) => Ok(
                    Some(RelationshipView { target_id, relation, weight: link.weight }),
                ),
            },
        }
}

/// The values that are there, in order.
pub open spec fn present<T>(values: Seq<Option<T>>) -> Seq<T>
    decreases values.len(),
{
    if values.len() == 0 {
        Seq::empty()
    } else {
        match values.last() {
            Some(value) => present(values.drop_last()).push(value),
            None => present(values.drop_last()),
        }
    }
}

/// The failure of a relationships column whose items have the wrong shape.
pub open spec fn links_type_failure(data_type: DataType) -> Option<Failure> {
    match data_type {
        DataType::List(ItemType::Struct(shape), _) => if shape.first != Scalar::Utf8 {
            Some(invalid_argument("relationships.target_id column has unexpected data type"@))
        } else if shape.second != Scalar::Utf8 {
            Some(invalid_argument("relationships.relation column has unexpected data type"@))
        } else if shape.third != Scalar::Float32 {
            Some(invalid_argument("relationships.weight column has unexpected data type"@))
        } else {
            None
        },
        _ => Some(invalid_argument("relationships column does not contain struct values"@)),
    }
}

/// The relationships that one list of a column of this type holds.
pub open spec fn relationships_read(data_type: DataType, links: Seq<Option<LinkView>>) -> Result<
    Seq<RelationshipView>,
    Failure,
> {
    match links_type_failure(data_type) {
        Some(failure) => Err(failure),
        None => match collected(link_read(links), links.len()) {
            Ok(entries) => Ok(present(entries)),
            Err(failure) => Err(failure),
        },
    }
}

fn check_links_type(data_type: DataType) -> (result: Result<(), StoreError>)
    ensures
        crate::error::check_failure(result) == links_type_failure(data_type),
{
    match data_type {
        DataType::List(ItemType::Struct(shape), _) => if shape.first != Scalar::Utf8 {
            Err(
                StoreError::invalid_argument(
                    "relationships.target_id column has unexpected data type".to_owned(),
                ),
            )
        } else if shape.second != Scalar::Utf8 {
            Err(
                StoreError::invalid_argument(
                    "relationships.relation column has unexpected data type".to_owned(),
                ),
            )
        } else if shape.third != Scalar::Float32 {
            Err(
                StoreError::invalid_argument(
                    "relationships.weight column has unexpected data type".to_owned(),
                ),
            )
        } else {
            Ok(())
        },
        _ => Err(
            StoreError::invalid_argument(
                "relationships column does not contain struct values".to_owned(),
            ),
        ),
    }
}

/// Reads the relationships that one list of a column of this type holds. A
/// null entry is skipped; an entry without target or relation is an error.
pub fn relationships_from_list(data_type: DataType, links: &Vec<Option<LinkCell>>) -> (result: Result<
    Vec<Relationship>,
    StoreError,
>)
    ensures
        match relationships_read(data_type, link_views(links@)) {
            Ok(model) => result is Ok && relationship_views(result->Ok_0@) == model,
            Err(failure) => result is Err && result->Err_0@ == failure,
        },
{
    match check_links_type(data_type) {
        Err(error) => {
            return Err(error);
        },
        Ok(_) => {},
    }
    let ghost views = link_views(links@);
    let ghost step = link_read(views);
    let ghost mut entries: Seq<Option<RelationshipView>> = Seq::empty();
    let mut relationships: Vec<Relationship> = Vec::new();
    let mut index: usize = 0;
    assert(relationship_views(relationships@) =~= present(entries));
    while index < links.len()
        invariant
            index <= links.len(),
            links_type_failure(data_type) is None,
            views == link_views(links@),
            step == link_read(views),
            collected(step, index as nat) == Ok::<Seq<Option<RelationshipView>>, Failure>(entries),
            relationship_views(relationships@) == present(entries),
        decreases links.len() - index,
    {
        let ghost position = index as int;
        let ghost before = relationships@;
        let ghost done = entries;
        match &links[index] {
            None => {
                proof {
                    assert(views[position] is None);
                    entries = done.push(None);
                    assert(entries.drop_last() =~= done);
                }
            },
            Some(link) => {
                assert(views[position] == Some(link@));
                match (&link.target_id, &link.relation) {
                    (None, _) => {
                        proof {
                            assert(collected(step, (index + 1) as nat) is Err);
                            lemma_failure_stays(step, (index + 1) as nat, views.len());
                        }
                        return Err(
                            StoreError::invalid_argument(
                                "relationships.target_id contains null values".to_owned(),
                            ),
                        );
                    },
                    (Some(_), None) => {
                        proof {
                            assert(collected(step, (index + 1) as nat) is Err);
                            lemma_failure_stays(step, (index + 1) as nat, views.len());
                        }
                        return Err(
                            StoreError::invalid_argument(
                                "relationships.relation contains null values".to_owned(),
                            ),
                        );
                    },
                    (Some(target_id), Some(relation)) => {
                        let relationship = Relationship {
                            target_id: target_id.clone(),
                            relation: relation.clone(),
                            weight: link.weight,
                        };
                        proof {
                            entries = done.push(Some(relationship@));
                            assert(entries.drop_last() =~= done);
                        }
                        relationships.push(relationship);
                        assert(relationship_views(relationships@) =~= relationship_views(
                            before,
                        ).push(relationship@));
                    },
                }
            },
        }
        index = index + 1;
    }
    Ok(relationships)
}

/// The links that a cell holds.
pub open spec fn links_in(cell: CellView) -> Seq<Option<LinkView>> {
    match cell {
        CellView::Links(links) => links,
        _ => Seq::empty(),
    }
}

/// The relationships of a row whose relationships column may be missing or
/// null: none in either case.
pub open spec fn row_relationships_read(column: Option<(DataType, CellView)>) -> Result<
    Seq<RelationshipView>,
    Failure,
> {
    match column {
        None => Ok(Seq::empty()),
        Some((_, CellView::Null)) => Ok(Seq::empty()),
        Some((data_type, cell)) => relationships_read(data_type, links_in(cell)),
    }
}

/// The failure of a lookup, if it failed.
pub open spec fn failure_of<T>(result: Result<T, Failure>) -> Option<Failure> {
    match result {
        Ok(_) => None,
        Err(failure) => Some(failure),
    }
}

/// The first of two failures.
pub open spec fn first_failure(first: Option<Failure>, second: Option<Failure>) -> Option<Failure> {
    match first {
        Some(failure) => Some(failure),
        None => second,
    }
}

/// The cell of a named column in a row; null where the batch has no such
/// column of this kind.
pub open spec fn field_cell(batch: BatchView, name: Seq<char>, kind: ArrayKind, row: int) -> CellView {
    cell_at(batch, optional_column(batch, name, kind), row)
}

/// The text of a named column in a row.
pub open spec fn text_field(batch: BatchView, name: Seq<char>, row: int) -> Option<Seq<char>> {
    cell_text(field_cell(batch, name, ArrayKind::Text, row))
}

/// The large text of a named column in a row.
pub open spec fn large_text_field(batch: BatchView, name: Seq<char>, row: int) -> Option<Seq<char>> {
    cell_text(field_cell(batch, name, ArrayKind::LargeText, row))
}

/// The 32-bit integer of a named column in a row.
pub open spec fn int32_field(batch: BatchView, name: Seq<char>, row: int) -> Option<i32> {
    cell_int32(field_cell(batch, name, ArrayKind::Int32, row))
}

/// The 32-bit float of a named column in a row.
pub open spec fn float_field(batch: BatchView, name: Seq<char>, row: int) -> Option<u32> {
    cell_float(field_cell(batch, name, ArrayKind::Float32, row))
}

/// A 32-bit number that must be there; a null slot reads as zero.
pub open spec fn or_zero32(value: Option<i32>) -> i32 {
    match value {
        Some(number) => number,
        None => 0,
    }
}

/// A text that must be there; a null slot reads as the empty text.
pub open spec fn or_empty(text: Option<Seq<char>>) -> Seq<char> {
    match text {
        Some(value) => value,
        None => Seq::empty(),
    }
}

/// A number that must be there; a null slot reads as zero.
pub open spec fn or_zero(value: Option<i64>) -> i64 {
    match value {
        Some(number) => number,
        None => 0,
    }
}

/// `index` is where a required column stands.
pub open spec fn is_required(batch: BatchView, name: Seq<char>, kind: ArrayKind, index: usize) -> bool {
    &&& index < batch.columns.len()
    &&& required_column(batch, name, kind) == Ok::<int, Failure>(index as int)
}

/// `index` is where an optional column stands.
pub open spec fn is_optional(batch: BatchView, name: Seq<char>, kind: ArrayKind, index: Option<usize>) -> bool {
    &&& valid_index(batch, index)
    &&& optional_column(batch, name, kind) == opt_index(index)
}

/// The text, or the empty text where there is none.
pub fn text_or_empty(text: Option<String>) -> (result: String)
    ensures
        result@ == or_empty(opt_text(text)),
{
    match text {
        Some(value) => value,
        None => String::new(),
    }
}

/// The type and cell of a list column in one row.
pub open spec fn typed_cell(batch: BatchView, column: Option<int>, row: int) -> Option<
    (DataType, CellView),
> {
    match column {
        Some(index) => Some((batch.columns[index].data_type, batch.columns[index].cells[row])),
        None => None,
    }
}

/// Reads the relationships of a row.
pub fn row_relationships(batch: &Batch, column: Option<usize>, row: usize) -> (result: Result<
    Vec<Relationship>,
    StoreError,
>)
    requires
        batch@.well_formed(),
        valid_index(batch@, column),
        row < batch.rows,
    ensures
        match row_relationships_read(
            typed_cell(batch@, opt_index(column), row as int),
        ) {
            Ok(model) => result is Ok && relationship_views(result->Ok_0@) == model,
            Err(failure) => result is Err && result->Err_0@ == failure,
        },
{
    match column {
        None => {
            let none: Vec<Relationship> = Vec::new();
            assert(relationship_views(none@) =~= Seq::<RelationshipView>::empty());
            Ok(none)
        },
        Some(index) => {
            assert(batch@.columns[index as int].cells.len() == batch@.rows);
            match &batch.columns[index].cells[row] {
                Cell::Links(links) => relationships_from_list(
                    batch.columns[index].data_type,
                    links,
                ),
                Cell::Null => {
                    let none: Vec<Relationship> = Vec::new();
                    assert(relationship_views(none@) =~= Seq::<RelationshipView>::empty());
                    Ok(none)
                },
                _ => {
                    let none: Vec<Option<LinkCell>> = Vec::new();
                    assert(link_views(none@) =~= Seq::<Option<LinkView>>::empty());
                    relationships_from_list(batch.columns[index].data_type, &none)
                },
            }
        },
    }
}

/// Relationships written to a list column read back as they were.
pub proof fn law_relationships_read_back(relationships: Seq<RelationshipView>)
    ensures
        relationships_read(
            DataType::List(
                ItemType::Struct(crate::schema::relationship_type()),
                crate::schema::Form::Own,
            ),
            links_of(relationships),
        ) == Ok::<Seq<RelationshipView>, Failure>(relationships),
{
    let links = links_of(relationships);
    let entries = Seq::new(relationships.len(), |i: int| Some(relationships[i]));
    let step = link_read(links);
    assert forall|i: int| 0 <= i < links.len() implies #[trigger] step(i) == Ok::<
        Option<RelationshipView>,
        Failure,
    >(entries[i]) by {}
    crate::collect::lemma_all_succeed(step, links.len(), entries);
    lemma_all_present(relationships);
}

proof fn lemma_all_present<T>(values: Seq<T>)
    ensures
        present(Seq::new(values.len(), |i: int| Some(values[i]))) == values,
    decreases values.len(),
{
    let wrapped = Seq::new(values.len(), |i: int| Some(values[i]));
    if values.len() > 0 {
        let shorter = values.drop_last();
        lemma_all_present(shorter);
        assert(wrapped.drop_last() =~= Seq::new(shorter.len(), |i: int| Some(shorter[i])));
        assert(shorter.push(values.last()) =~= values);
    } else {
        assert(present(wrapped) =~= values);
    }
}

/// The role that a dictionary column holds in a row, null roles being
/// reported before dictionaries of another value type.
pub open spec fn role_read(data_type: DataType, cell: CellView) -> Result<Seq<char>, Failure> {
    match cell_text(cell) {
        None => Err(invalid_argument("role column contains null values"@)),
        Some(role) => if data_type == DataType::Dictionary(Scalar::Int8, Scalar::Utf8) {
            Ok(role)
        } else {
            Err(invalid_argument("role dictionary values are not strings"@))
        },
    }
}

/// A time is read as it is, exactly where it is a point in time.
pub proof fn law_a_time_is_read_as_it_is(value: i64, column: Seq<char>)
    ensures
        timestamp_read(value, column) is Ok <==> -8_334_601_228_800_000_000 <= value
            <= 8_210_266_876_799_999_999,
        timestamp_read(value, column) is Ok ==> timestamp_read(value, column)->Ok_0 == value,
        optional_timestamp_read(None, column) == Ok::<Option<i64>, Failure>(None),
        timestamp_read(value, column) is Ok
            ==> optional_timestamp_read(Some(value), column) == Ok::<
            Option<i64>,
            Failure,
        >(Some(value)),
        timestamp_read(value, column) is Err
            ==> optional_timestamp_read(Some(value), column) is Err,
{
}

/// A role is read exactly where it is a text out of a dictionary of texts.
pub proof fn law_a_role_is_a_text_of_the_dictionary(
    data_type: DataType,
    cell: CellView,
    role: Seq<char>,
)
    ensures
        role_read(data_type, cell) == Ok::<Seq<char>, Failure>(role)
            <==> cell == CellView::Text(role)
            && data_type == DataType::Dictionary(Scalar::Int8, Scalar::Utf8),
{
}

/// Entries that are null are passed over, and the others keep their order.
pub proof fn law_null_entries_are_passed_over<T>(values: Seq<Option<T>>, next: T)
    ensures
        present(Seq::<Option<T>>::empty()) == Seq::<T>::empty(),
        present(values.push(None)) == present(values),
        present(values.push(Some(next))) == present(values).push(next),
{
    assert(values.push(None).drop_last() =~= values);
    assert(values.push(Some(next)).drop_last() =~= values);
}

/// A list of links reads where each link has a target and a relation, and each is
/// read whole.
pub proof fn law_a_link_is_read_whole(links: Seq<Option<LinkView>>, at: int)
    requires
        0 <= at < links.len(),
    ensures
        links[at] is None ==> link_read(links)(at) == Ok::<Option<RelationshipView>, Failure>(None),
        links[at] matches Some(link) ==> (link_read(links)(at) is Ok <==> link.target_id is Some
            && link.relation is Some),
        links[at] matches Some(link) ==> (link_read(links)(at) matches Ok(read) ==> read is Some
            && link.target_id == Some(read->Some_0.target_id) && link.relation == Some(
            read->Some_0.relation,
        ) && read->Some_0.weight == link.weight),
        collected(link_read(links), links.len()) is Ok ==> link_read(links)(at) is Ok,
{
    if collected(link_read(links), links.len()) is Ok {
        crate::collect::lemma_success_holds_values(link_read(links), links.len());
    }
}

/// Relationships are written one link each, with target, relation and weight.
pub proof fn law_a_relationship_is_written_whole(relationships: Seq<RelationshipView>, at: int)
    requires
        0 <= at < relationships.len(),
    ensures
        links_of(relationships).len() == relationships.len(),
        links_of(relationships)[at] is Some,
        links_of(relationships)[at]->Some_0.target_id == Some(relationships[at].target_id),
        links_of(relationships)[at]->Some_0.relation == Some(relationships[at].relation),
        links_of(relationships)[at]->Some_0.weight == relationships[at].weight,
{
}

/// A field is read from the first column of its name if that has the type, and
/// from no other.
pub proof fn law_a_field_is_read_by_name_and_type(
    batch: BatchView,
    name: Seq<char>,
    kind: ArrayKind,
    row: int,
    at: int,
)
    ensures
        crate::schema::first_at(crate::batch::column_names(batch.columns), name, at) ==> field_cell(
            batch,
            name,
            kind,
            row,
        ) == if crate::batch::reads_as(batch.columns[at].data_type, kind) {
            batch.columns[at].cells[row]
        } else {
            CellView::Null
        },
        !crate::batch::column_names(batch.columns).contains(name) ==> field_cell(
            batch,
            name,
            kind,
            row,
        ) == CellView::Null,
{
    let names = crate::batch::column_names(batch.columns);
    if crate::schema::first_at(names, name, at) {
        crate::schema::lemma_find_name_is(names, name, at);
    }
    if !names.contains(name) {
        crate::schema::lemma_find_name_none(names, name);
    }
}

/// A row without relationships, for want of the column or of a value, has none;
/// any other has what its list holds.
pub proof fn law_a_row_has_the_relationships_of_its_list(
    data_type: DataType,
    links: Seq<Option<LinkView>>,
)
    ensures
        row_relationships_read(None) == Ok::<Seq<RelationshipView>, Failure>(Seq::empty()),
        row_relationships_read(Some((data_type, CellView::Null))) == Ok::<
            Seq<RelationshipView>,
            Failure,
        >(Seq::empty()),
        row_relationships_read(Some((data_type, CellView::Links(links)))) == relationships_read(
            data_type,
            links,
        ),
        relationships_read(data_type, links) matches Ok(read) ==> collected(
            link_read(links),
            links.len(),
        ) matches Ok(entries) && read == present(entries),
{
}

/// Relationships are read out of lists of a target, a relation and a weight, and
/// out of nothing else.
pub proof fn law_which_lists_hold_relationships(data_type: DataType)
    ensures
        links_type_failure(data_type) is None <==> (data_type matches DataType::List(
            ItemType::Struct(shape),
            _,
        ) && shape.first == Scalar::Utf8 && shape.second == Scalar::Utf8 && shape.third
            == Scalar::Float32),
{
}

/// A document is read in its compact form, a value that is missing as none, as an
/// empty text or as zero, and a cell together with the type of its column.
pub proof fn law_what_is_read_of_a_missing_value(
    text: Seq<char>,
    intro: Seq<char>,
    batch: BatchView,
    at: int,
    row: int,
    number: i64,
    small: i32,
)
    ensures
        json_read(None, intro) == Ok::<Option<Seq<char>>, Failure>(None),
        json_compact(text) matches Ok(compact) ==> json_read(Some(text), intro) == Ok::<
            Option<Seq<char>>,
            Failure,
        >(Some(compact)),
        json_compact(text) matches Err(message) ==> json_read(Some(text), intro) == Err::<
            Option<Seq<char>>,
            Failure,
        >(invalid_argument(intro + message)),
        or_empty(None) == Seq::<char>::empty(),
        or_empty(Some(text)) == text,
        or_zero(None) == 0,
        or_zero(Some(number)) == number,
        or_zero32(None) == 0,
        or_zero32(Some(small)) == small,
        typed_cell(batch, None, row) is None,
        typed_cell(batch, Some(at), row) == Some(
            (batch.columns[at].data_type, batch.columns[at].cells[row]),
        ),
{
}

} // verus!
