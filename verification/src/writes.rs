//! Rules for new, replaced, patched and forgotten records.

use vstd::prelude::*;

use crate::batch::{
    cell_at, cell_text, opt_index, optional_column, required_column, ArrayKind, Batch, BatchView,
    CellView,
};
use crate::collect::{
    collected, lemma_failure_stays, lemma_first_failure, lemma_success_holds_values,
};
use crate::error::{invalid_argument, Failure, StoreError};
use crate::listing::{
    law_picked_items_stand_at_kept_places, picked, superseded, superseded_ids,
};
use crate::record::{record_views, ContextRecord, RecordView};
use crate::text::{contains_text, join3, opt_is, opt_text, same_text, texts};

verus! {

/// The failure of a record that carries the content type of tombstones.
pub open spec fn reserved_failure(tombstone_type: Seq<char>) -> Failure {
    invalid_argument("content_type '"@ + tombstone_type + "' is reserved for internal tombstones"@)
}

fn reserved_error(tombstone_type: &str) -> (error: StoreError)
    ensures
        error@ == reserved_failure(tombstone_type@),
{
    StoreError::invalid_argument(
        join3("content_type '", tombstone_type, "' is reserved for internal tombstones"),
    )
}

/// The failure of an id that stands twice in a batch.
pub open spec fn duplicate_id(id: Seq<char>) -> Failure {
    invalid_argument("duplicate id '"@ + id + "' in batch"@)
}

/// The failure of an external id that stands twice in a batch.
pub open spec fn duplicate_external_id(external_id: Seq<char>) -> Failure {
    invalid_argument("duplicate external_id '"@ + external_id + "' in batch"@)
}

/// The failure of an id that the table already holds.
pub open spec fn id_exists(id: Seq<char>) -> Failure {
    invalid_argument("id '"@ + id + "' already exists"@)
}

/// The failure of an external id that the table already holds.
pub open spec fn external_id_exists(external_id: Seq<char>) -> Failure {
    invalid_argument("external_id '"@ + external_id + "' already exists"@)
}

/// The failure of an external id that several visible records carry.
pub open spec fn external_id_ambiguous(external_id: Seq<char>) -> Failure {
    invalid_argument("external_id '"@ + external_id + "' matches multiple visible records"@)
}

/// An earlier entry of the batch has the same id.
pub open spec fn id_seen(entries: Seq<RecordView>, at: int) -> bool {
    exists|j: int| 0 <= j < at && (#[trigger] entries[j]).id == entries[at].id
}

/// An earlier entry of the batch has the same external id.
pub open spec fn external_id_seen(entries: Seq<RecordView>, at: int) -> bool {
    exists|j: int|
        0 <= j < at && (#[trigger] entries[j]).external_id is Some && entries[j].external_id
            == entries[at].external_id
}

/// Whether an entry can stand in a batch behind the ones before it.
pub open spec fn batch_check(entries: Seq<RecordView>, tombstone_type: Seq<char>) -> spec_fn(
    int,
) -> Result<(), Failure> {
    |i: int|
        if entries[i].is_tombstone(tombstone_type) {
            Err(reserved_failure(tombstone_type))
        } else if id_seen(entries, i) {
            Err(duplicate_id(entries[i].id))
        } else if external_id_seen(entries, i) {
            Err(duplicate_external_id(entries[i].external_id->Some_0))
        } else {
            Ok(())
        }
}

fn seen_id(entries: &Vec<ContextRecord>, at: usize) -> (result: bool)
    requires
        at < entries@.len(),
    ensures
        result == id_seen(record_views(entries@), at as int),
{
    let ghost views = record_views(entries@);
    let mut index: usize = 0;
    while index < at
        invariant
            index <= at,
            at < entries@.len(),
            views == record_views(entries@),
            forall|j: int| 0 <= j < index ==> (#[trigger] views[j]).id != views[at as int].id,
        decreases at - index,
    {
        if same_text(entries[index].id.as_str(), entries[at].id.as_str()) {
            assert(views[index as int].id == views[at as int].id);
            return true;
        }
        index = index + 1;
    }
    false
}

fn seen_external_id(entries: &Vec<ContextRecord>, at: usize) -> (result: bool)
    requires
        at < entries@.len(),
    ensures
        result == external_id_seen(record_views(entries@), at as int),
{
    let ghost views = record_views(entries@);
    match &entries[at].external_id {
        None => {
            assert(views[at as int].external_id is None);
            false
        },
        Some(wanted) => {
            let mut index: usize = 0;
            while index < at
                invariant
                    index <= at,
                    at < entries@.len(),
                    views == record_views(entries@),
                    views[at as int].external_id == Some(wanted@),
                    forall|j: int|
                        0 <= j < index ==> !((#[trigger] views[j]).external_id is Some
                            && views[j].external_id == views[at as int].external_id),
                decreases at - index,
            {
                if opt_is(&entries[index].external_id, wanted.as_str()) {
                    assert(views[index as int].external_id == Some(wanted@));
                    return true;
                }
                index = index + 1;
            }
            false
        },
    }
}

/// Checks new entries against each other: none is a tombstone, and no id or
/// external id stands twice.
pub fn check_batch_keys(entries: &Vec<ContextRecord>, tombstone_type: &str) -> (result: Result<
    (),
    StoreError,
>)
    ensures
        match collected(batch_check(record_views(entries@), tombstone_type@), entries@.len()) {
            Ok(_) => result is Ok,
            Err(failure) => result is Err && result->Err_0@ == failure,
        },
{
    let ghost views = record_views(entries@);
    let ghost step = batch_check(views, tombstone_type@);
    let ghost mut seen: Seq<()> = Seq::empty();
    let mut index: usize = 0;
    while index < entries.len()
        invariant
            index <= entries.len(),
            views == record_views(entries@),
            step == batch_check(views, tombstone_type@),
            collected(step, index as nat) == Ok::<Seq<()>, Failure>(seen),
        decreases entries.len() - index,
    {
        assert(views[index as int] == entries@[index as int]@);
        let failed = if entries[index].is_tombstone(tombstone_type) {
            Some(reserved_error(tombstone_type))
        } else if seen_id(entries, index) {
            Some(
                StoreError::invalid_argument(
                    join3("duplicate id '", entries[index].id.as_str(), "' in batch"),
                ),
            )
        } else if seen_external_id(entries, index) {
            match &entries[index].external_id {
                Some(external_id) => Some(
                    StoreError::invalid_argument(
                        join3("duplicate external_id '", external_id.as_str(), "' in batch"),
                    ),
                ),
                None => None,
            }
        } else {
            None
        };
        match failed {
            Some(error) => {
                proof {
                    assert(step(index as int) == Err::<(), Failure>(error@));
                    assert(collected(step, (index + 1) as nat) is Err);
                    lemma_failure_stays(step, (index + 1) as nat, views.len());
                }
                return Err(error);
            },
            None => {},
        }
        proof {
            assert(step(index as int) == Ok::<(), Failure>(()));
            seen = seen.push(());
        }
        index = index + 1;
    }
    Ok(())
}

/// Whether an entry's keys are free in the table.
pub open spec fn collision_check(
    entries: Seq<RecordView>,
    ids: Seq<Seq<char>>,
    external_ids: Seq<Seq<char>>,
) -> spec_fn(int) -> Result<(), Failure> {
    |i: int|
        if ids.contains(entries[i].id) {
            Err(id_exists(entries[i].id))
        } else if entries[i].external_id is Some && external_ids.contains(
            entries[i].external_id->Some_0,
        ) {
            Err(external_id_exists(entries[i].external_id->Some_0))
        } else {
            Ok(())
        }
}

/// Checks new entries against the keys that the table already holds, and
/// reports the first collision in input order.
pub fn check_existing_keys(
    entries: &Vec<ContextRecord>,
    existing_ids: &Vec<String>,
    existing_external_ids: &Vec<String>,
) -> (result: Result<(), StoreError>)
    ensures
        match collected(
            collision_check(
                record_views(entries@),
                texts(existing_ids@),
                texts(existing_external_ids@),
            ),
            entries@.len(),
        ) {
            Ok(_) => result is Ok,
            Err(failure) => result is Err && result->Err_0@ == failure,
        },
{
    let ghost views = record_views(entries@);
    let ghost step = collision_check(views, texts(existing_ids@), texts(existing_external_ids@));
    let ghost mut seen: Seq<()> = Seq::empty();
    let mut index: usize = 0;
    while index < entries.len()
        invariant
            index <= entries.len(),
            views == record_views(entries@),
            step == collision_check(views, texts(existing_ids@), texts(existing_external_ids@)),
            collected(step, index as nat) == Ok::<Seq<()>, Failure>(seen),
        decreases entries.len() - index,
    {
        assert(views[index as int] == entries@[index as int]@);
        let failed = if contains_text(existing_ids, entries[index].id.as_str()) {
            Some(
                StoreError::invalid_argument(
                    join3("id '", entries[index].id.as_str(), "' already exists"),
                ),
            )
        } else {
            match &entries[index].external_id {
                Some(external_id) => if contains_text(existing_external_ids, external_id.as_str()) {
                    Some(
                        StoreError::invalid_argument(
                            join3("external_id '", external_id.as_str(), "' already exists"),
                        ),
                    )
                } else {
                    None
                },
                None => None,
            }
        };
        match failed {
            Some(error) => {
                proof {
                    assert(step(index as int) == Err::<(), Failure>(error@));
                    assert(collected(step, (index + 1) as nat) is Err);
                    lemma_failure_stays(step, (index + 1) as nat, views.len());
                }
                return Err(error);
            },
            None => {},
        }
        proof {
            assert(step(index as int) == Ok::<(), Failure>(()));
            seen = seen.push(());
        }
        index = index + 1;
    }
    Ok(())
}

/// Whether a row of a scan holds `key` and is no tombstone.
pub open spec fn holds_key(
    batch: BatchView,
    key_column: Option<int>,
    content_type: int,
    tombstone_type: Seq<char>,
    row: int,
    key: Seq<char>,
) -> bool {
    &&& cell_text(batch.columns[content_type].cells[row]) != Some(tombstone_type)
    &&& cell_text(cell_at(batch, key_column, row)) == Some(key)
}

/// Some row of the scan holds `key` and is no tombstone.
pub open spec fn key_in_batch(
    batch: BatchView,
    key_column: Option<int>,
    content_type: int,
    tombstone_type: Seq<char>,
    key: Seq<char>,
) -> bool {
    exists|row: int|
        0 <= row < batch.rows && #[trigger] holds_key(
            batch,
            key_column,
            content_type,
            tombstone_type,
            row,
            key,
        )
}

fn keys_in_batch(
    batch: &Batch,
    key_column: Option<usize>,
    content_type: usize,
    candidates: &Vec<String>,
    tombstone_type: &str,
) -> (result: Vec<String>)
    requires
        batch@.well_formed(),
        crate::batch::valid_index(batch@, key_column),
        content_type < batch@.columns.len(),
    ensures
        forall|key: Seq<char>| #[trigger]
            texts(result@).contains(key) <==> texts(candidates@).contains(key) && key_in_batch(
                batch@,
                opt_index(key_column),
                content_type as int,
                tombstone_type@,
                key,
            ),
{
    let ghost view = batch@;
    let ghost column = opt_index(key_column);
    let ghost kind = content_type as int;
    let ghost marker = tombstone_type@;
    let mut result: Vec<String> = Vec::new();
    let mut row: usize = 0;
    while row < batch.rows
        invariant
            row <= batch.rows,
            view == batch@,
            batch@.well_formed(),
            crate::batch::valid_index(batch@, key_column),
            content_type < batch@.columns.len(),
            column == opt_index(key_column),
            kind == content_type,
            marker == tombstone_type@,
            forall|key: Seq<char>| #[trigger]
                texts(result@).contains(key) <==> texts(candidates@).contains(key) && exists|r: int|
                    0 <= r < row && #[trigger] holds_key(view, column, kind, marker, r, key),
        decreases batch.rows - row,
    {
        let ghost before = result@;
        let ghost mut pushed: Option<Seq<char>> = None;
        let is_tombstone = opt_is(&batch.text_at(Some(content_type), row), tombstone_type);
        if !is_tombstone {
            match batch.text_at(key_column, row) {
                Some(key) => {
                    if contains_text(candidates, key.as_str()) {
                        proof {
                            pushed = Some(key@);
                        }
                        result.push(key);
                    }
                },
                None => {},
            }
        }
        proof {
            if pushed is Some {
                assert(texts(result@) =~= texts(before).push(pushed->Some_0));
                assert(holds_key(view, column, kind, marker, row as int, pushed->Some_0));
            }
            assert forall|key: Seq<char>| #[trigger]
                texts(result@).contains(key) <==> texts(candidates@).contains(key) && exists|r: int|
                    0 <= r < row + 1 && #[trigger] holds_key(view, column, kind, marker, r, key) by {
                assert(texts(before).contains(key) <==> texts(candidates@).contains(key)
                    && exists|r: int|
                    0 <= r < row && #[trigger] holds_key(view, column, kind, marker, r, key));
                if texts(before).contains(key) {
                    let at = choose|at: int|
                        0 <= at < texts(before).len() && texts(before)[at] == key;
                    assert(texts(result@)[at] == key);
                }
                if texts(result@).contains(key) && !texts(before).contains(key) {
                    let at = choose|at: int|
                        0 <= at < texts(result@).len() && texts(result@)[at] == key;
                    if at < texts(before).len() {
                        assert(texts(before)[at] == key);
                    }
                    assert(pushed == Some(key));
                }
                if texts(candidates@).contains(key) && holds_key(
                    view,
                    column,
                    kind,
                    marker,
                    row as int,
                    key,
                ) {
                    assert(pushed == Some(key));
                    assert(texts(result@)[texts(before).len() as int] == key);
                }
            }
        }
        row = row + 1;
    }
    result
}

/// Why a scan for existing ids cannot be read.
pub open spec fn id_scan_failure(batch: BatchView) -> Option<Failure> {
    match required_column(batch, "id"@, ArrayKind::Text) {
        Err(failure) => Some(failure),
        Ok(_) => match required_column(batch, "content_type"@, ArrayKind::Text) {
            Err(failure) => Some(failure),
            Ok(_) => None,
        },
    }
}

/// The column that holds the content type of a scan.
pub open spec fn content_type_column(batch: BatchView) -> int {
    match batch.find("content_type"@) {
        Some(index) => index,
        None => 0,
    }
}

/// Which candidate ids the rows of a scan already hold. A row that is a
/// tombstone holds none, so its id is free again.
pub fn existing_ids(batch: &Batch, candidates: &Vec<String>, tombstone_type: &str) -> (result: Result<
    Vec<String>,
    StoreError,
>)
    requires
        batch@.well_formed(),
    ensures
        match id_scan_failure(batch@) {
            Some(failure) => result is Err && result->Err_0@ == failure,
            None => result is Ok && forall|key: Seq<char>| #[trigger]
                texts(result->Ok_0@).contains(key) <==> texts(candidates@).contains(key)
                    && key_in_batch(
                    batch@,
                    batch@.find("id"@),
                    content_type_column(batch@),
                    tombstone_type@,
                    key,
                ),
        },
{
    let id = match batch.column_as("id", ArrayKind::Text) {
        Ok(index) => index,
        Err(error) => {
            return Err(error);
        },
    };
    let content_type = match batch.column_as("content_type", ArrayKind::Text) {
        Ok(index) => index,
        Err(error) => {
            return Err(error);
        },
    };
    Ok(keys_in_batch(batch, Some(id), content_type, candidates, tombstone_type))
}

/// Which candidate external ids the rows of a scan already hold.
pub fn existing_external_ids(batch: &Batch, candidates: &Vec<String>, tombstone_type: &str) -> (result: Result<
    Vec<String>,
    StoreError,
>)
    requires
        batch@.well_formed(),
    ensures
        match required_column(batch@, "content_type"@, ArrayKind::Text) {
            Err(failure) => result is Err && result->Err_0@ == failure,
            Ok(_) => result is Ok && forall|key: Seq<char>| #[trigger]
                texts(result->Ok_0@).contains(key) <==> texts(candidates@).contains(key)
                    && key_in_batch(
                    batch@,
                    optional_column(batch@, "external_id"@, ArrayKind::Text),
                    content_type_column(batch@),
                    tombstone_type@,
                    key,
                ),
        },
{
    let content_type = match batch.column_as("content_type", ArrayKind::Text) {
        Ok(index) => index,
        Err(error) => {
            return Err(error);
        },
    };
    let external_id = batch.column_as_optional("external_id", ArrayKind::Text);
    Ok(keys_in_batch(batch, external_id, content_type, candidates, tombstone_type))
}

/// A key is held by a row of the table that is no tombstone.
pub open spec fn key_held(rows: Seq<RecordView>, tombstone_type: Seq<char>, id: Seq<char>) -> bool {
    exists|i: int|
        0 <= i < rows.len() && (#[trigger] rows[i]).id == id && !rows[i].is_tombstone(
            tombstone_type,
        )
}

/// No two rows of the table that are no tombstones share an id.
pub open spec fn ids_unique(rows: Seq<RecordView>, tombstone_type: Seq<char>) -> bool {
    forall|i: int, j: int|
        0 <= i < j < rows.len() && !(#[trigger] rows[i]).is_tombstone(tombstone_type)
            && !(#[trigger] rows[j]).is_tombstone(tombstone_type) ==> rows[i].id != rows[j].id
}

/// Entries that pass both checks keep the ids of the table unique, whatever
/// the table holds besides.
pub proof fn law_checked_entries_keep_ids_unique(
    rows: Seq<RecordView>,
    entries: Seq<RecordView>,
    ids: Seq<Seq<char>>,
    external_ids: Seq<Seq<char>>,
    tombstone_type: Seq<char>,
)
    requires
        ids_unique(rows, tombstone_type),
        forall|i: int|
            0 <= i < entries.len() && key_held(rows, tombstone_type, (#[trigger] entries[i]).id)
                ==> ids.contains(entries[i].id),
        collected(batch_check(entries, tombstone_type), entries.len()) is Ok,
        collected(collision_check(entries, ids, external_ids), entries.len()) is Ok,
    ensures
        ids_unique(rows + entries, tombstone_type),
{
    let all = rows + entries;
    let first = batch_check(entries, tombstone_type);
    let second = collision_check(entries, ids, external_ids);
    lemma_success_holds_values(first, entries.len());
    lemma_success_holds_values(second, entries.len());
    assert forall|i: int, j: int|
        0 <= i < j < all.len() && !(#[trigger] all[i]).is_tombstone(tombstone_type)
            && !(#[trigger] all[j]).is_tombstone(tombstone_type) implies all[i].id != all[j].id by {
        if j < rows.len() {
            assert(all[i] == rows[i] && all[j] == rows[j]);
        } else {
            let q = j - rows.len();
            assert(all[j] == entries[q]);
            assert(first(q) is Ok);
            assert(second(q) is Ok);
            if i < rows.len() {
                assert(all[i] == rows[i]);
                if rows[i].id == entries[q].id {
                    assert(key_held(rows, tombstone_type, entries[q].id));
                }
            } else {
                let p = i - rows.len();
                assert(all[i] == entries[p]);
                if entries[p].id == entries[q].id {
                    assert(id_seen(entries, q));
                }
            }
        }
    }
}

/// The outcome of an upsert: the record to write, and the id it replaces.
#[derive(Debug, Clone, PartialEq)]
pub struct UpsertPlan {
    pub record: ContextRecord,
    pub replaced_id: Option<String>,
}

/// The model of an [`UpsertPlan`].
#[verifier::ext_equal]
pub struct PlanView {
    pub record: RecordView,
    pub replaced_id: Option<Seq<char>>,
}

impl View for UpsertPlan {
    type V = PlanView;

    open spec fn view(&self) -> PlanView {
        PlanView { record: self.record@, replaced_id: opt_text(self.replaced_id) }
    }
}

impl UpsertPlan {
    /// Whether the record is new rather than a replacement.
    pub fn inserted(&self) -> (result: bool)
        ensures
            result == (self@.replaced_id is None),
    {
        self.replaced_id.is_none()
    }
}

/// The record as an upsert writes it: what it replaces is decided here, not
/// by the caller.
pub open spec fn replacing(record: RecordView, replaced: Option<Seq<char>>) -> RecordView {
    RecordView { supersedes_id: replaced, superseded_by_id: None, ..record }
}

/// The listed records with an external id.
pub open spec fn with_external_id(rows: Seq<RecordView>, external_id: Seq<char>) -> Seq<RecordView> {
    picked(rows, |i: int| rows[i].external_id == Some(external_id), rows.len())
}

/// Why a single record cannot be upserted, before the table is looked at.
pub open spec fn upsert_failure(record: RecordView, tombstone_type: Seq<char>) -> Option<Failure> {
    match record.external_id {
        None => Some(invalid_argument("upsert_by_external_id requires external_id"@)),
        Some(external_id) => if external_id.len() == 0 {
            Some(invalid_argument("upsert_by_external_id requires a non-empty external_id"@))
        } else if record.is_tombstone(tombstone_type) {
            Some(reserved_failure(tombstone_type))
        } else {
            None
        },
    }
}

/// What an upsert writes, given the ids that exist and the listed records.
pub open spec fn upsert_planned(
    record: RecordView,
    tombstone_type: Seq<char>,
    ids: Seq<Seq<char>>,
    rows: Seq<RecordView>,
) -> Result<PlanView, Failure> {
    match upsert_failure(record, tombstone_type) {
        Some(failure) => Err(failure),
        None => if ids.contains(record.id) {
            Err(id_exists(record.id))
        } else {
            let found = with_external_id(rows, record.external_id->Some_0);
            if found.len() == 0 {
                Ok(PlanView { record: replacing(record, None), replaced_id: None })
            } else if found.len() == 1 {
                Ok(
                    PlanView {
                        record: replacing(record, Some(found[0].id)),
                        replaced_id: Some(found[0].id),
                    },
                )
            } else {
                Err(external_id_ambiguous(record.external_id->Some_0))
            }
        },
    }
}

/// Checks a single record before the table is looked at.
pub fn check_upsert(record: &ContextRecord, tombstone_type: &str) -> (result: Result<(), StoreError>)
    ensures
        crate::error::check_failure(result) == upsert_failure(record@, tombstone_type@),
{
    match &record.external_id {
        None => Err(
            StoreError::invalid_argument("upsert_by_external_id requires external_id".to_owned()),
        ),
        Some(external_id) => if external_id.as_str().is_empty() {
            Err(
                StoreError::invalid_argument(
                    "upsert_by_external_id requires a non-empty external_id".to_owned(),
                ),
            )
        } else if record.is_tombstone(tombstone_type) {
            Err(reserved_error(tombstone_type))
        } else {
            Ok(())
        },
    }
}

/// The first and the second listed record with an external id.
pub(crate) fn first_two(rows: &Vec<ContextRecord>, external_id: &str) -> (result: (Option<usize>, Option<usize>))
    ensures
        ({
            let found = with_external_id(record_views(rows@), external_id@);
            match result {
                (None, None) => found.len() == 0,
                (Some(first), None) => found.len() == 1 && first < rows@.len() && found[0]
                    == rows@[first as int]@,
                (Some(first), Some(_)) => found.len() >= 2 && first < rows@.len() && found[0]
                    == rows@[first as int]@,
                (None, Some(_)) => false,
            }
        }),
{
    let ghost views = record_views(rows@);
    let ghost keep = |i: int| views[i].external_id == Some(external_id@);
    let mut first: Option<usize> = None;
    let mut second: Option<usize> = None;
    let mut index: usize = 0;
    while index < rows.len()
        invariant
            index <= rows.len(),
            views == record_views(rows@),
            keep == (|i: int| views[i].external_id == Some(external_id@)),
            ({
                let found = picked(views, keep, index as nat);
                match (first, second) {
                    (None, None) => found.len() == 0,
                    (Some(at), None) => found.len() == 1 && at < rows@.len() && found[0]
                        == rows@[at as int]@,
                    (Some(at), Some(_)) => found.len() >= 2 && at < rows@.len() && found[0]
                        == rows@[at as int]@,
                    (None, Some(_)) => false,
                }
            }),
        decreases rows.len() - index,
    {
        assert(views[index as int] == rows@[index as int]@);
        if opt_is(&rows[index].external_id, external_id) {
            if first.is_none() {
                first = Some(index);
            } else if second.is_none() {
                second = Some(index);
            }
        }
        index = index + 1;
    }
    (first, second)
}

/// Decides what an upsert of a single record writes.
///
/// `existing_ids` are the ids found in the table among the record's own, and
/// `rows` the records a default read lists.
pub fn plan_upsert(
    record: ContextRecord,
    tombstone_type: &str,
    existing_ids: &Vec<String>,
    rows: &Vec<ContextRecord>,
) -> (result: Result<UpsertPlan, StoreError>)
    ensures
        match upsert_planned(record@, tombstone_type@, texts(existing_ids@), record_views(rows@)) {
            Ok(plan) => result is Ok && result->Ok_0@ == plan,
            Err(failure) => result is Err && result->Err_0@ == failure,
        },
{
    match check_upsert(&record, tombstone_type) {
        Err(error) => {
            return Err(error);
        },
        Ok(_) => {},
    }
    if contains_text(existing_ids, record.id.as_str()) {
        return Err(
            StoreError::invalid_argument(join3("id '", record.id.as_str(), "' already exists")),
        );
    }
    let ghost given = record@;
    let mut record = record;
    let external_id = match &record.external_id {
        Some(text) => text.clone(),
        None => String::new(),
    };
    record.supersedes_id = None;
    record.superseded_by_id = None;
    let (first, second) = first_two(rows, external_id.as_str());
    if second.is_some() {
        return Err(
            StoreError::invalid_argument(
                join3(
                    "external_id '",
                    external_id.as_str(),
                    "' matches multiple visible records",
                ),
            ),
        );
    }
    match first {
        None => {
            assert(record@ =~= replacing(given, None));
            Ok(UpsertPlan { record, replaced_id: None })
        },
        Some(index) => {
            record.supersedes_id = Some(rows[index].id.clone());
            assert(record@ =~= replacing(given, Some(rows@[index as int]@.id)));
            Ok(UpsertPlan { record, replaced_id: Some(rows[index].id.clone()) })
        },
    }
}

/// Whether a record can stand in a batch of upserts behind the ones before it.
pub open spec fn upsert_batch_check(records: Seq<RecordView>, tombstone_type: Seq<char>) -> spec_fn(
    int,
) -> Result<(), Failure> {
    |i: int|
        match records[i].external_id {
            None => Err(
                invalid_argument(
                    "upsert_many_by_external_id requires external_id on every record"@,
                ),
            ),
            Some(external_id) => if external_id.len() == 0 {
                Err(
                    invalid_argument(
                        "upsert_many_by_external_id requires a non-empty external_id"@,
                    ),
                )
            } else if records[i].is_tombstone(tombstone_type) {
                Err(reserved_failure(tombstone_type))
            } else if id_seen(records, i) {
                Err(duplicate_id(records[i].id))
            } else if external_id_seen(records, i) {
                Err(duplicate_external_id(external_id))
            } else {
                Ok(())
            },
        }
}

/// Checks a batch of upserts before the table is looked at.
pub fn check_upsert_batch(records: &Vec<ContextRecord>, tombstone_type: &str) -> (result: Result<
    (),
    StoreError,
>)
    ensures
        match collected(
            upsert_batch_check(record_views(records@), tombstone_type@),
            records@.len(),
        ) {
            Ok(_) => result is Ok,
            Err(failure) => result is Err && result->Err_0@ == failure,
        },
{
    let ghost views = record_views(records@);
    let ghost step = upsert_batch_check(views, tombstone_type@);
    let ghost mut seen: Seq<()> = Seq::empty();
    let mut index: usize = 0;
    while index < records.len()
        invariant
            index <= records.len(),
            views == record_views(records@),
            step == upsert_batch_check(views, tombstone_type@),
            collected(step, index as nat) == Ok::<Seq<()>, Failure>(seen),
        decreases records.len() - index,
    {
        let record = &records[index];
        assert(views[index as int] == record@);
        let failed = match &record.external_id {
            None => Some(
                StoreError::invalid_argument(
                    "upsert_many_by_external_id requires external_id on every record".to_owned(),
                ),
            ),
            Some(external_id) => if external_id.as_str().is_empty() {
                Some(
                    StoreError::invalid_argument(
                        "upsert_many_by_external_id requires a non-empty external_id".to_owned(),
                    ),
                )
            } else if record.is_tombstone(tombstone_type) {
                Some(reserved_error(tombstone_type))
            } else if seen_id(records, index) {
                Some(
                    StoreError::invalid_argument(
                        join3("duplicate id '", record.id.as_str(), "' in batch"),
                    ),
                )
            } else if seen_external_id(records, index) {
                Some(
                    StoreError::invalid_argument(
                        join3("duplicate external_id '", external_id.as_str(), "' in batch"),
                    ),
                )
            } else {
                None
            },
        };
        match failed {
            Some(error) => {
                proof {
                    assert(step(index as int) == Err::<(), Failure>(error@));
                    assert(collected(step, (index + 1) as nat) is Err);
                    lemma_failure_stays(step, (index + 1) as nat, views.len());
                }
                return Err(error);
            },
            None => {},
        }
        proof {
            assert(step(index as int) == Ok::<(), Failure>(()));
            seen = seen.push(());
        }
        index = index + 1;
    }
    Ok(())
}

/// Whether a row is the current record of an external id: visible and not
/// replaced by another row.
pub open spec fn current_at(
    rows: Seq<RecordView>,
    visible: Seq<bool>,
    external_id: Seq<char>,
) -> spec_fn(int) -> bool {
    |i: int|
        rows[i].external_id == Some(external_id) && visible[i] && !superseded(rows, rows[i].id)
}

/// The current records of an external id.
pub open spec fn current_records(
    rows: Seq<RecordView>,
    visible: Seq<bool>,
    external_id: Seq<char>,
) -> Seq<RecordView> {
    picked(rows, current_at(rows, visible, external_id), rows.len())
}

/// Some row that is no tombstone carries the external id.
pub open spec fn external_id_held(
    rows: Seq<RecordView>,
    tombstone_type: Seq<char>,
    external_id: Seq<char>,
) -> bool {
    exists|i: int|
        0 <= i < rows.len() && (#[trigger] rows[i]).external_id == Some(external_id)
            && !rows[i].is_tombstone(tombstone_type)
}

/// What one upsert of a batch writes.
pub open spec fn upsert_wired(
    records: Seq<RecordView>,
    rows: Seq<RecordView>,
    visible: Seq<bool>,
    tombstone_type: Seq<char>,
) -> spec_fn(int) -> Result<PlanView, Failure> {
    |i: int|
        {
            let external_id = match records[i].external_id {
                Some(text) => text,
                None => Seq::empty(),
            };
            let current = current_records(rows, visible, external_id);
            if current.len() > 1 {
                Err(external_id_ambiguous(external_id))
            } else if current.len() == 1 {
                Ok(
                    PlanView {
                        record: replacing(records[i], Some(current[0].id)),
                        replaced_id: Some(current[0].id),
                    },
                )
            } else if external_id_held(rows, tombstone_type, external_id) {
                Err(external_id_exists(external_id))
            } else {
                Ok(PlanView { record: replacing(records[i], None), replaced_id: None })
            }
        }
}

/// The first two current records of an external id, as positions, and whether
/// any row that is no tombstone carries it.
fn external_id_state(
    rows: &Vec<ContextRecord>,
    visible: &Vec<bool>,
    hidden: &Vec<String>,
    tombstone_type: &str,
    external_id: &str,
) -> (result: (Option<usize>, bool, bool))
    requires
        visible@.len() == rows@.len(),
        forall|id: Seq<char>|
            texts(hidden@).contains(id) <==> superseded(record_views(rows@), id),
    ensures
        ({
            let views = record_views(rows@);
            let current = current_records(views, visible@, external_id@);
            &&& result.2 == external_id_held(views, tombstone_type@, external_id@)
            &&& match result.0 {
                None => current.len() == 0 && !result.1,
                Some(first) => first < rows@.len() && current.len() >= 1 && current[0]
                    == rows@[first as int]@ && result.1 == (current.len() > 1),
            }
        }),
{
    let ghost views = record_views(rows@);
    let ghost keep = current_at(views, visible@, external_id@);
    let mut first: Option<usize> = None;
    let mut several = false;
    let mut held = false;
    let mut index: usize = 0;
    while index < rows.len()
        invariant
            index <= rows.len(),
            visible@.len() == rows@.len(),
            views == record_views(rows@),
            keep == current_at(views, visible@, external_id@),
            forall|id: Seq<char>| texts(hidden@).contains(id) <==> superseded(views, id),
            held == exists|i: int|
                0 <= i < index && (#[trigger] views[i]).external_id == Some(external_id@)
                    && !views[i].is_tombstone(tombstone_type@),
            ({
                let found = picked(views, keep, index as nat);
                match first {
                    None => found.len() == 0 && !several,
                    Some(at) => at < rows@.len() && found.len() >= 1 && found[0]
                        == rows@[at as int]@ && several == (found.len() > 1),
                }
            }),
        decreases rows.len() - index,
    {
        let row = &rows[index];
        let ghost held_before = held;
        assert(views[index as int] == row@);
        if opt_is(&row.external_id, external_id) {
            if !row.is_tombstone(tombstone_type) {
                held = true;
                assert(views[index as int].external_id == Some(external_id@));
            }
            if visible[index] && !contains_text(hidden, row.id.as_str()) {
                if first.is_none() {
                    first = Some(index);
                } else {
                    several = true;
                }
            }
        }
        proof {
            if held_before {
                let i = choose|i: int|
                    0 <= i < index && (#[trigger] views[i]).external_id == Some(external_id@)
                        && !views[i].is_tombstone(tombstone_type@);
                assert(views[i].external_id == Some(external_id@));
            }
        }
        index = index + 1;
    }
    (first, several, held)
}

/// What a batch of upserts writes, given the ids that exist, the rows that
/// carry one of its external ids, and which of those are visible.
pub open spec fn upserts_planned(
    records: Seq<RecordView>,
    tombstone_type: Seq<char>,
    ids: Seq<Seq<char>>,
    rows: Seq<RecordView>,
    visible: Seq<bool>,
) -> Result<Seq<PlanView>, Failure> {
    match collected(upsert_batch_check(records, tombstone_type), records.len()) {
        Err(failure) => Err(failure),
        Ok(_) => match collected(collision_check_ids(records, ids), records.len()) {
            Err(failure) => Err(failure),
            Ok(_) => collected(
                upsert_wired(records, rows, visible, tombstone_type),
                records.len(),
            ),
        },
    }
}

/// Whether a record's id is free in the table.
pub open spec fn collision_check_ids(records: Seq<RecordView>, ids: Seq<Seq<char>>) -> spec_fn(
    int,
) -> Result<(), Failure> {
    |i: int|
        if ids.contains(records[i].id) {
            Err(id_exists(records[i].id))
        } else {
            Ok(())
        }
}

fn check_new_ids(records: &Vec<ContextRecord>, existing_ids: &Vec<String>) -> (result: Result<
    (),
    StoreError,
>)
    ensures
        match collected(
            collision_check_ids(record_views(records@), texts(existing_ids@)),
            records@.len(),
        ) {
            Ok(_) => result is Ok,
            Err(failure) => result is Err && result->Err_0@ == failure,
        },
{
    let ghost views = record_views(records@);
    let ghost step = collision_check_ids(views, texts(existing_ids@));
    let ghost mut seen: Seq<()> = Seq::empty();
    let mut index: usize = 0;
    while index < records.len()
        invariant
            index <= records.len(),
            views == record_views(records@),
            step == collision_check_ids(views, texts(existing_ids@)),
            collected(step, index as nat) == Ok::<Seq<()>, Failure>(seen),
        decreases records.len() - index,
    {
        assert(views[index as int] == records@[index as int]@);
        if contains_text(existing_ids, records[index].id.as_str()) {
            let error = StoreError::invalid_argument(
                join3("id '", records[index].id.as_str(), "' already exists"),
            );
            proof {
                assert(step(index as int) == Err::<(), Failure>(error@));
                assert(collected(step, (index + 1) as nat) is Err);
                lemma_failure_stays(step, (index + 1) as nat, views.len());
            }
            return Err(error);
        }
        proof {
            assert(step(index as int) == Ok::<(), Failure>(()));
            seen = seen.push(());
        }
        index = index + 1;
    }
    Ok(())
}

/// The models of plans.
pub open spec fn plan_views(plans: Seq<UpsertPlan>) -> Seq<PlanView> {
    Seq::new(plans.len(), |i: int| plans[i]@)
}

/// Decides what a batch of upserts writes. Either every record gets a plan, in
/// input order, or nothing is to be written.
pub fn plan_upserts(
    records: &Vec<ContextRecord>,
    tombstone_type: &str,
    existing_ids: &Vec<String>,
    rows: &Vec<ContextRecord>,
    visible: &Vec<bool>,
) -> (result: Result<Vec<UpsertPlan>, StoreError>)
    requires
        visible@.len() == rows@.len(),
    ensures
        match upserts_planned(
            record_views(records@),
            tombstone_type@,
            texts(existing_ids@),
            record_views(rows@),
            visible@,
        ) {
            Ok(plans) => result is Ok && plan_views(result->Ok_0@) == plans,
            Err(failure) => result is Err && result->Err_0@ == failure,
        },
{
    match check_upsert_batch(records, tombstone_type) {
        Err(error) => {
            return Err(error);
        },
        Ok(_) => {},
    }
    match check_new_ids(records, existing_ids) {
        Err(error) => {
            return Err(error);
        },
        Ok(_) => {},
    }
    let ghost views = record_views(records@);
    let ghost held = record_views(rows@);
    let ghost step = upsert_wired(views, held, visible@, tombstone_type@);
    let hidden = superseded_ids(rows);
    let mut plans: Vec<UpsertPlan> = Vec::new();
    let mut index: usize = 0;
    assert(plan_views(plans@) =~= Seq::<PlanView>::empty());
    while index < records.len()
        invariant
            index <= records.len(),
            visible@.len() == rows@.len(),
            views == record_views(records@),
            held == record_views(rows@),
            step == upsert_wired(views, held, visible@, tombstone_type@),
            forall|id: Seq<char>| texts(hidden@).contains(id) <==> superseded(held, id),
            collected(upsert_batch_check(views, tombstone_type@), views.len()) is Ok,
            collected(collision_check_ids(views, texts(existing_ids@)), views.len()) is Ok,
            collected(step, index as nat) == Ok::<Seq<PlanView>, Failure>(plan_views(plans@)),
        decreases records.len() - index,
    {
        let ghost at = index as int;
        assert(views[at] == records@[at]@);
        let mut record = records[index].copy();
        let external_id = match &record.external_id {
            Some(text) => text.clone(),
            None => String::new(),
        };
        proof {
            let wanted = match views[at].external_id {
                Some(text) => text,
                None => Seq::empty(),
            };
            assert(external_id@ =~= wanted);
        }
        let (first, several, taken) = external_id_state(
            rows,
            visible,
            &hidden,
            tombstone_type,
            external_id.as_str(),
        );
        record.superseded_by_id = None;
        let planned = match first {
            Some(found) => if several {
                Err(
                    StoreError::invalid_argument(
                        join3(
                            "external_id '",
                            external_id.as_str(),
                            "' matches multiple visible records",
                        ),
                    ),
                )
            } else {
                record.supersedes_id = Some(rows[found].id.clone());
                assert(record@ =~= replacing(views[at], Some(rows@[found as int]@.id)));
                Ok(UpsertPlan { record, replaced_id: Some(rows[found].id.clone()) })
            },
            None => if taken {
                Err(
                    StoreError::invalid_argument(
                        join3("external_id '", external_id.as_str(), "' already exists"),
                    ),
                )
            } else {
                record.supersedes_id = None;
                assert(record@ =~= replacing(views[at], None));
                Ok(UpsertPlan { record, replaced_id: None })
            },
        };
        match planned {
            Ok(plan) => {
                let ghost before = plans@;
                assert(step(at) == Ok::<PlanView, Failure>(plan@));
                plans.push(plan);
                assert(plan_views(plans@) =~= plan_views(before).push(plan@));
            },
            Err(error) => {
                proof {
                    assert(step(at) == Err::<PlanView, Failure>(error@));
                    assert(collected(step, (index + 1) as nat) is Err);
                    lemma_failure_stays(step, (index + 1) as nat, views.len());
                }
                return Err(error);
            },
        }
        index = index + 1;
    }
    Ok(plans)
}

/// The listed records with an external id are two or more exactly where two
/// different places have it, and one where only one place has it.
pub proof fn lemma_with_external_id(rows: Seq<RecordView>, external_id: Seq<char>)
    ensures
        ({
            let found = with_external_id(rows, external_id);
            &&& found.len() == 0 <==> forall|i: int|
                0 <= i < rows.len() ==> (#[trigger] rows[i]).external_id != Some(external_id)
            &&& found.len() > 1 <==> exists|i: int, j: int|
                0 <= i < j < rows.len() && (#[trigger] rows[i]).external_id == Some(external_id)
                    && (
                #[trigger] rows[j]).external_id == Some(external_id)
            &&& found.len() == 1 ==> exists|i: int|
                0 <= i < rows.len() && (#[trigger] rows[i]).external_id == Some(external_id)
                    && found[0] == rows[i]
        }),
{
    lemma_picked_count(rows, |i: int| rows[i].external_id == Some(external_id));
    let keep = |i: int| rows[i].external_id == Some(external_id);
    let found = with_external_id(rows, external_id);
    if found.len() == 1 {
        let i = choose|i: int| 0 <= i < rows.len() && #[trigger] keep(i) && found[0] == rows[i];
        assert(rows[i].external_id == Some(external_id));
    }
    if found.len() > 1 {
        let (i, j) = choose|i: int, j: int|
            0 <= i < j < rows.len() && #[trigger] keep(i) && #[trigger] keep(j);
        assert(rows[i].external_id == Some(external_id)
            && rows[j].external_id == Some(external_id));
    }
    if exists|i: int, j: int|
        0 <= i < j < rows.len() && (#[trigger] rows[i]).external_id == Some(external_id) && (
        #[trigger] rows[j]).external_id == Some(external_id) {
        let (i, j) = choose|i: int, j: int|
            0 <= i < j < rows.len() && (#[trigger] rows[i]).external_id == Some(external_id) && (
            #[trigger] rows[j]).external_id == Some(external_id);
        assert(keep(i) && keep(j));
    }
    assert forall|i: int| 0 <= i < rows.len() && found.len() == 0 implies (
    #[trigger] rows[i]).external_id != Some(external_id) by {
        assert(!keep(i));
    }
    if found.len() > 0 {
        let i = choose|i: int| 0 <= i < rows.len() && #[trigger] keep(i) && found[0] == rows[i];
        assert(rows[i].external_id == Some(external_id));
    }
}

/// How many items are picked tells how many places are kept.
pub proof fn lemma_picked_count(rows: Seq<RecordView>, keep: spec_fn(int) -> bool)
    ensures
        ({
            let found = picked(rows, keep, rows.len());
            &&& found.len() == 0 <==> forall|i: int| 0 <= i < rows.len() ==> !#[trigger] keep(i)
            &&& found.len() > 1 <==> exists|i: int, j: int|
                0 <= i < j < rows.len() && #[trigger] keep(i) && #[trigger] keep(j)
            &&& found.len() > 0 ==> exists|i: int|
                0 <= i < rows.len() && #[trigger] keep(i) && found[0] == rows[i]
        }),
{
    let places = law_picked_items_stand_at_kept_places(rows, keep);
    let found = picked(rows, keep, rows.len());
    if found.len() == 0 {
        assert forall|i: int| 0 <= i < rows.len() implies !#[trigger] keep(i) by {
            if keep(i) {
                assert(places.contains(i));
            }
        }
    } else {
        assert(keep(places[0]));
        if found.len() > 1 {
            assert(keep(places[1]));
            assert(places[0] < places[1]);
        } else {
            assert forall|i: int, j: int|
                0 <= i < j < rows.len() && #[trigger] keep(i)
                    && #[trigger] keep(j) implies false by {
                assert(places.contains(i) && places.contains(j));
            }
        }
    }
}

/// Why a batch of new records is taken: none of them is a tombstone, no two have
/// one id, and no two have one external id.
pub proof fn law_a_batch_is_taken_where_its_keys_differ(
    entries: Seq<RecordView>,
    tombstone_type: Seq<char>,
)
    ensures
        collected(batch_check(entries, tombstone_type), entries.len()) is Ok <==> {
            &&& forall|i: int|
                0 <= i < entries.len() ==> (#[trigger] entries[i]).content_type != tombstone_type
            &&& forall|i: int, j: int|
                0 <= i < j < entries.len() ==> (#[trigger] entries[i]).id != (
                #[trigger] entries[j]).id
            &&& forall|i: int, j: int|
                0 <= i < j < entries.len() && (#[trigger] entries[i]).external_id is Some ==> (
                #[trigger] entries[j]).external_id != entries[i].external_id
        },
{
    let step = batch_check(entries, tombstone_type);
    let count = entries.len();
    if collected(step, count) is Ok {
        lemma_success_holds_values(step, count);
        assert forall|i: int| 0 <= i < count implies (#[trigger] entries[i]).content_type
            != tombstone_type by {
            assert(step(i) is Ok);
        }
        assert forall|i: int, j: int| 0 <= i < j < count implies (#[trigger] entries[i]).id != (
        #[trigger] entries[j]).id by {
            assert(step(j) is Ok);
            assert(!id_seen(entries, j));
        }
        assert forall|i: int, j: int|
            0 <= i < j < count && (#[trigger] entries[i]).external_id is Some implies (
        #[trigger] entries[j]).external_id != entries[i].external_id by {
            assert(step(j) is Ok);
            assert(!external_id_seen(entries, j));
        }
    } else {
        let at = lemma_first_failure(step, count);
        if id_seen(entries, at) {
            let j = choose|j: int| 0 <= j < at && (#[trigger] entries[j]).id == entries[at].id;
            assert(entries[j].id == entries[at].id);
        } else if external_id_seen(entries, at) {
            let j = choose|j: int|
                0 <= j < at && (#[trigger] entries[j]).external_id is Some && entries[j].external_id
                    == entries[at].external_id;
            assert(entries[j].external_id == entries[at].external_id);
        }
    }
}

/// New records are taken where neither their ids nor their external ids are
/// among those that the table holds.
pub proof fn law_entries_are_taken_where_their_keys_are_free(
    entries: Seq<RecordView>,
    ids: Seq<Seq<char>>,
    external_ids: Seq<Seq<char>>,
)
    ensures
        collected(collision_check(entries, ids, external_ids), entries.len()) is Ok <==> {
            &&& forall|i: int| 0 <= i < entries.len() ==> !ids.contains((#[trigger] entries[i]).id)
            &&& forall|i: int|
                0 <= i < entries.len() && (#[trigger] entries[i]).external_id is Some
                    ==> !external_ids.contains(entries[i].external_id->Some_0)
        },
{
    let step = collision_check(entries, ids, external_ids);
    if collected(step, entries.len()) is Ok {
        lemma_success_holds_values(step, entries.len());
        assert forall|i: int| 0 <= i < entries.len() implies !ids.contains(
            (#[trigger] entries[i]).id,
        ) && (entries[i].external_id is Some ==> !external_ids.contains(
            entries[i].external_id->Some_0,
        )) by {
            assert(step(i) is Ok);
        }
    } else {
        let at = lemma_first_failure(step, entries.len());
        assert(entries[at] == entries[at]);
    }
}

/// The model of a plan holds each of its parts.
pub proof fn law_a_plans_model_is_whole(plan: UpsertPlan)
    ensures
        plan@.record == plan.record@,
        plan@.replaced_id is Some <==> plan.replaced_id is Some,
        plan.replaced_id is Some ==> plan@.replaced_id->Some_0 == plan.replaced_id->Some_0@,
{
}

/// The models stand in the order of what they are of, one for each.
pub proof fn law_plan_views_stand_in_order(plans: Seq<UpsertPlan>, at: int)
    requires
        0 <= at < plans.len(),
    ensures
        plan_views(plans).len() == plans.len(),
        plan_views(plans)[at] == plans[at]@,
{
}

/// A key is held by a batch where a row that is no tombstone has it in the key
/// column.
pub proof fn law_a_key_is_held_by_a_row_that_is_no_tombstone(
    batch: BatchView,
    key_at: int,
    type_at: int,
    tombstone_type: Seq<char>,
    key: Seq<char>,
)
    requires
        crate::schema::first_at(
            crate::batch::column_names(batch.columns),
            "content_type"@,
            type_at,
        ),
    ensures
        content_type_column(batch) == type_at,
        key_in_batch(batch, Some(key_at), type_at, tombstone_type, key) <==> exists|row: int|
            {
                &&& 0 <= row < batch.rows
                &&& #[trigger] batch.columns[key_at].cells[row] == CellView::Text(key)
                &&& batch.columns[type_at].cells[row] != CellView::Text(tombstone_type)
            },
        !key_in_batch(batch, None, type_at, tombstone_type, key),
{
    crate::schema::lemma_find_name_is(
        crate::batch::column_names(batch.columns),
        "content_type"@,
        type_at,
    );
    if key_in_batch(batch, Some(key_at), type_at, tombstone_type, key) {
        let row = choose|row: int|
            0 <= row < batch.rows && #[trigger] holds_key(
                batch,
                Some(key_at),
                type_at,
                tombstone_type,
                row,
                key,
            );
        assert(batch.columns[key_at].cells[row] == CellView::Text(key));
    }
    if exists|row: int|
        {
            &&& 0 <= row < batch.rows
            &&& #[trigger] batch.columns[key_at].cells[row] == CellView::Text(key)
            &&& batch.columns[type_at].cells[row] != CellView::Text(tombstone_type)
        } {
        let row = choose|row: int|
            {
                &&& 0 <= row < batch.rows
                &&& #[trigger] batch.columns[key_at].cells[row] == CellView::Text(key)
                &&& batch.columns[type_at].cells[row] != CellView::Text(tombstone_type)
            };
        assert(holds_key(batch, Some(key_at), type_at, tombstone_type, row, key));
    }
}

/// A scan for keys needs the id and the content type, both as texts.
pub proof fn law_a_scan_for_keys_needs_both_columns(batch: BatchView)
    ensures
        id_scan_failure(batch) is None <==> {
            &&& batch.find("id"@) is Some
            &&& batch.columns[batch.find("id"@)->Some_0].data_type
                == crate::schema::DataType::Scalar(
                crate::schema::Scalar::Utf8,
            )
            &&& batch.find("content_type"@) is Some
            &&& batch.columns[batch.find("content_type"@)->Some_0].data_type
                == crate::schema::DataType::Scalar(crate::schema::Scalar::Utf8)
        },
{
}

/// A batch is refused for its first record that cannot be taken: for being a
/// tombstone first, then for its id and then for its external id.
pub proof fn law_a_batch_is_refused_for_its_first_fault(
    entries: Seq<RecordView>,
    tombstone_type: Seq<char>,
    at: int,
)
    requires
        0 <= at < entries.len(),
        forall|i: int| 0 <= i < at ==> (#[trigger] entries[i]).content_type != tombstone_type,
        forall|i: int, j: int|
            0 <= i < j < at ==> (#[trigger] entries[i]).id != (#[trigger] entries[j]).id,
        forall|i: int, j: int|
            0 <= i < j < at && (#[trigger] entries[i]).external_id is Some ==> (
            #[trigger] entries[j]).external_id != entries[i].external_id,
    ensures
        ({
            let result = collected(batch_check(entries, tombstone_type), entries.len());
            let repeated = exists|j: int|
                0 <= j < at && (#[trigger] entries[j]).id == entries[at].id;
            let shared = entries[at].external_id is Some && exists|j: int|
                0 <= j < at && (#[trigger] entries[j]).external_id == entries[at].external_id;
            &&& entries[at].content_type == tombstone_type ==> result == Err::<Seq<()>, Failure>(
                invalid_argument(
                    "content_type '"@ + tombstone_type + "' is reserved for internal tombstones"@,
                ),
            )
            &&& entries[at].content_type != tombstone_type && repeated ==> result == Err::<
                Seq<()>,
                Failure,
            >(invalid_argument("duplicate id '"@ + entries[at].id + "' in batch"@))
            &&& entries[at].content_type != tombstone_type && !repeated && shared
                ==> result == Err::<
                Seq<()>,
                Failure,
            >(
                invalid_argument(
                    "duplicate external_id '"@ + entries[at].external_id->Some_0 + "' in batch"@,
                ),
            )
        }),
{
    let step = batch_check(entries, tombstone_type);
    law_a_batch_is_taken_where_its_keys_differ(entries.take(at), tombstone_type);
    let earlier = entries.take(at);
    assert forall|i: int| 0 <= i < at implies (#[trigger] earlier[i]).content_type
        != tombstone_type by {
        assert(earlier[i] == entries[i]);
    }
    assert forall|i: int| 0 <= i < at implies #[trigger] step(i) == Ok::<(), Failure>(
        Seq::new(at as nat, |k: int| ())[i],
    ) by {
        assert(entries[i].content_type != tombstone_type);
        if id_seen(entries, i) {
            let j = choose|j: int| 0 <= j < i && (#[trigger] entries[j]).id == entries[i].id;
            assert(entries[j].id != entries[i].id);
        }
        if external_id_seen(entries, i) {
            let j = choose|j: int|
                0 <= j < i && (#[trigger] entries[j]).external_id is Some && entries[j].external_id
                    == entries[i].external_id;
            assert(entries[i].external_id != entries[j].external_id);
        }
    }
    crate::collect::lemma_all_succeed(step, at as nat, Seq::new(at as nat, |k: int| ()));
    if step(at) is Err {
        assert(collected(step, (at + 1) as nat) is Err);
        lemma_failure_stays(step, (at + 1) as nat, entries.len());
    }
    if exists|j: int|
        0 <= j < at && (#[trigger] entries[j]).external_id == entries[at].external_id
            && entries[at].external_id is Some {
        assert(external_id_seen(entries, at));
    }
}

/// Why an upsert is refused: for want of an external id or of a character in it,
/// for being a tombstone, for an id that is taken, and for an external id that
/// more than one record has, in this order.
pub proof fn law_why_an_upsert_is_refused(
    record: RecordView,
    tombstone_type: Seq<char>,
    ids: Seq<Seq<char>>,
    rows: Seq<RecordView>,
)
    ensures
        ({
            let result = upsert_planned(record, tombstone_type, ids, rows);
            let named = record.external_id is Some && record.external_id->Some_0.len() > 0;
            let live = named && record.content_type != tombstone_type;
            &&& record.external_id is None ==> result == Err::<PlanView, Failure>(
                invalid_argument("upsert_by_external_id requires external_id"@),
            )
            &&& record.external_id is Some && !named ==> result == Err::<PlanView, Failure>(
                invalid_argument("upsert_by_external_id requires a non-empty external_id"@),
            )
            &&& named && !live ==> result == Err::<PlanView, Failure>(
                invalid_argument(
                    "content_type '"@ + tombstone_type + "' is reserved for internal tombstones"@,
                ),
            )
            &&& live && ids.contains(record.id) ==> result == Err::<PlanView, Failure>(
                invalid_argument("id '"@ + record.id + "' already exists"@),
            )
            &&& live && !ids.contains(record.id) && result is Err ==> result == Err::<
                PlanView,
                Failure,
            >(
                invalid_argument(
                    "external_id '"@ + record.external_id->Some_0
                        + "' matches multiple visible records"@,
                ),
            )
        }),
{
}

} // verus!
