//! What holds between a write and the reads that follow it.

use vstd::prelude::*;

use crate::collect::{collected, lemma_first_failure, lemma_success_holds_values};
use crate::error::Failure;
use crate::listing::{
    find_external, find_id, lemma_picked_agrees, lemma_picked_contains, listed, listed_at, picked,
    superseded,
};
use crate::patch::tombstone_of;
use crate::record::RecordView;
use crate::writes::{
    collision_check, collision_check_ids, current_at, current_records, external_id_held,
    external_id_seen, id_seen, key_held, lemma_picked_count, lemma_with_external_id, replacing,
    upsert_batch_check, upsert_failure, upsert_planned, upsert_wired, upserts_planned,
    with_external_id, PlanView,
};

verus! {

/// Picking from what was picked is picking what both keep.
pub proof fn lemma_picked_twice(
    rows: Seq<RecordView>,
    keep: spec_fn(int) -> bool,
    external_id: Seq<char>,
    count: nat,
)
    requires
        count <= rows.len(),
    ensures
        with_external_id(picked(rows, keep, count), external_id) == picked(
            rows,
            |i: int| keep(i) && rows[i].external_id == Some(external_id),
            count,
        ),
    decreases count,
{
    let both = |i: int| keep(i) && rows[i].external_id == Some(external_id);
    let now = picked(rows, keep, count);
    if count > 0 {
        let before = picked(rows, keep, (count - 1) as nat);
        lemma_picked_twice(rows, keep, external_id, (count - 1) as nat);
        if keep(count - 1) {
            let new_keep = |i: int| now[i].external_id == Some(external_id);
            let old_keep = |i: int| before[i].external_id == Some(external_id);
            assert forall|i: int| 0 <= i < before.len() implies #[trigger] new_keep(i) == old_keep(
                i,
            ) by {
                assert(now[i] == before[i]);
            }
            lemma_picked_agrees(now, new_keep, old_keep, before.len());
            lemma_picked_prefix(now, before, old_keep, before.len());
        }
    }
}

proof fn lemma_picked_prefix<T>(
    longer: Seq<T>,
    shorter: Seq<T>,
    keep: spec_fn(int) -> bool,
    count: nat,
)
    requires
        count <= shorter.len() <= longer.len(),
        forall|i: int| 0 <= i < count ==> longer[i] == shorter[i],
    ensures
        picked(longer, keep, count) == picked(shorter, keep, count),
    decreases count,
{
    if count > 0 {
        lemma_picked_prefix(longer, shorter, keep, (count - 1) as nat);
    }
}

proof fn lemma_picked_nothing<T>(items: Seq<T>, keep: spec_fn(int) -> bool, count: nat)
    requires
        forall|i: int| 0 <= i < count ==> !#[trigger] keep(i),
    ensures
        picked(items, keep, count) == Seq::<T>::empty(),
    decreases count,
{
    if count > 0 {
        lemma_picked_nothing(items, keep, (count - 1) as nat);
    }
}

/// Keeping some of what was picked is picking what both keep.
pub proof fn lemma_picked_filtered<T>(
    items: Seq<T>,
    keep: spec_fn(int) -> bool,
    wanted: spec_fn(T) -> bool,
    count: nat,
)
    requires
        count <= items.len(),
    ensures
        picked(items, keep, count).filter(wanted) == picked(
            items,
            |i: int| keep(i) && wanted(items[i]),
            count,
        ),
    decreases count,
{
    reveal(Seq::filter);
    if count > 0 {
        let earlier = picked(items, keep, (count - 1) as nat);
        lemma_picked_filtered(items, keep, wanted, (count - 1) as nat);
        if keep(count - 1) {
            earlier.lemma_filter_push(items[count - 1], wanted);
        }
    }
}

/// Picking by what the items are is keeping those that are so.
pub proof fn lemma_picked_is_filtered<T>(items: Seq<T>, wanted: spec_fn(T) -> bool, count: nat)
    requires
        count <= items.len(),
    ensures
        picked(items, |i: int| wanted(items[i]), count) == items.take(count as int).filter(wanted),
    decreases count,
{
    reveal(Seq::filter);
    if count > 0 {
        lemma_picked_is_filtered(items, wanted, (count - 1) as nat);
        let earlier = items.take(count - 1);
        assert(items.take(count as int) =~= earlier.push(items[count - 1]));
        earlier.lemma_filter_push(items[count - 1], wanted);
    } else {
        assert(items.take(0) =~= Seq::<T>::empty());
    }
}

proof fn lemma_filtered_twice<T>(
    items: Seq<T>,
    first: spec_fn(T) -> bool,
    second: spec_fn(T) -> bool,
)
    ensures
        items.filter(first).filter(second) == items.filter(|item: T| first(item) && second(item)),
    decreases items.len(),
{
    reveal(Seq::filter);
    let both = |item: T| first(item) && second(item);
    if items.len() > 0 {
        let rest = items.drop_last();
        lemma_filtered_twice(rest, first, second);
        if first(items.last()) {
            rest.filter(first).lemma_filter_push(items.last(), second);
        }
    }
}

proof fn lemma_filters_agree<T>(
    items: Seq<T>,
    left: spec_fn(T) -> bool,
    right: spec_fn(T) -> bool,
)
    requires
        forall|i: int| 0 <= i < items.len() ==> left(#[trigger] items[i]) == right(items[i]),
    ensures
        items.filter(left) == items.filter(right),
    decreases items.len(),
{
    reveal(Seq::filter);
    if items.len() > 0 {
        let rest = items.drop_last();
        assert forall|i: int| 0 <= i < rest.len() implies left(#[trigger] rest[i]) == right(
            rest[i],
        ) by {
            assert(rest[i] == items[i]);
        }
        lemma_filters_agree(rest, left, right);
        assert(left(items[items.len() - 1]) == right(items[items.len() - 1]));
    }
}

/// A scan gives one row for each id.
pub open spec fn one_row_each(rows: Seq<RecordView>) -> bool {
    forall|i: int, j: int|
        0 <= i < j < rows.len() ==> (#[trigger] rows[i]).id != (#[trigger] rows[j]).id
}

/// The listed records without an external id.
pub open spec fn without_external_id(rows: Seq<RecordView>, external_id: Seq<char>) -> Seq<
    RecordView,
> {
    rows.filter(|row: RecordView| row.external_id != Some(external_id))
}

proof fn lemma_first_external(rows: Seq<RecordView>, external_id: Seq<char>, from: int)
    requires
        0 <= from <= rows.len(),
    ensures
        match find_external(rows, external_id, from) {
            Some(at) => from <= at < rows.len() && rows[at].external_id == Some(external_id),
            None => forall|i: int|
                from <= i < rows.len() ==> (#[trigger] rows[i]).external_id != Some(external_id),
        },
    decreases rows.len() - from,
{
    if from < rows.len() && rows[from].external_id != Some(external_id) {
        lemma_first_external(rows, external_id, from + 1);
    }
}

proof fn lemma_first_id(rows: Seq<RecordView>, id: Seq<char>, from: int)
    requires
        0 <= from <= rows.len(),
    ensures
        match find_id(rows, id, from) {
            Some(at) => from <= at < rows.len() && rows[at].id == id,
            None => forall|i: int| from <= i < rows.len() ==> (#[trigger] rows[i]).id != id,
        },
    decreases rows.len() - from,
{
    if from < rows.len() && rows[from].id != id {
        lemma_first_id(rows, id, from + 1);
    }
}

proof fn lemma_upsert_is_the_only_one(
    rows: Seq<RecordView>,
    visible: Seq<bool>,
    record: RecordView,
    ids: Seq<Seq<char>>,
    tombstone_type: Seq<char>,
)
    requires
        visible.len() == rows.len(),
        forall|i: int|
            0 <= i < rows.len() && (#[trigger] rows[i]).id == record.id ==> ids.contains(record.id),
        !superseded(rows, record.id),
        upsert_planned(record, tombstone_type, ids, listed(rows, visible, None, false)) is Ok,
    ensures
        ({
            let plan = upsert_planned(
                record,
                tombstone_type,
                ids,
                listed(rows, visible, None, false),
            )->Ok_0;
            let after = listed(rows.push(plan.record), visible.push(true), None, false);
            with_external_id(after, record.external_id->Some_0) == seq![plan.record]
        }),
{
    let external_id = record.external_id->Some_0;
    let before = listed(rows, visible, None, false);
    let plan = upsert_planned(record, tombstone_type, ids, before)->Ok_0;
    let rows2 = rows.push(plan.record);
    let visible2 = visible.push(true);
    let keep = listed_at(rows, visible, None, false);
    let keep2 = listed_at(rows2, visible2, None, false);
    let count = rows.len();
    let both = |i: int| keep2(i) && rows2[i].external_id == Some(external_id);
    lemma_picked_twice(rows2, keep2, external_id, rows2.len());
    assert forall|i: int| 0 <= i < count implies !#[trigger] both(i) by {
        assert(rows2[i] == rows[i]);
        assert(visible2[i] == visible[i]);
        if both(i) {
            let row = rows[i];
            if superseded(rows, row.id) {
                let j = choose|j: int|
                    0 <= j < rows.len() && (#[trigger] rows[j]).supersedes_id == Some(row.id)
                        && rows[j].id != row.id;
                assert(rows2[j] == rows[j]);
                assert(superseded(rows2, row.id));
            }
            assert(keep(i));
            lemma_picked_contains(rows, keep, count, row);
            assert(before.contains(row));
            let at = choose|at: int| 0 <= at < before.len() && before[at] == row;
            let named = |k: int| before[k].external_id == Some(external_id);
            lemma_picked_contains(before, named, before.len(), row);
            assert(named(at));
            let found = with_external_id(before, external_id);
            assert(found.contains(row));
            assert(found.len() == 1);
            assert(found[0] == row);
            assert(row.id != record.id);
            assert(rows2[count as int].supersedes_id == Some(row.id));
            assert(superseded(rows2, row.id));
        }
    }
    lemma_picked_nothing(rows2, both, count);
    assert(keep2(count as int)) by {
        if superseded(rows2, plan.record.id) {
            let j = choose|j: int|
                0 <= j < rows2.len() && (#[trigger] rows2[j]).supersedes_id == Some(
                    plan.record.id,
                ) && rows2[j].id != plan.record.id;
            if j < count {
                assert(rows[j] == rows2[j]);
                assert(superseded(rows, record.id));
            }
        }
    }
    assert(both(count as int));
    assert(picked(rows2, both, rows2.len()) =~= seq![plan.record]);
}

proof fn lemma_upsert_keeps_others(
    rows: Seq<RecordView>,
    visible: Seq<bool>,
    record: RecordView,
    ids: Seq<Seq<char>>,
    tombstone_type: Seq<char>,
)
    requires
        visible.len() == rows.len(),
        one_row_each(rows),
        upsert_planned(record, tombstone_type, ids, listed(rows, visible, None, false)) is Ok,
    ensures
        ({
            let before = listed(rows, visible, None, false);
            let plan = upsert_planned(record, tombstone_type, ids, before)->Ok_0;
            let after = listed(rows.push(plan.record), visible.push(true), None, false);
            without_external_id(after, record.external_id->Some_0) == without_external_id(
                before,
                record.external_id->Some_0,
            )
        }),
{
    let external_id = record.external_id->Some_0;
    let before = listed(rows, visible, None, false);
    let plan = upsert_planned(record, tombstone_type, ids, before)->Ok_0;
    let rows2 = rows.push(plan.record);
    let visible2 = visible.push(true);
    let keep = listed_at(rows, visible, None, false);
    let keep2 = listed_at(rows2, visible2, None, false);
    let other = |row: RecordView| row.external_id != Some(external_id);
    let count = rows.len();
    let kept = |i: int| keep(i) && other(rows[i]);
    let kept2 = |i: int| keep2(i) && other(rows2[i]);
    lemma_picked_filtered(rows, keep, other, count);
    lemma_picked_filtered(rows2, keep2, other, rows2.len());
    assert forall|i: int| 0 <= i < count implies #[trigger] kept(i) == kept2(i) by {
        let row = rows[i];
        assert(rows2[i] == row);
        assert(visible2[i] == visible[i]);
        if superseded(rows, row.id) {
            let j = choose|j: int|
                0 <= j < rows.len() && (#[trigger] rows[j]).supersedes_id == Some(row.id)
                    && rows[j].id != row.id;
            assert(rows2[j] == rows[j]);
        }
        if superseded(rows2, row.id) && !superseded(rows, row.id) && other(row) {
            let j = choose|j: int|
                0 <= j < rows2.len() && (#[trigger] rows2[j]).supersedes_id == Some(row.id)
                    && rows2[j].id != row.id;
            if j < count {
                assert(rows[j] == rows2[j]);
            }
            assert(plan.replaced_id == Some(row.id));
            let named = |k: int| before[k].external_id == Some(external_id);
            let found = with_external_id(before, external_id);
            lemma_picked_contains(before, named, before.len(), found[0]);
            assert(found.contains(found[0]));
            let at = choose|at: int| 0 <= at < before.len() && #[trigger] named(at) && before[at]
                == found[0];
            lemma_picked_contains(rows, keep, count, found[0]);
            assert(before.contains(found[0]));
            let k = choose|k: int| 0 <= k < count && #[trigger] keep(k) && rows[k] == found[0];
            assert(rows[k].id == rows[i].id);
            assert(k == i);
        }
    }
    lemma_picked_agrees(rows, kept, kept2, count);
    lemma_picked_prefix(rows2, rows, kept2, count);
    assert(!kept2(count as int));
}

proof fn lemma_upsert_of_a_new_id(
    rows: Seq<RecordView>,
    visible: Seq<bool>,
    history: Seq<bool>,
    record: RecordView,
    ids: Seq<Seq<char>>,
    tombstone_type: Seq<char>,
)
    requires
        visible.len() == rows.len(),
        history.len() == rows.len(),
        forall|i: int| 0 <= i < rows.len() && #[trigger] visible[i] ==> history[i],
        one_row_each(rows),
        forall|i: int|
            0 <= i < rows.len() && (#[trigger] rows[i]).id == record.id ==> ids.contains(record.id),
        !superseded(rows, record.id),
        upsert_planned(record, tombstone_type, ids, listed(rows, visible, None, false)) is Ok,
    ensures
        ({
            let external_id = record.external_id->Some_0;
            let before = listed(rows, visible, None, false);
            let plan = upsert_planned(record, tombstone_type, ids, before)->Ok_0;
            let after = listed(rows.push(plan.record), visible.push(true), None, false);
            let past = listed(rows.push(plan.record), history.push(true), None, true);
            let found = find_external(after, external_id, 0);
            &&& with_external_id(after, external_id) == seq![plan.record]
            &&& found is Some && 0 <= found->Some_0 < after.len() && after[found->Some_0]
                == plan.record
            &&& plan.record == replacing(record, plan.replaced_id)
            &&& plan.replaced_id is None <==> find_external(before, external_id, 0) is None
            &&& forall|row: RecordView| #[trigger] before.contains(row) ==> past.contains(row)
            &&& plan.replaced_id is Some ==> exists|row: RecordView| #[trigger]
                before.contains(row) && past.contains(row) && row.id == plan.replaced_id->Some_0
            &&& without_external_id(after, external_id) == without_external_id(before, external_id)
        }),
{
    let external_id = record.external_id->Some_0;
    let before = listed(rows, visible, None, false);
    let plan = upsert_planned(record, tombstone_type, ids, before)->Ok_0;
    let rows2 = rows.push(plan.record);
    let after = listed(rows2, visible.push(true), None, false);
    let past = listed(rows2, history.push(true), None, true);
    lemma_upsert_is_the_only_one(rows, visible, record, ids, tombstone_type);
    lemma_upsert_keeps_others(rows, visible, record, ids, tombstone_type);
    let named = |k: int| after[k].external_id == Some(external_id);
    let only = with_external_id(after, external_id);
    assert(only[0] == plan.record);
    lemma_picked_contains(after, named, after.len(), plan.record);
    assert(only.contains(plan.record));
    lemma_first_external(after, external_id, 0);
    let found = find_external(after, external_id, 0);
    let here = choose|k: int| 0 <= k < after.len() && #[trigger] named(k) && after[k]
        == plan.record;
    assert(after[here].external_id == Some(external_id));
    assert(found is Some);
    let at = found->Some_0;
    lemma_picked_contains(after, named, after.len(), after[at]);
    assert(named(at));
    assert(only.contains(after[at]));
    let current = listed_at(rows, visible, None, false);
    let shown = listed_at(rows2, history.push(true), None, true);
    assert forall|row: RecordView| #[trigger] before.contains(row) implies past.contains(row) by {
        lemma_picked_contains(rows, current, rows.len(), row);
        let i = choose|i: int| 0 <= i < rows.len() && #[trigger] current(i) && rows[i] == row;
        assert(visible[i]);
        assert(rows2[i] == row);
        assert(shown(i));
        lemma_picked_contains(rows2, shown, rows2.len(), row);
    }
    let earlier = with_external_id(before, external_id);
    let matching = |k: int| before[k].external_id == Some(external_id);
    lemma_first_external(before, external_id, 0);
    if earlier.len() > 0 {
        lemma_picked_contains(before, matching, before.len(), earlier[0]);
        assert(earlier.contains(earlier[0]));
        let k = choose|k: int| 0 <= k < before.len() && #[trigger] matching(k) && before[k]
            == earlier[0];
        assert(before[k].external_id == Some(external_id));
        assert(before.contains(earlier[0]));
        assert(past.contains(earlier[0]));
    } else if find_external(before, external_id, 0) is Some {
        let k = find_external(before, external_id, 0)->Some_0;
        lemma_picked_contains(before, matching, before.len(), before[k]);
        assert(matching(k));
        assert(earlier.contains(before[k]));
    }
}

/// A batch with one upsert decides as a single upsert does: the same record
/// replaces the same record. Only where it would insert an external id that a
/// hidden record still holds does the batch refuse at once; the single upsert
/// then inserts, and the check of every insert refuses it the same way.
pub proof fn law_single_and_batch_upserts_agree(
    record: RecordView,
    tombstone_type: Seq<char>,
    ids: Seq<Seq<char>>,
    external_ids: Seq<Seq<char>>,
    rows: Seq<RecordView>,
    visible: Seq<bool>,
)
    requires
        visible.len() == rows.len(),
        upsert_failure(record, tombstone_type) is None,
        external_ids.contains(record.external_id->Some_0) == external_id_held(
            rows,
            tombstone_type,
            record.external_id->Some_0,
        ),
    ensures
        ({
            let single = upsert_planned(
                record,
                tombstone_type,
                ids,
                listed(rows, visible, None, false),
            );
            let inserted = single is Ok && single->Ok_0.replaced_id is None;
            match upserts_planned(seq![record], tombstone_type, ids, rows, visible) {
                Ok(plans) => single == Ok::<PlanView, Failure>(plans[0]) && plans.len() == 1 && (
                inserted ==> collision_check(seq![record], ids, external_ids)(0) is Ok),
                Err(failure) => if inserted {
                    collision_check(seq![record], ids, external_ids)(0) == Err::<(), Failure>(
                        failure,
                    )
                } else {
                    single == Err::<PlanView, Failure>(failure)
                },
            }
        }),
{
    let records = seq![record];
    let external_id = record.external_id->Some_0;
    let keep = listed_at(rows, visible, None, false);
    let current = current_at(rows, visible, external_id);
    let both = |i: int| keep(i) && rows[i].external_id == Some(external_id);
    lemma_picked_twice(rows, keep, external_id, rows.len());
    assert forall|i: int| 0 <= i < rows.len() implies #[trigger] both(i) == current(i) by {}
    lemma_picked_agrees(rows, both, current, rows.len());
    let check = upsert_batch_check(records, tombstone_type);
    let free = collision_check_ids(records, ids);
    let wired = upsert_wired(records, rows, visible, tombstone_type);
    assert(!id_seen(records, 0));
    assert(!external_id_seen(records, 0));
    assert(check(0) == Ok::<(), Failure>(()));
    reveal_with_fuel(collected, 2);
    assert(collected(check, 1) is Ok);
    assert(wired(0) is Ok ==> collected(wired, 1) == Ok::<Seq<PlanView>, Failure>(
        Seq::empty().push(wired(0)->Ok_0),
    ));
}

/// Which rows a read shows, where the lifecycle rules decide by the row.
pub open spec fn shown_by(rows: Seq<RecordView>, shown: spec_fn(RecordView) -> bool) -> Seq<bool> {
    Seq::new(rows.len(), |i: int| shown(rows[i]))
}

/// The rows of a scan that have another id.
pub open spec fn without_id(rows: Seq<RecordView>, id: Seq<char>) -> Seq<RecordView> {
    rows.filter(|row: RecordView| row.id != id)
}

/// The rows of a scan once a row was written: it takes the place of the row with
/// its id.
pub open spec fn after_write(rows: Seq<RecordView>, row: RecordView) -> Seq<RecordView> {
    without_id(rows, row.id).push(row)
}

proof fn lemma_listed_is_filtered(rows: Seq<RecordView>, shown: spec_fn(RecordView) -> bool)
    ensures
        listed(rows, shown_by(rows, shown), None, false) == rows.filter(
            |row: RecordView| shown(row) && !superseded(rows, row.id),
        ),
{
    let flags = shown_by(rows, shown);
    let keep = listed_at(rows, flags, None, false);
    let wanted = |row: RecordView| shown(row) && !superseded(rows, row.id);
    let by_row = |i: int| wanted(rows[i]);
    assert forall|i: int| 0 <= i < rows.len() implies #[trigger] keep(i) == by_row(i) by {
        assert(flags[i] == shown(rows[i]));
    }
    lemma_picked_agrees(rows, keep, by_row, rows.len());
    lemma_picked_is_filtered(rows, wanted, rows.len());
    assert(rows.take(rows.len() as int) =~= rows);
}

/// After an upsert, a default read gives exactly one record with the external
/// id, the one that was written, and a lookup by the external id finds it. It
/// names what it replaced and nothing else, whatever the caller put there; what
/// it replaced stays in the history; and every record with another external id
/// is listed as before. The new record's id may be one that only a forgotten
/// record has: the new record takes its place.
///
/// `shown` and `past_shown` are the lifecycle rules of a default read and of one
/// that wants replaced records too: a forgotten record is not shown by the
/// first, and the new record is by both. `ids` are the ids that the check before
/// the write found in the table. Two kinds of tables are left out: one in which
/// a row already replaces the new id, and one in which a forgotten record with
/// the new id is all that replaces some record, which is current again once its
/// place is taken.
pub proof fn law_upsert_leaves_one_current_record(
    rows: Seq<RecordView>,
    shown: spec_fn(RecordView) -> bool,
    past_shown: spec_fn(RecordView) -> bool,
    record: RecordView,
    ids: Seq<Seq<char>>,
    tombstone_type: Seq<char>,
)
    requires
        one_row_each(rows),
        forall|row: RecordView| #[trigger] shown(row) ==> past_shown(row),
        forall|i: int|
            0 <= i < rows.len() && (#[trigger] rows[i]).is_tombstone(tombstone_type) ==> !shown(
                rows[i],
            ),
        ids.contains(record.id) == key_held(rows, tombstone_type, record.id),
        !superseded(rows, record.id),
        forall|id: Seq<char>| #[trigger]
            superseded(rows, id) ==> superseded(without_id(rows, record.id), id),
        ({
            let before = listed(rows, shown_by(rows, shown), None, false);
            let planned = upsert_planned(record, tombstone_type, ids, before);
            planned is Ok && shown(planned->Ok_0.record)
        }),
    ensures
        ({
            let external_id = record.external_id->Some_0;
            let before = listed(rows, shown_by(rows, shown), None, false);
            let plan = upsert_planned(record, tombstone_type, ids, before)->Ok_0;
            let rows2 = after_write(rows, plan.record);
            let after = listed(rows2, shown_by(rows2, shown), None, false);
            let past = listed(rows2, shown_by(rows2, past_shown), None, true);
            let found = find_external(after, external_id, 0);
            &&& with_external_id(after, external_id) == seq![plan.record]
            &&& found is Some && 0 <= found->Some_0 < after.len() && after[found->Some_0]
                == plan.record
            &&& plan.record == replacing(record, plan.replaced_id)
            &&& plan.replaced_id is None <==> find_external(before, external_id, 0) is None
            &&& forall|row: RecordView| #[trigger] before.contains(row) ==> past.contains(row)
            &&& plan.replaced_id is Some ==> exists|row: RecordView| #[trigger]
                before.contains(row) && past.contains(row) && row.id == plan.replaced_id->Some_0
            &&& without_external_id(after, external_id) == without_external_id(before, external_id)
            &&& one_row_each(rows2)
        }),
{
    let rest = without_id(rows, record.id);
    let other = |row: RecordView| row.id != record.id;
    let before = listed(rows, shown_by(rows, shown), None, false);
    let plan = upsert_planned(record, tombstone_type, ids, before)->Ok_0;
    let rows2 = after_write(rows, plan.record);
    assert(plan.record.id == record.id);
    lemma_filters_agree(rows, other, |row: RecordView| row.id != plan.record.id);
    assert(rows2 == rest.push(plan.record));
    assert forall|i: int| 0 <= i < rest.len() implies (#[trigger] rest[i]).id != record.id
        && rows.contains(rest[i]) by {
        rows.lemma_filter_pred(other, i);
        rows.lemma_filter_contains_rev(other, rest[i]);
    }
    assert forall|id: Seq<char>| superseded(rest, id) == superseded(rows, id) by {
        if superseded(rest, id) {
            let j = choose|j: int|
                0 <= j < rest.len() && (#[trigger] rest[j]).supersedes_id == Some(id) && rest[j].id
                    != id;
            let k = choose|k: int| 0 <= k < rows.len() && rows[k] == rest[j];
            assert(rows[k].supersedes_id == Some(id));
        }
    }
    let wanted = |row: RecordView| shown(row) && !superseded(rows, row.id);
    let wanted_rest = |row: RecordView| shown(row) && !superseded(rest, row.id);
    lemma_listed_is_filtered(rows, shown);
    lemma_listed_is_filtered(rest, shown);
    lemma_filtered_twice(rows, other, wanted_rest);
    assert forall|i: int| 0 <= i < rows.len() implies wanted(#[trigger] rows[i]) == (other(rows[i])
        && wanted_rest(rows[i])) by {
        if rows[i].id == record.id {
            assert(!key_held(rows, tombstone_type, record.id));
            assert(rows[i].is_tombstone(tombstone_type));
        }
    }
    lemma_filters_agree(rows, wanted, |row: RecordView| other(row) && wanted_rest(row));
    assert(listed(rest, shown_by(rest, shown), None, false) == before);
    lemma_filtered_rows_differ(rows, other);
    lemma_upsert_of_a_new_id(
        rest,
        shown_by(rest, shown),
        shown_by(rest, past_shown),
        record,
        ids,
        tombstone_type,
    );
    assert(shown_by(rows2, shown) =~= shown_by(rest, shown).push(true));
    assert(shown_by(rows2, past_shown) =~= shown_by(rest, past_shown).push(true));
    assert forall|i: int, j: int| 0 <= i < j < rows2.len() implies (#[trigger] rows2[i]).id != (
    #[trigger] rows2[j]).id by {
        assert(rows2[i] == rest[i]);
        if j < rest.len() {
            assert(rows2[j] == rest[j]);
        }
    }
}

/// After a listed record was forgotten, a default read gives every record that
/// it gave before but that one, in the same order. A lookup by its id finds
/// nothing, so that forgetting it again does nothing; and its id is free again.
///
/// `shown` are the lifecycle rules, by which a tombstone is never shown. A
/// record that replaced another one is left out: with it gone, the other one is
/// current again.
pub proof fn law_forgotten_records_are_gone(
    rows: Seq<RecordView>,
    shown: spec_fn(RecordView) -> bool,
    id: Seq<char>,
    now: i64,
    tombstone_type: Seq<char>,
    active: Seq<char>,
)
    requires
        one_row_each(rows),
        find_id(listed(rows, shown_by(rows, shown), None, false), id, 0) is Some,
        ({
            let before = listed(rows, shown_by(rows, shown), None, false);
            let record = before[find_id(before, id, 0)->Some_0];
            &&& record.supersedes_id is None
            &&& !shown(tombstone_of(record, now, tombstone_type, active))
        }),
    ensures
        ({
            let before = listed(rows, shown_by(rows, shown), None, false);
            let record = before[find_id(before, id, 0)->Some_0];
            let rows2 = after_write(rows, tombstone_of(record, now, tombstone_type, active));
            let after = listed(rows2, shown_by(rows2, shown), None, false);
            &&& after == before.filter(|row: RecordView| row.id != id)
            &&& find_id(after, id, 0) is None
            &&& !key_held(rows2, tombstone_type, id)
            &&& one_row_each(rows2)
        }),
{
    reveal(Seq::filter);
    let before = listed(rows, shown_by(rows, shown), None, false);
    lemma_first_id(before, id, 0);
    let record = before[find_id(before, id, 0)->Some_0];
    let tombstone = tombstone_of(record, now, tombstone_type, active);
    let rows2 = after_write(rows, tombstone);
    let after = listed(rows2, shown_by(rows2, shown), None, false);
    let other = |row: RecordView| row.id != id;
    let same = |row: RecordView| row.id != tombstone.id;
    let rest = rows.filter(other);
    lemma_filters_agree(rows, other, same);
    assert(rows2 == rest.push(tombstone));
    let wanted = |row: RecordView| shown(row) && !superseded(rows, row.id);
    let wanted2 = |row: RecordView| shown(row) && !superseded(rows2, row.id);
    lemma_listed_is_filtered(rows, shown);
    lemma_listed_is_filtered(rows2, shown);
    lemma_picked_contains(
        rows,
        listed_at(rows, shown_by(rows, shown), None, false),
        rows.len(),
        record,
    );
    assert(before.contains(record));
    let keep = listed_at(rows, shown_by(rows, shown), None, false);
    let at = choose|at: int| 0 <= at < rows.len() && #[trigger] keep(at) && rows[at] == record;
    assert forall|i: int| 0 <= i < rest.len() implies (#[trigger] rest[i]).id != id && rows.contains(
        rest[i],
    ) by {
        rows.lemma_filter_pred(other, i);
        rows.lemma_filter_contains_rev(other, rest[i]);
    }
    assert forall|i: int| 0 <= i < rows.len() && (#[trigger] rows[i]).id != id implies rest.contains(
        rows[i],
    ) by {
        rows.lemma_filter_contains(other, i);
    }
    assert forall|name: Seq<char>| superseded(rows2, name) == superseded(rows, name) by {
        if superseded(rows, name) {
            let j = choose|j: int|
                0 <= j < rows.len() && (#[trigger] rows[j]).supersedes_id == Some(name)
                    && rows[j].id != name;
            if rows[j].id == id {
                if j < at {
                    assert(rows[j].id != rows[at].id);
                } else if at < j {
                    assert(rows[at].id != rows[j].id);
                }
                assert(j == at);
            }
            assert(rest.contains(rows[j]));
            let k = choose|k: int| 0 <= k < rest.len() && rest[k] == rows[j];
            assert(rows2[k] == rows[j]);
        }
        if superseded(rows2, name) {
            let j = choose|j: int|
                0 <= j < rows2.len() && (#[trigger] rows2[j]).supersedes_id == Some(name)
                    && rows2[j].id != name;
            assert(j < rest.len());
            assert(rows2[j] == rest[j]);
            assert(rows.contains(rest[j]));
            let k = choose|k: int| 0 <= k < rows.len() && rows[k] == rest[j];
            assert(rows[k].supersedes_id == Some(name));
        }
    }
    rest.lemma_filter_push(tombstone, wanted2);
    assert(after == rest.filter(wanted2));
    lemma_filters_agree(rest, wanted2, wanted);
    lemma_filtered_twice(rows, other, wanted);
    lemma_filtered_twice(rows, wanted, other);
    lemma_filters_agree(
        rows,
        |row: RecordView| other(row) && wanted(row),
        |row: RecordView| wanted(row) && other(row),
    );
    assert(after == before.filter(other));
    lemma_first_id(after, id, 0);
    if find_id(after, id, 0) is Some {
        before.lemma_filter_pred(other, find_id(after, id, 0)->Some_0);
    }
    assert forall|i: int| 0 <= i < rows2.len() && (#[trigger] rows2[i]).id == id implies rows2[i].is_tombstone(
        tombstone_type,
    ) by {
        if i < rest.len() {
            assert(rows2[i] == rest[i]);
        }
    }
    law_tombstones_free_the_id(rows2, tombstone_type, id);
    lemma_filtered_rows_differ(rows, other);
    assert forall|i: int, j: int| 0 <= i < j < rows2.len() implies (#[trigger] rows2[i]).id != (
    #[trigger] rows2[j]).id by {
        assert(rows2[i] == rest[i]);
        if j < rest.len() {
            assert(rows2[j] == rest[j]);
        }
    }
}

proof fn lemma_filtered_rows_differ(rows: Seq<RecordView>, wanted: spec_fn(RecordView) -> bool)
    requires
        one_row_each(rows),
    ensures
        one_row_each(rows.filter(wanted)),
    decreases rows.len(),
{
    reveal(Seq::filter);
    if rows.len() > 0 {
        let rest = rows.drop_last();
        assert forall|i: int, j: int| 0 <= i < j < rest.len() implies (#[trigger] rest[i]).id != (
        #[trigger] rest[j]).id by {
            assert(rest[i] == rows[i] && rest[j] == rows[j]);
        }
        lemma_filtered_rows_differ(rest, wanted);
        let kept = rest.filter(wanted);
        let all = rows.filter(wanted);
        assert forall|i: int, j: int| 0 <= i < j < all.len() implies (#[trigger] all[i]).id != (
        #[trigger] all[j]).id by {
            assert(all[i] == kept[i]);
            if j < kept.len() {
                assert(all[j] == kept[j]);
            } else {
                rest.lemma_filter_contains_rev(wanted, kept[i]);
                let k = choose|k: int| 0 <= k < rest.len() && rest[k] == kept[i];
                assert(rows[k] == kept[i]);
                assert(rows[k].id != rows[rows.len() - 1].id);
            }
        }
    }
}

/// A record that was forgotten gives its id free: a table whose rows with an
/// id are all tombstones does not hold the id.
pub proof fn law_tombstones_free_the_id(
    rows: Seq<RecordView>,
    tombstone_type: Seq<char>,
    id: Seq<char>,
)
    requires
        forall|i: int|
            0 <= i < rows.len() && (#[trigger] rows[i]).id == id ==> rows[i].is_tombstone(
                tombstone_type,
            ),
    ensures
        !key_held(rows, tombstone_type, id),
{
}

/// The written record agrees with the caller's in every field but the two that
/// say what replaces what.
pub open spec fn agrees_but_for_supersession(written: RecordView, given: RecordView) -> bool {
    &&& written.id == given.id
    &&& written.external_id == given.external_id
    &&& written.run_id == given.run_id
    &&& written.bot_id == given.bot_id
    &&& written.session_id == given.session_id
    &&& written.tenant == given.tenant
    &&& written.source == given.source
    &&& written.created_at == given.created_at
    &&& written.role == given.role
    &&& written.state_metadata == given.state_metadata
    &&& written.metadata == given.metadata
    &&& written.relationships == given.relationships
    &&& written.expires_at == given.expires_at
    &&& written.retention_policy == given.retention_policy
    &&& written.lifecycle_status == given.lifecycle_status
    &&& written.retired_at == given.retired_at
    &&& written.retired_reason == given.retired_reason
    &&& written.content_type == given.content_type
    &&& written.text_payload == given.text_payload
    &&& written.binary_payload == given.binary_payload
    &&& written.payload_uri == given.payload_uri
    &&& written.payload_size == given.payload_size
    &&& written.payload_checksum == given.payload_checksum
    &&& written.embedding == given.embedding
}

/// What a single upsert does with a record and the records that a default read
/// lists. It is taken exactly where the record has an external id that is not
/// empty, is no tombstone, has a free id, and at most one listed record has the
/// external id. The written record is the caller's in every field but the two on
/// supersession: it names the listed record with the external id, if there is
/// one, as what it replaces, and nothing as what replaces it.
pub proof fn law_an_upsert_writes_the_callers_record(
    record: RecordView,
    tombstone_type: Seq<char>,
    ids: Seq<Seq<char>>,
    rows: Seq<RecordView>,
)
    ensures
        upsert_planned(record, tombstone_type, ids, rows) is Ok <==> {
            &&& record.external_id is Some
            &&& record.external_id->Some_0.len() > 0
            &&& record.content_type != tombstone_type
            &&& !ids.contains(record.id)
            &&& forall|i: int, j: int|
                0 <= i < j < rows.len() && (#[trigger] rows[i]).external_id == record.external_id
                    ==> (#[trigger] rows[j]).external_id != record.external_id
        },
        upsert_planned(record, tombstone_type, ids, rows) is Ok ==> ({
            let plan = upsert_planned(record, tombstone_type, ids, rows)->Ok_0;
            &&& agrees_but_for_supersession(plan.record, record)
            &&& plan.record.superseded_by_id is None
            &&& plan.record.supersedes_id == plan.replaced_id
            &&& plan.replaced_id is None <==> forall|i: int|
                0 <= i < rows.len() ==> (#[trigger] rows[i]).external_id != record.external_id
            &&& plan.replaced_id is Some ==> exists|i: int|
                0 <= i < rows.len() && (#[trigger] rows[i]).external_id == record.external_id
                    && plan.replaced_id->Some_0 == rows[i].id
        }),
{
    if record.external_id is Some {
        let external_id = record.external_id->Some_0;
        assert(record.external_id == Some(external_id));
        lemma_with_external_id(rows, external_id);
        if exists|i: int, j: int|
            0 <= i < j < rows.len() && (#[trigger] rows[i]).external_id == Some(external_id) && (
            #[trigger] rows[j]).external_id == Some(external_id) {
            let (i, j) = choose|i: int, j: int|
                0 <= i < j < rows.len() && (#[trigger] rows[i]).external_id == Some(external_id)
                    && (#[trigger] rows[j]).external_id == Some(external_id);
            assert(rows[i].external_id == record.external_id && rows[j].external_id
                == record.external_id);
        }
    }
}

/// What a batch of upserts does. Where it is taken, every record gets a plan, in
/// input order. The written record is the caller's in every field but the two on
/// supersession: it names the current row of its external id, the only one that
/// is visible and that no other row replaces, as what it replaces. Where there is
/// none, it replaces nothing, and no row but tombstones has the external id.
pub proof fn law_a_batch_of_upserts_writes_the_callers_records(
    records: Seq<RecordView>,
    tombstone_type: Seq<char>,
    ids: Seq<Seq<char>>,
    rows: Seq<RecordView>,
    visible: Seq<bool>,
    at: int,
)
    requires
        visible.len() == rows.len(),
        upserts_planned(records, tombstone_type, ids, rows, visible) is Ok,
        0 <= at < records.len(),
    ensures
        ({
            let plans = upserts_planned(records, tombstone_type, ids, rows, visible)->Ok_0;
            let plan = plans[at];
            let record = records[at];
            &&& plans.len() == records.len()
            &&& record.external_id is Some && record.external_id->Some_0.len() > 0
            &&& record.content_type != tombstone_type
            &&& !ids.contains(record.id)
            &&& forall|i: int|
                0 <= i < records.len() && i != at ==> (#[trigger] records[i]).id != record.id
                    && records[i].external_id != record.external_id
            &&& agrees_but_for_supersession(plan.record, record)
            &&& plan.record.superseded_by_id is None
            &&& plan.record.supersedes_id == plan.replaced_id
            &&& forall|i: int|
                0 <= i < rows.len() && (#[trigger] rows[i]).external_id == record.external_id
                    && visible[i] && (forall|j: int|
                    0 <= j < rows.len() && (#[trigger] rows[j]).supersedes_id == Some(rows[i].id)
                        ==> rows[j].id == rows[i].id) ==> plan.replaced_id == Some(rows[i].id)
            &&& plan.replaced_id is Some ==> exists|i: int|
                0 <= i < rows.len() && (#[trigger] rows[i]).external_id == record.external_id
                    && visible[i] && plan.replaced_id->Some_0 == rows[i].id
            &&& plan.replaced_id is None ==> forall|i: int|
                0 <= i < rows.len() && (#[trigger] rows[i]).external_id == record.external_id
                    ==> rows[i].content_type == tombstone_type
        }),
{
    let check = upsert_batch_check(records, tombstone_type);
    let free = collision_check_ids(records, ids);
    let wired = upsert_wired(records, rows, visible, tombstone_type);
    let count = records.len();
    lemma_success_holds_values(check, count);
    lemma_success_holds_values(free, count);
    lemma_success_holds_values(wired, count);
    assert(check(at) is Ok);
    assert(free(at) is Ok);
    let plan = upserts_planned(records, tombstone_type, ids, rows, visible)->Ok_0[at];
    assert(wired(at) == Ok::<PlanView, Failure>(plan));
    let record = records[at];
    let external_id = record.external_id->Some_0;
    assert(record.external_id == Some(external_id));
    assert forall|i: int| 0 <= i < count && i != at implies (#[trigger] records[i]).id != record.id
        && records[i].external_id != record.external_id by {
        assert(check(i) is Ok);
        if i < at {
            assert(!id_seen(records, at) && !external_id_seen(records, at));
            assert(records[i].external_id is Some);
        } else {
            assert(!id_seen(records, i) && !external_id_seen(records, i));
            assert(records[at].external_id is Some);
        }
    }
    let keep = current_at(rows, visible, external_id);
    lemma_picked_count(rows, keep);
    let current = current_records(rows, visible, external_id);
    assert forall|i: int|
        0 <= i < rows.len() && (#[trigger] rows[i]).external_id == record.external_id && visible[i]
            && (forall|j: int|
            0 <= j < rows.len() && (#[trigger] rows[j]).supersedes_id == Some(rows[i].id)
                ==> rows[j].id == rows[i].id) implies plan.replaced_id == Some(rows[i].id) by {
        assert(keep(i));
        assert(current.len() == 1);
        let k = choose|k: int| 0 <= k < rows.len() && #[trigger] keep(k) && current[0] == rows[k];
        if k < i {
            assert(keep(k) && keep(i));
        } else if i < k {
            assert(keep(i) && keep(k));
        }
        assert(k == i);
    }
    if plan.replaced_id is Some {
        let k = choose|k: int| 0 <= k < rows.len() && #[trigger] keep(k) && current[0] == rows[k];
        assert(rows[k].external_id == record.external_id);
    } else {
        assert(!external_id_held(rows, tombstone_type, external_id));
    }
}

/// When a batch of upserts is taken: exactly where every record has an external
/// id that is not empty, is no tombstone and has a free id, no two records share
/// an id or an external id, no external id has two current rows, and none that
/// has no current row is held by a row that is no tombstone.
pub proof fn law_when_a_batch_of_upserts_is_taken(
    records: Seq<RecordView>,
    tombstone_type: Seq<char>,
    ids: Seq<Seq<char>>,
    rows: Seq<RecordView>,
    visible: Seq<bool>,
)
    requires
        visible.len() == rows.len(),
        forall|i: int|
            0 <= i < records.len() ==> (#[trigger] records[i]).external_id is Some
                && records[i].external_id->Some_0.len() > 0 && records[i].content_type
                != tombstone_type && !ids.contains(records[i].id),
        forall|i: int, j: int|
            0 <= i < j < records.len() ==> (#[trigger] records[i]).id != (#[trigger] records[j]).id
                && records[i].external_id != records[j].external_id,
        forall|r: int, i: int, j: int|
            0 <= r < records.len() && 0 <= i < j < rows.len() && visible[i] && visible[j] && (
            #[trigger] rows[i]).external_id == (#[trigger] records[r]).external_id && (
            #[trigger] rows[j]).external_id == records[r].external_id ==> superseded(
                rows,
                rows[i].id,
            ) || superseded(rows, rows[j].id),
        forall|r: int, i: int|
            0 <= r < records.len() && 0 <= i < rows.len() && (#[trigger] rows[i]).external_id == (
            #[trigger] records[r]).external_id ==> rows[i].content_type == tombstone_type
                || exists|k: int|
                0 <= k < rows.len() && #[trigger] visible[k] && rows[k].external_id
                    == records[r].external_id && !superseded(rows, rows[k].id),
    ensures
        upserts_planned(records, tombstone_type, ids, rows, visible) is Ok,
{
    let check = upsert_batch_check(records, tombstone_type);
    let free = collision_check_ids(records, ids);
    let wired = upsert_wired(records, rows, visible, tombstone_type);
    let count = records.len();
    if collected(check, count) is Err {
        let at = lemma_first_failure(check, count);
        assert(records[at].external_id is Some);
        if id_seen(records, at) {
            let j = choose|j: int| 0 <= j < at && (#[trigger] records[j]).id == records[at].id;
            assert(records[j].id != records[at].id);
        }
        if external_id_seen(records, at) {
            let j = choose|j: int|
                0 <= j < at && (#[trigger] records[j]).external_id is Some && records[j].external_id
                    == records[at].external_id;
            assert(records[j].external_id != records[at].external_id);
        }
    } else if collected(free, count) is Err {
        let at = lemma_first_failure(free, count);
        assert(records[at].external_id is Some);
    } else if collected(wired, count) is Err {
        let at = lemma_first_failure(wired, count);
        let external_id = records[at].external_id->Some_0;
        assert(records[at].external_id == Some(external_id));
        let keep = current_at(rows, visible, external_id);
        lemma_picked_count(rows, keep);
        let current = current_records(rows, visible, external_id);
        if current.len() > 1 {
            let (i, j) = choose|i: int, j: int|
                0 <= i < j < rows.len() && #[trigger] keep(i) && #[trigger] keep(j);
            assert(rows[i].external_id == records[at].external_id);
            assert(rows[j].external_id == records[at].external_id);
        } else {
            assert(external_id_held(rows, tombstone_type, external_id));
            let i = choose|i: int|
                0 <= i < rows.len() && (#[trigger] rows[i]).external_id == Some(external_id)
                    && !rows[i].is_tombstone(tombstone_type);
            assert(rows[i].external_id == records[at].external_id);
            let k = choose|k: int|
                0 <= k < rows.len() && #[trigger] visible[k] && rows[k].external_id
                    == records[at].external_id && !superseded(rows, rows[k].id);
            assert(keep(k));
        }
    }
}

} // verus!
