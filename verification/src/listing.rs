//! Which of the stored records a read gives: visibility, supersession,
//! filters and pages.

use vstd::prelude::*;

use crate::record::{record_views, ContextRecord, RecordView, RelationshipView};
use crate::text::{contains_text, opt_is, opt_text, same_text, texts};

verus! {

/// The items at the positions below `count` that are kept, in order.
pub open spec fn picked<T>(items: Seq<T>, keep: spec_fn(int) -> bool, count: nat) -> Seq<T>
    decreases count,
{
    if count == 0 {
        Seq::empty()
    } else {
        let earlier = picked(items, keep, (count - 1) as nat);
        if keep(count - 1) {
            earlier.push(items[count - 1])
        } else {
            earlier
        }
    }
}

/// Keeping a position depends on nothing but that position.
pub proof fn lemma_picked_agrees<T>(
    items: Seq<T>,
    left: spec_fn(int) -> bool,
    right: spec_fn(int) -> bool,
    count: nat,
)
    requires
        forall|i: int| 0 <= i < count ==> #[trigger] left(i) == right(i),
    ensures
        picked(items, left, count) == picked(items, right, count),
    decreases count,
{
    if count > 0 {
        lemma_picked_agrees(items, left, right, (count - 1) as nat);
        assert(left(count - 1) == right(count - 1));
    }
}

/// What is picked are exactly the items at kept positions.
pub proof fn lemma_picked_contains<T>(
    items: Seq<T>,
    keep: spec_fn(int) -> bool,
    count: nat,
    item: T,
)
    requires
        count <= items.len(),
    ensures
        picked(items, keep, count).contains(item) <==> exists|i: int|
            0 <= i < count && #[trigger] keep(i) && items[i] == item,
    decreases count,
{
    if count > 0 {
        let earlier = picked(items, keep, (count - 1) as nat);
        lemma_picked_contains(items, keep, (count - 1) as nat, item);
        if keep(count - 1) {
            let now = earlier.push(items[count - 1]);
            assert(picked(items, keep, count) == now);
            if now.contains(item) && !earlier.contains(item) {
                let at = choose|at: int| 0 <= at < now.len() && now[at] == item;
                if at < earlier.len() {
                    assert(earlier[at] == item);
                }
                assert(keep(count - 1) && items[count - 1] == item);
            }
            if items[count - 1] == item {
                assert(now[now.len() - 1] == item);
            }
            if earlier.contains(item) {
                let at = choose|at: int| 0 <= at < earlier.len() && earlier[at] == item;
                assert(now[at] == item);
            }
        }
    }
}

/// Moves the items at the kept positions into a list of their own.
pub fn pick<T>(items: Vec<T>, keep: &Vec<bool>) -> (result: Vec<T>)
    requires
        keep@.len() == items@.len(),
    ensures
        result@ == picked(items@, |i: int| keep@[i], items@.len()),
{
    let ghost source = items@;
    let ghost kept = |i: int| keep@[i];
    let mut result: Vec<T> = Vec::new();
    let mut index: usize = 0;
    for item in it: items
        invariant
            it.seq() == source,
            it.index() == index,
            index <= source.len(),
            keep@.len() == source.len(),
            kept == (|i: int| keep@[i]),
            result@ == picked(source, kept, index as nat),
    {
        assert(index < keep.len());
        if keep[index] {
            result.push(item);
        }
        index = index + 1;
    }
    result
}

/// The page of a list that starts behind `offset` items and holds at most
/// `limit` items.
pub open spec fn page<T>(items: Seq<T>, limit: Option<usize>, offset: Option<usize>) -> Seq<T> {
    let from = match offset {
        Some(count) => if count <= items.len() {
            count as int
        } else {
            items.len() as int
        },
        None => 0,
    };
    let rest = items.skip(from);
    match limit {
        Some(count) => if count <= rest.len() {
            rest.take(count as int)
        } else {
            rest
        },
        None => rest,
    }
}

/// Cuts a list down to a page.
pub fn paged<T>(items: Vec<T>, limit: Option<usize>, offset: Option<usize>) -> (result: Vec<T>)
    ensures
        result@ == page(items@, limit, offset),
{
    let ghost source = items@;
    let mut items = items;
    let from: usize = match offset {
        Some(count) => if count <= items.len() {
            count
        } else {
            items.len()
        },
        None => 0,
    };
    let mut rest = items.split_off(from);
    assert(rest@ =~= source.skip(from as int));
    match limit {
        Some(count) => {
            if count <= rest.len() {
                rest.truncate(count);
                assert(rest@ =~= source.skip(from as int).take(count as int));
            }
        },
        None => {},
    }
    rest
}

/// Pages that follow one another give the list without gaps or repeats: a page
/// of `limit` items from `offset`, and all that comes behind it, are all that
/// comes from `offset`.
pub proof fn law_pages_follow_one_another<T>(items: Seq<T>, limit: usize, offset: usize)
    requires
        offset + limit <= usize::MAX,
    ensures
        page(items, Some(limit), Some(offset)) + page(
            items,
            None,
            Some((offset + limit) as usize),
        ) == page(items, None, Some(offset)),
        page(items, Some(limit), Some(offset)).len() <= limit,
{
    assert(page(items, Some(limit), Some(offset)) + page(
        items,
        None,
        Some((offset + limit) as usize),
    ) =~= page(items, None, Some(offset)));
}

/// The first `count` pages of `limit` items, one behind the other.
pub open spec fn pages<T>(items: Seq<T>, limit: usize, count: nat) -> Seq<T>
    decreases count,
{
    if count == 0 {
        Seq::empty()
    } else {
        pages(items, limit, (count - 1) as nat) + page(
            items,
            Some(limit),
            Some(((count - 1) * limit) as usize),
        )
    }
}

/// The pages at the offsets zero, `limit`, twice `limit` and so on are together
/// the first items of the list; and once there are enough pages, they are the
/// whole list, each item once and in its order.
pub proof fn law_pages_hold_everything<T>(items: Seq<T>, limit: usize, count: nat)
    requires
        count * limit <= usize::MAX,
    ensures
        pages(items, limit, count) == page(items, Some((count * limit) as usize), None),
        items.len() <= count * limit ==> pages(items, limit, count) == items,
    decreases count,
{
    if count > 0 {
        let earlier = (count - 1) as nat;
        assert(count * limit == earlier * limit + limit && 0 <= earlier * limit)
            by (nonlinear_arith)
            requires
                count == earlier + 1,
        ;
        law_pages_hold_everything(items, limit, earlier);
        assert(pages(items, limit, count) =~= page(items, Some((count * limit) as usize), None));
    } else {
        assert(count * limit == 0) by (nonlinear_arith)
            requires
                count == 0,
        ;
        assert(pages(items, limit, count) =~= page(items, Some((count * limit) as usize), None));
    }
    if items.len() <= count * limit {
        assert(page(items, Some((count * limit) as usize), None) =~= items);
    }
}

/// Some other record names `id` as the one it replaces.
pub open spec fn superseded(rows: Seq<RecordView>, id: Seq<char>) -> bool {
    exists|j: int|
        0 <= j < rows.len() && (#[trigger] rows[j]).supersedes_id == Some(id) && rows[j].id != id
}

/// What a read asks of a record besides the caller's filters: whether it is
/// visible, and whether replaced records are wanted.
pub open spec fn listed_at(
    rows: Seq<RecordView>,
    visible: Seq<bool>,
    matches: Option<Seq<bool>>,
    include_retired: bool,
) -> spec_fn(int) -> bool {
    |i: int|
        visible[i] && (include_retired || !superseded(rows, rows[i].id)) && (matches is None
            || matches->Some_0[i])
}

/// All records that a read gives, before it is cut to a page.
pub open spec fn listed(
    rows: Seq<RecordView>,
    visible: Seq<bool>,
    matches: Option<Seq<bool>>,
    include_retired: bool,
) -> Seq<RecordView> {
    picked(rows, listed_at(rows, visible, matches, include_retired), rows.len())
}

/// The ids that some other record names as the one it replaces.
pub fn superseded_ids(rows: &Vec<ContextRecord>) -> (result: Vec<String>)
    ensures
        forall|id: Seq<char>|
            texts(result@).contains(id) <==> superseded(record_views(rows@), id),
{
    let ghost views = record_views(rows@);
    let mut result: Vec<String> = Vec::new();
    let mut index: usize = 0;
    while index < rows.len()
        invariant
            index <= rows.len(),
            views == record_views(rows@),
            forall|id: Seq<char>|
                texts(result@).contains(id) <==> superseded(views.take(index as int), id),
        decreases rows.len() - index,
    {
        let ghost before = result@;
        let ghost seen = views.take(index as int);
        let ghost more = views.take(index + 1);
        let row = &rows[index];
        assert(views[index as int] == row@);
        let mut found = false;
        match &row.supersedes_id {
            Some(id) => {
                if !same_text(id.as_str(), row.id.as_str()) {
                    result.push(id.clone());
                    found = true;
                }
            },
            None => {},
        }
        proof {
            assert(more =~= seen.push(row@));
            if found {
                assert(texts(result@) =~= texts(before).push(row@.supersedes_id->Some_0));
            }
            assert forall|id: Seq<char>|
                texts(result@).contains(id) <==> superseded(more, id) by {
                if superseded(seen, id) {
                    let j = choose|j: int|
                        0 <= j < seen.len() && (#[trigger] seen[j]).supersedes_id == Some(id)
                            && seen[j].id != id;
                    assert(more[j].supersedes_id == Some(id) && more[j].id != id);
                    assert(texts(before).contains(id));
                    let at = choose|at: int|
                        0 <= at < texts(before).len() && texts(before)[at] == id;
                    assert(texts(result@)[at] == id);
                }
                if superseded(more, id) && !superseded(seen, id) {
                    let j = choose|j: int|
                        0 <= j < more.len() && (#[trigger] more[j]).supersedes_id == Some(id)
                            && more[j].id != id;
                    if j < seen.len() {
                        assert(seen[j].supersedes_id == Some(id) && seen[j].id != id);
                    }
                    assert(j == index);
                    assert(texts(result@)[texts(before).len() as int] == id);
                }
                if texts(result@).contains(id) && !texts(before).contains(id) {
                    let at = choose|at: int|
                        0 <= at < texts(result@).len() && texts(result@)[at] == id;
                    if at < texts(before).len() {
                        assert(texts(before)[at] == id);
                    }
                    assert(found);
                    assert(more[index as int].supersedes_id == Some(id) && more[index as int].id
                        != id);
                }
            }
        }
        index = index + 1;
    }
    assert(views.take(views.len() as int) =~= views);
    result
}

/// Lists the records of a scan: those that are visible, not replaced by
/// another record (unless replaced ones are wanted too) and match the filter,
/// cut to the asked page.
///
/// `visible` and `matches` hold, for each row, what the lifecycle rules and
/// the caller's filter say of it; no `matches` means that nothing is filtered.
pub fn list_records(
    rows: Vec<ContextRecord>,
    visible: &Vec<bool>,
    matches: &Option<Vec<bool>>,
    include_retired: bool,
    limit: Option<usize>,
    offset: Option<usize>,
) -> (result: Vec<ContextRecord>)
    requires
        visible@.len() == rows@.len(),
        matches is Some ==> matches->Some_0@.len() == rows@.len(),
    ensures
        record_views(result@) == page(
            listed(
                record_views(rows@),
                visible@,
                crate::record::opt_seq(*matches),
                include_retired,
            ),
            limit,
            offset,
        ),
{
    let ghost views = record_views(rows@);
    let ghost wanted = listed_at(
        views,
        visible@,
        crate::record::opt_seq(*matches),
        include_retired,
    );
    let hidden = superseded_ids(&rows);
    let mut keep: Vec<bool> = Vec::new();
    let mut index: usize = 0;
    while index < rows.len()
        invariant
            index <= rows.len(),
            visible@.len() == rows@.len(),
            matches is Some ==> matches->Some_0@.len() == rows@.len(),
            views == record_views(rows@),
            wanted == listed_at(
                views,
                visible@,
                crate::record::opt_seq(*matches),
                include_retired,
            ),
            forall|id: Seq<char>| texts(hidden@).contains(id) <==> superseded(views, id),
            keep@.len() == index,
            forall|i: int| 0 <= i < index ==> #[trigger] keep@[i] == wanted(i),
        decreases rows.len() - index,
    {
        assert(views[index as int] == rows@[index as int]@);
        let matched = match matches {
            Some(flags) => flags[index],
            None => true,
        };
        let shown = visible[index] && (include_retired || !contains_text(
            &hidden,
            rows[index].id.as_str(),
        )) && matched;
        keep.push(shown);
        index = index + 1;
    }
    let ghost source = rows@;
    let kept = pick(rows, &keep);
    proof {
        let flags = |i: int| keep@[i];
        lemma_picked_agrees(views, flags, wanted, views.len());
        lemma_picked_views(source, flags, source.len());
    }
    let result = paged(kept, limit, offset);
    proof {
        assert(record_views(result@) =~= page(record_views(kept@), limit, offset));
    }
    result
}

proof fn lemma_picked_views(rows: Seq<ContextRecord>, keep: spec_fn(int) -> bool, count: nat)
    requires
        count <= rows.len(),
    ensures
        record_views(picked(rows, keep, count)) == picked(record_views(rows), keep, count),
    decreases count,
{
    if count > 0 {
        lemma_picked_views(rows, keep, (count - 1) as nat);
    }
    assert(record_views(picked(rows, keep, count)) =~= picked(record_views(rows), keep, count));
}

/// Where the first record with this id stands.
pub open spec fn find_id(rows: Seq<RecordView>, id: Seq<char>, from: int) -> Option<int>
    decreases rows.len() - from,
{
    if from >= rows.len() || from < 0 {
        None
    } else if rows[from].id == id {
        Some(from)
    } else {
        find_id(rows, id, from + 1)
    }
}

/// Where the first record with this external id stands.
pub open spec fn find_external(rows: Seq<RecordView>, external_id: Seq<char>, from: int) -> Option<int>
    decreases rows.len() - from,
{
    if from >= rows.len() || from < 0 {
        None
    } else if rows[from].external_id == Some(external_id) {
        Some(from)
    } else {
        find_external(rows, external_id, from + 1)
    }
}

/// Finds a listed record by its id.
pub fn find_by_id(rows: &Vec<ContextRecord>, id: &str) -> (result: Option<usize>)
    ensures
        crate::batch::opt_index(result) == find_id(record_views(rows@), id@, 0),
        result is Some ==> result->Some_0 < rows@.len(),
{
    let ghost views = record_views(rows@);
    let mut index: usize = 0;
    while index < rows.len()
        invariant
            index <= rows.len(),
            views == record_views(rows@),
            find_id(views, id@, 0) == find_id(views, id@, index as int),
        decreases rows.len() - index,
    {
        assert(views[index as int] == rows@[index as int]@);
        if same_text(rows[index].id.as_str(), id) {
            return Some(index);
        }
        index = index + 1;
    }
    None
}

/// Finds a listed record by its external id.
pub fn find_by_external_id(rows: &Vec<ContextRecord>, external_id: &str) -> (result: Option<usize>)
    ensures
        crate::batch::opt_index(result) == find_external(record_views(rows@), external_id@, 0),
        result is Some ==> result->Some_0 < rows@.len(),
{
    let ghost views = record_views(rows@);
    let mut index: usize = 0;
    while index < rows.len()
        invariant
            index <= rows.len(),
            views == record_views(rows@),
            find_external(views, external_id@, 0) == find_external(
                views,
                external_id@,
                index as int,
            ),
        decreases rows.len() - index,
    {
        assert(views[index as int] == rows@[index as int]@);
        if opt_is(&rows[index].external_id, external_id) {
            return Some(index);
        }
        index = index + 1;
    }
    None
}

/// Whether one of the relationships points at the target, by the relation if
/// one is named.
pub open spec fn points_at(
    relationships: Seq<RelationshipView>,
    target_id: Seq<char>,
    relation: Option<Seq<char>>,
) -> bool {
    exists|i: int|
        0 <= i < relationships.len() && (#[trigger] relationships[i]).target_id == target_id && (
        relation is None || relationships[i].relation == relation->Some_0)
}

/// Which records relate to a target.
pub open spec fn related_at(
    rows: Seq<RecordView>,
    target_id: Seq<char>,
    relation: Option<Seq<char>>,
) -> spec_fn(int) -> bool {
    |i: int| points_at(rows[i].relationships, target_id, relation)
}

fn has_relationship(record: &ContextRecord, target_id: &str, relation: &Option<String>) -> (result: bool)
    ensures
        result == points_at(record@.relationships, target_id@, opt_text(*relation)),
{
    let ghost links = record@.relationships;
    let mut index: usize = 0;
    while index < record.relationships.len()
        invariant
            index <= record.relationships.len(),
            links == record@.relationships,
            forall|i: int|
                0 <= i < index ==> !((#[trigger] links[i]).target_id == target_id@ && (opt_text(
                    *relation,
                ) is None || links[i].relation == opt_text(*relation)->Some_0)),
        decreases record.relationships.len() - index,
    {
        let link = &record.relationships[index];
        assert(links[index as int] == link@);
        let wanted = match relation {
            Some(name) => same_text(link.relation.as_str(), name.as_str()),
            None => true,
        };
        if same_text(link.target_id.as_str(), target_id) && wanted {
            assert(links[index as int].target_id == target_id@);
            return true;
        }
        index = index + 1;
    }
    false
}

/// The listed records with a relationship to `target_id`, at most `limit`.
pub fn related_records(
    rows: Vec<ContextRecord>,
    target_id: &str,
    relation: &Option<String>,
    limit: Option<usize>,
) -> (result: Vec<ContextRecord>)
    ensures
        record_views(result@) == page(
            picked(
                record_views(rows@),
                related_at(record_views(rows@), target_id@, opt_text(*relation)),
                rows@.len(),
            ),
            limit,
            None,
        ),
{
    let ghost views = record_views(rows@);
    let ghost wanted = related_at(views, target_id@, opt_text(*relation));
    let mut keep: Vec<bool> = Vec::new();
    let mut index: usize = 0;
    while index < rows.len()
        invariant
            index <= rows.len(),
            views == record_views(rows@),
            wanted == related_at(views, target_id@, opt_text(*relation)),
            keep@.len() == index,
            forall|i: int| 0 <= i < index ==> #[trigger] keep@[i] == wanted(i),
        decreases rows.len() - index,
    {
        assert(views[index as int] == rows@[index as int]@);
        keep.push(has_relationship(&rows[index], target_id, relation));
        index = index + 1;
    }
    let ghost source = rows@;
    let kept = pick(rows, &keep);
    proof {
        let flags = |i: int| keep@[i];
        lemma_picked_agrees(views, flags, wanted, views.len());
        lemma_picked_views(source, flags, source.len());
    }
    let result = paged(kept, limit, None);
    assert(record_views(result@) =~= page(record_views(kept@), limit, None));
    result
}

/// A record that another one replaces is not listed by default, whatever the
/// lifecycle rules and the filter say of it.
pub proof fn law_replaced_records_are_hidden(
    rows: Seq<RecordView>,
    visible: Seq<bool>,
    matches: Option<Seq<bool>>,
    replaced: RecordView,
)
    requires
        visible.len() == rows.len(),
        superseded(rows, replaced.id),
    ensures
        !listed(rows, visible, matches, false).contains(replaced),
{
    let keep = listed_at(rows, visible, matches, false);
    lemma_picked_contains(rows, keep, rows.len(), replaced);
    if listed(rows, visible, matches, false).contains(replaced) {
        let i = choose|i: int| 0 <= i < rows.len() && #[trigger] keep(i) && rows[i] == replaced;
        assert(!superseded(rows, rows[i].id));
    }
}

/// A read that wants replaced records too gives every record that a default
/// read gives.
pub proof fn law_history_holds_the_current_records(
    rows: Seq<RecordView>,
    visible: Seq<bool>,
    matches: Option<Seq<bool>>,
    record: RecordView,
)
    requires
        listed(rows, visible, matches, false).contains(record),
    ensures
        listed(rows, visible, matches, true).contains(record),
{
    let current = listed_at(rows, visible, matches, false);
    let history = listed_at(rows, visible, matches, true);
    lemma_picked_contains(rows, current, rows.len(), record);
    lemma_picked_contains(rows, history, rows.len(), record);
    let i = choose|i: int| 0 <= i < rows.len() && #[trigger] current(i) && rows[i] == record;
    assert(history(i));
}

/// The places of the kept items, in order.
spec fn picked_places(keep: spec_fn(int) -> bool, count: nat) -> Seq<int>
    decreases count,
{
    if count == 0 {
        Seq::empty()
    } else {
        let earlier = picked_places(keep, (count - 1) as nat);
        if keep(count - 1) {
            earlier.push(count - 1)
        } else {
            earlier
        }
    }
}

proof fn lemma_picked_places<T>(items: Seq<T>, keep: spec_fn(int) -> bool, count: nat)
    requires
        count <= items.len(),
    ensures
        ({
            let places = picked_places(keep, count);
            &&& picked(items, keep, count).len() == places.len()
            &&& forall|k: int|
                0 <= k < places.len() ==> 0 <= #[trigger] places[k] < count && keep(places[k])
                    && picked(items, keep, count)[k] == items[places[k]]
            &&& forall|j: int, k: int|
                0 <= j < k < places.len() ==> #[trigger] places[j] < #[trigger] places[k]
            &&& forall|i: int| 0 <= i < count && #[trigger] keep(i) ==> places.contains(i)
        }),
    decreases count,
{
    if count > 0 {
        lemma_picked_places(items, keep, (count - 1) as nat);
        let before = picked_places(keep, (count - 1) as nat);
        let places = picked_places(keep, count);
        if keep(count - 1) {
            assert(places[before.len() as int] == count - 1);
            assert forall|k: int| 0 <= k < places.len() implies 0 <= #[trigger] places[k] < count
                && keep(places[k]) && picked(items, keep, count)[k] == items[places[k]] by {
                if k < before.len() {
                    assert(places[k] == before[k]);
                }
            }
            assert forall|j: int, k: int| 0 <= j < k < places.len() implies #[trigger] places[j]
                < #[trigger] places[k] by {
                assert(places[j] == before[j]);
                if k < before.len() {
                    assert(places[k] == before[k]);
                }
            }
            assert forall|i: int| 0 <= i < count
                && #[trigger] keep(i) implies places.contains(i) by {
                if i < count - 1 {
                    assert(before.contains(i));
                    let k = choose|k: int| 0 <= k < before.len() && before[k] == i;
                    assert(places[k] == i);
                }
            }
        }
    }
}

/// `places` are places of a list that has this many items, from front to back.
pub open spec fn front_to_back(places: Seq<int>, length: nat) -> bool {
    &&& forall|k: int| 0 <= k < places.len() ==> 0 <= #[trigger] places[k] < length
    &&& forall|j: int, k: int|
        0 <= j < k < places.len() ==> #[trigger] places[j] < #[trigger] places[k]
}

/// A listing holds a row exactly where the row is visible, the caller's filter
/// takes it, and, unless replaced records are wanted, no other row names it as
/// the one it replaces. The rows come whole and in the order of the scan, and no
/// row comes twice.
pub proof fn law_listing_holds_what_was_asked_for(
    rows: Seq<RecordView>,
    visible: Seq<bool>,
    matches: Option<Seq<bool>>,
    include_retired: bool,
) -> (places: Seq<int>)
    requires
        visible.len() == rows.len(),
        matches is Some ==> matches->Some_0.len() == rows.len(),
    ensures
        front_to_back(places, rows.len()),
        listed(rows, visible, matches, include_retired).len() == places.len(),
        forall|k: int|
            0 <= k < places.len() ==> #[trigger] listed(
                rows,
                visible,
                matches,
                include_retired,
            )[k] == rows[places[k]],
        forall|i: int|
            0 <= i < rows.len() ==> (#[trigger] places.contains(i) <==> {
                &&& visible[i]
                &&& matches is Some ==> matches->Some_0[i]
                &&& include_retired || forall|j: int|
                    0 <= j < rows.len() && (#[trigger] rows[j]).supersedes_id is Some
                        && rows[j].supersedes_id->Some_0 == rows[i].id ==> rows[j].id == rows[i].id
            }),
{
    let keep = listed_at(rows, visible, matches, include_retired);
    let places = picked_places(keep, rows.len());
    lemma_picked_places(rows, keep, rows.len());
    assert forall|i: int| 0 <= i < rows.len() implies (#[trigger] places.contains(i) <==> {
        &&& visible[i]
        &&& matches is Some ==> matches->Some_0[i]
        &&& include_retired || forall|j: int|
            0 <= j < rows.len() && (#[trigger] rows[j]).supersedes_id is Some
                && rows[j].supersedes_id->Some_0 == rows[i].id ==> rows[j].id == rows[i].id
    }) by {
        if places.contains(i) {
            let k = choose|k: int| 0 <= k < places.len() && places[k] == i;
            assert(keep(places[k]));
            if !include_retired {
                assert forall|j: int|
                    0 <= j < rows.len() && (#[trigger] rows[j]).supersedes_id is Some
                        && rows[j].supersedes_id->Some_0 == rows[i].id implies rows[j].id
                    == rows[i].id by {
                    assert(rows[j].supersedes_id == Some(rows[i].id));
                }
            }
        } else {
            assert(!keep(i));
        }
    }
    assert forall|k: int| 0 <= k < places.len() implies #[trigger] listed(
        rows,
        visible,
        matches,
        include_retired,
    )[k] == rows[places[k]] by {
        assert(0 <= places[k] < rows.len());
    }
    places
}

/// A page begins behind as many items as the offset says and holds as many as
/// the limit says, or as are left, each as it stands in the list.
pub proof fn law_page_is_cut_out_of_the_list<T>(
    items: Seq<T>,
    limit: Option<usize>,
    offset: Option<usize>,
)
    ensures
        ({
            let skipped: int = if offset is Some {
                offset->Some_0 as int
            } else {
                0
            };
            let left: int = if items.len() > skipped {
                items.len() - skipped
            } else {
                0
            };
            &&& limit is None ==> page(items, limit, offset).len() == left
            &&& limit is Some && limit->Some_0 <= left ==> page(items, limit, offset).len()
                == limit->Some_0
            &&& limit is Some && limit->Some_0 > left ==> page(items, limit, offset).len() == left
            &&& forall|k: int|
                0 <= k < page(items, limit, offset).len() ==> #[trigger] page(
                    items,
                    limit,
                    offset,
                )[k] == items[skipped + k]
        }),
{
}

/// A lookup by id finds the first listed record with the id, and nothing only
/// where no listed record has it.
pub proof fn law_lookup_by_id_finds_the_first(rows: Seq<RecordView>, id: Seq<char>, from: int)
    requires
        0 <= from <= rows.len(),
    ensures
        match find_id(rows, id, from) {
            Some(at) => {
                &&& from <= at < rows.len()
                &&& rows[at].id == id
                &&& forall|i: int| from <= i < at ==> (#[trigger] rows[i]).id != id
            },
            None => forall|i: int| from <= i < rows.len() ==> (#[trigger] rows[i]).id != id,
        },
    decreases rows.len() - from,
{
    if from < rows.len() && rows[from].id != id {
        law_lookup_by_id_finds_the_first(rows, id, from + 1);
    }
}

/// A lookup by external id finds the first listed record with the external id,
/// and nothing only where no listed record has it.
pub proof fn law_lookup_by_external_id_finds_the_first(
    rows: Seq<RecordView>,
    external_id: Seq<char>,
    from: int,
)
    requires
        0 <= from <= rows.len(),
    ensures
        match find_external(rows, external_id, from) {
            Some(at) => {
                &&& from <= at < rows.len()
                &&& rows[at].external_id is Some && rows[at].external_id->Some_0 == external_id
                &&& forall|i: int|
                    from <= i < at ==> (#[trigger] rows[i]).external_id != Some(external_id)
            },
            None => forall|i: int|
                from <= i < rows.len() ==> (#[trigger] rows[i]).external_id != Some(external_id),
        },
    decreases rows.len() - from,
{
    if from < rows.len() && rows[from].external_id != Some(external_id) {
        law_lookup_by_external_id_finds_the_first(rows, external_id, from + 1);
    }
}

/// The records that relate to a target are those with a relationship whose
/// target it is and, where a relation is named, whose relation it is. They come
/// in the order of the listing, none left out and none twice.
pub proof fn law_related_records_point_at_the_target(
    rows: Seq<RecordView>,
    target_id: Seq<char>,
    relation: Option<Seq<char>>,
) -> (places: Seq<int>)
    ensures
        front_to_back(places, rows.len()),
        picked(rows, related_at(rows, target_id, relation), rows.len()).len() == places.len(),
        forall|k: int|
            0 <= k < places.len() ==> #[trigger] picked(
                rows,
                related_at(rows, target_id, relation),
                rows.len(),
            )[k] == rows[places[k]],
        forall|i: int|
            0 <= i < rows.len() ==> (#[trigger] places.contains(i) <==> exists|l: int|
                {
                    &&& 0 <= l < rows[i].relationships.len()
                    &&& (#[trigger] rows[i].relationships[l]).target_id == target_id
                    &&& relation is Some ==> rows[i].relationships[l].relation == relation->Some_0
                }),
{
    let keep = related_at(rows, target_id, relation);
    let places = picked_places(keep, rows.len());
    lemma_picked_places(rows, keep, rows.len());
    assert forall|i: int| 0 <= i < rows.len() implies (#[trigger] places.contains(i)
        <==> exists|l: int|
        {
            &&& 0 <= l < rows[i].relationships.len()
            &&& (#[trigger] rows[i].relationships[l]).target_id == target_id
            &&& relation is Some ==> rows[i].relationships[l].relation == relation->Some_0
        }) by {
        if places.contains(i) {
            let k = choose|k: int| 0 <= k < places.len() && places[k] == i;
            assert(keep(places[k]));
        } else {
            assert(!keep(i));
        }
    }
    assert forall|k: int| 0 <= k < places.len() implies #[trigger] picked(rows, keep, rows.len())[k]
        == rows[places[k]] by {
        assert(0 <= places[k] < rows.len());
    }
    places
}

/// What is picked of a list are the items at the kept places, each once and in
/// its order.
pub proof fn law_picked_items_stand_at_kept_places<T>(
    items: Seq<T>,
    keep: spec_fn(int) -> bool,
) -> (places: Seq<int>)
    ensures
        front_to_back(places, items.len()),
        picked(items, keep, items.len()).len() == places.len(),
        forall|k: int|
            0 <= k < places.len()
                ==> keep(#[trigger] places[k]) && picked(items, keep, items.len())[k]
                == items[places[k]],
        forall|i: int| 0 <= i < items.len() && #[trigger] keep(i) ==> places.contains(i),
{
    lemma_picked_places(items, keep, items.len());
    picked_places(keep, items.len())
}

} // verus!
