//! Paging and looking up rollout records.

use vstd::prelude::*;

use crate::collect::{collected, lemma_failure_stays};
use crate::error::{invalid_argument, Failure, StoreError};
use crate::listing::{page, paged};
use crate::order::{
    arrange, arranged, comes_before, covers, in_rank_order, lemma_arranged_keeps_items,
    lemma_rank_order_has_no_duplicates, lemma_sorted_lists_are_equal, lemma_text_le_antisymmetric,
    lemma_text_le_total, lemma_text_le_transitive, rank_order, text_at_most, text_le, Ranking,
};
use crate::projection::non_blob_columns;
use crate::rollout_filter::{no_filters, FiltersView, RolloutFilters};
use crate::rollout_record::{rollout_views, RolloutRecord, RolloutView};
use crate::shard::{pending_generations, pending_in, ShardSnapshot};
use crate::text::{contains_text, join3, same_text, texts};

verus! {

/// One page of rollout records.
#[derive(Debug, Clone, PartialEq)]
pub struct RolloutPage {
    pub records: Vec<RolloutRecord>,
    /// Whether records follow behind the page.
    pub has_more: bool,
}

/// How many rows are read for a page: one beyond it, which shows whether more
/// follow.
pub open spec fn scan_limit(limit: usize) -> usize {
    if limit == usize::MAX {
        usize::MAX
    } else {
        (limit + 1) as usize
    }
}

/// How many rows are read for a page.
pub fn page_scan_limit(limit: usize) -> (result: usize)
    ensures
        result == scan_limit(limit),
{
    if limit == usize::MAX {
        usize::MAX
    } else {
        limit + 1
    }
}

/// The limit and the offset as the base table's scan takes them, or which of
/// the two does not fit.
pub fn base_scan_window(limit: usize, offset: usize) -> (result: Result<(i64, i64), StoreError>)
    ensures
        if scan_limit(limit) > i64::MAX {
            result is Err && result->Err_0@ == invalid_argument(
                "pagination limit exceeds i64::MAX"@,
            )
        } else if offset > i64::MAX {
            result is Err && result->Err_0@ == invalid_argument(
                "pagination offset exceeds i64::MAX"@,
            )
        } else {
            result is Ok && result->Ok_0.0 == scan_limit(limit) && result->Ok_0.1 == offset
        },
{
    let wanted = page_scan_limit(limit);
    if wanted as u64 > i64::MAX as u64 {
        return Err(
            StoreError::invalid_argument("pagination limit exceeds i64::MAX".to_owned()),
        );
    }
    if offset as u64 > i64::MAX as u64 {
        return Err(
            StoreError::invalid_argument("pagination offset exceeds i64::MAX".to_owned()),
        );
    }
    Ok((wanted as i64, offset as i64))
}

/// The first `limit` items and whether there are more.
pub open spec fn within<T>(items: Seq<T>, limit: usize) -> (Seq<T>, bool) {
    if items.len() > limit {
        (items.take(limit as int), true)
    } else {
        (items, false)
    }
}

/// Cuts what was read for a page down to the page, and tells whether more
/// follow.
pub fn cut_page<T>(items: Vec<T>, limit: usize) -> (result: (Vec<T>, bool))
    ensures
        (result.0@, result.1) == within(items@, limit),
{
    let ghost source = items@;
    let mut items = items;
    let has_more = items.len() > limit;
    if has_more {
        items.truncate(limit);
        assert(items@ =~= source.take(limit as int));
    }
    (items, has_more)
}

/// The page of records among those that were read for it.
pub fn page_of(records: Vec<RolloutRecord>, limit: usize) -> (result: RolloutPage)
    ensures
        (result.records@, result.has_more) == within(records@, limit),
{
    let (records, has_more) = cut_page(records, limit);
    RolloutPage { records, has_more }
}

/// Reading one row beyond a page is enough: the page holds the rows that
/// belong on it, and says that more follow exactly when they do.
pub proof fn law_page_reports_what_follows<T>(rows: Seq<T>, limit: usize, offset: usize)
    requires
        rows.len() <= usize::MAX,
    ensures
        within(page(rows, Some(scan_limit(limit)), Some(offset)), limit).0 == page(
            rows,
            Some(limit),
            Some(offset),
        ),
        within(page(rows, Some(scan_limit(limit)), Some(offset)), limit).1 == (rows.len() > offset
            + limit),
{
    assert(within(page(rows, Some(scan_limit(limit)), Some(offset)), limit).0 =~= page(
        rows,
        Some(limit),
        Some(offset),
    ));
}

/// What the rows read for the page at an offset are cut down to.
pub open spec fn source_page<T>(rows: Seq<T>, limit: usize, offset: usize) -> (Seq<T>, bool) {
    within(page(rows, Some(scan_limit(limit)), Some(offset)), limit)
}

/// The records of the first `count` pages, one behind the other.
pub open spec fn source_pages<T>(rows: Seq<T>, limit: usize, count: nat) -> Seq<T>
    decreases count,
{
    if count == 0 {
        Seq::empty()
    } else {
        source_pages(rows, limit, (count - 1) as nat) + source_page(
            rows,
            limit,
            ((count - 1) * limit) as usize,
        ).0
    }
}

/// A page holds as many rows as are asked for, or as are left, and says that
/// more follow exactly when they do. The pages at the offsets zero, `limit`,
/// twice `limit` and so on together hold each row exactly once, in its order:
/// once no more follow, they are all the rows.
pub proof fn law_pages_hold_each_row_once<T>(rows: Seq<T>, limit: usize, count: nat)
    requires
        rows.len() <= usize::MAX,
        count * limit <= usize::MAX,
    ensures
        source_pages(rows, limit, count) == page(rows, Some((count * limit) as usize), None),
        rows.len() <= count * limit ==> source_pages(rows, limit, count) == rows,
        count > 0 ==> ({
            let offset = ((count - 1) * limit) as usize;
            let (records, has_more) = source_page(rows, limit, offset);
            &&& has_more == (rows.len() > count * limit)
            &&& records.len() == if rows.len() >= count * limit {
                limit as int
            } else if rows.len() > offset {
                rows.len() - offset
            } else {
                0
            }
            &&& !has_more ==> source_pages(rows, limit, count) == rows
        }),
    decreases count,
{
    crate::listing::law_pages_hold_everything(rows, limit, count);
    if count > 0 {
        let earlier = (count - 1) as nat;
        assert(count * limit == earlier * limit + limit && 0 <= earlier * limit)
            by (nonlinear_arith)
            requires
                count == earlier + 1,
        ;
        law_pages_hold_each_row_once(rows, limit, earlier);
        crate::listing::law_pages_hold_everything(rows, limit, earlier);
        law_page_reports_what_follows(rows, limit, (earlier * limit) as usize);
    }
    assert(source_pages(rows, limit, count) == crate::listing::pages(rows, limit, count));
}

/// How a listing is divided between the scan and what is done with its rows:
/// the limit and offset of the scan, and how many rows to skip afterwards. A
/// scan takes an offset only together with a limit.
pub fn list_window(limit: Option<usize>, offset: Option<usize>) -> (result: (
    Option<usize>,
    Option<usize>,
    Option<usize>,
))
    ensures
        limit is Some ==> result == (limit, offset, None::<usize>),
        limit is None ==> result == (None::<usize>, None::<usize>, offset),
{
    match limit {
        Some(_) => (limit, offset, None),
        None => (None, None, offset),
    }
}

/// Skips the first rows of a listing.
pub fn skip_rows(records: Vec<RolloutRecord>, offset: Option<usize>) -> (result: Vec<RolloutRecord>)
    ensures
        result@ == page(records@, None, offset),
{
    paged(records, None, offset)
}

/// However a listing is divided, it gives the asked-for page of the rows.
pub proof fn law_listing_gives_the_page<T>(
    rows: Seq<T>,
    limit: Option<usize>,
    offset: Option<usize>,
)
    ensures
        limit is Some ==> page(page(rows, limit, offset), None, None) == page(rows, limit, offset),
        limit is None ==> page(page(rows, None, None), None, offset) == page(rows, limit, offset),
{
    assert(page(page(rows, limit, offset), None, None) =~= page(rows, limit, offset));
    assert(page(rows, None, None) =~= rows);
}

/// The filters that select one trajectory.
pub open spec fn trajectory_filters(rollout_id: Seq<char>) -> FiltersView {
    FiltersView { rollout_id: Some(rollout_id), ..no_filters() }
}

/// The filters that select one trajectory, which must be named.
pub fn select_trajectory(rollout_id: &str) -> (result: Result<RolloutFilters, StoreError>)
    ensures
        if rollout_id@.len() == 0 {
            result is Err && result->Err_0@ == invalid_argument("rollout_id must not be empty"@)
        } else {
            result is Ok && result->Ok_0@ == trajectory_filters(rollout_id@)
        },
{
    if rollout_id.is_empty() {
        return Err(StoreError::invalid_argument("rollout_id must not be empty".to_owned()));
    }
    let mut filters = RolloutFilters::default();
    filters.rollout_id = Some(rollout_id.to_owned());
    Ok(filters)
}

/// Message order: by position in the trajectory, then by id.
pub open spec fn message_le(left: RolloutView, right: RolloutView) -> bool {
    left.sequence_order < right.sequence_order || (left.sequence_order == right.sequence_order
        && text_le(left.id, right.id))
}

/// Records that come in message order.
pub open spec fn in_message_order(records: Seq<RolloutView>) -> bool {
    forall|i: int, j: int|
        0 <= i < j < records.len() ==> message_le(#[trigger] records[i], #[trigger] records[j])
}

/// No two records share an id.
pub open spec fn distinct_ids(records: Seq<RolloutView>) -> bool {
    forall|i: int, j: int|
        0 <= i < j < records.len() ==> (#[trigger] records[i]).id != (#[trigger] records[j]).id
}

/// Records ranked in message order.
pub struct MessageRanking<'a> {
    pub records: &'a Vec<RolloutRecord>,
}

impl<'a> Ranking for MessageRanking<'a> {
    open spec fn size(&self) -> nat {
        self.records@.len()
    }

    open spec fn ranks(&self, left: int, right: int) -> bool {
        message_le(self.records@[left]@, self.records@[right]@)
    }

    proof fn lemma_total(&self, left: int, right: int) {
        lemma_text_le_total(self.records@[left]@.id, self.records@[right]@.id);
    }

    proof fn lemma_transitive(&self, first: int, second: int, third: int) {
        let a = self.records@[first]@;
        let b = self.records@[second]@;
        let c = self.records@[third]@;
        if a.sequence_order == b.sequence_order && b.sequence_order == c.sequence_order {
            lemma_text_le_transitive(a.id, b.id, c.id);
        }
    }

    fn at_most(&self, left: usize, right: usize) -> (result: bool) {
        let first = &self.records[left];
        let second = &self.records[right];
        if first.sequence_order != second.sequence_order {
            first.sequence_order < second.sequence_order
        } else {
            text_at_most(first.id.as_str(), second.id.as_str())
        }
    }
}

/// Puts the records of a trajectory into message order. Records that share
/// position and id keep their order.
pub fn order_trajectory(records: Vec<RolloutRecord>) -> (result: Vec<RolloutRecord>)
    ensures
        exists|order: Seq<usize>|
            {
                &&& covers(order, 0, records@.len() as int)
                &&& #[trigger] in_rank_order(&(MessageRanking { records: &records }), order)
                &&& result@ == arranged(records@, order)
            },
        in_message_order(rollout_views(result@)),
        rollout_views(result@).to_multiset() == rollout_views(records@).to_multiset(),
{
    let ranking = MessageRanking { records: &records };
    let order = rank_order(&ranking, records.len());
    proof {
        lemma_rank_order_has_no_duplicates(&ranking, order@);
        let views = rollout_views(records@);
        let sorted = rollout_views(arranged(records@, order@));
        assert(sorted =~= arranged(views, order@));
        lemma_arranged_keeps_items(views, order@);
        assert forall|i: int, j: int| 0 <= i < j < sorted.len() implies message_le(
            #[trigger] sorted[i],
            #[trigger] sorted[j],
        ) by {
            assert(comes_before(&ranking, order@[i] as int, order@[j] as int));
        }
    }
    arrange(records, &order)
}

/// Records that share no id and come in message order come in one order only,
/// so a trajectory is given out alike however its records were read.
pub proof fn law_trajectory_order_is_fixed(left: Seq<RolloutView>, right: Seq<RolloutView>)
    requires
        in_message_order(left),
        in_message_order(right),
        distinct_ids(left),
        left.to_multiset() == right.to_multiset(),
    ensures
        left == right,
{
    let le = |a: RolloutView, b: RolloutView| message_le(a, b);
    assert forall|i: int, j: int| 0 <= i < j < left.len() implies !le(
        #[trigger] left[j],
        #[trigger] left[i],
    ) by {
        assert(left[i].id != left[j].id);
        assert(message_le(left[i], left[j]));
        if text_le(left[i].id, left[j].id) && text_le(left[j].id, left[i].id) {
            lemma_text_le_antisymmetric(left[i].id, left[j].id);
        }
    }
    lemma_sorted_lists_are_equal(left, right, le);
}

/// Where the last row with this id stands.
pub open spec fn last_with(rows: Seq<RolloutView>, id: Seq<char>) -> Option<RolloutView>
    decreases rows.len(),
{
    if rows.len() == 0 {
        None
    } else if rows.last().id == id {
        Some(rows.last())
    } else {
        last_with(rows.drop_last(), id)
    }
}

/// Where the first row with this id stands.
pub open spec fn first_with(rows: Seq<RolloutView>, id: Seq<char>) -> Option<RolloutView>
    decreases rows.len(),
{
    if rows.len() == 0 {
        None
    } else if rows[0].id == id {
        Some(rows[0])
    } else {
        first_with(rows.drop_first(), id)
    }
}

/// The row of an id: the base table's, or else the first of the pending
/// generations'.
pub open spec fn row_of(base: Seq<RolloutView>, pending: Seq<RolloutView>, id: Seq<char>) -> Option<
    RolloutView,
> {
    match last_with(base, id) {
        Some(row) => Some(row),
        None => first_with(pending, id),
    }
}

/// What one place of a page gets. Each row is given out once.
pub open spec fn page_row(ids: Seq<Seq<char>>, base: Seq<RolloutView>, pending: Seq<RolloutView>) -> spec_fn(
    int,
) -> Result<RolloutView, Failure> {
    |i: int|
        match row_of(base, pending, ids[i]) {
            Some(row) if !ids.take(i).contains(ids[i]) => Ok(row),
            _ => Err(
                invalid_argument(
                    "rollout row '"@ + ids[i] + "' disappeared while reading its page"@,
                ),
            ),
        }
}

fn find_last(rows: &Vec<RolloutRecord>, id: &str) -> (result: Option<usize>)
    ensures
        match result {
            Some(at) => at < rows@.len() && last_with(rollout_views(rows@), id@) == Some(rows@[at as int]@),
            None => last_with(rollout_views(rows@), id@) is None,
        },
{
    let ghost views = rollout_views(rows@);
    let mut left: usize = rows.len();
    assert(views.take(views.len() as int) =~= views);
    while left > 0
        invariant
            left <= rows@.len(),
            views == rollout_views(rows@),
            last_with(views, id@) == last_with(views.take(left as int), id@),
        decreases left,
    {
        assert(views.take(left as int).drop_last() =~= views.take(left - 1));
        left = left - 1;
        if same_text(rows[left].id.as_str(), id) {
            return Some(left);
        }
    }
    None
}

fn find_first(rows: &Vec<RolloutRecord>, id: &str) -> (result: Option<usize>)
    ensures
        match result {
            Some(at) => at < rows@.len() && first_with(rollout_views(rows@), id@) == Some(rows@[at as int]@),
            None => first_with(rollout_views(rows@), id@) is None,
        },
{
    let ghost views = rollout_views(rows@);
    let mut index: usize = 0;
    assert(views.skip(0) =~= views);
    while index < rows.len()
        invariant
            index <= rows@.len(),
            views == rollout_views(rows@),
            first_with(views, id@) == first_with(views.skip(index as int), id@),
        decreases rows@.len() - index,
    {
        assert(views.skip(index as int).drop_first() =~= views.skip(index + 1));
        if same_text(rows[index].id.as_str(), id) {
            return Some(index);
        }
        index = index + 1;
    }
    None
}

fn stands_before(ids: &Vec<String>, at: usize) -> (result: bool)
    requires
        at < ids@.len(),
    ensures
        result == texts(ids@).take(at as int).contains(texts(ids@)[at as int]),
{
    let ghost all = texts(ids@);
    let mut index: usize = 0;
    while index < at
        invariant
            index <= at < ids@.len(),
            all == texts(ids@),
            forall|j: int| 0 <= j < index ==> #[trigger] all[j] != all[at as int],
        decreases at - index,
    {
        if same_text(ids[index].as_str(), ids[at].as_str()) {
            assert(all.take(at as int)[index as int] == all[at as int]);
            return true;
        }
        index = index + 1;
    }
    proof {
        if all.take(at as int).contains(all[at as int]) {
            let j = choose|j: int| 0 <= j < at && all.take(at as int)[j] == all[at as int];
            assert(all[j] == all[at as int]);
        }
    }
    false
}

/// Puts a page together from the rows that its ids were resolved to: those of
/// the base table (the last one read of an id counts), and those of the
/// pending generations in the order they were read (the first one counts). An
/// id without a row is an error.
pub fn assemble_page(
    ids: &Vec<String>,
    base: &Vec<RolloutRecord>,
    pending: &Vec<RolloutRecord>,
) -> (result: Result<Vec<RolloutRecord>, StoreError>)
    ensures
        match collected(
            page_row(texts(ids@), rollout_views(base@), rollout_views(pending@)),
            ids@.len(),
        ) {
            Ok(rows) => result is Ok && rollout_views(result->Ok_0@) == rows,
            Err(failure) => result is Err && result->Err_0@ == failure,
        },
{
    let ghost step = page_row(texts(ids@), rollout_views(base@), rollout_views(pending@));
    let mut rows: Vec<RolloutRecord> = Vec::new();
    let mut index: usize = 0;
    assert(rollout_views(rows@) =~= Seq::<RolloutView>::empty());
    while index < ids.len()
        invariant
            index <= ids.len(),
            step == page_row(texts(ids@), rollout_views(base@), rollout_views(pending@)),
            collected(step, index as nat) == Ok::<Seq<RolloutView>, Failure>(rollout_views(rows@)),
        decreases ids.len() - index,
    {
        let id = ids[index].as_str();
        assert(texts(ids@)[index as int] == id@);
        let found = if stands_before(ids, index) {
            None
        } else {
            match find_last(base, id) {
                Some(at) => Some(base[at].copy()),
                None => match find_first(pending, id) {
                    Some(at) => Some(pending[at].copy()),
                    None => None,
                },
            }
        };
        match found {
            Some(row) => {
                let ghost before = rows@;
                assert(step(index as int) == Ok::<RolloutView, Failure>(row@));
                rows.push(row);
                assert(rollout_views(rows@) =~= rollout_views(before).push(row@));
            },
            None => {
                let error = StoreError::invalid_argument(
                    join3("rollout row '", id, "' disappeared while reading its page"),
                );
                proof {
                    assert(step(index as int) == Err::<RolloutView, Failure>(error@));
                    assert(collected(step, (index + 1) as nat) is Err);
                    lemma_failure_stays(step, (index + 1) as nat, ids@.len());
                }
                return Err(error);
            },
        }
        index = index + 1;
    }
    Ok(rows)
}

proof fn lemma_found_has_id(rows: Seq<RolloutView>, id: Seq<char>)
    ensures
        last_with(rows, id) is Some ==> last_with(rows, id)->Some_0.id == id,
        first_with(rows, id) is Some ==> first_with(rows, id)->Some_0.id == id,
    decreases rows.len(),
{
    if rows.len() > 0 {
        lemma_found_has_id(rows.drop_last(), id);
        lemma_found_has_id(rows.drop_first(), id);
    }
}

/// A page that is put together holds exactly the asked-for ids, in the
/// asked-for order.
pub proof fn law_page_holds_its_ids(
    ids: Seq<Seq<char>>,
    base: Seq<RolloutView>,
    pending: Seq<RolloutView>,
    at: int,
)
    requires
        collected(page_row(ids, base, pending), ids.len()) is Ok,
        0 <= at < ids.len(),
    ensures
        collected(page_row(ids, base, pending), ids.len())->Ok_0.len() == ids.len(),
        collected(page_row(ids, base, pending), ids.len())->Ok_0[at].id == ids[at],
{
    let step = page_row(ids, base, pending);
    crate::collect::lemma_success_holds_values(step, ids.len());
    assert(step(at) is Ok);
    lemma_found_has_id(base, ids[at]);
    lemma_found_has_id(pending, ids[at]);
}

/// The columns of a list that a table has.
pub fn available_columns(columns: &Vec<String>, table: &Vec<String>) -> (result: Vec<String>)
    ensures
        texts(result@) == texts(columns@).filter(|name: Seq<char>| texts(table@).contains(name)),
{
    let ghost all = texts(columns@);
    let ghost keep = |name: Seq<char>| texts(table@).contains(name);
    let mut result: Vec<String> = Vec::new();
    let mut index: usize = 0;
    proof {
        assert(all.take(0).filter(keep) =~= Seq::<Seq<char>>::empty()) by {
            reveal(Seq::filter);
        }
        assert(texts(result@) =~= Seq::<Seq<char>>::empty());
    }
    while index < columns.len()
        invariant
            index <= columns.len(),
            all == texts(columns@),
            keep == (|name: Seq<char>| texts(table@).contains(name)),
            texts(result@) == all.take(index as int).filter(keep),
        decreases columns.len() - index,
    {
        proof {
            assert(all.take(index + 1) =~= all.take(index as int).push(all[index as int]));
            all.take(index as int).lemma_filter_push(all[index as int], keep);
        }
        let ghost before = result@;
        if contains_text(table, columns[index].as_str()) {
            result.push(columns[index].clone());
            assert(texts(result@) =~= texts(before).push(all[index as int]));
        }
        index = index + 1;
    }
    assert(all.take(all.len() as int) =~= all);
    result
}

/// The columns of a point lookup: all but the artifact bytes, in whichever part
/// of the store the row lies. A generation that lacks one of them is read
/// without it.
pub fn lookup_columns(columns: &Vec<String>) -> (result: Vec<String>)
    ensures
        texts(result@) == texts(columns@).filter(|name: Seq<char>| name != "binary_payload"@),
{
    non_blob_columns(columns, "binary_payload")
}

/// The first record with this id.
pub fn record_with_id(records: &Vec<RolloutRecord>, id: &str) -> (result: Option<usize>)
    ensures
        match result {
            Some(at) => at < records@.len() && first_with(rollout_views(records@), id@) == Some(
                records@[at as int]@,
            ),
            None => first_with(rollout_views(records@), id@) is None,
        },
{
    find_first(records, id)
}

/// Read-only numbers about a rollout store.
#[derive(Debug, Clone, Copy, PartialEq, Eq, Structural)]
pub struct RolloutObservation {
    /// Rows in the base table and in every pending generation. Rows that are
    /// durable but not yet flushed are not counted.
    pub row_count: i64,
    /// Fragments of the base table.
    pub fragment_count: i64,
    /// Version of the base table.
    pub version: u64,
    /// When the base table last changed, in milliseconds since the Unix epoch.
    pub last_updated: i64,
    /// Generations of all shards that are not merged yet.
    pub pending_wal_generations: i64,
    /// Rows that this instance's writer holds but has not flushed.
    pub unflushed_rows: i64,
}

/// Puts the numbers about a store together.
pub fn observation(
    base_rows: u64,
    pending_rows: u64,
    fragments: usize,
    version: u64,
    last_updated: i64,
    snapshots: &Vec<ShardSnapshot>,
    unflushed_rows: i64,
) -> (result: RolloutObservation)
    requires
        base_rows + pending_rows <= i64::MAX,
        fragments <= i64::MAX,
        pending_in(snapshots@) <= usize::MAX,
        pending_in(snapshots@) <= i64::MAX,
    ensures
        result.row_count == base_rows + pending_rows,
        result.fragment_count == fragments,
        result.version == version,
        result.last_updated == last_updated,
        result.pending_wal_generations == pending_in(snapshots@),
        result.unflushed_rows == unflushed_rows,
{
    let pending = pending_generations(snapshots);
    RolloutObservation {
        row_count: (base_rows + pending_rows) as i64,
        fragment_count: fragments as i64,
        version,
        last_updated,
        pending_wal_generations: pending as i64,
        unflushed_rows,
    }
}

/// Messages come in the order of their sequence numbers, and those with one
/// number in the order of their ids.
pub proof fn law_messages_come_by_sequence_number(left: RolloutView, right: RolloutView)
    ensures
        left.sequence_order < right.sequence_order ==> message_le(left, right) && !message_le(
            right,
            left,
        ),
        left.sequence_order == right.sequence_order ==> (message_le(left, right) <==> text_le(
            left.id,
            right.id,
        )),
{
}

/// A trajectory is read by its rollout id alone.
pub proof fn law_a_trajectory_is_read_by_its_rollout(rollout_id: Seq<char>)
    ensures
        trajectory_filters(rollout_id).rollout_id == Some(rollout_id),
        trajectory_filters(rollout_id).id is None,
        trajectory_filters(rollout_id).problem_id is None,
        trajectory_filters(rollout_id).dataset is None,
        trajectory_filters(rollout_id).role is None,
        trajectory_filters(rollout_id).content_type is None,
        trajectory_filters(rollout_id).policy_version is None,
        trajectory_filters(rollout_id).artifact_type is None,
        trajectory_filters(rollout_id).include_in_training is None,
{
}

/// The row of an id on a page is whole: it is a row of the base table where that
/// has the id, the last one, and otherwise the first pending row with it. There
/// is none only where neither has the id.
pub proof fn law_a_page_prefers_the_base_table(
    base: Seq<RolloutView>,
    pending: Seq<RolloutView>,
    id: Seq<char>,
)
    ensures
        match row_of(base, pending, id) {
            Some(row) => {
                ||| exists|i: int|
                    {
                        &&& 0 <= i < base.len()
                        &&& #[trigger] base[i] == row
                        &&& row.id == id
                        &&& forall|j: int| i < j < base.len() ==> (#[trigger] base[j]).id != id
                    }
                ||| {
                    &&& forall|j: int| 0 <= j < base.len() ==> (#[trigger] base[j]).id != id
                    &&& exists|i: int|
                        {
                            &&& 0 <= i < pending.len()
                            &&& #[trigger] pending[i] == row
                            &&& row.id == id
                            &&& forall|j: int| 0 <= j < i ==> (#[trigger] pending[j]).id != id
                        }
                }
            },
            None => {
                &&& forall|j: int| 0 <= j < base.len() ==> (#[trigger] base[j]).id != id
                &&& forall|j: int| 0 <= j < pending.len() ==> (#[trigger] pending[j]).id != id
            },
        },
{
    law_the_last_row_with_an_id(base, id);
    law_the_first_row_with_an_id(pending, id);
}

/// The last row with an id, and nothing only where no row has it.
pub proof fn law_the_last_row_with_an_id(rows: Seq<RolloutView>, id: Seq<char>)
    ensures
        match last_with(rows, id) {
            Some(row) => exists|i: int|
                {
                    &&& 0 <= i < rows.len()
                    &&& #[trigger] rows[i] == row
                    &&& row.id == id
                    &&& forall|j: int| i < j < rows.len() ==> (#[trigger] rows[j]).id != id
                },
            None => forall|j: int| 0 <= j < rows.len() ==> (#[trigger] rows[j]).id != id,
        },
    decreases rows.len(),
{
    if rows.len() > 0 {
        let rest = rows.drop_last();
        law_the_last_row_with_an_id(rest, id);
        if rows.last().id == id {
            assert(rows[rows.len() - 1] == rows.last());
        } else {
            match last_with(rest, id) {
                Some(row) => {
                    let i = choose|i: int|
                        {
                            &&& 0 <= i < rest.len()
                            &&& #[trigger] rest[i] == row
                            &&& row.id == id
                            &&& forall|j: int| i < j < rest.len() ==> (#[trigger] rest[j]).id != id
                        };
                    assert(rows[i] == row);
                    assert forall|j: int| i < j < rows.len() implies (#[trigger] rows[j]).id != id by {
                        if j < rest.len() {
                            assert(rest[j] == rows[j]);
                        }
                    }
                },
                None => {
                    assert forall|j: int| 0 <= j < rows.len() implies (#[trigger] rows[j]).id != id by {
                        if j < rest.len() {
                            assert(rest[j] == rows[j]);
                        }
                    }
                },
            }
        }
    }
}

/// The first row with an id, and nothing only where no row has it.
pub proof fn law_the_first_row_with_an_id(rows: Seq<RolloutView>, id: Seq<char>)
    ensures
        match first_with(rows, id) {
            Some(row) => exists|i: int|
                {
                    &&& 0 <= i < rows.len()
                    &&& #[trigger] rows[i] == row
                    &&& row.id == id
                    &&& forall|j: int| 0 <= j < i ==> (#[trigger] rows[j]).id != id
                },
            None => forall|j: int| 0 <= j < rows.len() ==> (#[trigger] rows[j]).id != id,
        },
    decreases rows.len(),
{
    if rows.len() > 0 {
        let rest = rows.drop_first();
        law_the_first_row_with_an_id(rest, id);
        if rows[0].id != id {
            match first_with(rest, id) {
                Some(row) => {
                    let i = choose|i: int|
                        {
                            &&& 0 <= i < rest.len()
                            &&& #[trigger] rest[i] == row
                            &&& row.id == id
                            &&& forall|j: int| 0 <= j < i ==> (#[trigger] rest[j]).id != id
                        };
                    assert(rows[i + 1] == row);
                    assert forall|j: int| 0 <= j < i + 1 implies (#[trigger] rows[j]).id != id by {
                        if j > 0 {
                            assert(rest[j - 1] == rows[j]);
                        }
                    }
                },
                None => {
                    assert forall|j: int| 0 <= j < rows.len() implies (#[trigger] rows[j]).id != id by {
                        if j > 0 {
                            assert(rest[j - 1] == rows[j]);
                        }
                    }
                },
            }
        }
    }
}

/// When a page can be put together: exactly where its ids differ and each of them
/// stands in the base table or in a pending generation.
pub proof fn law_when_a_page_is_complete(
    ids: Seq<Seq<char>>,
    base: Seq<RolloutView>,
    pending: Seq<RolloutView>,
)
    ensures
        collected(page_row(ids, base, pending), ids.len()) is Ok <==> {
            &&& ids.no_duplicates()
            &&& forall|i: int|
                0 <= i < ids.len() ==> row_of(base, pending, #[trigger] ids[i]) is Some
        },
        collected(page_row(ids, base, pending), ids.len()) is Ok ==> forall|i: int|
            0 <= i < ids.len() ==> Some(
                #[trigger] collected(page_row(ids, base, pending), ids.len())->Ok_0[i],
            ) == row_of(base, pending, ids[i]),
{
    let step = page_row(ids, base, pending);
    if collected(step, ids.len()) is Ok {
        crate::collect::lemma_success_holds_values(step, ids.len());
        assert forall|i: int| 0 <= i < ids.len() implies row_of(
            base,
            pending,
            #[trigger] ids[i],
        ) is Some by {
            assert(step(i) is Ok);
        }
        assert forall|i: int| 0 <= i < ids.len() implies Some(
            #[trigger] collected(page_row(ids, base, pending), ids.len())->Ok_0[i],
        ) == row_of(base, pending, ids[i]) by {
            assert(step(i) is Ok);
        }
        assert forall|i: int, j: int| 0 <= i < ids.len() && 0 <= j < ids.len()
            && i != j implies ids[i]
            != ids[j] by {
            assert(step(i) is Ok && step(j) is Ok);
            if i < j {
                assert(ids.take(j)[i] == ids[i]);
            } else {
                assert(ids.take(i)[j] == ids[j]);
            }
        }
    } else {
        let at = crate::collect::lemma_first_failure(step, ids.len());
        if row_of(base, pending, ids[at]) is Some {
            assert(ids.take(at).contains(ids[at]));
            let earlier = ids.take(at).index_of(ids[at]);
            assert(ids[earlier] == ids[at]);
        }
    }
}

/// A page asks for one row more than it gives, so that it can tell whether rows
/// follow, and gives no more than it was asked for.
pub proof fn law_a_page_asks_for_one_row_more<T>(items: Seq<T>, limit: usize)
    ensures
        limit < usize::MAX ==> scan_limit(limit) == limit + 1,
        limit == usize::MAX ==> scan_limit(limit) == limit,
        within(items, limit).0.len() <= limit,
        within(items, limit).0.is_prefix_of(items),
        within(items, limit).1 <==> items.len() > limit,
        items.len() <= limit ==> within(items, limit).0 == items,
        items.len() > limit ==> within(items, limit).0.len() == limit,
{
    assert(items.take(items.len() as int) =~= items);
}

/// Records are in message order where no record has a higher sequence number than
/// one behind it, nor the same number and a later id.
pub proof fn law_message_order_is_by_number_and_id(records: Seq<RolloutView>, left: int, right: int)
    requires
        in_message_order(records),
        0 <= left < right < records.len(),
    ensures
        records[left].sequence_order <= records[right].sequence_order,
        records[left].sequence_order == records[right].sequence_order ==> text_le(
            records[left].id,
            records[right].id,
        ),
{
    assert(message_le(records[left], records[right]));
}

} // verus!
