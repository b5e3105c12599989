//! Text order and a stable sort by rank.

use vstd::prelude::*;

verus! {

/// Lexicographic order on text by code point, the order `String` has.
pub open spec fn text_le(left: Seq<char>, right: Seq<char>) -> bool
    decreases left.len(),
{
    if left.len() == 0 {
        true
    } else if right.len() == 0 {
        false
    } else if left[0] != right[0] {
        left[0] < right[0]
    } else {
        text_le(left.drop_first(), right.drop_first())
    }
}

/// Text order puts every text at most at itself.
pub proof fn lemma_text_le_reflexive(text: Seq<char>)
    ensures
        text_le(text, text),
    decreases text.len(),
{
    if text.len() > 0 {
        lemma_text_le_reflexive(text.drop_first());
    }
}

/// Text order is total.
pub proof fn lemma_text_le_total(left: Seq<char>, right: Seq<char>)
    ensures
        text_le(left, right) || text_le(right, left),
    decreases left.len(),
{
    if left.len() > 0 && right.len() > 0 && left[0] == right[0] {
        lemma_text_le_total(left.drop_first(), right.drop_first());
    }
}

/// Text order is transitive.
pub proof fn lemma_text_le_transitive(first: Seq<char>, second: Seq<char>, third: Seq<char>)
    requires
        text_le(first, second),
        text_le(second, third),
    ensures
        text_le(first, third),
    decreases first.len(),
{
    if first.len() > 0 && second.len() > 0 && third.len() > 0 && first[0] == second[0] && second[0]
        == third[0] {
        lemma_text_le_transitive(first.drop_first(), second.drop_first(), third.drop_first());
    }
}

/// Two texts that come before each other are the same.
pub proof fn lemma_text_le_antisymmetric(left: Seq<char>, right: Seq<char>)
    requires
        text_le(left, right),
        text_le(right, left),
    ensures
        left == right,
    decreases left.len(),
{
    if left.len() > 0 && right.len() > 0 {
        lemma_text_le_antisymmetric(left.drop_first(), right.drop_first());
        assert(left =~= seq![left[0]] + left.drop_first());
        assert(right =~= seq![right[0]] + right.drop_first());
    } else {
        assert(left =~= right);
    }
}

/// The characters of `text`.
pub fn chars_of(text: &str) -> (result: Vec<char>)
    ensures
        result@ == text@,
{
    let ghost whole = text@;
    let mut result: Vec<char> = Vec::new();
    for character in it: text.chars()
        invariant
            it.seq() == whole,
            result@ == whole.take(it.index() as int),
    {
        result.push(character);
        assert(result@ =~= whole.take(it.index() as int + 1));
    }
    assert(whole.take(whole.len() as int) =~= whole);
    result
}

/// Whether `left` comes at or before `right` in text order.
pub fn text_at_most(left: &str, right: &str) -> (result: bool)
    ensures
        result == text_le(left@, right@),
{
    let first = chars_of(left);
    let second = chars_of(right);
    let mut index: usize = 0;
    assert(left@.skip(0) =~= left@);
    assert(right@.skip(0) =~= right@);
    while index < first.len() && index < second.len()
        invariant
            index <= first.len(),
            index <= second.len(),
            first@ == left@,
            second@ == right@,
            text_le(left@, right@) == text_le(left@.skip(index as int), right@.skip(index as int)),
        decreases first.len() - index,
    {
        proof {
            assert(left@.skip(index as int).drop_first() =~= left@.skip(index + 1));
            assert(right@.skip(index as int).drop_first() =~= right@.skip(index + 1));
        }
        if first[index] != second[index] {
            return first[index] < second[index];
        }
        index = index + 1;
    }
    index >= first.len()
}

/// A total preorder on the positions below `size`.
pub trait Ranking {
    /// How many positions there are.
    spec fn size(&self) -> nat;

    /// Position `left` ranks at or before position `right`.
    spec fn ranks(&self, left: int, right: int) -> bool;

    /// The order is total.
    proof fn lemma_total(&self, left: int, right: int)
        ensures
            self.ranks(left, right) || self.ranks(right, left),
    ;

    /// The order is transitive.
    proof fn lemma_transitive(&self, first: int, second: int, third: int)
        requires
            self.ranks(first, second),
            self.ranks(second, third),
        ensures
            self.ranks(first, third),
    ;

    /// Compares two positions.
    fn at_most(&self, left: usize, right: usize) -> (result: bool)
        requires
            left < self.size(),
            right < self.size(),
        ensures
            result == self.ranks(left as int, right as int),
    ;
}

/// Position `left` comes before position `right` in a stable sort: it ranks
/// before it, or the two rank alike and it stood first.
pub open spec fn comes_before<R: Ranking>(ranking: &R, left: int, right: int) -> bool {
    ranking.ranks(left, right) && (ranking.ranks(right, left) ==> left < right)
}

/// `order` lists positions in stable rank order.
pub open spec fn in_rank_order<R: Ranking>(ranking: &R, order: Seq<usize>) -> bool {
    forall|i: int, j: int|
        0 <= i < j < order.len() ==> comes_before(ranking, #[trigger] order[i] as int, #[trigger] order[j] as int)
}

/// `order` holds each position from `low` to below `high`, and no other.
pub open spec fn covers(order: Seq<usize>, low: int, high: int) -> bool {
    &&& order.len() == high - low
    &&& forall|i: int| 0 <= i < order.len() ==> low <= #[trigger] order[i] < high
    &&& forall|k: usize| low <= k < high ==> #[trigger] order.contains(k)
}

proof fn lemma_before_transitive<R: Ranking>(ranking: &R, first: int, second: int, third: int)
    requires
        comes_before(ranking, first, second),
        comes_before(ranking, second, third),
    ensures
        comes_before(ranking, first, third),
{
    ranking.lemma_transitive(first, second, third);
    if ranking.ranks(third, first) {
        ranking.lemma_transitive(third, first, second);
        ranking.lemma_transitive(second, third, first);
    }
}

fn merge_runs<R: Ranking>(
    ranking: &R,
    left: &Vec<usize>,
    right: &Vec<usize>,
    low: usize,
    middle: usize,
    high: usize,
) -> (merged: Vec<usize>)
    requires
        low <= middle <= high <= ranking.size(),
        covers(left@, low as int, middle as int),
        covers(right@, middle as int, high as int),
        in_rank_order(ranking, left@),
        in_rank_order(ranking, right@),
    ensures
        covers(merged@, low as int, high as int),
        in_rank_order(ranking, merged@),
{
    let mut merged: Vec<usize> = Vec::new();
    let mut i: usize = 0;
    let mut j: usize = 0;
    while i < left.len() || j < right.len()
        invariant
            low <= middle <= high <= ranking.size(),
            covers(left@, low as int, middle as int),
            covers(right@, middle as int, high as int),
            in_rank_order(ranking, left@),
            in_rank_order(ranking, right@),
            i <= left.len(),
            j <= right.len(),
            merged.len() == i + j,
            in_rank_order(ranking, merged@),
            forall|k: int| 0 <= k < merged.len() ==> low <= #[trigger] merged@[k] < high,
            forall|k: int, l: int|
                0 <= k < merged.len() && i <= l < left.len() ==> comes_before(
                    ranking,
                    #[trigger] merged@[k] as int,
                    #[trigger] left@[l] as int,
                ),
            forall|k: int, l: int|
                0 <= k < merged.len() && j <= l < right.len() ==> comes_before(
                    ranking,
                    #[trigger] merged@[k] as int,
                    #[trigger] right@[l] as int,
                ),
            forall|l: int| 0 <= l < i ==> merged@.contains(#[trigger] left@[l]),
            forall|l: int| 0 <= l < j ==> merged@.contains(#[trigger] right@[l]),
        decreases left.len() - i + right.len() - j,
    {
        let from_left = if j >= right.len() {
            true
        } else if i >= left.len() {
            false
        } else {
            ranking.at_most(left[i], right[j])
        };
        let ghost before = merged@;
        if from_left {
            let next: usize = left[i];
            proof {
                assert forall|l: int| j <= l < right.len() implies comes_before(
                    ranking,
                    next as int,
                    #[trigger] right@[l] as int,
                ) by {
                    assert(comes_before(ranking, next as int, right@[j as int] as int));
                    if l > j {
                        lemma_before_transitive(
                            ranking,
                            next as int,
                            right@[j as int] as int,
                            right@[l] as int,
                        );
                    }
                }
            }
            merged.push(next);
            i = i + 1;
        } else {
            let next: usize = right[j];
            proof {
                assert forall|l: int| i <= l < left.len() implies comes_before(
                    ranking,
                    next as int,
                    #[trigger] left@[l] as int,
                ) by {
                    ranking.lemma_total(next as int, left@[i as int] as int);
                    assert(comes_before(ranking, next as int, left@[i as int] as int));
                    if l > i {
                        lemma_before_transitive(
                            ranking,
                            next as int,
                            left@[i as int] as int,
                            left@[l] as int,
                        );
                    }
                }
            }
            merged.push(next);
            j = j + 1;
        }
        proof {
            assert(merged@.drop_last() =~= before);
            assert forall|value: usize| before.contains(value) implies merged@.contains(value) by {
                let at = choose|at: int| 0 <= at < before.len() && before[at] == value;
                assert(merged@[at] == value);
            }
            assert(merged@[merged@.len() - 1] == merged@.last());
        }
    }
    proof {
        assert forall|k: usize| low <= k < high implies #[trigger] merged@.contains(k) by {
            if k < middle {
                assert(left@.contains(k));
            } else {
                assert(right@.contains(k));
            }
        }
    }
    merged
}

fn sort_range<R: Ranking>(ranking: &R, low: usize, high: usize) -> (order: Vec<usize>)
    requires
        low <= high <= ranking.size(),
    ensures
        covers(order@, low as int, high as int),
        in_rank_order(ranking, order@),
    decreases high - low,
{
    if high - low == 0 {
        Vec::new()
    } else if high - low == 1 {
        let mut order: Vec<usize> = Vec::new();
        order.push(low);
        proof {
            assert forall|k: usize| low <= k < high implies #[trigger] order@.contains(k) by {
                assert(order@[0] == k);
            }
        }
        order
    } else {
        let middle: usize = low + (high - low) / 2;
        let left = sort_range(ranking, low, middle);
        let right = sort_range(ranking, middle, high);
        merge_runs(ranking, &left, &right, low, middle, high)
    }
}

/// The positions below `count` in stable rank order: positions that rank alike
/// keep the order in which they stood.
pub fn rank_order<R: Ranking>(ranking: &R, count: usize) -> (order: Vec<usize>)
    requires
        count == ranking.size(),
    ensures
        covers(order@, 0, count as int),
        in_rank_order(ranking, order@),
{
    sort_range(ranking, 0, count)
}

/// A stable rank order is unique: two lists of the same positions in rank
/// order are the same list.
pub proof fn law_rank_order_is_unique<R: Ranking>(ranking: &R, left: Seq<usize>, right: Seq<usize>)
    requires
        covers(left, 0, ranking.size() as int),
        covers(right, 0, ranking.size() as int),
        in_rank_order(ranking, left),
        in_rank_order(ranking, right),
    ensures
        left == right,
{
    lemma_same_prefix(ranking, left, right, left.len());
    assert(left =~= right);
}

proof fn lemma_same_prefix<R: Ranking>(
    ranking: &R,
    left: Seq<usize>,
    right: Seq<usize>,
    upto: nat,
)
    requires
        covers(left, 0, ranking.size() as int),
        covers(right, 0, ranking.size() as int),
        in_rank_order(ranking, left),
        in_rank_order(ranking, right),
        upto <= left.len(),
    ensures
        forall|i: int| 0 <= i < upto ==> left[i] == right[i],
    decreases upto,
{
    if upto > 0 {
        let last = upto - 1;
        lemma_same_prefix(ranking, left, right, last as nat);
        let a = left[last];
        let b = right[last];
        if a != b {
            assert(right.contains(a));
            assert(left.contains(b));
            let at_right = choose|k: int| 0 <= k < right.len() && right[k] == a;
            let at_left = choose|k: int| 0 <= k < left.len() && left[k] == b;
            if at_right < last {
                assert(left[at_right] == a);
                assert(comes_before(ranking, left[at_right] as int, left[last] as int));
            }
            if at_left < last {
                assert(right[at_left] == b);
                assert(comes_before(ranking, right[at_left] as int, right[last] as int));
            }
            assert(comes_before(ranking, right[last] as int, right[at_right] as int));
            assert(comes_before(ranking, left[last] as int, left[at_left] as int));
            assert(false);
        }
    }
}

/// The items of `items` in the order that `order` lists their positions.
pub open spec fn arranged<T>(items: Seq<T>, order: Seq<usize>) -> Seq<T> {
    Seq::new(order.len(), |i: int| items[order[i] as int])
}

/// Moves the items into the order that `order` lists their positions.
pub fn arrange<T>(items: Vec<T>, order: &Vec<usize>) -> (result: Vec<T>)
    requires
        covers(order@, 0, items.len() as int),
        order@.no_duplicates(),
    ensures
        result@ == arranged(items@, order@),
        result@.to_multiset() == items@.to_multiset(),
{
    let ghost source = items@;
    let count: usize = items.len();
    let mut slots: Vec<Option<T>> = Vec::new();
    let mut rest = items;
    // Filled from the back, so the slots stand in reverse.
    while rest.len() > 0
        invariant
            rest@ == source.take(rest.len() as int),
            rest.len() + slots.len() == source.len(),
            count == source.len(),
            forall|k: int|
                0 <= k < slots.len() ==> #[trigger] slots@[k] == Some(source[count - 1 - k]),
        decreases rest.len(),
    {
        let ghost length = rest.len();
        let item = rest.pop();
        slots.push(item);
        assert(rest@ =~= source.take(length - 1));
    }
    let mut result: Vec<T> = Vec::new();
    let mut index: usize = 0;
    while index < order.len()
        invariant
            index <= order.len(),
            order.len() == count,
            count == source.len(),
            slots.len() == count,
            covers(order@, 0, count as int),
            order@.no_duplicates(),
            result.len() == index,
            forall|k: int| 0 <= k < index ==> #[trigger] result@[k] == source[order@[k] as int],
            forall|k: int|
                index <= k < order.len() ==> slots@[count - 1 - #[trigger] order@[k]] == Some(
                    source[order@[k] as int],
                ),
        decreases order.len() - index,
    {
        let at: usize = count - 1 - order[index];
        let mut slot: Option<T> = None;
        let ghost before = slots@;
        core::mem::swap(&mut slots[at], &mut slot);
        match slot {
            Some(item) => {
                result.push(item);
            },
            None => {
                assert(false);
            },
        }
        proof {
            assert forall|k: int| index + 1 <= k < order.len() implies slots@[count - 1
                - #[trigger] order@[k]] == Some(source[order@[k] as int]) by {
                assert(order@[k] != order@[index as int]);
            }
        }
        index = index + 1;
    }
    proof {
        assert(result@ =~= arranged(source, order@));
        lemma_arranged_keeps_items(source, order@);
    }
    result
}

/// A list in rank order names no position twice.
pub proof fn lemma_rank_order_has_no_duplicates<R: Ranking>(ranking: &R, order: Seq<usize>)
    requires
        in_rank_order(ranking, order),
    ensures
        order.no_duplicates(),
{
    assert forall|i: int, j: int| 0 <= i < order.len() && 0 <= j < order.len() && i
        != j implies order[i] != order[j] by {
        if i < j {
            assert(comes_before(ranking, order[i] as int, order[j] as int));
        } else {
            assert(comes_before(ranking, order[j] as int, order[i] as int));
        }
    }
}

/// Arranging by a list of all positions neither drops nor repeats an item.
pub proof fn lemma_arranged_keeps_items<T>(items: Seq<T>, order: Seq<usize>)
    requires
        items.len() <= usize::MAX,
        covers(order, 0, items.len() as int),
        order.no_duplicates(),
    ensures
        arranged(items, order).to_multiset() == items.to_multiset(),
    decreases items.len(),
{
    broadcast use vstd::seq_lib::group_to_multiset_ensures;
    let result = arranged(items, order);
    if items.len() == 0 {
        assert(result =~= items);
    } else {
        let last = (items.len() - 1) as usize;
        assert(items.len() == order.len());
        assert(order.contains(last));
        let at = choose|k: int| 0 <= k < order.len() && order[k] == last;
        let smaller = order.remove(at);
        assert forall|k: usize| 0 <= k < last implies #[trigger] smaller.contains(k) by {
            assert(order.contains(k));
            let from = choose|f: int| 0 <= f < order.len() && order[f] == k;
            if from < at {
                assert(smaller[from] == k);
            } else {
                assert(smaller[from - 1] == k);
            }
        }
        assert(covers(smaller, 0, last as int)) by {
            assert forall|i: int| 0 <= i < smaller.len() implies 0 <= #[trigger] smaller[i] < last by {
                if i < at {
                    assert(smaller[i] == order[i]);
                } else {
                    assert(smaller[i] == order[i + 1]);
                }
            }
        }
        assert(smaller.no_duplicates());
        let shorter = items.drop_last();
        lemma_arranged_keeps_items(shorter, smaller);
        assert(arranged(shorter, smaller) =~= result.remove(at));
        assert(result =~= result.remove(at).insert(at, items.last()));
        vstd::seq_lib::to_multiset_insert(result.remove(at), at, items.last());
        assert(items =~= shorter.push(items.last()));
        vstd::seq_lib::to_multiset_build(shorter, items.last());
    }
}

/// Two lists of the same items that both come in an order in which no two of
/// the items rank alike are the same list.
pub proof fn lemma_sorted_lists_are_equal<T>(
    left: Seq<T>,
    right: Seq<T>,
    le: spec_fn(T, T) -> bool,
)
    requires
        forall|i: int, j: int|
            0 <= i < j < left.len() ==> le(#[trigger] left[i], #[trigger] left[j]),
        forall|i: int, j: int|
            0 <= i < j < right.len() ==> le(#[trigger] right[i], #[trigger] right[j]),
        forall|i: int, j: int|
            0 <= i < j < left.len() ==> !le(#[trigger] left[j], #[trigger] left[i]),
        left.to_multiset() == right.to_multiset(),
    ensures
        left == right,
    decreases left.len(),
{
    broadcast use vstd::seq_lib::group_to_multiset_ensures;

    assert(left.len() == left.to_multiset().len());
    assert(right.len() == right.to_multiset().len());
    if left.len() > 0 {
        let first = left[0];
        let other = right[0];
        assert(left.to_multiset().contains(first));
        assert(right.to_multiset().contains(other));
        assert(right.contains(first));
        assert(left.contains(other));
        let at = choose|at: int| 0 <= at < right.len() && right[at] == first;
        let there = choose|there: int| 0 <= there < left.len() && left[there] == other;
        if at > 0 && there > 0 {
            assert(le(right[0], right[at]));
            assert(!le(left[there], left[0]));
        }
        assert(first == other);
        let rest = left.drop_first();
        let others = right.drop_first();
        assert(rest.to_multiset() =~= left.to_multiset().remove(first)) by {
            assert(left.remove(0) =~= rest);
            vstd::seq_lib::to_multiset_remove(left, 0);
        }
        assert(others.to_multiset() =~= right.to_multiset().remove(first)) by {
            assert(right.remove(0) =~= others);
            vstd::seq_lib::to_multiset_remove(right, 0);
        }
        lemma_sorted_lists_are_equal(rest, others, le);
        assert(left =~= seq![first] + rest);
        assert(right =~= seq![other] + others);
    } else {
        assert(left =~= right);
    }
}

/// Text comes at or before other text exactly where, behind a part that both
/// begin with, it ends or has the lower code point.
pub proof fn law_text_order_goes_by_the_first_difference(left: Seq<char>, right: Seq<char>)
    ensures
        forall|shared: int|
            0 <= shared < left.len() && shared < right.len() && #[trigger] left.take(shared)
                == right.take(shared) && left[shared] != right[shared] ==> (text_le(left, right)
                <==> left[shared] < right[shared]),
        left.len() <= right.len() && left == right.take(left.len() as int) ==> text_le(left, right),
        right.len() < left.len() && right == left.take(right.len() as int)
            ==> !text_le(left, right),
    decreases left.len(),
{
    if left.len() > 0 && right.len() > 0 {
        let first = left.drop_first();
        let second = right.drop_first();
        law_text_order_goes_by_the_first_difference(first, second);
        assert forall|shared: int|
            0 <= shared < left.len() && shared < right.len() && #[trigger] left.take(shared)
                == right.take(shared) && left[shared] != right[shared] implies (text_le(left, right)
            <==> left[shared] < right[shared]) by {
            if shared > 0 {
                assert(left.take(shared)[0] == right.take(shared)[0]);
                assert(first.take(shared - 1) =~= left.take(shared).drop_first());
                assert(second.take(shared - 1) =~= right.take(shared).drop_first());
            }
        }
        if left.len() <= right.len() && left == right.take(left.len() as int) {
            assert(left[0] == right.take(left.len() as int)[0]);
            assert(first =~= second.take(first.len() as int));
        }
        if right.len() < left.len() && right == left.take(right.len() as int) {
            assert(right[0] == left.take(right.len() as int)[0]);
            assert(second =~= first.take(second.len() as int));
        }
    }
}

/// A ranking gives every place once, ranks each before those behind it, and where
/// two rank alike the one that stood first comes first.
pub proof fn law_ties_keep_their_order<R: Ranking>(
    ranking: &R,
    order: Seq<usize>,
    count: usize,
    left: int,
    right: int,
)
    requires
        covers(order, 0, count as int),
        in_rank_order(ranking, order),
        0 <= left < right < order.len(),
    ensures
        order.len() == count,
        order[left] < count && order[right] < count,
        order[left] != order[right],
        ranking.ranks(order[left] as int, order[right] as int),
        ranking.ranks(order[right] as int, order[left] as int) ==> order[left] < order[right],
        forall|k: usize| k < count ==> #[trigger] order.contains(k),
{
    assert(comes_before(ranking, order[left] as int, order[right] as int));
    assert(0 <= order[left] < count);
    assert(0 <= order[right] < count);
}

/// Items are arranged by their places.
pub proof fn law_items_are_arranged_by_their_places<T>(items: Seq<T>, order: Seq<usize>, at: int)
    requires
        0 <= at < order.len(),
    ensures
        arranged(items, order).len() == order.len(),
        arranged(items, order)[at] == items[order[at] as int],
{
}

} // verus!
