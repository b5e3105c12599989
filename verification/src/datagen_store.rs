//! A handle on a data generation log.

use vstd::prelude::*;

use crate::batch::Batch;
use crate::datagen_checks::{
    checkpoint_failure, messages, validate_checkpoint_batch, validate_write_batch, write_failure,
};
use crate::datagen_codec::{events_encoded, events_to_batch};
use crate::datagen_columns::{
    datagen_columns, datagen_log_schema, datagen_table, DatagenColumn,
};
use crate::datagen_event::{event_views, DatagenEvent, EventView};
use crate::error::StoreError;
use crate::order::{
    arrange, arranged, comes_before, covers, in_rank_order, lemma_arranged_keeps_items,
    lemma_rank_order_has_no_duplicates, lemma_sorted_lists_are_equal, lemma_text_le_antisymmetric,
    lemma_text_le_total, lemma_text_le_transitive, rank_order, text_at_most, text_le, Ranking,
};
use crate::projection::non_blob_columns;
use crate::schema::{lemma_find_name_exists, names_of, Schema};
use crate::shard::{flushed_generation_uri, generation_uri, shard_of, Generation, ShardSnapshot};
use crate::sql::{equality_filter, equals_text};
use crate::storage::{StorageBase, StorageBaseOptions};
use crate::text::{join2, opt_text, same_text, texts};

verus! {

/// How a data generation log is opened.
#[derive(Debug, Clone, PartialEq)]
pub struct DatagenStoreOptions {
    /// Credentials and settings of the object store.
    pub storage_options: Option<Vec<(String, String)>>,
    /// Stable identity of the writing instance, which decides the shard it
    /// writes to.
    pub shard_id: Option<String>,
    /// How many pending generations trigger a merge; none or zero disables it.
    pub merge_after_generations: Option<usize>,
    /// Seconds between merges on a timer; none or zero disables it.
    pub cleanup_interval_secs: Option<u64>,
}

impl Default for DatagenStoreOptions {
    fn default() -> (options: Self)
        ensures
            options.storage_options is None,
            options.shard_id is None,
            options.merge_after_generations is None,
            options.cleanup_interval_secs is None,
    {
        DatagenStoreOptions {
            storage_options: None,
            shard_id: None,
            merge_after_generations: None,
            cleanup_interval_secs: None,
        }
    }
}

/// A handle on a data generation log.
#[derive(Debug, Clone, PartialEq)]
pub struct DatagenStore {
    pub base: StorageBase,
    pub cleanup_interval_secs: u64,
}

/// How long one merge on the timer may take, in seconds.
pub open spec fn pass_timeout(interval: u64) -> u64 {
    if interval * 5 > u64::MAX {
        u64::MAX
    } else if interval * 5 < 30 {
        30
    } else {
        (interval * 5) as u64
    }
}

impl DatagenStore {
    /// A handle on the log at `uri`. Events are keyed by `event_id`, which
    /// makes a repeated append harmless, and every append is sealed before it
    /// returns.
    pub fn open(uri: String, options: DatagenStoreOptions) -> (result: Result<
        DatagenStore,
        StoreError,
    >)
        ensures
            ({
                &&& result is Ok
                &&& result->Ok_0.base.uri@ == uri@
                &&& result->Ok_0.base.write_shard == shard_of(opt_text(options.shard_id))
                &&& result->Ok_0.base.storage_options == options.storage_options
                &&& result->Ok_0.base.key_column@ == "event_id"@
                &&& result->Ok_0.base.latest_schema is None
                &&& result->Ok_0.base.seal_on_put
                &&& result->Ok_0.base.merge_after_generations == (
                match options.merge_after_generations {
                    Some(count) => count,
                    None => 0,
                })
                &&& result->Ok_0.base.is_fresh()
                &&& result->Ok_0.cleanup_interval_secs == (match options.cleanup_interval_secs {
                    Some(seconds) => seconds,
                    None => 0,
                })
            }),
    {
        let cleanup_interval_secs = match options.cleanup_interval_secs {
            Some(seconds) => seconds,
            None => 0,
        };
        proof {
            let names = names_of(datagen_table().fields);
            assert(datagen_columns()[0] == DatagenColumn::EventId);
            lemma_find_name_exists(names, "event_id"@, 0);
        }
        let opened = StorageBase::new(
            uri,
            &datagen_log_schema(),
            StorageBaseOptions {
                storage_options: options.storage_options,
                shard_id: options.shard_id,
                merge_after_generations: options.merge_after_generations,
                key_column: "event_id".to_owned(),
                latest_schema: None,
                seal_on_put: true,
            },
        );
        match opened {
            Ok(base) => Ok(DatagenStore { base, cleanup_interval_secs }),
            Err(error) => Err(error),
        }
    }

    /// Where the log lies.
    pub fn uri(&self) -> (uri: String)
        ensures
            uri@ == self.base.uri@,
    {
        self.base.uri.clone()
    }

    /// Whether the handle was checked out to a version.
    pub fn is_version_pinned(&self) -> (result: bool)
        ensures
            result == (self.base.pinned_version is Some),
    {
        self.base.is_version_pinned()
    }

    /// What an append hands to the writer, given what the log's rules say of
    /// each event: nothing where there are no events.
    pub fn append(&self, events: &Vec<DatagenEvent>, verdicts: &Vec<Option<String>>) -> (result: Result<
        Option<Batch>,
        StoreError,
    >)
        requires
            verdicts@.len() == events@.len(),
        ensures
            events@.len() == 0 ==> result is Ok && result->Ok_0 is None,
            events@.len() > 0 ==> match write_failure(
                event_views(events@),
                messages(verdicts@),
            ) {
                None => {
                    &&& result is Ok
                    &&& result->Ok_0 is Some
                    &&& result->Ok_0->Some_0@ == events_encoded(event_views(events@))
                },
                Some(failure) => result is Err && result->Err_0@ == failure,
            },
    {
        if events.len() == 0 {
            return Ok(None);
        }
        match validate_write_batch(events, verdicts) {
            Ok(_) => Ok(Some(events_to_batch(events))),
            Err(error) => Err(error),
        }
    }

    /// What the append of one completed step hands to the writer.
    pub fn append_checkpoint(
        &self,
        events: &Vec<DatagenEvent>,
        verdicts: &Vec<Option<String>>,
    ) -> (result: Result<Batch, StoreError>)
        requires
            verdicts@.len() == events@.len(),
        ensures
            match checkpoint_failure(event_views(events@), messages(verdicts@)) {
                None => result is Ok && result->Ok_0@ == events_encoded(event_views(events@)),
                Some(failure) => result is Err && result->Err_0@ == failure,
            },
    {
        match validate_checkpoint_batch(events, verdicts) {
            Ok(_) => Ok(events_to_batch(events)),
            Err(error) => Err(error),
        }
    }

    /// The columns that reads load unless blobs are asked for.
    pub fn non_blob_columns(schema: &Schema) -> (result: Vec<String>)
        ensures
            texts(result@) == names_of(schema@.fields).filter(
                |name: Seq<char>| name != "value_blob"@,
            ),
    {
        non_blob_columns(&schema.column_names(), "value_blob")
    }

    /// The seconds between merges on a timer and the seconds that one may
    /// take, if the timer is on.
    pub fn cleanup_schedule(&self) -> (schedule: Option<(u64, u64)>)
        ensures
            schedule == if self.cleanup_interval_secs == 0 {
                None
            } else {
                Some((self.cleanup_interval_secs, pass_timeout(self.cleanup_interval_secs)))
            },
    {
        let interval = self.cleanup_interval_secs;
        if interval == 0 {
            return None;
        }
        let timeout: u64 = if interval > u64::MAX / 5 {
            u64::MAX
        } else if interval * 5 < 30 {
            30
        } else {
            interval * 5
        };
        Some((interval, timeout))
    }
}

/// The filter that selects the events of an item.
pub fn item_filter(item_id: &str) -> (filter: String)
    ensures
        filter@ == equals_text("item_id"@, item_id@),
{
    equality_filter("item_id", item_id)
}

/// The filter that selects the events of a root item and its descendants.
pub fn root_filter(root_item_id: &str) -> (filter: String)
    ensures
        filter@ == equals_text("root_item_id"@, root_item_id@),
{
    equality_filter("root_item_id", root_item_id)
}

/// The filter that finds one event.
pub fn event_filter(event_id: &str) -> (filter: String)
    ensures
        filter@ == equals_text("event_id"@, event_id@),
{
    equality_filter("event_id", event_id)
}

/// The filter that selects failures, of one run or of all.
pub fn failures_filter(run_id: &Option<String>) -> (filter: String)
    ensures
        filter@ == match opt_text(*run_id) {
            Some(run) => "event_type = 'FAILED' AND "@ + equals_text("run_id"@, run),
            None => "event_type = 'FAILED'"@,
        },
{
    match run_id {
        Some(run) => {
            let clause = equality_filter("run_id", run.as_str());
            join2("event_type = 'FAILED' AND ", clause.as_str())
        },
        None => "event_type = 'FAILED'".to_owned(),
    }
}

/// Log order: by item, then by sequence number, then by event id.
pub open spec fn log_le(left: EventView, right: EventView) -> bool {
    if left.item_id != right.item_id {
        text_le(left.item_id, right.item_id)
    } else if left.item_seq != right.item_seq {
        left.item_seq < right.item_seq
    } else {
        text_le(left.event_id, right.event_id)
    }
}

/// Events that come in log order.
pub open spec fn in_log_order(events: Seq<EventView>) -> bool {
    forall|i: int, j: int|
        0 <= i < j < events.len() ==> log_le(#[trigger] events[i], #[trigger] events[j])
}

/// Events ranked in log order.
pub struct LogRanking<'a> {
    pub events: &'a Vec<DatagenEvent>,
}

impl<'a> Ranking for LogRanking<'a> {
    open spec fn size(&self) -> nat {
        self.events@.len()
    }

    open spec fn ranks(&self, left: int, right: int) -> bool {
        log_le(self.events@[left]@, self.events@[right]@)
    }

    proof fn lemma_total(&self, left: int, right: int) {
        lemma_text_le_total(self.events@[left]@.item_id, self.events@[right]@.item_id);
        lemma_text_le_total(self.events@[left]@.event_id, self.events@[right]@.event_id);
    }

    proof fn lemma_transitive(&self, first: int, second: int, third: int) {
        let a = self.events@[first]@;
        let b = self.events@[second]@;
        let c = self.events@[third]@;
        if a.item_id != b.item_id && b.item_id != c.item_id {
            lemma_text_le_transitive(a.item_id, b.item_id, c.item_id);
            if a.item_id == c.item_id {
                lemma_text_le_antisymmetric(a.item_id, b.item_id);
            }
        }
        if a.item_id == b.item_id && b.item_id == c.item_id && a.item_seq == b.item_seq
            && b.item_seq == c.item_seq {
            lemma_text_le_transitive(a.event_id, b.event_id, c.event_id);
        }
    }

    fn at_most(&self, left: usize, right: usize) -> (result: bool) {
        let first = &self.events[left];
        let second = &self.events[right];
        if !same_text(first.item_id.as_str(), second.item_id.as_str()) {
            text_at_most(first.item_id.as_str(), second.item_id.as_str())
        } else if first.item_seq != second.item_seq {
            first.item_seq < second.item_seq
        } else {
            text_at_most(first.event_id.as_str(), second.event_id.as_str())
        }
    }
}

/// Puts events into log order. Events that rank alike keep their order.
pub fn order_events(events: Vec<DatagenEvent>) -> (result: Vec<DatagenEvent>)
    ensures
        exists|order: Seq<usize>|
            {
                &&& covers(order, 0, events@.len() as int)
                &&& #[trigger] in_rank_order(&(LogRanking { events: &events }), order)
                &&& result@ == arranged(events@, order)
            },
        in_log_order(event_views(result@)),
        event_views(result@).to_multiset() == event_views(events@).to_multiset(),
{
    let ranking = LogRanking { events: &events };
    let order = rank_order(&ranking, events.len());
    proof {
        lemma_rank_order_has_no_duplicates(&ranking, order@);
        let views = event_views(events@);
        let sorted = event_views(arranged(events@, order@));
        assert(sorted =~= arranged(views, order@));
        lemma_arranged_keeps_items(views, order@);
        assert forall|i: int, j: int| 0 <= i < j < sorted.len() implies log_le(
            #[trigger] sorted[i],
            #[trigger] sorted[j],
        ) by {
            assert(comes_before(&ranking, order@[i] as int, order@[j] as int));
        }
    }
    arrange(events, &order)
}

/// The rows that a read of the log finds, by event id: of the rows that were
/// appended with one id, the newest.
pub open spec fn newest_by_id(appended: Seq<EventView>) -> Map<Seq<char>, EventView>
    decreases appended.len(),
{
    if appended.len() == 0 {
        Map::empty()
    } else {
        newest_by_id(appended.drop_last()).insert(appended.last().event_id, appended.last())
    }
}

/// A scan gives each found row once.
pub open spec fn scan_of(scanned: Seq<EventView>, appended: Seq<EventView>) -> bool {
    let found = newest_by_id(appended);
    &&& forall|i: int|
        0 <= i < scanned.len() ==> found.contains_key((#[trigger] scanned[i]).event_id)
            && found[scanned[i].event_id] == scanned[i]
    &&& forall|i: int, j: int|
        0 <= i < j < scanned.len() ==> (#[trigger] scanned[i]).event_id != (
        #[trigger] scanned[j]).event_id
    &&& forall|id: Seq<char>| #[trigger]
        found.contains_key(id) ==> exists|i: int|
            0 <= i < scanned.len() && (#[trigger] scanned[i]).event_id == id
}

proof fn lemma_newest_appended(appended: Seq<EventView>, more: Seq<EventView>)
    ensures
        newest_by_id(appended + more) == newest_by_id(appended).union_prefer_right(
            newest_by_id(more),
        ),
    decreases more.len(),
{
    if more.len() == 0 {
        assert(appended + more =~= appended);
        assert(newest_by_id(appended).union_prefer_right(newest_by_id(more)) =~= newest_by_id(
            appended,
        ));
    } else {
        lemma_newest_appended(appended, more.drop_last());
        assert((appended + more).drop_last() =~= appended + more.drop_last());
        assert((appended + more).last() == more.last());
        assert(newest_by_id(appended + more) =~= newest_by_id(appended).union_prefer_right(
            newest_by_id(more),
        ));
    }
}

/// Appending the same events once more changes no read: the log finds the same
/// rows, and what a read gives of them, in log order, is the same list.
pub proof fn law_repeated_append_changes_nothing(
    appended: Seq<EventView>,
    events: Seq<EventView>,
    once: Seq<EventView>,
    twice: Seq<EventView>,
)
    requires
        scan_of(once, appended + events),
        scan_of(twice, appended + events + events),
        in_log_order(once),
        in_log_order(twice),
    ensures
        newest_by_id(appended + events + events) == newest_by_id(appended + events),
        once == twice,
{
    lemma_newest_appended(appended, events);
    lemma_newest_appended(appended + events, events);
    let found = newest_by_id(appended + events);
    assert(newest_by_id(appended + events + events) =~= found);
    lemma_scans_are_equal(once, twice, found);
}

proof fn lemma_scans_are_equal(
    left: Seq<EventView>,
    right: Seq<EventView>,
    found: Map<Seq<char>, EventView>,
)
    requires
        forall|i: int|
            0 <= i < left.len() ==> found.contains_key((#[trigger] left[i]).event_id)
                && found[left[i].event_id] == left[i],
        forall|i: int|
            0 <= i < right.len() ==> found.contains_key((#[trigger] right[i]).event_id)
                && found[right[i].event_id] == right[i],
        forall|i: int, j: int|
            0 <= i < j < left.len() ==> (#[trigger] left[i]).event_id != (
            #[trigger] left[j]).event_id,
        forall|i: int, j: int|
            0 <= i < j < right.len() ==> (#[trigger] right[i]).event_id != (
            #[trigger] right[j]).event_id,
        forall|id: Seq<char>| #[trigger]
            found.contains_key(id) ==> exists|i: int|
                0 <= i < left.len() && (#[trigger] left[i]).event_id == id,
        forall|id: Seq<char>| #[trigger]
            found.contains_key(id) ==> exists|i: int|
                0 <= i < right.len() && (#[trigger] right[i]).event_id == id,
        in_log_order(left),
        in_log_order(right),
    ensures
        left == right,
{
    assert(left.no_duplicates());
    assert(right.no_duplicates());
    assert forall|event: EventView| left.contains(event) <==> right.contains(event) by {
        if left.contains(event) {
            let i = choose|i: int| 0 <= i < left.len() && left[i] == event;
            assert(found.contains_key(left[i].event_id));
            let j = choose|j: int| 0 <= j < right.len() && (#[trigger] right[j]).event_id
                == event.event_id;
            assert(right[j] == event);
        }
        if right.contains(event) {
            let i = choose|i: int| 0 <= i < right.len() && right[i] == event;
            assert(found.contains_key(right[i].event_id));
            let j = choose|j: int| 0 <= j < left.len() && (#[trigger] left[j]).event_id
                == event.event_id;
            assert(left[j] == event);
        }
    }
    broadcast use vstd::seq_lib::group_to_multiset_ensures;
    left.lemma_multiset_has_no_duplicates();
    right.lemma_multiset_has_no_duplicates();
    assert forall|event: EventView| left.to_multiset().count(event) == right.to_multiset().count(
        event,
    ) by {
        assert(left.contains(event) == right.contains(event));
        assert(left.to_multiset().contains(event) == left.contains(event));
        assert(right.to_multiset().contains(event) == right.contains(event));
    }
    assert(left.to_multiset() =~= right.to_multiset());
    let le = |a: EventView, b: EventView| log_le(a, b);
    assert forall|i: int, j: int| 0 <= i < j < left.len() implies !le(
        #[trigger] left[j],
        #[trigger] left[i],
    ) by {
        assert(left[i].event_id != left[j].event_id);
        assert(log_le(left[i], left[j]));
        if text_le(left[i].item_id, left[j].item_id) && text_le(left[j].item_id, left[i].item_id) {
            lemma_text_le_antisymmetric(left[i].item_id, left[j].item_id);
        }
        if text_le(left[i].event_id, left[j].event_id) && text_le(
            left[j].event_id,
            left[i].event_id,
        ) {
            lemma_text_le_antisymmetric(left[i].event_id, left[j].event_id);
        }
    }
    lemma_sorted_lists_are_equal(left, right, le);
}

/// The events of the root item itself, without its descendants'.
pub fn root_events(events: Vec<DatagenEvent>, root_item_id: &str) -> (result: Vec<DatagenEvent>)
    ensures
        result@ == events@.filter(|event: DatagenEvent| event@.item_id == root_item_id@),
{
    let ghost all = events@;
    let ghost keep = |event: DatagenEvent| event@.item_id == root_item_id@;
    let mut result: Vec<DatagenEvent> = Vec::new();
    proof {
        assert(all.take(0).filter(keep) =~= Seq::<DatagenEvent>::empty()) by {
            reveal(Seq::filter);
        }
    }
    for event in it: events
        invariant
            it.seq() == all,
            keep == (|event: DatagenEvent| event@.item_id == root_item_id@),
            result@ == all.take(it.index() as int).filter(keep),
    {
        proof {
            assert(all.take(it.index() + 1) =~= all.take(it.index() as int).push(event));
            all.take(it.index() as int).lemma_filter_push(event, keep);
        }
        if same_text(event.item_id.as_str(), root_item_id) {
            result.push(event);
        }
    }
    assert(all.take(all.len() as int) =~= all);
    result
}

/// A pending generation with where it lies.
#[derive(Debug, Clone, PartialEq)]
pub struct LocatedGeneration {
    pub generation: u64,
    pub uri: String,
}

/// The model of a [`LocatedGeneration`].
#[verifier::ext_equal]
pub struct LocatedView {
    pub generation: u64,
    pub uri: Seq<char>,
}

impl View for LocatedGeneration {
    type V = LocatedView;

    open spec fn view(&self) -> LocatedView {
        LocatedView { generation: self.generation, uri: self.uri@ }
    }
}

/// The models of located generations.
pub open spec fn located_views(generations: Seq<LocatedGeneration>) -> Seq<LocatedView> {
    Seq::new(generations.len(), |i: int| generations[i]@)
}

/// The generations of one shard with where they lie.
pub open spec fn located_in(uri: Seq<char>, shard: u128, generations: Seq<Generation>) -> Seq<
    LocatedView,
> {
    Seq::new(
        generations.len(),
        |i: int|
            LocatedView {
                generation: generations[i].generation,
                uri: generation_uri(uri, shard, generations[i].path@),
            },
    )
}

/// The generations of all shards with where they lie, shard by shard.
pub open spec fn located(uri: Seq<char>, snapshots: Seq<ShardSnapshot>) -> Seq<LocatedView>
    decreases snapshots.len(),
{
    if snapshots.len() == 0 {
        Seq::empty()
    } else {
        located(uri, snapshots.drop_last()) + located_in(
            uri,
            snapshots.last().shard_id,
            snapshots.last().flushed_generations@,
        )
    }
}

fn locate(uri: &str, snapshots: &Vec<ShardSnapshot>) -> (result: Vec<LocatedGeneration>)
    ensures
        located_views(result@) == located(uri@, snapshots@),
{
    let ghost all = snapshots@;
    let mut result: Vec<LocatedGeneration> = Vec::new();
    let mut index: usize = 0;
    proof {
        assert(all.take(0) =~= Seq::empty());
        assert(located_views(result@) =~= Seq::<LocatedView>::empty());
    }
    while index < snapshots.len()
        invariant
            index <= snapshots.len(),
            all == snapshots@,
            located_views(result@) == located(uri@, all.take(index as int)),
        decreases snapshots.len() - index,
    {
        let snapshot = &snapshots[index];
        let ghost done = located(uri@, all.take(index as int));
        let ghost own = located_in(uri@, snapshot.shard_id, snapshot.flushed_generations@);
        let mut inner: usize = 0;
        assert(done + own.take(0) =~= done);
        while inner < snapshot.flushed_generations.len()
            invariant
                inner <= snapshot.flushed_generations.len(),
                own == located_in(uri@, snapshot.shard_id, snapshot.flushed_generations@),
                located_views(result@) == done + own.take(inner as int),
            decreases snapshot.flushed_generations.len() - inner,
        {
            let ghost before = result@;
            let generation = &snapshot.flushed_generations[inner];
            let next = LocatedGeneration {
                generation: generation.generation,
                uri: flushed_generation_uri(uri, snapshot.shard_id, generation.path.as_str()),
            };
            assert(next@ =~= own[inner as int]);
            result.push(next);
            proof {
                assert(located_views(result@) =~= located_views(before).push(own[inner as int]));
                assert(own.take(inner + 1) =~= own.take(inner as int).push(own[inner as int]));
                assert(located_views(result@) =~= done + own.take(inner + 1));
            }
            inner = inner + 1;
        }
        proof {
            assert(own.take(own.len() as int) =~= own);
            assert(all.take(index + 1).drop_last() =~= all.take(index as int));
        }
        index = index + 1;
    }
    assert(all.take(all.len() as int) =~= all);
    result
}

/// Generations ranked from the newest to the oldest.
pub struct NewestRanking<'a> {
    pub generations: &'a Vec<LocatedGeneration>,
}

impl<'a> Ranking for NewestRanking<'a> {
    open spec fn size(&self) -> nat {
        self.generations@.len()
    }

    open spec fn ranks(&self, left: int, right: int) -> bool {
        self.generations@[left].generation >= self.generations@[right].generation
    }

    proof fn lemma_total(&self, left: int, right: int) {
    }

    proof fn lemma_transitive(&self, first: int, second: int, third: int) {
    }

    fn at_most(&self, left: usize, right: usize) -> (result: bool) {
        self.generations[left].generation >= self.generations[right].generation
    }
}

/// Lists the pending generations of all shards from the newest to the oldest,
/// which is the order in which a blob is looked for before the base table.
/// Generations of the same number keep the order of the shards.
pub fn newest_generations(uri: &str, snapshots: &Vec<ShardSnapshot>) -> (result: Vec<
    LocatedGeneration,
>)
    ensures
        exists|order: Seq<usize>|
            {
                &&& covers(order, 0, located(uri@, snapshots@).len() as int)
                &&& located_views(result@) == #[trigger] arranged(
                    located(uri@, snapshots@),
                    order,
                )
                &&& forall|i: int, j: int|
                    0 <= i < j < order.len() && result@[i].generation == result@[j].generation
                        ==> #[trigger] order[i] < #[trigger] order[j]
            },
        forall|i: int, j: int|
            0 <= i < j < result@.len() ==> (#[trigger] result@[i]).generation >= (
            #[trigger] result@[j]).generation,
{
    let generations = locate(uri, snapshots);
    let ranking = NewestRanking { generations: &generations };
    let order = rank_order(&ranking, generations.len());
    let ghost sorted = arranged(generations@, order@);
    proof {
        lemma_rank_order_has_no_duplicates(&ranking, order@);
        assert(located_views(sorted) =~= arranged(located_views(generations@), order@));
        assert forall|i: int, j: int| 0 <= i < j < order@.len() implies sorted[i].generation
            >= sorted[j].generation && (sorted[i].generation == sorted[j].generation
            ==> #[trigger] order@[i] < #[trigger] order@[j]) by {
            assert(comes_before(&ranking, order@[i] as int, order@[j] as int));
        }
    }
    let result = arrange(generations, &order);
    proof {
        assert(located_views(result@) == arranged(located(uri@, snapshots@), order@));
        assert forall|i: int, j: int| 0 <= i < j < result@.len() implies (
        #[trigger] result@[i]).generation >= (#[trigger] result@[j]).generation by {
            let first = order@[i];
            let second = order@[j];
            assert(sorted[i].generation >= sorted[j].generation);
        }
    }
    result
}

/// The log comes by item, then by sequence number, then by event id.
pub proof fn law_the_log_comes_by_item_and_number(left: EventView, right: EventView)
    ensures
        left.item_id != right.item_id ==> (log_le(left, right) <==> text_le(
            left.item_id,
            right.item_id,
        )),
        left.item_id == right.item_id && left.item_seq < right.item_seq ==> log_le(left, right)
            && !log_le(right, left),
        left.item_id == right.item_id && left.item_seq == right.item_seq ==> (log_le(left, right)
            <==> text_le(left.event_id, right.event_id)),
{
}

/// A merge on a timer may take five times the interval, but never less than half
/// a minute.
pub proof fn law_a_pass_may_take_five_intervals(interval: u64)
    ensures
        pass_timeout(interval) >= 30,
        6 <= interval && interval * 5 <= u64::MAX ==> pass_timeout(interval) == interval * 5,
        interval < 6 ==> pass_timeout(interval) == 30,
        interval * 5 > u64::MAX ==> pass_timeout(interval) == u64::MAX,
{
}

/// What a log holds under an event id is the event that was appended last with
/// that id.
pub proof fn law_the_newest_event_of_an_id_stays(appended: Seq<EventView>, id: Seq<char>)
    ensures
        newest_by_id(appended).contains_key(id) <==> exists|i: int|
            0 <= i < appended.len() && (#[trigger] appended[i]).event_id == id,
        newest_by_id(appended).contains_key(id) ==> exists|i: int|
            {
                &&& 0 <= i < appended.len()
                &&& #[trigger] appended[i] == newest_by_id(appended)[id]
                &&& appended[i].event_id == id
                &&& forall|j: int| i < j < appended.len()
                    ==> (#[trigger] appended[j]).event_id != id
            },
    decreases appended.len(),
{
    if appended.len() > 0 {
        let rest = appended.drop_last();
        law_the_newest_event_of_an_id_stays(rest, id);
        if appended.last().event_id == id {
            assert(appended[appended.len() - 1] == appended.last());
        } else {
            if newest_by_id(rest).contains_key(id) {
                let i = choose|i: int|
                    {
                        &&& 0 <= i < rest.len()
                        &&& #[trigger] rest[i] == newest_by_id(rest)[id]
                        &&& rest[i].event_id == id
                        &&& forall|j: int| i < j < rest.len()
                            ==> (#[trigger] rest[j]).event_id != id
                    };
                assert(appended[i] == rest[i]);
                assert forall|j: int| i < j < appended.len() implies (#[trigger] appended[j]).event_id
                    != id by {
                    if j < rest.len() {
                        assert(rest[j] == appended[j]);
                    }
                }
            }
            if exists|i: int| 0 <= i < appended.len() && (#[trigger] appended[i]).event_id == id {
                let i = choose|i: int|
                    0 <= i < appended.len() && (#[trigger] appended[i]).event_id == id;
                assert(i < rest.len());
                assert(rest[i].event_id == id);
            }
        }
    }
}

/// Each listed generation is located once, under its own number and in the
/// directory of its own shard, in the order in which the shards list them.
pub proof fn law_every_generation_is_located(
    uri: Seq<char>,
    snapshots: Seq<ShardSnapshot>,
    at: int,
    index: int,
)
    requires
        0 <= at < snapshots.len(),
        0 <= index < snapshots[at].flushed_generations@.len(),
    ensures
        located(uri, snapshots).len() == crate::shard::pending_in(snapshots),
        crate::shard::pending_in(snapshots.take(at)) + index < located(uri, snapshots).len(),
        ({
            let found = located(uri, snapshots)[crate::shard::pending_in(snapshots.take(at))
                + index];
            &&& found.generation == snapshots[at].flushed_generations@[index].generation
            &&& found.uri == generation_uri(
                uri,
                snapshots[at].shard_id,
                snapshots[at].flushed_generations@[index].path@,
            )
        }),
    decreases snapshots.len(),
{
    let rest = snapshots.drop_last();
    lemma_one_location_each(uri, snapshots);
    lemma_one_location_each(uri, rest);
    if at < snapshots.len() - 1 {
        law_every_generation_is_located(uri, rest, at, index);
        assert(rest.take(at) =~= snapshots.take(at));
    } else {
        assert(snapshots.take(at) =~= rest);
    }
}

proof fn lemma_one_location_each(uri: Seq<char>, snapshots: Seq<ShardSnapshot>)
    ensures
        located(uri, snapshots).len() == crate::shard::pending_in(snapshots),
    decreases snapshots.len(),
{
    if snapshots.len() > 0 {
        lemma_one_location_each(uri, snapshots.drop_last());
    }
}

/// The model of a located generation holds each of its parts.
pub proof fn law_a_located_generations_model_is_whole(located: LocatedGeneration)
    ensures
        located@.generation == located.generation,
        located@.uri == located.uri@,
{
}

/// The models stand in the order of what they are of, one for each.
pub proof fn law_located_views_stand_in_order(generations: Seq<LocatedGeneration>, at: int)
    requires
        0 <= at < generations.len(),
    ensures
        located_views(generations).len() == generations.len(),
        located_views(generations)[at] == generations[at]@,
{
}

/// Events are in log order where each stands before those of a later item, before
/// those of its item with a higher number, and by its id where both agree.
pub proof fn law_log_order_is_by_item_number_and_id(events: Seq<EventView>, left: int, right: int)
    requires
        in_log_order(events),
        0 <= left < right < events.len(),
    ensures
        events[left].item_id != events[right].item_id ==> text_le(
            events[left].item_id,
            events[right].item_id,
        ),
        events[left].item_id == events[right].item_id ==> events[left].item_seq
            <= events[right].item_seq,
        events[left].item_id == events[right].item_id && events[left].item_seq
            == events[right].item_seq ==> text_le(events[left].event_id, events[right].event_id),
{
    assert(log_le(events[left], events[right]));
}

} // verus!
