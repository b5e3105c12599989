//! When to compact a table, how much of it, and what is remembered of it.

use vstd::prelude::*;

use crate::error::{invalid_argument, StoreError};
use crate::text::{clone_opt, opt_text};

verus! {

/// Configuration for background compaction.
#[derive(Debug, Clone, PartialEq)]
pub struct CompactionConfig {
    /// Whether background compaction is enabled.
    pub enabled: bool,
    /// Minimum number of fragments to trigger compaction.
    pub min_fragments: usize,
    /// Target rows per fragment after compaction.
    pub target_rows_per_fragment: usize,
    /// Maximum rows per row group.
    pub max_rows_per_group: usize,
    /// Whether to remove deleted rows during compaction.
    pub materialize_deletions: bool,
    /// Share of deleted rows that triggers their removal, as the bit pattern
    /// of a 32-bit float between zero and one.
    pub materialize_deletions_threshold: u32,
    /// Number of threads for compaction (absent: chosen automatically).
    pub num_threads: Option<usize>,
    /// Maximum bytes per output file.
    pub max_bytes_per_file: Option<usize>,
    /// Rows per input scan batch.
    pub batch_size: Option<usize>,
    /// Maximum source fragments rewritten by one compaction run.
    pub max_source_fragments: Option<usize>,
    /// Try page-level binary copy before falling back to row decoding.
    pub try_binary_copy: bool,
    /// Interval in seconds between compaction checks.
    pub check_interval_secs: u64,
    /// Hours of the day during which compaction is skipped, from the first
    /// hour of each range to before its second.
    pub quiet_hours: Vec<(u8, u8)>,
}

/// The bit pattern of the 32-bit float nearest to one tenth.
pub const ONE_TENTH_BITS: u32 = 0x3DCC_CCCD;

impl Default for CompactionConfig {
    fn default() -> (config: Self)
        ensures
            config.is_default(),
    {
        CompactionConfig {
            enabled: false,
            min_fragments: 5,
            target_rows_per_fragment: 1_000_000,
            max_rows_per_group: 1024,
            materialize_deletions: true,
            materialize_deletions_threshold: ONE_TENTH_BITS,
            num_threads: None,
            max_bytes_per_file: None,
            batch_size: None,
            max_source_fragments: None,
            try_binary_copy: false,
            check_interval_secs: 300,
            quiet_hours: Vec::new(),
        }
    }
}

impl CompactionConfig {
    /// Whether two configurations compact alike: they differ at most in
    /// whether background compaction is enabled.
    pub open spec fn compacts_like(self, other: CompactionConfig) -> bool {
        &&& self.min_fragments == other.min_fragments
        &&& self.target_rows_per_fragment == other.target_rows_per_fragment
        &&& self.max_rows_per_group == other.max_rows_per_group
        &&& self.materialize_deletions == other.materialize_deletions
        &&& self.materialize_deletions_threshold == other.materialize_deletions_threshold
        &&& self.num_threads == other.num_threads
        &&& self.max_bytes_per_file == other.max_bytes_per_file
        &&& self.batch_size == other.batch_size
        &&& self.max_source_fragments == other.max_source_fragments
        &&& self.try_binary_copy == other.try_binary_copy
        &&& self.check_interval_secs == other.check_interval_secs
        &&& self.quiet_hours@ == other.quiet_hours@
    }

    /// The settings of a configuration that names none.
    pub open spec fn is_default(self) -> bool {
        &&& !self.enabled
        &&& self.min_fragments == 5
        &&& self.target_rows_per_fragment == 1_000_000
        &&& self.max_rows_per_group == 1024
        &&& self.materialize_deletions
        &&& self.materialize_deletions_threshold == ONE_TENTH_BITS
        &&& self.num_threads is None
        &&& self.max_bytes_per_file is None
        &&& self.batch_size is None
        &&& self.max_source_fragments is None
        &&& !self.try_binary_copy
        &&& self.check_interval_secs == 300
        &&& self.quiet_hours@.len() == 0
    }

    /// A copy that differs in whether it is enabled.
    pub fn with_enabled(&self, enabled: bool) -> (config: CompactionConfig)
        ensures
            config.enabled == enabled,
            config.compacts_like(*self),
    {
        CompactionConfig {
            enabled,
            min_fragments: self.min_fragments,
            target_rows_per_fragment: self.target_rows_per_fragment,
            max_rows_per_group: self.max_rows_per_group,
            materialize_deletions: self.materialize_deletions,
            materialize_deletions_threshold: self.materialize_deletions_threshold,
            num_threads: self.num_threads,
            max_bytes_per_file: self.max_bytes_per_file,
            batch_size: self.batch_size,
            max_source_fragments: self.max_source_fragments,
            try_binary_copy: self.try_binary_copy,
            check_interval_secs: self.check_interval_secs,
            quiet_hours: crate::record::copy_list(&self.quiet_hours),
        }
    }
}

/// The hour falls in one of the quiet ranges.
pub open spec fn is_quiet(quiet_hours: Seq<(u8, u8)>, hour: u8) -> bool {
    exists|i: int|
        0 <= i < quiet_hours.len() && (#[trigger] quiet_hours[i]).0 <= hour && hour
            < quiet_hours[i].1
}

/// Whether a table of this many fragments is worth compacting at this hour:
/// it has at least the configured number of fragments, and the hour is not
/// quiet.
pub fn should_compact(config: &CompactionConfig, fragments: usize, hour: u8) -> (result: bool)
    ensures
        result == (fragments >= config.min_fragments && !is_quiet(config.quiet_hours@, hour)),
{
    if fragments < config.min_fragments {
        return false;
    }
    let mut index: usize = 0;
    while index < config.quiet_hours.len()
        invariant
            index <= config.quiet_hours.len(),
            forall|i: int|
                0 <= i < index ==> !((#[trigger] config.quiet_hours@[i]).0 <= hour && hour
                    < config.quiet_hours@[i].1),
        decreases config.quiet_hours.len() - index,
    {
        let range = config.quiet_hours[index];
        if hour >= range.0 && hour < range.1 {
            assert(config.quiet_hours@[index as int].0 <= hour);
            return false;
        }
        index = index + 1;
    }
    true
}

/// Statistics about compaction status and history.
#[derive(Debug, Clone, PartialEq)]
pub struct CompactionStats {
    /// Current number of fragments in the table.
    pub total_fragments: usize,
    /// Whether a compaction is in progress.
    pub is_compacting: bool,
    /// Time of the last successful compaction, in microseconds since the epoch.
    pub last_compaction: Option<i64>,
    /// Error message of the last failed compaction.
    pub last_error: Option<String>,
    /// Number of successful compactions.
    pub total_compactions: u64,
}

/// What is remembered between compactions.
#[derive(Debug, Clone, PartialEq)]
pub struct CompactionState {
    pub is_compacting: bool,
    pub last_compaction: Option<i64>,
    pub last_error: Option<String>,
    pub total_compactions: u64,
}

/// How a compaction ended.
#[derive(Debug, Clone, PartialEq)]
pub enum CompactionOutcome {
    /// It succeeded at this time.
    Done(i64),
    /// It failed with this message.
    Failed(String),
}

impl CompactionState {
    /// Nothing has been compacted yet.
    pub open spec fn is_fresh(self) -> bool {
        &&& !self.is_compacting
        &&& self.last_compaction is None
        &&& self.last_error is None
        &&& self.total_compactions == 0
    }

    /// Nothing has been compacted yet.
    pub fn new() -> (state: CompactionState)
        ensures
            state.is_fresh(),
    {
        CompactionState {
            is_compacting: false,
            last_compaction: None,
            last_error: None,
            total_compactions: 0,
        }
    }

    /// Marks a compaction as running; refused while one runs.
    pub fn begin(&mut self) -> (result: Result<(), StoreError>)
        ensures
            old(self).is_compacting ==> result is Err && result->Err_0@ == invalid_argument(
                "Compaction already in progress"@,
            ) && *final(self) == *old(self),
            !old(self).is_compacting ==> result is Ok && *final(self) == (CompactionState {
                is_compacting: true,
                ..*old(self)
            }),
    {
        if self.is_compacting {
            Err(StoreError::invalid_argument("Compaction already in progress".to_owned()))
        } else {
            self.is_compacting = true;
            Ok(())
        }
    }

    /// Records how a compaction ended. A success counts, sets the time and
    /// clears the error; a failure only sets the error.
    pub fn finish(&mut self, outcome: CompactionOutcome)
        requires
            old(self).total_compactions < u64::MAX,
        ensures
            !final(self).is_compacting,
            match outcome {
                CompactionOutcome::Done(time) => final(self).last_compaction == Some(time)
                    && final(self).last_error is None && final(self).total_compactions == old(self).total_compactions + 1,
                CompactionOutcome::Failed(message) => final(self).last_error == Some(message)
                    && final(self).last_compaction == old(self).last_compaction && final(self).total_compactions == old(self).total_compactions,
            },
    {
        self.is_compacting = false;
        match outcome {
            CompactionOutcome::Done(time) => {
                self.last_compaction = Some(time);
                self.total_compactions = self.total_compactions + 1;
                self.last_error = None;
            },
            CompactionOutcome::Failed(message) => {
                self.last_error = Some(message);
            },
        }
    }

    /// The statistics of a table of this many fragments.
    pub fn stats(&self, total_fragments: usize) -> (stats: CompactionStats)
        ensures
            stats.total_fragments == total_fragments,
            stats.is_compacting == self.is_compacting,
            stats.last_compaction == self.last_compaction,
            opt_text(stats.last_error) == opt_text(self.last_error),
            stats.total_compactions == self.total_compactions,
    {
        CompactionStats {
            total_fragments,
            is_compacting: self.is_compacting,
            last_compaction: self.last_compaction,
            last_error: clone_opt(&self.last_error),
            total_compactions: self.total_compactions,
        }
    }
}

/// The fragments of all tasks, in order.
pub open spec fn all_fragments(tasks: Seq<Seq<u64>>) -> Seq<u64>
    decreases tasks.len(),
{
    if tasks.len() == 0 {
        Seq::empty()
    } else {
        all_fragments(tasks.drop_last()) + tasks.last()
    }
}

/// The fragment lists of tasks.
pub open spec fn task_views(tasks: Seq<Vec<u64>>) -> Seq<Seq<u64>> {
    Seq::new(tasks.len(), |i: int| tasks[i]@)
}

/// How much of a budget the tasks spend.
pub open spec fn spent(tasks: Seq<Seq<u64>>, budget: int) -> int {
    if all_fragments(tasks).len() <= budget {
        all_fragments(tasks).len() as int
    } else {
        budget
    }
}

/// The tasks within a budget of fragments: each task keeps as many of its
/// first fragments as the tasks before it left of the budget, and a task that
/// gets none is dropped.
pub open spec fn limited(tasks: Seq<Seq<u64>>, budget: int) -> Seq<Seq<u64>>
    decreases tasks.len(),
{
    if tasks.len() == 0 {
        Seq::empty()
    } else {
        let earlier = tasks.drop_last();
        let left = budget - spent(earlier, budget);
        let kept = if tasks.last().len() <= left {
            tasks.last()
        } else {
            tasks.last().take(left)
        };
        if kept.len() == 0 {
            limited(earlier, budget)
        } else {
            limited(earlier, budget).push(kept)
        }
    }
}

/// Cuts a compaction plan down to a budget of source fragments.
pub fn limit_tasks(tasks: &Vec<Vec<u64>>, max_source_fragments: usize) -> (result: Vec<Vec<u64>>)
    ensures
        task_views(result@) == limited(task_views(tasks@), max_source_fragments as int),
{
    let ghost views = task_views(tasks@);
    let ghost budget = max_source_fragments as int;
    let mut remaining: usize = max_source_fragments;
    let mut result: Vec<Vec<u64>> = Vec::new();
    let mut index: usize = 0;
    proof {
        assert(views.take(0) =~= Seq::<Seq<u64>>::empty());
        assert(task_views(result@) =~= Seq::<Seq<u64>>::empty());
    }
    while index < tasks.len()
        invariant
            index <= tasks.len(),
            views == task_views(tasks@),
            budget == max_source_fragments,
            remaining == budget - spent(views.take(index as int), budget),
            task_views(result@) == limited(views.take(index as int), budget),
        decreases tasks.len() - index,
    {
        let ghost next = views.take(index + 1);
        proof {
            assert(next.drop_last() =~= views.take(index as int));
            assert(next.last() == views[index as int]);
        }
        let length: usize = tasks[index].len();
        let count: usize = if length < remaining {
            length
        } else {
            remaining
        };
        let ghost before = result@;
        if count > 0 {
            let mut fragments: Vec<u64> = crate::record::copy_list(&tasks[index]);
            fragments.truncate(count);
            result.push(fragments);
            proof {
                assert(task_views(result@) =~= task_views(before).push(
                    views[index as int].take(count as int),
                ));
                if count == length {
                    assert(views[index as int].take(count as int) =~= views[index as int]);
                }
            }
        }
        remaining = remaining - count;
        index = index + 1;
    }
    assert(views.take(views.len() as int) =~= views);
    result
}

/// A limited plan rewrites the first fragments of the plan, as many as the
/// budget allows, in order, and holds no empty task.
pub proof fn law_limit_takes_the_first_fragments(tasks: Seq<Seq<u64>>, budget: int)
    requires
        budget >= 0,
    ensures
        all_fragments(limited(tasks, budget)) == all_fragments(tasks).take(spent(tasks, budget)),
        forall|i: int| 0 <= i < limited(tasks, budget).len() ==> (#[trigger] limited(tasks, budget)[i]).len() > 0,
    decreases tasks.len(),
{
    if tasks.len() > 0 {
        let earlier = tasks.drop_last();
        law_limit_takes_the_first_fragments(earlier, budget);
        let left = budget - spent(earlier, budget);
        let kept = if tasks.last().len() <= left {
            tasks.last()
        } else {
            tasks.last().take(left)
        };
        let done = limited(earlier, budget);
        if kept.len() > 0 {
            assert(done.push(kept).drop_last() =~= done);
            assert(all_fragments(limited(tasks, budget)) == all_fragments(done) + kept);
            assert(all_fragments(earlier).take(all_fragments(earlier).len() as int) =~= all_fragments(
                earlier,
            ));
        }
        assert(all_fragments(limited(tasks, budget)) =~= all_fragments(tasks).take(
            spent(tasks, budget),
        ));
    } else {
        assert(all_fragments(limited(tasks, budget)) =~= all_fragments(tasks).take(
            spent(tasks, budget),
        ));
    }
}

/// Compaction is quiet in the hours from the first of a range to before its
/// second, and in no other.
pub proof fn law_quiet_hours_end_before_the_second(quiet_hours: Seq<(u8, u8)>, hour: u8)
    ensures
        forall|i: int|
            0 <= i < quiet_hours.len() && (#[trigger] quiet_hours[i]).0 <= hour < quiet_hours[i].1
                ==> is_quiet(quiet_hours, hour),
        (forall|i: int|
            0 <= i < quiet_hours.len() ==> hour < (#[trigger] quiet_hours[i]).0 || quiet_hours[i].1
                <= hour) ==> !is_quiet(quiet_hours, hour),
{
    if is_quiet(quiet_hours, hour) {
        let i = choose|i: int|
            0 <= i < quiet_hours.len() && (#[trigger] quiet_hours[i]).0 <= hour && hour
                < quiet_hours[i].1;
        assert(quiet_hours[i].0 <= hour);
    }
}

/// The settings of a store whose caller gives none: compaction is off; it would
/// begin at five fragments, aim at a million rows for each, check every five
/// minutes and know no quiet hour, and it puts no bound on what one run rewrites.
pub proof fn law_default_compaction(config: CompactionConfig)
    requires
        config.is_default(),
    ensures
        !config.enabled,
        config.min_fragments == 5,
        config.target_rows_per_fragment == 1_000_000,
        config.max_rows_per_group == 1024,
        config.materialize_deletions,
        config.materialize_deletions_threshold == 0x3DCC_CCCD,
        config.num_threads is None,
        config.max_bytes_per_file is None,
        config.batch_size is None,
        config.max_source_fragments is None,
        !config.try_binary_copy,
        config.check_interval_secs == 300,
        config.quiet_hours@.len() == 0,
{
}

/// Settings that compact alike agree in everything but whether they are on.
pub proof fn law_settings_that_compact_alike(left: CompactionConfig, right: CompactionConfig)
    requires
        left.compacts_like(right),
    ensures
        left.min_fragments == right.min_fragments,
        left.target_rows_per_fragment == right.target_rows_per_fragment,
        left.max_rows_per_group == right.max_rows_per_group,
        left.materialize_deletions == right.materialize_deletions,
        left.materialize_deletions_threshold == right.materialize_deletions_threshold,
        left.num_threads == right.num_threads,
        left.max_bytes_per_file == right.max_bytes_per_file,
        left.batch_size == right.batch_size,
        left.max_source_fragments == right.max_source_fragments,
        left.try_binary_copy == right.try_binary_copy,
        left.check_interval_secs == right.check_interval_secs,
        left.quiet_hours@ == right.quiet_hours@,
{
}

/// The models stand in the order of what they are of, one for each.
pub proof fn law_task_views_stand_in_order(tasks: Seq<Vec<u64>>, at: int)
    requires
        0 <= at < tasks.len(),
    ensures
        task_views(tasks).len() == tasks.len(),
        task_views(tasks)[at] == tasks[at]@,
{
}

/// What is kept of a task within a budget is its beginning, no task comes twice
/// and the tasks keep their order. A budget that is large enough keeps every task
/// that has a fragment.
pub proof fn law_limited_tasks_are_beginnings(
    tasks: Seq<Seq<u64>>,
    budget: int,
) -> (places: Seq<int>)
    requires
        budget >= 0,
    ensures
        places.len() == limited(tasks, budget).len(),
        forall|k: int|
            0 <= k < places.len() ==> {
                &&& 0 <= #[trigger] places[k] < tasks.len()
                &&& limited(tasks, budget)[k].len() > 0
                &&& limited(tasks, budget)[k].is_prefix_of(tasks[places[k]])
            },
        forall|j: int, k: int|
            0 <= j < k < places.len() ==> #[trigger] places[j] < #[trigger] places[k],
        all_fragments(tasks).len() <= budget && (forall|i: int|
            0 <= i < tasks.len() ==> (#[trigger] tasks[i]).len() > 0) ==> limited(tasks, budget)
            == tasks,
    decreases tasks.len(),
{
    if tasks.len() == 0 {
        assert(limited(tasks, budget) =~= tasks);
        Seq::empty()
    } else {
        let earlier = tasks.drop_last();
        let before = law_limited_tasks_are_beginnings(earlier, budget);
        let left = budget - spent(earlier, budget);
        let last = tasks.last();
        let kept = if last.len() <= left {
            last
        } else {
            last.take(left)
        };
        assert(kept.is_prefix_of(last)) by {
            assert(last.take(last.len() as int) =~= last);
        }
        if all_fragments(tasks).len() <= budget && (forall|i: int|
            0 <= i < tasks.len() ==> (#[trigger] tasks[i]).len() > 0) {
            assert forall|i: int| 0 <= i < earlier.len() implies (#[trigger] earlier[i]).len() > 0 by {
                assert(earlier[i] == tasks[i]);
            }
            assert(tasks[tasks.len() - 1] == last);
            assert(earlier.push(last) =~= tasks);
        }
        assert forall|k: int| 0 <= k < before.len() implies {
            &&& 0 <= #[trigger] before[k] < tasks.len()
            &&& limited(earlier, budget)[k].is_prefix_of(tasks[before[k]])
        } by {
            assert(earlier[before[k]] == tasks[before[k]]);
        }
        if kept.len() == 0 {
            before
        } else {
            let places = before.push(tasks.len() - 1);
            assert forall|k: int| 0 <= k < places.len() implies {
                &&& 0 <= #[trigger] places[k] < tasks.len()
                &&& limited(tasks, budget)[k].len() > 0
                &&& limited(tasks, budget)[k].is_prefix_of(tasks[places[k]])
            } by {
                if k < before.len() {
                    assert(before[k] == places[k]);
                    assert(limited(tasks, budget)[k] == limited(earlier, budget)[k]);
                }
            }
            places
        }
    }
}

/// A state is fresh where nothing has happened: it is not compacting, never did,
/// and has no error to report.
pub proof fn law_a_fresh_state_has_done_nothing(state: CompactionState)
    ensures
        state.is_fresh() <==> !state.is_compacting && state.last_compaction is None
            && state.last_error is None && state.total_compactions == 0,
{
}

} // verus!
