//! The order in which a prepared merge is carried out.
//!
//! Rows go to the base table first, then the merged generations leave the
//! shard's manifest, and only then are their directories deleted. Whatever
//! step fails, every row can still be found.

use vstd::prelude::*;

use crate::storage::StorageBase;

verus! {

/// How far a merge has come.
#[derive(Debug, Clone, Copy, PartialEq, Eq, Structural)]
pub enum CommitStage {
    /// The base table gets the columns that it lacks.
    Evolving,
    /// The rows are appended to the base table.
    Appending,
    /// The merged generations leave the manifest.
    Draining,
    /// The storage of the generations is looked up.
    Locating,
    /// The directory of a merged generation is deleted.
    Deleting { next: usize },
    /// It has ended.
    Ended,
}

/// How a step came back.
#[derive(Debug, Clone, PartialEq)]
pub enum CommitEvent {
    Done,
    Failed(String),
}

/// What to do next.
#[derive(Debug, Clone, PartialEq)]
pub enum CommitAction {
    /// Bring the base table to the latest schema.
    EvolveSchema,
    /// Append the rows to the base table.
    Append,
    /// Take the merged generations out of the manifest.
    Drain,
    /// Look up the storage of the generations.
    Locate,
    /// Delete the directory of the merged generation at this place.
    Delete(usize),
    /// Report success.
    Succeed,
    /// Report this failure.
    Fail(String),
}

/// The model of a [`CommitEvent`].
pub enum CommitEventView {
    Done,
    Failed(Seq<char>),
}

/// The model of a [`CommitAction`].
pub enum CommitActionView {
    EvolveSchema,
    Append,
    Drain,
    Locate,
    Delete(usize),
    Succeed,
    Fail(Seq<char>),
}

impl View for CommitEvent {
    type V = CommitEventView;

    open spec fn view(&self) -> CommitEventView {
        match self {
            CommitEvent::Done => CommitEventView::Done,
            CommitEvent::Failed(message) => CommitEventView::Failed(message@),
        }
    }
}

impl View for CommitAction {
    type V = CommitActionView;

    open spec fn view(&self) -> CommitActionView {
        match self {
            CommitAction::EvolveSchema => CommitActionView::EvolveSchema,
            CommitAction::Append => CommitActionView::Append,
            CommitAction::Drain => CommitActionView::Drain,
            CommitAction::Locate => CommitActionView::Locate,
            CommitAction::Delete(at) => CommitActionView::Delete(*at),
            CommitAction::Succeed => CommitActionView::Succeed,
            CommitAction::Fail(message) => CommitActionView::Fail(message@),
        }
    }
}

/// The deletion of the next directory, or the end where none is left.
pub open spec fn next_delete(next: int, paths: usize) -> (CommitStage, CommitActionView) {
    if next < paths {
        (CommitStage::Deleting { next: next as usize }, CommitActionView::Delete(next as usize))
    } else {
        (CommitStage::Ended, CommitActionView::Succeed)
    }
}

/// The next stage of a merge and what to do. A merge without rows appends
/// nothing, and a directory that cannot be deleted is left behind.
pub open spec fn commit_next(
    stage: CommitStage,
    has_rows: bool,
    paths: usize,
    event: CommitEventView,
) -> (CommitStage, CommitActionView) {
    match (stage, event) {
        (CommitStage::Deleting { next }, _) => next_delete(next + 1, paths),
        (CommitStage::Ended, _) => (stage, CommitActionView::Succeed),
        (_, CommitEventView::Failed(message)) => (
            CommitStage::Ended,
            CommitActionView::Fail(message),
        ),
        (CommitStage::Evolving, CommitEventView::Done) => if has_rows {
            (CommitStage::Appending, CommitActionView::Append)
        } else {
            (CommitStage::Draining, CommitActionView::Drain)
        },
        (CommitStage::Appending, CommitEventView::Done) => (
            CommitStage::Draining,
            CommitActionView::Drain,
        ),
        (CommitStage::Draining, CommitEventView::Done) => (
            CommitStage::Locating,
            CommitActionView::Locate,
        ),
        (CommitStage::Locating, CommitEventView::Done) => next_delete(0, paths),
    }
}

/// The first stage of a merge and what to do.
pub fn start_commit() -> (result: (CommitStage, CommitAction))
    ensures
        result.0 == CommitStage::Evolving,
        result.1@ == CommitActionView::EvolveSchema,
{
    (CommitStage::Evolving, CommitAction::EvolveSchema)
}

fn delete_or_end(next: usize, paths: usize) -> (result: (CommitStage, CommitAction))
    ensures
        (result.0, result.1@) == next_delete(next as int, paths),
{
    if next < paths {
        (CommitStage::Deleting { next }, CommitAction::Delete(next))
    } else {
        (CommitStage::Ended, CommitAction::Succeed)
    }
}

impl StorageBase {
    /// Moves a merge of `paths` generations on by one event. Once its rows are
    /// in the base table, and again when it succeeds, the handle follows the
    /// table instead of the version it was checked out to.
    pub fn step_commit(
        &mut self,
        stage: CommitStage,
        has_rows: bool,
        paths: usize,
        event: CommitEvent,
    ) -> (result: (CommitStage, CommitAction))
        requires
            stage != CommitStage::Ended,
            stage matches CommitStage::Deleting { next } ==> next < paths,
        ensures
            (result.0, result.1@) == commit_next(stage, has_rows, paths, event@),
            *final(self) == (StorageBase {
                pinned_version: if (stage == CommitStage::Appending && event@
                    == CommitEventView::Done) || result.1@ == CommitActionView::Succeed {
                    None
                } else {
                    old(self).pinned_version
                },
                ..*old(self)
            }),
    {
        let result = match (stage, event) {
            (CommitStage::Deleting { next }, _) => delete_or_end(next + 1, paths),
            (CommitStage::Ended, _) => (stage, CommitAction::Succeed),
            (_, CommitEvent::Failed(message)) => (CommitStage::Ended, CommitAction::Fail(message)),
            (CommitStage::Evolving, CommitEvent::Done) => if has_rows {
                (CommitStage::Appending, CommitAction::Append)
            } else {
                (CommitStage::Draining, CommitAction::Drain)
            },
            (CommitStage::Appending, CommitEvent::Done) => {
                self.pinned_version = None;
                (CommitStage::Draining, CommitAction::Drain)
            },
            (CommitStage::Draining, CommitEvent::Done) => (
                CommitStage::Locating,
                CommitAction::Locate,
            ),
            (CommitStage::Locating, CommitEvent::Done) => delete_or_end(0, paths),
        };
        if let CommitAction::Succeed = &result.1 {
            self.pinned_version = None;
        }
        result
    }
}

/// The stage of a merge after the first `count` events, and what it then asks
/// for.
pub open spec fn commit_state(
    has_rows: bool,
    paths: usize,
    events: Seq<CommitEventView>,
    count: nat,
) -> (CommitStage, CommitActionView)
    decreases count,
{
    if count == 0 {
        (CommitStage::Evolving, CommitActionView::EvolveSchema)
    } else {
        let before = commit_state(has_rows, paths, events, (count - 1) as nat);
        if before.0 == CommitStage::Ended {
            before
        } else {
            commit_next(before.0, has_rows, paths, events[count - 1])
        }
    }
}

/// The merge asked for an action before `count` events had happened, and the
/// action came back done.
pub open spec fn was_done(
    has_rows: bool,
    paths: usize,
    events: Seq<CommitEventView>,
    count: nat,
    action: CommitActionView,
) -> bool {
    exists|j: nat|
        j < count && (#[trigger] commit_state(has_rows, paths, events, j)).1 == action && events[j as int]
            == CommitEventView::Done
}

/// A merge is safe to interrupt anywhere: generations leave the manifest only
/// once their rows are in the base table, and a directory is deleted only once
/// no manifest lists it. A merge that reports success did all of it.
pub proof fn law_merge_steps_come_in_order(
    has_rows: bool,
    paths: usize,
    events: Seq<CommitEventView>,
    count: nat,
)
    ensures
        ({
            let action = commit_state(has_rows, paths, events, count).1;
            &&& has_rows && action is Drain ==> was_done(
                has_rows,
                paths,
                events,
                count,
                CommitActionView::Append,
            )
            &&& action is Delete || action is Succeed ==> was_done(
                has_rows,
                paths,
                events,
                count,
                CommitActionView::Drain,
            )
            &&& has_rows && action is Succeed ==> was_done(
                has_rows,
                paths,
                events,
                count,
                CommitActionView::Append,
            )
        }),
{
    lemma_stages_come_in_order(has_rows, paths, events, count);
}

proof fn lemma_stages_come_in_order(
    has_rows: bool,
    paths: usize,
    events: Seq<CommitEventView>,
    count: nat,
)
    ensures
        ({
            let (stage, action) = commit_state(has_rows, paths, events, count);
            let past_append = stage is Draining || stage is Locating || stage is Deleting
                || action is Succeed;
            let past_drain = stage is Locating || stage is Deleting || action is Succeed;
            &&& stage is Appending ==> action is Append
            &&& stage is Draining ==> action is Drain
            &&& action is Drain ==> stage is Draining
            &&& action is Delete ==> stage is Deleting
            &&& has_rows && past_append ==> was_done(
                has_rows,
                paths,
                events,
                count,
                CommitActionView::Append,
            )
            &&& past_drain ==> was_done(has_rows, paths, events, count, CommitActionView::Drain)
        }),
    decreases count,
{
    if count > 0 {
        let last = (count - 1) as nat;
        let before = commit_state(has_rows, paths, events, last);
        lemma_stages_come_in_order(has_rows, paths, events, last);
        assert forall|action: CommitActionView|
            was_done(has_rows, paths, events, last, action) implies #[trigger] was_done(
            has_rows,
            paths,
            events,
            count,
            action,
        ) by {
            let j = choose|j: nat|
                j < last && (#[trigger] commit_state(has_rows, paths, events, j)).1 == action
                    && events[j as int] == CommitEventView::Done;
            assert(commit_state(has_rows, paths, events, j).1 == action);
        }
        if events[last as int] == CommitEventView::Done {
            assert(was_done(has_rows, paths, events, count, before.1));
        }
    }
}

/// Once the generations have left the manifest and deleting began, nothing
/// fails the merge any more: a directory that cannot be deleted is left
/// behind.
pub proof fn law_deletes_are_best_effort(
    has_rows: bool,
    paths: usize,
    events: Seq<CommitEventView>,
    from: nat,
    count: nat,
)
    requires
        commit_state(has_rows, paths, events, from).0 is Deleting,
        from <= count,
    ensures
        commit_state(has_rows, paths, events, count).1 !is Fail,
{
    lemma_deleting_goes_on(has_rows, paths, events, from, count);
}

proof fn lemma_deleting_goes_on(
    has_rows: bool,
    paths: usize,
    events: Seq<CommitEventView>,
    from: nat,
    count: nat,
)
    requires
        commit_state(has_rows, paths, events, from).0 is Deleting,
        from <= count,
    ensures
        ({
            let (stage, action) = commit_state(has_rows, paths, events, count);
            &&& action !is Fail
            &&& stage is Deleting || stage is Ended
        }),
    decreases count,
{
    if count > from {
        lemma_deleting_goes_on(has_rows, paths, events, from, (count - 1) as nat);
    } else {
        lemma_deleting_asks_for_it(has_rows, paths, events, count);
    }
}

proof fn lemma_deleting_asks_for_it(
    has_rows: bool,
    paths: usize,
    events: Seq<CommitEventView>,
    count: nat,
)
    requires
        commit_state(has_rows, paths, events, count).0 is Deleting,
    ensures
        commit_state(has_rows, paths, events, count).1 is Delete,
{
    if count > 0 {
        let before = commit_state(has_rows, paths, events, (count - 1) as nat);
        assert(before.0 is Locating || before.0 is Deleting);
    }
}

/// A failure before the directories are deleted ends the merge with that failure,
/// and the next step comes only after the one before it.
pub proof fn law_a_failed_step_ends_a_merge(
    stage: CommitStage,
    has_rows: bool,
    paths: usize,
    event: CommitEventView,
)
    ensures
        stage is Evolving || stage is Appending || stage is Draining || stage is Locating ==> (
        event matches CommitEventView::Failed(message) ==> commit_next(
            stage,
            has_rows,
            paths,
            event,
        ) == (CommitStage::Ended, CommitActionView::Fail(message))),
        commit_next(stage, has_rows, paths, event).1 is Append ==> stage is Evolving && has_rows
            && event is Done,
        commit_next(stage, has_rows, paths, event).1 is Drain ==> (stage is Appending || (
        stage is Evolving && !has_rows)) && event is Done,
        commit_next(stage, has_rows, paths, event).1 is Locate
            ==> stage is Draining && event is Done,
        stage is Evolving && event is Done
            ==> (commit_next(stage, has_rows, paths, event).1 is Append
            <==> has_rows),
        stage is Evolving && event is Done && !has_rows ==> commit_next(
            stage,
            has_rows,
            paths,
            event,
        ).1 is Drain,
        stage is Appending && event is Done
            ==> commit_next(stage, has_rows, paths, event).1 is Drain,
        stage is Draining && event is Done
            ==> commit_next(stage, has_rows, paths, event).1 is Locate,
{
}

/// Directories are deleted one after the other, from the first to the last, and
/// after the last the merge succeeds.
pub proof fn law_every_directory_is_deleted(
    stage: CommitStage,
    has_rows: bool,
    paths: usize,
    event: CommitEventView,
)
    ensures
        stage is Locating && event is Done ==> commit_next(stage, has_rows, paths, event) == (
        if paths > 0 {
            (CommitStage::Deleting { next: 0 }, CommitActionView::Delete(0))
        } else {
            (CommitStage::Ended, CommitActionView::Succeed)
        }),
        stage matches CommitStage::Deleting { next } ==> (next + 1 < paths ==> commit_next(
            stage,
            has_rows,
            paths,
            event,
        ) == (
            CommitStage::Deleting { next: (next + 1) as usize },
            CommitActionView::Delete((next + 1) as usize),
        )) && (next + 1 >= paths ==> commit_next(stage, has_rows, paths, event) == (
            CommitStage::Ended,
            CommitActionView::Succeed,
        )),
{
}

/// The model of a commit event holds its variant and what it carries.
pub proof fn law_a_commit_events_model_is_whole(event: CommitEvent)
    ensures
        event == CommitEvent::Done ==> event@ == CommitEventView::Done,
        event matches CommitEvent::Failed(message) ==> event@ == CommitEventView::Failed(message@),
{
}

/// The model of a commit action holds its variant and what it carries.
pub proof fn law_a_commit_actions_model_is_whole(action: CommitAction)
    ensures
        action == CommitAction::EvolveSchema ==> action@ == CommitActionView::EvolveSchema,
        action == CommitAction::Append ==> action@ == CommitActionView::Append,
        action == CommitAction::Drain ==> action@ == CommitActionView::Drain,
        action == CommitAction::Locate ==> action@ == CommitActionView::Locate,
        action matches CommitAction::Delete(at) ==> action@ == CommitActionView::Delete(at),
        action == CommitAction::Succeed ==> action@ == CommitActionView::Succeed,
        action matches CommitAction::Fail(message) ==> action@ == CommitActionView::Fail(message@),
{
}

} // verus!
