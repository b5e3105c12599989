//! The storage layer that all stores share: appending through a resident
//! writer, sealing, merging, and what a handle remembers of its table.

use vstd::prelude::*;

use crate::batch::{align_batch_to_schema, aligned, AlignError, AlignFailure, Batch, BatchView, Column};
use crate::compaction::{CompactionConfig, CompactionOutcome, CompactionState, CompactionStats};
use crate::error::{schema_failure, StoreError};
use crate::order::chars_of;
use crate::projection::ListSource;
use crate::schema::{field_views, names_of, push_field, Field, FieldView, Schema, SchemaView};
use crate::shard::{derive_shard_id, shard_of};
use crate::text::{join3, opt_text};

verus! {

/// `pattern` stands in `text` at this place.
pub open spec fn stands_at(text: Seq<char>, pattern: Seq<char>, at: int) -> bool {
    0 <= at && at + pattern.len() <= text.len() && text.subrange(at, at + pattern.len()) == pattern
}

/// `pattern` stands somewhere in `text`.
pub open spec fn mentions(text: Seq<char>, pattern: Seq<char>) -> bool {
    exists|at: int| #[trigger] stands_at(text, pattern, at)
}

fn has_pattern_at(text: &Vec<char>, pattern: &Vec<char>, at: usize) -> (result: bool)
    requires
        at + pattern@.len() <= text@.len(),
    ensures
        result == stands_at(text@, pattern@, at as int),
{
    let mut index: usize = 0;
    while index < pattern.len()
        invariant
            index <= pattern.len(),
            at + pattern.len() <= text.len(),
            forall|j: int| 0 <= j < index ==> text@[at + j] == #[trigger] pattern@[j],
        decreases pattern.len() - index,
    {
        if text[at + index] != pattern[index] {
            proof {
                if stands_at(text@, pattern@, at as int) {
                    assert(text@.subrange(at as int, at + pattern@.len())[index as int]
                        == pattern@[index as int]);
                }
            }
            return false;
        }
        index = index + 1;
    }
    assert(text@.subrange(at as int, at + pattern@.len()) =~= pattern@);
    true
}

/// Whether `pattern` stands somewhere in `text`.
pub fn contains_pattern(text: &str, pattern: &str) -> (result: bool)
    ensures
        result == mentions(text@, pattern@),
{
    let whole = chars_of(text);
    let part = chars_of(pattern);
    if part.len() > whole.len() {
        return false;
    }
    let last: usize = whole.len() - part.len();
    let mut at: usize = 0;
    while at <= last
        invariant
            whole@ == text@,
            part@ == pattern@,
            last + part@.len() == whole@.len(),
            at <= last + 1,
            forall|j: int| 0 <= j < at ==> !#[trigger] stands_at(text@, pattern@, j),
        decreases last + 1 - at,
    {
        if has_pattern_at(&whole, &part, at) {
            return true;
        }
        if at == last {
            proof {
                assert forall|j: int| !#[trigger] stands_at(text@, pattern@, j) by {}
            }
            return false;
        }
        at = at + 1;
    }
    false
}

/// An error that says the writer's shard was claimed by a later writer.
pub open spec fn says_fenced(message: Seq<char>) -> bool {
    mentions(message, "fenced"@) || mentions(message, "Fenced"@)
}

/// Whether an error says that the writer's shard was claimed by a later
/// writer.
pub fn is_fenced_error(message: &str) -> (result: bool)
    ensures
        result == says_fenced(message@),
{
    contains_pattern(message, "fenced") || contains_pattern(message, "Fenced")
}

/// Whether an error means that a table does not exist: by its class, or by its
/// words where it comes from an object store.
pub fn is_not_found_error(is_not_found_class: bool, message: &str) -> (result: bool)
    ensures
        result == (is_not_found_class || mentions(message@, "was not found"@) || mentions(
            message@,
            "not found"@,
        ) || mentions(message@, "NotFound"@)),
{
    is_not_found_class || contains_pattern(message, "was not found") || contains_pattern(
        message,
        "not found",
    ) || contains_pattern(message, "NotFound")
}

/// The writer that appends go through, told apart by a token that no other
/// writer of the handle has.
#[derive(Debug, Clone, PartialEq)]
pub struct WriterSlot {
    pub resident: Option<u64>,
}

impl WriterSlot {
    /// No writer yet.
    pub fn new() -> (slot: WriterSlot)
        ensures
            slot.resident is None,
    {
        WriterSlot { resident: None }
    }

    /// Keeps a freshly opened writer. A writer that is already resident stays,
    /// and is the one to use.
    pub fn install(&mut self, opened: u64) -> (writer: u64)
        ensures
            final(self).resident == Some(writer),
            match old(self).resident {
                Some(resident) => writer == resident,
                None => writer == opened,
            },
    {
        match self.resident {
            Some(resident) => resident,
            None => {
                self.resident = Some(opened);
                opened
            },
        }
    }

    /// Drops a writer that was found to be superseded. A different writer that
    /// has become resident since then stays.
    pub fn invalidate(&mut self, stale: u64)
        ensures
            final(self).resident == if old(self).resident == Some(stale) {
                None
            } else {
                old(self).resident
            },
    {
        match self.resident {
            Some(resident) => {
                if resident == stale {
                    self.resident = None;
                }
            },
            None => {},
        }
    }

    /// Takes the writer out, to close it.
    pub fn take(&mut self) -> (writer: Option<u64>)
        ensures
            writer == old(self).resident,
            final(self).resident is None,
    {
        let writer = self.resident;
        self.resident = None;
        writer
    }
}

/// How far an append has come.
#[derive(Debug, Clone, Copy, PartialEq, Eq, Structural)]
pub enum PutStage {
    /// It needs a writer; `again` once a first attempt was fenced.
    NeedsWriter { again: bool },
    /// It was handed to a writer.
    Putting { writer: u64, again: bool },
    /// It is durable and waits for the seal.
    Sealing,
    /// It has ended.
    Ended,
}

/// What happened outside.
#[derive(Debug, Clone, PartialEq)]
pub enum PutEvent {
    WriterReady(u64),
    WriterFailed(String),
    PutDone,
    PutFailed(String),
    SealDone,
    SealFailed(String),
}

/// What to do next.
#[derive(Debug, Clone, PartialEq)]
pub enum PutAction {
    /// Get the resident writer, or open one.
    AcquireWriter,
    /// Drop this writer if it is still the resident one, then get a writer.
    ReplaceWriter(u64),
    /// Hand the rows to this writer.
    Put(u64),
    /// Seal what is buffered.
    Seal,
    /// Report success.
    Succeed,
    /// Report this failure.
    Fail(String),
}

/// The model of a [`PutEvent`].
pub enum EventView {
    WriterReady(u64),
    WriterFailed(Seq<char>),
    PutDone,
    PutFailed(Seq<char>),
    SealDone,
    SealFailed(Seq<char>),
}

/// The model of a [`PutAction`].
pub enum ActionView {
    AcquireWriter,
    ReplaceWriter(u64),
    Put(u64),
    Seal,
    Succeed,
    Fail(Seq<char>),
}

impl View for PutEvent {
    type V = EventView;

    open spec fn view(&self) -> EventView {
        match self {
            PutEvent::WriterReady(writer) => EventView::WriterReady(*writer),
            PutEvent::WriterFailed(message) => EventView::WriterFailed(message@),
            PutEvent::PutDone => EventView::PutDone,
            PutEvent::PutFailed(message) => EventView::PutFailed(message@),
            PutEvent::SealDone => EventView::SealDone,
            PutEvent::SealFailed(message) => EventView::SealFailed(message@),
        }
    }
}

impl View for PutAction {
    type V = ActionView;

    open spec fn view(&self) -> ActionView {
        match self {
            PutAction::AcquireWriter => ActionView::AcquireWriter,
            PutAction::ReplaceWriter(writer) => ActionView::ReplaceWriter(*writer),
            PutAction::Put(writer) => ActionView::Put(*writer),
            PutAction::Seal => ActionView::Seal,
            PutAction::Succeed => ActionView::Succeed,
            PutAction::Fail(message) => ActionView::Fail(message@),
        }
    }
}

/// Whether an event can happen at this stage.
pub open spec fn expected(stage: PutStage, event: EventView) -> bool {
    match stage {
        PutStage::NeedsWriter { again } => event is WriterReady || event is WriterFailed,
        PutStage::Putting { writer, again } => event is PutDone || event is PutFailed,
        PutStage::Sealing => event is SealDone || event is SealFailed,
        PutStage::Ended => false,
    }
}

/// The next stage of an append and what to do.
pub open spec fn put_next(stage: PutStage, seal_on_put: bool, event: EventView) -> (
    PutStage,
    ActionView,
) {
    match (stage, event) {
        (PutStage::NeedsWriter { again }, EventView::WriterReady(writer)) => (
            PutStage::Putting { writer, again },
            ActionView::Put(writer),
        ),
        (PutStage::NeedsWriter { again }, EventView::WriterFailed(message)) => (
            PutStage::Ended,
            ActionView::Fail(message),
        ),
        (PutStage::Putting { writer, again }, EventView::PutDone) => if seal_on_put {
            (PutStage::Sealing, ActionView::Seal)
        } else {
            (PutStage::Ended, ActionView::Succeed)
        },
        (PutStage::Putting { writer, again }, EventView::PutFailed(message)) => if !again
            && says_fenced(message) {
            (PutStage::NeedsWriter { again: true }, ActionView::ReplaceWriter(writer))
        } else {
            (PutStage::Ended, ActionView::Fail(message))
        },
        (PutStage::Sealing, EventView::SealDone) => (PutStage::Ended, ActionView::Succeed),
        (PutStage::Sealing, EventView::SealFailed(message)) => (
            PutStage::Ended,
            ActionView::Fail(message),
        ),
        _ => (stage, ActionView::Succeed),
    }
}

/// The first stage of an append and what to do. Nothing to append is a
/// success at once.
pub fn start_put(is_empty: bool) -> (result: (PutStage, PutAction))
    ensures
        is_empty ==> result.0 == PutStage::Ended && result.1@ == ActionView::Succeed,
        !is_empty ==> result.0 == (PutStage::NeedsWriter { again: false }) && result.1@
            == ActionView::AcquireWriter,
{
    if is_empty {
        (PutStage::Ended, PutAction::Succeed)
    } else {
        (PutStage::NeedsWriter { again: false }, PutAction::AcquireWriter)
    }
}

/// Moves an append on by one event. A fenced attempt is repeated once through
/// a fresh writer; any other failure ends the append.
pub fn step_put(stage: PutStage, seal_on_put: bool, event: PutEvent) -> (result: (
    PutStage,
    PutAction,
))
    requires
        expected(stage, event@),
    ensures
        (result.0, result.1@) == put_next(stage, seal_on_put, event@),
{
    match (stage, event) {
        (PutStage::NeedsWriter { again }, PutEvent::WriterReady(writer)) => (
            PutStage::Putting { writer, again },
            PutAction::Put(writer),
        ),
        (PutStage::NeedsWriter { again: _ }, PutEvent::WriterFailed(message)) => (
            PutStage::Ended,
            PutAction::Fail(message),
        ),
        (PutStage::Putting { writer: _, again: _ }, PutEvent::PutDone) => if seal_on_put {
            (PutStage::Sealing, PutAction::Seal)
        } else {
            (PutStage::Ended, PutAction::Succeed)
        },
        (PutStage::Putting { writer, again }, PutEvent::PutFailed(message)) => if !again
            && is_fenced_error(message.as_str()) {
            (PutStage::NeedsWriter { again: true }, PutAction::ReplaceWriter(writer))
        } else {
            (PutStage::Ended, PutAction::Fail(message))
        },
        (PutStage::Sealing, PutEvent::SealDone) => (PutStage::Ended, PutAction::Succeed),
        (PutStage::Sealing, PutEvent::SealFailed(message)) => (
            PutStage::Ended,
            PutAction::Fail(message),
        ),
        (stage, _) => (stage, PutAction::Succeed),
    }
}

/// How often rows are handed to a writer while these events happen.
pub open spec fn put_attempts(stage: PutStage, seal_on_put: bool, events: Seq<EventView>) -> nat
    decreases events.len(),
{
    if events.len() == 0 || !expected(stage, events[0]) {
        0
    } else {
        let (next, action) = put_next(stage, seal_on_put, events[0]);
        (if action is Put {
            1nat
        } else {
            0nat
        }) + put_attempts(next, seal_on_put, events.drop_first())
    }
}

/// How an append ends when these events happen, if it ends.
pub open spec fn put_outcome(stage: PutStage, seal_on_put: bool, events: Seq<EventView>) -> Option<
    ActionView,
>
    decreases events.len(),
{
    if events.len() == 0 || !expected(stage, events[0]) {
        None
    } else {
        let (next, action) = put_next(stage, seal_on_put, events[0]);
        if next == PutStage::Ended {
            Some(action)
        } else {
            put_outcome(next, seal_on_put, events.drop_first())
        }
    }
}

/// Whatever happens, rows are handed to a writer at most twice in one append.
pub proof fn law_an_append_is_tried_at_most_twice(seal_on_put: bool, events: Seq<EventView>)
    ensures
        put_attempts(PutStage::NeedsWriter { again: false }, seal_on_put, events) <= 2,
{
    lemma_attempts_from(PutStage::NeedsWriter { again: false }, seal_on_put, events);
}

spec fn attempts_left(stage: PutStage) -> nat {
    match stage {
        PutStage::NeedsWriter { again } => if again {
            1
        } else {
            2
        },
        PutStage::Putting { writer, again } => if again {
            0
        } else {
            1
        },
        PutStage::Sealing => 0,
        PutStage::Ended => 0,
    }
}

proof fn lemma_attempts_from(stage: PutStage, seal_on_put: bool, events: Seq<EventView>)
    ensures
        put_attempts(stage, seal_on_put, events) <= attempts_left(stage),
    decreases events.len(),
{
    if events.len() > 0 && expected(stage, events[0]) {
        let (next, action) = put_next(stage, seal_on_put, events[0]);
        lemma_attempts_from(next, seal_on_put, events.drop_first());
    }
}

/// An append that reports success was taken by a writer; where the store seals
/// every append, the flush that follows came back without a failure too.
pub proof fn law_success_means_durable(seal_on_put: bool, events: Seq<EventView>)
    requires
        put_outcome(PutStage::NeedsWriter { again: false }, seal_on_put, events) == Some(
            ActionView::Succeed,
        ),
    ensures
        events.contains(EventView::PutDone),
        seal_on_put ==> events.contains(EventView::SealDone),
{
    lemma_success_from(PutStage::NeedsWriter { again: false }, seal_on_put, events);
}

proof fn lemma_success_from(stage: PutStage, seal_on_put: bool, events: Seq<EventView>)
    requires
        put_outcome(stage, seal_on_put, events) == Some(ActionView::Succeed),
        stage is Sealing ==> seal_on_put,
    ensures
        stage !is Sealing ==> events.contains(EventView::PutDone),
        seal_on_put ==> events.contains(EventView::SealDone),
    decreases events.len(),
{
    let (next, action) = put_next(stage, seal_on_put, events[0]);
    if next == PutStage::Ended {
        assert(events[0] == events[0]);
    } else {
        let rest = events.drop_first();
        lemma_success_from(next, seal_on_put, rest);
        if rest.contains(EventView::PutDone) {
            let at = choose|at: int| 0 <= at < rest.len() && rest[at] == EventView::PutDone;
            assert(events[at + 1] == EventView::PutDone);
        }
        if rest.contains(EventView::SealDone) {
            let at = choose|at: int| 0 <= at < rest.len() && rest[at] == EventView::SealDone;
            assert(events[at + 1] == EventView::SealDone);
        }
        if stage is Putting {
            assert(events[0] == EventView::PutDone || next is NeedsWriter);
        }
    }
}

/// How a flush ended.
#[derive(Debug, Clone, Copy, PartialEq, Eq, Structural)]
pub enum FlushOutcome {
    /// What was buffered is sealed and drained.
    Sealed,
    /// There was no writer, so nothing was buffered.
    Noop,
    /// The writer was superseded; its rows are replayed by the next one.
    Fenced,
}

/// What a flush does next.
#[derive(Debug, Clone, PartialEq)]
pub enum FlushStep {
    /// Seal what this writer buffers.
    Seal(u64),
    /// Wait until this writer's sealed rows are drained.
    Drain(u64),
    /// It has ended this way.
    Ended(FlushOutcome),
    /// Drop this writer if it is still the resident one; it has ended fenced.
    EndedFenced(u64),
    /// It failed with this message.
    Failed(String),
}

/// Starts a flush: without a writer there is nothing to do.
pub fn start_flush(slot: &WriterSlot) -> (step: FlushStep)
    ensures
        match slot.resident {
            Some(writer) => step == FlushStep::Seal(writer),
            None => step == FlushStep::Ended(FlushOutcome::Noop),
        },
{
    match slot.resident {
        Some(writer) => FlushStep::Seal(writer),
        None => FlushStep::Ended(FlushOutcome::Noop),
    }
}

/// Goes on with a flush after the seal.
pub fn after_seal(writer: u64, sealed: Result<(), String>) -> (step: FlushStep)
    ensures
        match sealed {
            Ok(_) => step == FlushStep::Drain(writer),
            Err(message) => if says_fenced(message@) {
                step == FlushStep::EndedFenced(writer)
            } else {
                step == FlushStep::Failed(message)
            },
        },
{
    match sealed {
        Ok(_) => FlushStep::Drain(writer),
        Err(message) => if is_fenced_error(message.as_str()) {
            FlushStep::EndedFenced(writer)
        } else {
            FlushStep::Failed(message)
        },
    }
}

/// Ends a flush after the drain.
pub fn after_drain(drained: Result<(), String>) -> (step: FlushStep)
    ensures
        match drained {
            Ok(_) => step == FlushStep::Ended(FlushOutcome::Sealed),
            Err(message) => step == FlushStep::Failed(message),
        },
{
    match drained {
        Ok(_) => FlushStep::Ended(FlushOutcome::Sealed),
        Err(message) => FlushStep::Failed(message),
    }
}

/// How a store is opened.
#[derive(Debug, Clone, PartialEq)]
pub struct StorageBaseOptions {
    pub storage_options: Option<Vec<(String, String)>>,
    pub shard_id: Option<String>,
    pub merge_after_generations: Option<usize>,
    pub key_column: String,
    /// The schema that a merge first brings an older table to, if any.
    pub latest_schema: Option<Schema>,
    pub seal_on_put: bool,
}

/// What a handle remembers of its table.
#[derive(Debug, Clone, PartialEq)]
pub struct StorageBase {
    pub uri: String,
    pub write_shard: u128,
    pub storage_options: Option<Vec<(String, String)>>,
    pub key_column: String,
    pub latest_schema: Option<Schema>,
    pub seal_on_put: bool,
    pub merge_after_generations: usize,
    pub compaction: CompactionState,
    pub pinned_version: Option<u64>,
    pub writer: WriterSlot,
}

impl StorageBase {
    /// Nothing was done with the handle yet: it follows the latest version,
    /// has no writer and has compacted nothing.
    pub open spec fn is_fresh(self) -> bool {
        &&& self.compaction.is_fresh()
        &&& self.pinned_version is None
        &&& self.writer.resident is None
    }

    /// A handle on a table with this schema. The key column must be one of the
    /// table's columns.
    pub fn new(uri: String, schema: &Schema, options: StorageBaseOptions) -> (result: Result<
        StorageBase,
        StoreError,
    >)
        ensures
            if schema@.has(options.key_column@) {
                &&& result is Ok
                &&& result->Ok_0.uri@ == uri@
                &&& result->Ok_0.write_shard == shard_of(opt_text(options.shard_id))
                &&& result->Ok_0.storage_options == options.storage_options
                &&& result->Ok_0.key_column == options.key_column
                &&& result->Ok_0.latest_schema == options.latest_schema
                &&& result->Ok_0.seal_on_put == options.seal_on_put
                &&& result->Ok_0.merge_after_generations == (match options.merge_after_generations {
                    Some(count) => count,
                    None => 0,
                })
                &&& result->Ok_0.is_fresh()
            } else {
                result is Err && result->Err_0@ == schema_failure(
                    "key column '"@ + options.key_column@
                        + "' is not present in the store schema"@,
                )
            },
    {
        if !schema.has_column(options.key_column.as_str()) {
            return Err(
                StoreError::schema(
                    join3(
                        "key column '",
                        options.key_column.as_str(),
                        "' is not present in the store schema",
                    ),
                ),
            );
        }
        Ok(
            StorageBase {
                uri,
                write_shard: derive_shard_id(&options.shard_id),
                storage_options: options.storage_options,
                key_column: options.key_column,
                latest_schema: options.latest_schema,
                seal_on_put: options.seal_on_put,
                merge_after_generations: match options.merge_after_generations {
                    Some(count) => count,
                    None => 0,
                },
                compaction: CompactionState::new(),
                pinned_version: None,
                writer: WriterSlot::new(),
            },
        )
    }

    /// Whether the handle was checked out to a version.
    pub fn is_version_pinned(&self) -> (result: bool)
        ensures
            result == (self.pinned_version is Some),
    {
        self.pinned_version.is_some()
    }

    /// Notes that the handle was checked out to a version.
    pub fn pin_version(&mut self, version: u64)
        ensures
            *final(self) == (StorageBase { pinned_version: Some(version), ..*old(self) }),
    {
        self.pinned_version = Some(version);
    }

    /// Notes that the handle follows the latest version again: after a
    /// refresh, a reload, a merge or a migration.
    pub fn clear_version_pin(&mut self)
        ensures
            *final(self) == (StorageBase { pinned_version: None, ..*old(self) }),
    {
        self.pinned_version = None;
    }

    /// The columns that a merge adds to the base table before it appends; none
    /// where the store expects no later schema.
    pub fn schema_changes(&self, base: &Schema) -> (result: Result<Vec<Field>, AlignError>)
        ensures
            match self.latest_schema {
                Some(latest) => match evolution(base@, latest@) {
                    Ok(fields) => result is Ok && field_views(result->Ok_0@) == fields,
                    Err(failure) => result is Err && result->Err_0@ == failure,
                },
                None => result is Ok && result->Ok_0@.len() == 0,
            },
    {
        match &self.latest_schema {
            Some(latest) => plan_evolution(base, latest),
            None => Ok(Vec::new()),
        }
    }

    /// How many pending generations trigger a merge after an append, if any
    /// number does.
    pub fn merge_trigger(&self) -> (threshold: Option<usize>)
        ensures
            threshold == if self.merge_after_generations == 0 {
                None
            } else {
                Some(self.merge_after_generations)
            },
    {
        if self.merge_after_generations == 0 {
            None
        } else {
            Some(self.merge_after_generations)
        }
    }

    /// Statistics of a table of this many fragments. A compaction holds the
    /// handle for itself, so none is ever seen running.
    pub fn compaction_stats(&self, fragments: usize) -> (stats: CompactionStats)
        ensures
            stats.total_fragments == fragments,
            !stats.is_compacting,
            stats.last_compaction == self.compaction.last_compaction,
            opt_text(stats.last_error) == opt_text(self.compaction.last_error),
            stats.total_compactions == self.compaction.total_compactions,
    {
        let mut stats = self.compaction.stats(fragments);
        stats.is_compacting = false;
        stats
    }

    /// Records how a compaction ended. A success reloads the table, so the
    /// handle follows the latest version again.
    pub fn finish_compaction(&mut self, outcome: CompactionOutcome)
        requires
            old(self).compaction.total_compactions < u64::MAX,
        ensures
            !final(self).compaction.is_compacting,
            *final(self) == (StorageBase {
                compaction: final(self).compaction,
                pinned_version: final(self).pinned_version,
                ..*old(self)
            }),
            match outcome {
                CompactionOutcome::Done(time) => {
                    &&& final(self).compaction.last_compaction == Some(time)
                    &&& final(self).compaction.last_error is None
                    &&& final(self).compaction.total_compactions == old(self).compaction.total_compactions + 1
                    &&& final(self).pinned_version is None
                },
                CompactionOutcome::Failed(message) => {
                    &&& final(self).compaction.last_compaction == old(self).compaction.last_compaction
                    &&& final(self).compaction.last_error == Some(message)
                    &&& final(self).compaction.total_compactions == old(self).compaction.total_compactions
                    &&& final(self).pinned_version == old(self).pinned_version
                },
            },
    {
        match outcome {
            CompactionOutcome::Done(_) => {
                self.pinned_version = None;
            },
            CompactionOutcome::Failed(_) => {},
        }
        self.compaction.finish(outcome);
    }
}

/// The parts of a store to look a row up in, in order. The base table comes
/// first, so that a merged row costs no generation to be opened.
pub open spec fn lookup_order(source: ListSource) -> Seq<ListSource> {
    match source {
        ListSource::Fragments => seq![ListSource::Fragments],
        ListSource::Wal => seq![ListSource::Wal],
        ListSource::All => seq![ListSource::Fragments, ListSource::Wal],
    }
}

/// The parts of a store to look a row up in, in order.
pub fn lookup_sources(source: ListSource) -> (result: Vec<ListSource>)
    ensures
        result@ == lookup_order(source),
{
    let mut result: Vec<ListSource> = Vec::new();
    match source {
        ListSource::Fragments => {
            result.push(ListSource::Fragments);
        },
        ListSource::Wal => {
            result.push(ListSource::Wal);
        },
        ListSource::All => {
            result.push(ListSource::Fragments);
            result.push(ListSource::Wal);
        },
    }
    assert(result@ =~= lookup_order(source));
    result
}

/// Whether a read of this part needs to know the pending generations.
pub fn reads_generations(source: ListSource) -> (result: bool)
    ensures
        result == (source != ListSource::Fragments),
{
    match source {
        ListSource::Fragments => false,
        ListSource::Wal => true,
        ListSource::All => true,
    }
}

/// A batch of a schema's columns without rows.
pub open spec fn empty_batch(schema: SchemaView) -> BatchView {
    BatchView {
        columns: Seq::new(
            schema.fields.len(),
            |i: int|
                crate::batch::ColumnView {
                    name: schema.fields[i].name,
                    data_type: schema.fields[i].data_type,
                    cells: Seq::empty(),
                },
        ),
        rows: 0,
    }
}

/// The columns that a table lacks of a later schema.
pub open spec fn missing_columns(base: SchemaView, latest: SchemaView) -> Seq<FieldView> {
    latest.fields.filter(|field: FieldView| !base.has(field.name))
}

/// What a table needs to reach a later schema: the columns to add, or why it
/// cannot be reached by adding columns.
pub open spec fn evolution(base: SchemaView, latest: SchemaView) -> Result<
    Seq<FieldView>,
    AlignFailure,
> {
    match aligned(empty_batch(base), latest) {
        Err(failure) => Err(failure),
        Ok(_) => Ok(missing_columns(base, latest)),
    }
}

fn build_empty_batch(schema: &Schema) -> (batch: Batch)
    ensures
        batch@ == empty_batch(schema@),
        batch@.well_formed(),
{
    let ghost wanted = empty_batch(schema@).columns;
    let mut columns: Vec<Column> = Vec::new();
    let mut index: usize = 0;
    while index < schema.fields.len()
        invariant
            index <= schema.fields.len(),
            columns.len() == index,
            wanted == empty_batch(schema@).columns,
            forall|k: int|
                0 <= k < index ==> #[trigger] crate::batch::column_views(columns@)[k] == wanted[k],
        decreases schema.fields.len() - index,
    {
        let ghost before = columns@;
        let column = Column {
            name: schema.fields[index].name.clone(),
            data_type: schema.fields[index].data_type,
            cells: Vec::new(),
        };
        assert(column@ =~= wanted[index as int]);
        columns.push(column);
        assert forall|k: int| 0 <= k < index + 1 implies #[trigger] crate::batch::column_views(
            columns@,
        )[k] == wanted[k] by {
            if k < index {
                assert(crate::batch::column_views(before)[k] == wanted[k]);
                assert(columns@[k] == before[k]);
            }
        }
        index = index + 1;
    }
    assert(crate::batch::column_views(columns@) =~= wanted);
    Batch { columns, rows: 0 }
}

/// Plans how a table reaches a later schema by adding columns of nulls. A
/// column with another type, one that the later schema does not know, or a
/// missing one that may not be null cannot be mended so.
pub fn plan_evolution(base: &Schema, latest: &Schema) -> (result: Result<Vec<Field>, AlignError>)
    ensures
        match evolution(base@, latest@) {
            Ok(fields) => result is Ok && field_views(result->Ok_0@) == fields,
            Err(failure) => result is Err && result->Err_0@ == failure,
        },
{
    let empty = build_empty_batch(base);
    match align_batch_to_schema(&empty, latest) {
        Err(error) => {
            return Err(error);
        },
        Ok(_) => {},
    }
    let ghost all = field_views(latest.fields@);
    let ghost keep = |field: FieldView| !base@.has(field.name);
    let mut missing: Vec<Field> = Vec::new();
    let mut index: usize = 0;
    proof {
        assert(all.take(0).filter(keep) =~= Seq::<FieldView>::empty()) by {
            reveal(Seq::filter);
        }
        assert(field_views(missing@) =~= Seq::<FieldView>::empty());
    }
    while index < latest.fields.len()
        invariant
            index <= latest.fields.len(),
            all == field_views(latest.fields@),
            keep == (|field: FieldView| !base@.has(field.name)),
            field_views(missing@) == all.take(index as int).filter(keep),
        decreases latest.fields.len() - index,
    {
        let field = &latest.fields[index];
        proof {
            assert(all.take(index + 1) =~= all.take(index as int).push(field@));
            all.take(index as int).lemma_filter_push(field@, keep);
        }
        if !base.has_column(field.name.as_str()) {
            push_field(&mut missing, field.copy());
        }
        index = index + 1;
    }
    assert(all.take(all.len() as int) =~= all);
    Ok(missing)
}

/// Only columns that a table lacks are ever added to it, and only nullable
/// ones.
pub proof fn law_evolution_adds_nullable_columns(base: SchemaView, latest: SchemaView, at: int)
    requires
        evolution(base, latest) is Ok,
        0 <= at < evolution(base, latest)->Ok_0.len(),
    ensures
        evolution(base, latest)->Ok_0[at].nullable,
        !base.has(evolution(base, latest)->Ok_0[at].name),
{
    let keep = |field: FieldView| !base.has(field.name);
    let missing = evolution(base, latest)->Ok_0;
    let field = missing[at];
    latest.fields.lemma_filter_pred(keep, at);
    assert(missing.contains(field));
    latest.fields.lemma_filter_contains_rev(keep, field);
    let j = choose|j: int| 0 <= j < latest.fields.len() && latest.fields[j] == field;
    let batch = empty_batch(base);
    let step = crate::batch::aligned_column(batch, latest);
    crate::collect::lemma_success_holds_values(step, latest.fields.len());
    assert(step(j) is Ok);
    assert(crate::batch::column_names(batch.columns) =~= names_of(base.fields));
}

/// How many source fragments an incremental compaction may take; none where
/// it is not limited. A limit of zero counts as one, so that every compaction
/// makes progress.
pub fn fragment_budget(config: &CompactionConfig) -> (budget: Option<usize>)
    ensures
        budget == match config.max_source_fragments {
            Some(limit) => Some(if limit < 1 {
                1usize
            } else {
                limit
            }),
            None => None,
        },
{
    match config.max_source_fragments {
        Some(limit) => Some(
            if limit < 1 {
                1
            } else {
                limit
            },
        ),
        None => None,
    }
}

/// What to do about the write-ahead index of a table that is opened.
#[derive(Debug, Clone, Copy, PartialEq, Eq, Structural)]
pub enum WalSetup {
    /// It is there.
    Ready,
    /// Create it.
    Create,
    /// Its creation failed: reload, and look whether another writer made it.
    Recheck,
    /// It could not be created; report the failure of the creation.
    Failed,
}

/// Decides the next step of setting up the write-ahead index: after the first
/// look, after the attempt to create it, and after the second look.
pub fn wal_setup(present: bool, created: Option<bool>, present_after: Option<bool>) -> (step: WalSetup)
    ensures
        step == (if present {
            WalSetup::Ready
        } else {
            match created {
                None => WalSetup::Create,
                Some(true) => WalSetup::Ready,
                Some(false) => match present_after {
                    None => WalSetup::Recheck,
                    Some(true) => WalSetup::Ready,
                    Some(false) => WalSetup::Failed,
                },
            }
        }),
{
    if present {
        WalSetup::Ready
    } else {
        match created {
            None => WalSetup::Create,
            Some(true) => WalSetup::Ready,
            Some(false) => match present_after {
                None => WalSetup::Recheck,
                Some(true) => WalSetup::Ready,
                Some(false) => WalSetup::Failed,
            },
        }
    }
}

/// A text mentions another exactly where that one stands in it, with something or
/// nothing before and behind.
pub proof fn law_a_mention_is_a_part(before: Seq<char>, pattern: Seq<char>, behind: Seq<char>)
    ensures
        mentions(before + pattern + behind, pattern),
        forall|text: Seq<char>| #[trigger] mentions(text, pattern) ==> exists|at: int|
            {
                &&& 0 <= at && at + pattern.len() <= text.len()
                &&& #[trigger] text.subrange(at, at + pattern.len()) == pattern
            },
{
    let text = before + pattern + behind;
    assert(text.subrange(before.len() as int, (before.len() + pattern.len()) as int) =~= pattern);
    assert(stands_at(text, pattern, before.len() as int));
    assert forall|text: Seq<char>| #[trigger] mentions(text, pattern) implies exists|at: int|
        {
            &&& 0 <= at && at + pattern.len() <= text.len()
            &&& #[trigger] text.subrange(at, at + pattern.len()) == pattern
        } by {
        let at = choose|at: int| #[trigger] stands_at(text, pattern, at);
        assert(text.subrange(at, at + pattern.len()) == pattern);
    }
}

/// A failure is one of fencing exactly where its words say `fenced` or `Fenced`.
pub proof fn law_fencing_is_told_by_its_word(message: Seq<char>)
    ensures
        says_fenced(message) <==> mentions(message, "fenced"@) || mentions(message, "Fenced"@),
{
}

/// How an append goes on. A writer that is ready gets the rows. Rows that are
/// durable are sealed first where that is asked for, and are reported otherwise.
/// A first attempt that was fenced is made again with another writer in place of
/// the fenced one; any other failure, and any failure of a second attempt, of
/// getting a writer or of the seal, ends the append with that failure's words.
pub proof fn law_how_an_append_goes_on(
    again: bool,
    writer: u64,
    seal_on_put: bool,
    message: Seq<char>,
)
    ensures
        put_next(
            PutStage::NeedsWriter { again },
            seal_on_put,
            EventView::WriterReady(writer),
        ) == (PutStage::Putting { writer, again }, ActionView::Put(writer)),
        put_next(
            PutStage::NeedsWriter { again },
            seal_on_put,
            EventView::WriterFailed(message),
        ) == (PutStage::Ended, ActionView::Fail(message)),
        put_next(PutStage::Putting { writer, again }, true, EventView::PutDone) == (
            PutStage::Sealing,
            ActionView::Seal,
        ),
        put_next(PutStage::Putting { writer, again }, false, EventView::PutDone) == (
            PutStage::Ended,
            ActionView::Succeed,
        ),
        says_fenced(message) ==> put_next(
            PutStage::Putting { writer, again: false },
            seal_on_put,
            EventView::PutFailed(message),
        ) == (PutStage::NeedsWriter { again: true }, ActionView::ReplaceWriter(writer)),
        !says_fenced(message) ==> put_next(
            PutStage::Putting { writer, again },
            seal_on_put,
            EventView::PutFailed(message),
        ) == (PutStage::Ended, ActionView::Fail(message)),
        put_next(
            PutStage::Putting { writer, again: true },
            seal_on_put,
            EventView::PutFailed(message),
        ) == (PutStage::Ended, ActionView::Fail(message)),
        put_next(PutStage::Sealing, seal_on_put, EventView::SealDone) == (
            PutStage::Ended,
            ActionView::Succeed,
        ),
        put_next(PutStage::Sealing, seal_on_put, EventView::SealFailed(message)) == (
            PutStage::Ended,
            ActionView::Fail(message),
        ),
{
}

/// A lookup reads the part that it is asked for; one in everything reads the base
/// table first and what is not merged yet behind it.
pub proof fn law_a_lookup_reads_the_base_table_first()
    ensures
        lookup_order(ListSource::All).len() == 2,
        lookup_order(ListSource::All)[0] == ListSource::Fragments,
        lookup_order(ListSource::All)[1] == ListSource::Wal,
        lookup_order(ListSource::Fragments).len() == 1,
        lookup_order(ListSource::Fragments)[0] == ListSource::Fragments,
        lookup_order(ListSource::Wal).len() == 1,
        lookup_order(ListSource::Wal)[0] == ListSource::Wal,
{
}

/// A table is brought to the latest schema by adding exactly the columns that it
/// lacks, each as the latest schema has it.
pub proof fn law_evolution_adds_what_is_missing(base: SchemaView, latest: SchemaView)
    requires
        evolution(base, latest) is Ok,
    ensures
        forall|field: FieldView| #[trigger]
            evolution(base, latest)->Ok_0.contains(field) <==> latest.fields.contains(field)
                && forall|i: int|
                0 <= i < base.fields.len() ==> (#[trigger] base.fields[i]).name != field.name,
{
    let wanted = |field: FieldView| !base.has(field.name);
    assert forall|field: FieldView| #[trigger]
        evolution(base, latest)->Ok_0.contains(field)
            <==> latest.fields.contains(field) && forall|i: int|
        0 <= i < base.fields.len() ==> (#[trigger] base.fields[i]).name != field.name by {
        crate::schema::law_a_column_is_found_by_its_name(base.fields, field.name);
        if latest.fields.contains(field) && wanted(field) {
            let i = choose|i: int| 0 <= i < latest.fields.len() && latest.fields[i] == field;
            latest.fields.lemma_filter_contains(wanted, i);
        }
        if missing_columns(base, latest).contains(field) {
            latest.fields.lemma_filter_contains_rev(wanted, field);
            let k = choose|k: int|
                0 <= k < latest.fields.filter(wanted).len()
                    && latest.fields.filter(wanted)[k] == field;
            latest.fields.lemma_filter_pred(wanted, k);
        }
    }
}

/// The model of an append event holds its variant and what it carries.
pub proof fn law_an_append_events_model_is_whole(event: PutEvent)
    ensures
        event matches PutEvent::WriterReady(writer) ==> event@ == EventView::WriterReady(writer),
        event matches PutEvent::WriterFailed(message)
            ==> event@ == EventView::WriterFailed(message@),
        event == PutEvent::PutDone ==> event@ == EventView::PutDone,
        event matches PutEvent::PutFailed(message) ==> event@ == EventView::PutFailed(message@),
        event == PutEvent::SealDone ==> event@ == EventView::SealDone,
        event matches PutEvent::SealFailed(message) ==> event@ == EventView::SealFailed(message@),
{
}

/// The model of an append action holds its variant and what it carries.
pub proof fn law_an_append_actions_model_is_whole(action: PutAction)
    ensures
        action == PutAction::AcquireWriter ==> action@ == ActionView::AcquireWriter,
        action matches PutAction::ReplaceWriter(writer)
            ==> action@ == ActionView::ReplaceWriter(writer),
        action matches PutAction::Put(writer) ==> action@ == ActionView::Put(writer),
        action == PutAction::Seal ==> action@ == ActionView::Seal,
        action == PutAction::Succeed ==> action@ == ActionView::Succeed,
        action matches PutAction::Fail(message) ==> action@ == ActionView::Fail(message@),
{
}

/// When a table can be brought to the latest schema: exactly where that has
/// columns, every column of the table is one of them with its type, and those that
/// the table lacks take nulls.
pub proof fn law_when_a_table_evolves(base: SchemaView, latest: SchemaView)
    ensures
        evolution(base, latest) is Ok <==> {
            &&& latest.fields.len() > 0
            &&& forall|i: int|
                0 <= i < base.fields.len() ==> latest.has((#[trigger] base.fields[i]).name)
            &&& forall|j: int|
                0 <= j < latest.fields.len() ==> match base.field(
                    (#[trigger] latest.fields[j]).name,
                ) {
                    Some(field) => field.data_type == latest.fields[j].data_type,
                    None => latest.fields[j].nullable,
                }
        },
{
    let batch = empty_batch(base);
    crate::batch::law_when_a_batch_aligns(batch, latest);
    assert(crate::batch::column_names(batch.columns) =~= names_of(base.fields));
    assert forall|j: int| 0 <= j < latest.fields.len() implies crate::batch::fits_field(
        batch,
        #[trigger] latest.fields[j],
    ) == match base.field(latest.fields[j].name) {
        Some(field) => field.data_type == latest.fields[j].data_type,
        None => latest.fields[j].nullable,
    } by {
        crate::schema::lemma_find_name(names_of(base.fields), latest.fields[j].name);
    }
    if aligned(batch, latest) is Ok {
        assert forall|i: int| 0 <= i < base.fields.len() implies latest.has(
            (#[trigger] base.fields[i]).name,
        ) by {
            assert(batch.columns[i].name == base.fields[i].name);
        }
        assert forall|j: int| 0 <= j < latest.fields.len() implies match base.field(
            (#[trigger] latest.fields[j]).name,
        ) {
            Some(field) => field.data_type == latest.fields[j].data_type,
            None => latest.fields[j].nullable,
        } by {
            assert(crate::batch::fits_field(batch, latest.fields[j]));
        }
    } else {
        if forall|i: int|
            0 <= i < base.fields.len() ==> latest.has((#[trigger] base.fields[i]).name) {
            assert forall|i: int| 0 <= i < batch.columns.len() implies latest.has(
                (#[trigger] batch.columns[i]).name,
            ) by {
                assert(latest.has(base.fields[i].name));
            }
        }
    }
}

} // verus!
