//! What a data generation log asks of the events that are appended to it.

use vstd::prelude::*;

use crate::collect::{collected, lemma_failure_stays, lemma_success_holds_values};
use crate::datagen_event::{
    event_views, same_content, same_opt_text, DatagenEvent, DatagenValue, EventView, ValueView,
};
use crate::error::{invalid_argument, Failure, StoreError};
use crate::number::{decimal, decimal_i64, decimal_usize};
use crate::text::{join2, join3, opt_text, same_text};

verus! {

/// The last place before `end` that `holds` picks.
pub open spec fn last_before(end: int, holds: spec_fn(int) -> bool) -> Option<int>
    decreases end,
{
    if end <= 0 {
        None
    } else if holds(end - 1) {
        Some(end - 1)
    } else {
        last_before(end - 1, holds)
    }
}

/// The models of optional messages.
pub open spec fn messages(verdicts: Seq<Option<String>>) -> Seq<Option<Seq<char>>> {
    Seq::new(verdicts.len(), |i: int| opt_text(verdicts[i]))
}

/// The events with the id of one.
pub open spec fn with_id_of(events: Seq<EventView>, at: int) -> spec_fn(int) -> bool {
    |j: int| events[j].event_id == events[at].event_id
}

/// The events with the item and sequence number of one.
pub open spec fn with_sequence_of(events: Seq<EventView>, at: int) -> spec_fn(int) -> bool {
    |j: int| events[j].item_id == events[at].item_id && events[j].item_seq == events[at].item_seq
}

/// The failure of an event id that an earlier event has with other content.
pub open spec fn reused_id(events: Seq<EventView>, at: int) -> Option<Failure> {
    match last_before(at, with_id_of(events, at)) {
        Some(previous) => if same_content(events[previous], events[at]) {
            None
        } else {
            Some(
                invalid_argument(
                    "event_id '"@ + events[at].event_id + "' was reused with different content"@,
                ),
            )
        },
        None => None,
    }
}

/// The failure of a sequence number that an earlier event of the item has.
pub open spec fn reused_sequence(events: Seq<EventView>, at: int) -> Option<Failure> {
    match last_before(at, with_sequence_of(events, at)) {
        Some(previous) => if events[previous].event_id == events[at].event_id {
            None
        } else {
            Some(
                invalid_argument(
                    "item '"@ + events[at].item_id + "' has duplicate item_seq "@ + decimal(
                        events[at].item_seq as int,
                    ) + " in one batch"@,
                ),
            )
        },
        None => None,
    }
}

/// The failure of a blob without its bytes or of another size than it says.
pub open spec fn blob_failure(event: EventView) -> Option<Failure> {
    match event.value {
        Some(ValueView::Blob(blob)) => match blob.bytes {
            None => Some(
                invalid_argument(
                    "blob event '"@ + event.event_id + "' has no bytes on the write path"@,
                ),
            ),
            Some(bytes) => if blob.size != bytes.len() {
                Some(
                    invalid_argument(
                        "blob event '"@ + event.event_id + "' declares "@ + decimal(
                            blob.size as int,
                        ) + " bytes but contains "@ + decimal(bytes.len() as int),
                    ),
                )
            } else {
                None
            },
        },
        _ => None,
    }
}

/// Whether an event of a batch may be written, given what the log's rules say
/// of it.
pub open spec fn write_check(events: Seq<EventView>, verdicts: Seq<Option<Seq<char>>>) -> spec_fn(
    int,
) -> Result<(), Failure> {
    |i: int|
        match verdicts[i] {
            Some(message) => Err(invalid_argument(message)),
            None => match reused_id(events, i) {
                Some(failure) => Err(failure),
                None => match reused_sequence(events, i) {
                    Some(failure) => Err(failure),
                    None => match blob_failure(events[i]) {
                        Some(failure) => Err(failure),
                        None => Ok(()),
                    },
                },
            },
        }
}

/// Why a batch of events may not be written.
pub open spec fn write_failure(events: Seq<EventView>, verdicts: Seq<Option<Seq<char>>>) -> Option<
    Failure,
> {
    match collected(write_check(events, verdicts), events.len()) {
        Ok(_) => None,
        Err(failure) => Some(failure),
    }
}

fn find_previous_id(events: &Vec<DatagenEvent>, at: usize) -> (result: Option<usize>)
    requires
        at < events@.len(),
    ensures
        match last_before(at as int, with_id_of(event_views(events@), at as int)) {
            Some(previous) => result is Some && result->Some_0 == previous && previous < at,
            None => result is None,
        },
{
    let ghost holds = with_id_of(event_views(events@), at as int);
    let mut left: usize = at;
    while left > 0
        invariant
            left <= at < events@.len(),
            holds == with_id_of(event_views(events@), at as int),
            last_before(at as int, holds) == last_before(left as int, holds),
        decreases left,
    {
        left = left - 1;
        if same_text(events[left].event_id.as_str(), events[at].event_id.as_str()) {
            return Some(left);
        }
    }
    None
}

fn find_previous_sequence(events: &Vec<DatagenEvent>, at: usize) -> (result: Option<usize>)
    requires
        at < events@.len(),
    ensures
        match last_before(at as int, with_sequence_of(event_views(events@), at as int)) {
            Some(previous) => result is Some && result->Some_0 == previous && previous < at,
            None => result is None,
        },
{
    let ghost holds = with_sequence_of(event_views(events@), at as int);
    let mut left: usize = at;
    while left > 0
        invariant
            left <= at < events@.len(),
            holds == with_sequence_of(event_views(events@), at as int),
            last_before(at as int, holds) == last_before(left as int, holds),
        decreases left,
    {
        left = left - 1;
        if events[left].item_seq == events[at].item_seq && same_text(
            events[left].item_id.as_str(),
            events[at].item_id.as_str(),
        ) {
            return Some(left);
        }
    }
    None
}

fn check_blob(event: &DatagenEvent) -> (result: Result<(), StoreError>)
    ensures
        crate::error::check_failure(result) == blob_failure(event@),
{
    match &event.value {
        Some(DatagenValue::Blob(blob)) => match &blob.bytes {
            None => Err(
                StoreError::invalid_argument(
                    join3(
                        "blob event '",
                        event.event_id.as_str(),
                        "' has no bytes on the write path",
                    ),
                ),
            ),
            Some(bytes) => {
                if blob.size < 0 || blob.size as u64 != bytes.len() as u64 {
                    let declared = decimal_i64(blob.size);
                    let found = decimal_usize(bytes.len());
                    let mut message = join3(
                        "blob event '",
                        event.event_id.as_str(),
                        "' declares ",
                    );
                    message.append(declared.as_str());
                    message.append(" bytes but contains ");
                    message.append(found.as_str());
                    Err(StoreError::invalid_argument(message))
                } else {
                    Ok(())
                }
            },
        },
        _ => Ok(()),
    }
}

fn check_event(events: &Vec<DatagenEvent>, verdicts: &Vec<Option<String>>, at: usize) -> (result: Result<
    (),
    StoreError,
>)
    requires
        at < events@.len(),
        verdicts@.len() == events@.len(),
    ensures
        match write_check(event_views(events@), messages(verdicts@))(at as int) {
            Ok(_) => result is Ok,
            Err(failure) => result is Err && result->Err_0@ == failure,
        },
{
    let event = &events[at];
    match &verdicts[at] {
        Some(message) => {
            return Err(StoreError::invalid_argument(message.clone()));
        },
        None => {},
    }
    match find_previous_id(events, at) {
        Some(previous) => {
            if !events[previous].has_same_content(event) {
                return Err(
                    StoreError::invalid_argument(
                        join3(
                            "event_id '",
                            event.event_id.as_str(),
                            "' was reused with different content",
                        ),
                    ),
                );
            }
        },
        None => {},
    }
    match find_previous_sequence(events, at) {
        Some(previous) => {
            if !same_text(events[previous].event_id.as_str(), event.event_id.as_str()) {
                let number = decimal_i64(event.item_seq);
                let mut message = join3(
                    "item '",
                    event.item_id.as_str(),
                    "' has duplicate item_seq ",
                );
                message.append(number.as_str());
                message.append(" in one batch");
                return Err(StoreError::invalid_argument(message));
            }
        },
        None => {},
    }
    check_blob(event)
}

/// Checks a batch of events before it is written, given what the log's rules
/// say of each event. An event may be repeated, but not under its id with
/// other content; an item's sequence number belongs to one event; and a blob
/// comes with its bytes.
pub fn validate_write_batch(events: &Vec<DatagenEvent>, verdicts: &Vec<Option<String>>) -> (result: Result<
    (),
    StoreError,
>)
    requires
        verdicts@.len() == events@.len(),
    ensures
        crate::error::check_failure(result) == write_failure(
            event_views(events@),
            messages(verdicts@),
        ),
{
    let ghost step = write_check(event_views(events@), messages(verdicts@));
    let ghost mut seen: Seq<()> = Seq::empty();
    let mut index: usize = 0;
    while index < events.len()
        invariant
            index <= events.len(),
            verdicts@.len() == events@.len(),
            step == write_check(event_views(events@), messages(verdicts@)),
            collected(step, index as nat) == Ok::<Seq<()>, Failure>(seen),
        decreases events.len() - index,
    {
        match check_event(events, verdicts, index) {
            Ok(_) => {},
            Err(error) => {
                proof {
                    assert(collected(step, (index + 1) as nat) is Err);
                    lemma_failure_stays(step, (index + 1) as nat, events@.len());
                }
                return Err(error);
            },
        }
        proof {
            assert(step(index as int) == Ok::<(), Failure>(()));
            seen = seen.push(());
        }
        index = index + 1;
    }
    Ok(())
}

proof fn lemma_last_before(end: int, holds: spec_fn(int) -> bool, at: int)
    requires
        0 <= at < end,
        holds(at),
    ensures
        last_before(end, holds) is Some,
        at <= last_before(end, holds)->Some_0 < end,
        holds(last_before(end, holds)->Some_0),
    decreases end,
{
    if !holds(end - 1) {
        lemma_last_before(end - 1, holds, at);
    }
}

proof fn lemma_content_is_transitive(first: EventView, second: EventView, third: EventView)
    requires
        same_content(first, second),
        same_content(second, third),
    ensures
        same_content(first, third),
{
}

/// A batch that may be written holds under one id one content only, however
/// often it repeats the event, and gives a sequence number of an item to one
/// event only.
pub proof fn law_accepted_batch_is_consistent(
    events: Seq<EventView>,
    verdicts: Seq<Option<Seq<char>>>,
    left: int,
    right: int,
)
    requires
        write_failure(events, verdicts) is None,
        0 <= left < right < events.len(),
    ensures
        events[left].event_id == events[right].event_id ==> same_content(
            events[left],
            events[right],
        ),
        events[left].item_id == events[right].item_id && events[left].item_seq
            == events[right].item_seq ==> events[left].event_id == events[right].event_id,
    decreases right,
{
    let step = write_check(events, verdicts);
    lemma_success_holds_values(step, events.len());
    assert(step(right) is Ok);
    if events[left].event_id == events[right].event_id {
        let holds = with_id_of(events, right);
        lemma_last_before(right, holds, left);
        let previous = last_before(right, holds)->Some_0;
        if left < previous {
            law_accepted_batch_is_consistent(events, verdicts, left, previous);
            lemma_content_is_transitive(events[left], events[previous], events[right]);
        }
    }
    if events[left].item_id == events[right].item_id && events[left].item_seq
        == events[right].item_seq {
        let holds = with_sequence_of(events, right);
        lemma_last_before(right, holds, left);
        let previous = last_before(right, holds)->Some_0;
        if left < previous {
            law_accepted_batch_is_consistent(events, verdicts, left, previous);
        }
    }
}

/// Two events belong to the same attempt at the same checkpoint.
pub open spec fn same_attempt(left: EventView, right: EventView) -> bool {
    &&& left.item_id == right.item_id
    &&& left.checkpoint_id == right.checkpoint_id
    &&& left.run_id == right.run_id
    &&& left.writer_epoch == right.writer_epoch
    &&& left.attempt == right.attempt
}

/// Two events belong to the same step.
pub open spec fn same_step(left: EventView, right: EventView) -> bool {
    &&& left.step_name == right.step_name
    &&& left.step_index == right.step_index
    &&& left.step_kind == right.step_kind
    &&& left.enclosing_step == right.enclosing_step
    &&& left.selector_step == right.selector_step
}

/// An event that writes a field.
pub open spec fn is_field_event(event: EventView) -> bool {
    event.event_type == "FIELD_SET"@ || event.event_type == "FIELD_APPEND"@
}

/// An event that completes a step.
pub open spec fn is_completion(event: EventView) -> bool {
    event.event_type == "STEP_COMPLETED"@
}

/// Whether an event may stand in a checkpoint batch.
pub open spec fn member_check(events: Seq<EventView>) -> spec_fn(int) -> Result<(), Failure> {
    |i: int|
        if !same_attempt(events[i], events[0]) {
            Err(
                invalid_argument(
                    "checkpoint batch must share item_id, checkpoint_id, run_id, writer_epoch, and attempt"@,
                ),
            )
        } else if !is_field_event(events[i]) && !is_completion(events[i]) {
            Err(
                invalid_argument(
                    "checkpoint batch may contain only FIELD_SET, FIELD_APPEND, and STEP_COMPLETED events"@,
                ),
            )
        } else {
            Ok(())
        }
}

/// How many of the first `count` events complete a step.
pub open spec fn completions(events: Seq<EventView>, count: nat) -> nat
    decreases count,
{
    if count == 0 {
        0
    } else {
        completions(events, (count - 1) as nat) + (if is_completion(events[count - 1]) {
            1nat
        } else {
            0nat
        })
    }
}

/// Every field event belongs to a completed step of the batch.
pub open spec fn steps_agree(events: Seq<EventView>) -> bool {
    forall|i: int, j: int|
        0 <= i < events.len() && 0 <= j < events.len() && is_field_event(#[trigger] events[i])
            && is_completion(#[trigger] events[j]) ==> same_step(events[i], events[j])
}

/// Why a batch is no complete checkpoint.
pub open spec fn checkpoint_failure(
    events: Seq<EventView>,
    verdicts: Seq<Option<Seq<char>>>,
) -> Option<Failure> {
    if events.len() == 0 {
        Some(invalid_argument("checkpoint batch must not be empty"@))
    } else {
        match collected(member_check(events), events.len()) {
            Err(failure) => Some(failure),
            Ok(_) => if completions(events, events.len()) != 1 {
                Some(
                    invalid_argument(
                        "checkpoint batch requires exactly one STEP_COMPLETED event, found "@
                            + decimal(completions(events, events.len()) as int),
                    ),
                )
            } else if !steps_agree(events) {
                Some(
                    invalid_argument(
                        "all field events must share the STEP_COMPLETED step identity"@,
                    ),
                )
            } else {
                write_failure(events, verdicts)
            },
        }
    }
}

fn shares_attempt(left: &DatagenEvent, right: &DatagenEvent) -> (result: bool)
    ensures
        result == same_attempt(left@, right@),
{
    same_text(left.item_id.as_str(), right.item_id.as_str()) && same_text(
        left.checkpoint_id.as_str(),
        right.checkpoint_id.as_str(),
    ) && same_text(left.run_id.as_str(), right.run_id.as_str()) && same_text(
        left.writer_epoch.as_str(),
        right.writer_epoch.as_str(),
    ) && left.attempt == right.attempt
}

fn shares_step(left: &DatagenEvent, right: &DatagenEvent) -> (result: bool)
    ensures
        result == same_step(left@, right@),
{
    same_opt_text(&left.step_name, &right.step_name) && left.step_index == right.step_index
        && same_opt_text(&left.step_kind, &right.step_kind) && same_opt_text(
        &left.enclosing_step,
        &right.enclosing_step,
    ) && same_opt_text(&left.selector_step, &right.selector_step)
}

fn writes_field(event: &DatagenEvent) -> (result: bool)
    ensures
        result == is_field_event(event@),
{
    same_text(event.event_type.as_str(), "FIELD_SET") || same_text(
        event.event_type.as_str(),
        "FIELD_APPEND",
    )
}

fn completes_step(event: &DatagenEvent) -> (result: bool)
    ensures
        result == is_completion(event@),
{
    same_text(event.event_type.as_str(), "STEP_COMPLETED")
}

/// Checks the members of a batch and counts the completions, with the place of
/// the last one.
fn check_members(events: &Vec<DatagenEvent>) -> (result: Result<(usize, usize), StoreError>)
    requires
        events@.len() > 0,
    ensures
        match collected(member_check(event_views(events@)), events@.len()) {
            Err(failure) => result is Err && result->Err_0@ == failure,
            Ok(_) => {
                &&& result is Ok
                &&& result->Ok_0.0 == completions(event_views(events@), events@.len())
                &&& result->Ok_0.1 < events@.len()
                &&& result->Ok_0.0 > 0 ==> is_completion(events@[result->Ok_0.1 as int]@)
            },
        },
{
    let ghost views = event_views(events@);
    let ghost step = member_check(views);
    let ghost mut seen: Seq<()> = Seq::empty();
    let mut count: usize = 0;
    let mut last: usize = 0;
    let mut index: usize = 0;
    while index < events.len()
        invariant
            index <= events.len(),
            events@.len() > 0,
            views == event_views(events@),
            step == member_check(views),
            collected(step, index as nat) == Ok::<Seq<()>, Failure>(seen),
            count == completions(views, index as nat),
            count <= index,
            last < events@.len(),
            count > 0 ==> is_completion(views[last as int]),
        decreases events.len() - index,
    {
        let event = &events[index];
        assert(views[index as int] == event@);
        assert(views[0] == events@[0]@);
        let completed = completes_step(event);
        let problem = if !shares_attempt(event, &events[0]) {
            Some(
                "checkpoint batch must share item_id, checkpoint_id, run_id, writer_epoch, and attempt",
            )
        } else if !writes_field(event) && !completed {
            Some(
                "checkpoint batch may contain only FIELD_SET, FIELD_APPEND, and STEP_COMPLETED events",
            )
        } else {
            None
        };
        match problem {
            Some(message) => {
                let error = StoreError::invalid_argument(message.to_owned());
                proof {
                    assert(step(index as int) == Err::<(), Failure>(error@));
                    assert(collected(step, (index + 1) as nat) is Err);
                    lemma_failure_stays(step, (index + 1) as nat, events@.len());
                }
                return Err(error);
            },
            None => {},
        }
        if completed {
            count = count + 1;
            last = index;
        }
        proof {
            assert(step(index as int) == Ok::<(), Failure>(()));
            seen = seen.push(());
        }
        index = index + 1;
    }
    Ok((count, last))
}

proof fn lemma_one_completion(events: Seq<EventView>, count: nat, left: int, right: int)
    requires
        count <= events.len(),
        0 <= left < count,
        0 <= right < count,
        left != right,
        is_completion(events[left]),
        is_completion(events[right]),
    ensures
        completions(events, count) >= 2,
    decreases count,
{
    if left == count - 1 {
        lemma_some_completion(events, (count - 1) as nat, right);
    } else if right == count - 1 {
        lemma_some_completion(events, (count - 1) as nat, left);
    } else {
        lemma_one_completion(events, (count - 1) as nat, left, right);
    }
}

proof fn lemma_some_completion(events: Seq<EventView>, count: nat, at: int)
    requires
        count <= events.len(),
        0 <= at < count,
        is_completion(events[at]),
    ensures
        completions(events, count) >= 1,
    decreases count,
{
    if at < count - 1 {
        lemma_some_completion(events, (count - 1) as nat, at);
    }
}

fn fields_share_step(events: &Vec<DatagenEvent>, completion: usize) -> (result: bool)
    requires
        completion < events@.len(),
        is_completion(events@[completion as int]@),
        completions(event_views(events@), events@.len()) == 1,
    ensures
        result == steps_agree(event_views(events@)),
{
    let ghost views = event_views(events@);
    let mut index: usize = 0;
    while index < events.len()
        invariant
            index <= events.len(),
            completion < events@.len(),
            views == event_views(events@),
            is_completion(views[completion as int]),
            forall|i: int|
                0 <= i < index && is_field_event(#[trigger] views[i]) ==> same_step(
                    views[i],
                    views[completion as int],
                ),
        decreases events.len() - index,
    {
        if writes_field(&events[index]) && !shares_step(&events[index], &events[completion]) {
            assert(is_field_event(views[index as int]));
            assert(!same_step(views[index as int], views[completion as int]));
            return false;
        }
        index = index + 1;
    }
    proof {
        assert forall|i: int, j: int|
            0 <= i < views.len() && 0 <= j < views.len() && is_field_event(#[trigger] views[i])
                && is_completion(#[trigger] views[j]) implies same_step(views[i], views[j]) by {
            if j != completion {
                lemma_one_completion(views, views.len(), j, completion as int);
            }
        }
    }
    true
}

/// Checks that a batch is one complete checkpoint: events of one attempt at
/// one checkpoint of one item, any number of field events, and exactly one
/// completion of the step that all of them belong to.
pub fn validate_checkpoint_batch(
    events: &Vec<DatagenEvent>,
    verdicts: &Vec<Option<String>>,
) -> (result: Result<(), StoreError>)
    requires
        verdicts@.len() == events@.len(),
    ensures
        crate::error::check_failure(result) == checkpoint_failure(
            event_views(events@),
            messages(verdicts@),
        ),
{
    if events.len() == 0 {
        return Err(StoreError::invalid_argument("checkpoint batch must not be empty".to_owned()));
    }
    let (completed, completion) = match check_members(events) {
        Ok(found) => found,
        Err(error) => {
            return Err(error);
        },
    };
    if completed != 1 {
        let found = decimal_usize(completed);
        return Err(
            StoreError::invalid_argument(
                join2(
                    "checkpoint batch requires exactly one STEP_COMPLETED event, found ",
                    found.as_str(),
                ),
            ),
        );
    }
    if !fields_share_step(events, completion) {
        return Err(
            StoreError::invalid_argument(
                "all field events must share the STEP_COMPLETED step identity".to_owned(),
            ),
        );
    }
    validate_write_batch(events, verdicts)
}

/// An accepted checkpoint is one step of one item: all of its events belong to
/// the same attempt, and its field events to the step that it completes.
pub proof fn law_accepted_checkpoint_is_one_step(
    events: Seq<EventView>,
    verdicts: Seq<Option<Seq<char>>>,
    left: int,
    right: int,
)
    requires
        checkpoint_failure(events, verdicts) is None,
        0 <= left < events.len(),
        0 <= right < events.len(),
    ensures
        same_attempt(events[left], events[right]),
        is_field_event(events[left]) || is_completion(events[left]),
        is_completion(events[left]) && is_completion(events[right]) ==> left == right,
        is_field_event(events[left]) && is_completion(events[right]) ==> same_step(
            events[left],
            events[right],
        ),
        write_failure(events, verdicts) is None,
{
    let step = member_check(events);
    lemma_success_holds_values(step, events.len());
    assert(step(left) is Ok);
    assert(step(right) is Ok);
    if left != right && is_completion(events[left]) && is_completion(events[right]) {
        lemma_one_completion(events, events.len(), left, right);
    }
}

proof fn lemma_last_before_holds(end: int, holds: spec_fn(int) -> bool)
    ensures
        last_before(end, holds) is Some ==> 0 <= last_before(end, holds)->Some_0 < end && holds(
            last_before(end, holds)->Some_0,
        ),
    decreases end,
{
    if end > 0 && !holds(end - 1) {
        lemma_last_before_holds(end - 1, holds);
    }
}

/// When a batch is taken: exactly where the vocabulary refuses none of its
/// events, an id that comes again comes with the same content, a sequence number
/// of an item belongs to one id, and every blob comes with its bytes, as many as
/// it declares.
pub proof fn law_when_a_batch_is_taken(events: Seq<EventView>, verdicts: Seq<Option<Seq<char>>>)
    requires
        verdicts.len() == events.len(),
    ensures
        write_failure(events, verdicts) is None <==> {
            &&& forall|i: int| 0 <= i < events.len() ==> (#[trigger] verdicts[i]) is None
            &&& forall|i: int, j: int|
                0 <= i < j < events.len() && (#[trigger] events[i]).event_id == (
                #[trigger] events[j]).event_id ==> same_content(events[i], events[j])
            &&& forall|i: int, j: int|
                0 <= i < j < events.len() && (#[trigger] events[i]).item_id == (
                #[trigger] events[j]).item_id && events[i].item_seq == events[j].item_seq
                    ==> events[i].event_id == events[j].event_id
            &&& forall|i: int|
                0 <= i < events.len() ==> ((#[trigger] events[i]).value matches Some(
                    ValueView::Blob(blob),
                ) ==> blob.bytes is Some && blob.size == blob.bytes->Some_0.len())
        },
{
    let step = write_check(events, verdicts);
    let count = events.len();
    if write_failure(events, verdicts) is None {
        lemma_success_holds_values(step, count);
        assert forall|i: int| 0 <= i < count implies (#[trigger] verdicts[i]) is None by {
            assert(step(i) is Ok);
        }
        assert forall|i: int| 0 <= i < count implies ((#[trigger] events[i]).value matches Some(
            ValueView::Blob(blob),
        ) ==> blob.bytes is Some && blob.size == blob.bytes->Some_0.len()) by {
            assert(step(i) is Ok);
        }
        assert forall|i: int, j: int|
            0 <= i < j < count && (#[trigger] events[i]).event_id == (
            #[trigger] events[j]).event_id implies same_content(events[i], events[j]) by {
            law_accepted_batch_is_consistent(events, verdicts, i, j);
        }
        assert forall|i: int, j: int|
            0 <= i < j < count && (#[trigger] events[i]).item_id == (#[trigger] events[j]).item_id
                && events[i].item_seq == events[j].item_seq implies events[i].event_id
            == events[j].event_id by {
            law_accepted_batch_is_consistent(events, verdicts, i, j);
        }
    } else {
        let at = crate::collect::lemma_first_failure(step, count);
        assert(verdicts[at] == verdicts[at]);
        lemma_last_before_holds(at, with_id_of(events, at));
        lemma_last_before_holds(at, with_sequence_of(events, at));
        if reused_id(events, at) is Some {
            let previous = last_before(at, with_id_of(events, at))->Some_0;
            assert(events[previous].event_id == events[at].event_id);
        } else if reused_sequence(events, at) is Some {
            let previous = last_before(at, with_sequence_of(events, at))->Some_0;
            assert(events[previous].item_id == events[at].item_id);
        } else {
            assert(events[at] == events[at]);
        }
    }
}

proof fn lemma_completions(events: Seq<EventView>, count: nat)
    requires
        count <= events.len(),
    ensures
        completions(events, count) == 0 <==> forall|i: int|
            0 <= i < count ==> (#[trigger] events[i]).event_type != "STEP_COMPLETED"@,
        completions(events, count) > 1 <==> exists|i: int, j: int|
            0 <= i < j < count && (#[trigger] events[i]).event_type == "STEP_COMPLETED"@ && (
            #[trigger] events[j]).event_type == "STEP_COMPLETED"@,
    decreases count,
{
    if count > 0 {
        let prior = (count - 1) as nat;
        lemma_completions(events, prior);
        if is_completion(events[count - 1]) {
            if completions(events, prior) > 0 {
                let i = choose|i: int|
                    0 <= i < prior && (#[trigger] events[i]).event_type == "STEP_COMPLETED"@;
                assert(events[i].event_type == "STEP_COMPLETED"@);
                assert(events[count - 1].event_type == "STEP_COMPLETED"@);
            }
        } else if completions(events, count) > 1 {
            let (i, j) = choose|i: int, j: int|
                0 <= i < j < prior && (#[trigger] events[i]).event_type == "STEP_COMPLETED"@ && (
                #[trigger] events[j]).event_type == "STEP_COMPLETED"@;
            assert(events[i].event_type == "STEP_COMPLETED"@ && events[j].event_type
                == "STEP_COMPLETED"@);
        }
    }
}

/// When a checkpoint is taken: exactly where it has events, all of them belong to
/// one attempt at one checkpoint of one item and set or append fields or complete
/// a step, one of them and no more completes a step, the field events name that
/// step, and the batch as such may be written.
pub proof fn law_when_a_checkpoint_is_taken(
    events: Seq<EventView>,
    verdicts: Seq<Option<Seq<char>>>,
)
    requires
        verdicts.len() == events.len(),
    ensures
        checkpoint_failure(events, verdicts) is None <==> {
            &&& events.len() > 0
            &&& forall|i: int|
                0 <= i < events.len() ==> {
                    &&& (#[trigger] events[i]).item_id == events[0].item_id
                    &&& events[i].checkpoint_id == events[0].checkpoint_id
                    &&& events[i].run_id == events[0].run_id
                    &&& events[i].writer_epoch == events[0].writer_epoch
                    &&& events[i].attempt == events[0].attempt
                    &&& events[i].event_type == "FIELD_SET"@ || events[i].event_type
                        == "FIELD_APPEND"@ || events[i].event_type == "STEP_COMPLETED"@
                }
            &&& exists|c: int|
                0 <= c < events.len() && (#[trigger] events[c]).event_type == "STEP_COMPLETED"@
            &&& forall|i: int, j: int|
                0 <= i < j < events.len() && (#[trigger] events[i]).event_type == "STEP_COMPLETED"@
                    ==> (#[trigger] events[j]).event_type != "STEP_COMPLETED"@
            &&& forall|i: int, c: int|
                0 <= i < events.len() && 0 <= c < events.len() && (#[trigger] events[i]).event_type
                    != "STEP_COMPLETED"@ && (#[trigger] events[c]).event_type == "STEP_COMPLETED"@
                    ==> {
                    &&& events[i].step_name == events[c].step_name
                    &&& events[i].step_index == events[c].step_index
                    &&& events[i].step_kind == events[c].step_kind
                    &&& events[i].enclosing_step == events[c].enclosing_step
                    &&& events[i].selector_step == events[c].selector_step
                }
            &&& write_failure(events, verdicts) is None
        },
{
    reveal_strlit("STEP_COMPLETED");
    reveal_strlit("FIELD_SET");
    reveal_strlit("FIELD_APPEND");
    assert("STEP_COMPLETED"@.len() == 14 && "FIELD_SET"@.len() == 9 && "FIELD_APPEND"@.len() == 12);
    let step = member_check(events);
    let count = events.len();
    lemma_completions(events, count);
    if count > 0 {
        if collected(step, count) is Ok {
            lemma_success_holds_values(step, count);
            assert forall|i: int| 0 <= i < count implies {
                &&& same_attempt(#[trigger] events[i], events[0])
                &&& is_field_event(events[i]) || is_completion(events[i])
            } by {
                assert(step(i) is Ok);
            }
            if completions(events, count) == 1 && steps_agree(events) {
                assert forall|i: int, c: int|
                    0 <= i < count && 0 <= c < count && (#[trigger] events[i]).event_type
                        != "STEP_COMPLETED"@ && (#[trigger] events[c]).event_type
                        == "STEP_COMPLETED"@ implies same_step(events[i], events[c]) by {
                    assert(is_field_event(events[i]) && is_completion(events[c]));
                }
            }
        } else {
            let at = crate::collect::lemma_first_failure(step, count);
            assert(events[at] == events[at]);
        }
    }
}

/// Why a batch of events is refused: for its first event that cannot be taken. That
/// one is refused for what the vocabulary says of it first, then for an id that
/// came with other content, then for a number that another event of the item has,
/// and then for a blob without its bytes or of another size.
pub proof fn law_events_are_refused_for_the_first_fault(
    events: Seq<EventView>,
    verdicts: Seq<Option<Seq<char>>>,
    at: int,
)
    requires
        verdicts.len() == events.len(),
        0 <= at < events.len(),
        forall|i: int| 0 <= i < at ==> (#[trigger] verdicts[i]) is None,
        forall|i: int, j: int|
            0 <= i < j < at && (#[trigger] events[i]).event_id == (#[trigger] events[j]).event_id
                ==> same_content(events[i], events[j]),
        forall|i: int, j: int|
            0 <= i < j < at && (#[trigger] events[i]).item_id == (#[trigger] events[j]).item_id
                && events[i].item_seq == events[j].item_seq ==> events[i].event_id
                == events[j].event_id,
        forall|i: int|
            0 <= i < at ==> ((#[trigger] events[i]).value matches Some(ValueView::Blob(blob))
                ==> blob.bytes is Some && blob.size == blob.bytes->Some_0.len()),
    ensures
        ({
            let event = events[at];
            let failure = write_failure(events, verdicts);
            let clash = exists|j: int|
                0 <= j < at && (#[trigger] events[j]).event_id == event.event_id && !same_content(
                    events[j],
                    event,
                );
            let taken = exists|j: int|
                0 <= j < at && (#[trigger] events[j]).item_id == event.item_id
                    && events[j].item_seq == event.item_seq && events[j].event_id != event.event_id;
            &&& verdicts[at] matches Some(message) ==> failure == Some(invalid_argument(message))
            &&& verdicts[at] is None && clash ==> failure == Some(
                invalid_argument(
                    "event_id '"@ + event.event_id + "' was reused with different content"@,
                ),
            )
            &&& verdicts[at] is None && !clash && taken ==> failure == Some(
                invalid_argument(
                    "item '"@ + event.item_id + "' has duplicate item_seq "@ + decimal(
                        event.item_seq as int,
                    ) + " in one batch"@,
                ),
            )
            &&& verdicts[at] is None && !clash && !taken ==> (event.value matches Some(
                ValueView::Blob(blob),
            ) ==> match blob.bytes {
                None => failure == Some(
                    invalid_argument(
                        "blob event '"@ + event.event_id + "' has no bytes on the write path"@,
                    ),
                ),
                Some(bytes) => blob.size != bytes.len() ==> failure == Some(
                    invalid_argument(
                        "blob event '"@ + event.event_id + "' declares "@ + decimal(
                            blob.size as int,
                        ) + " bytes but contains "@ + decimal(bytes.len() as int),
                    ),
                ),
            })
        }),
{
    let step = write_check(events, verdicts);
    let none = Seq::new(at as nat, |k: int| ());
    assert forall|i: int| 0 <= i < at implies #[trigger] step(i) == Ok::<(), Failure>(none[i]) by {
        lemma_last_before_holds(i, with_id_of(events, i));
        lemma_last_before_holds(i, with_sequence_of(events, i));
        assert(verdicts[i] is None);
        assert(events[i] == events[i]);
        if last_before(i, with_id_of(events, i)) is Some {
            let previous = last_before(i, with_id_of(events, i))->Some_0;
            assert(same_content(events[previous], events[i]));
        }
        if last_before(i, with_sequence_of(events, i)) is Some {
            let previous = last_before(i, with_sequence_of(events, i))->Some_0;
            assert(events[previous].event_id == events[i].event_id);
        }
    }
    crate::collect::lemma_all_succeed(step, at as nat, none);
    if step(at) is Err {
        assert(collected(step, (at + 1) as nat) is Err);
        lemma_failure_stays(step, (at + 1) as nat, events.len());
    }
    let event = events[at];
    lemma_last_before_holds(at, with_id_of(events, at));
    lemma_last_before_holds(at, with_sequence_of(events, at));
    if exists|j: int|
        0 <= j < at && (#[trigger] events[j]).event_id == event.event_id && !same_content(
            events[j],
            event,
        ) {
        let j = choose|j: int|
            0 <= j < at && (#[trigger] events[j]).event_id == event.event_id && !same_content(
                events[j],
                event,
            );
        lemma_last_before(at, with_id_of(events, at), j);
        let previous = last_before(at, with_id_of(events, at))->Some_0;
        if previous != j && same_content(events[previous], event) {
            assert(same_content(events[j], events[previous]));
            lemma_content_is_transitive(events[j], events[previous], event);
        }
    } else if last_before(at, with_id_of(events, at)) is Some {
        let previous = last_before(at, with_id_of(events, at))->Some_0;
        assert(same_content(events[previous], event));
    }
    if exists|j: int|
        0 <= j < at && (#[trigger] events[j]).item_id == event.item_id && events[j].item_seq
            == event.item_seq && events[j].event_id != event.event_id {
        let j = choose|j: int|
            0 <= j < at && (#[trigger] events[j]).item_id == event.item_id && events[j].item_seq
                == event.item_seq && events[j].event_id != event.event_id;
        lemma_last_before(at, with_sequence_of(events, at), j);
        let previous = last_before(at, with_sequence_of(events, at))->Some_0;
        if previous != j {
            assert(events[j].event_id == events[previous].event_id);
        }
    } else if last_before(at, with_sequence_of(events, at)) is Some {
        let previous = last_before(at, with_sequence_of(events, at))->Some_0;
        assert(events[previous].event_id == event.event_id);
    }
}

/// The models of messages stand in their order, one for each.
pub proof fn law_messages_stand_in_order(verdicts: Seq<Option<String>>, at: int)
    requires
        0 <= at < verdicts.len(),
    ensures
        messages(verdicts).len() == verdicts.len(),
        messages(verdicts)[at] is Some <==> verdicts[at] is Some,
        verdicts[at] is Some ==> messages(verdicts)[at]->Some_0 == verdicts[at]->Some_0@,
{
}

} // verus!
