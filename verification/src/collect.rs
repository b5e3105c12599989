//! Collecting results in order, up to the first failure.

use vstd::prelude::*;

verus! {

/// The values of the first `count` steps, or the first failure among them.
pub open spec fn collected<T, E>(step: spec_fn(int) -> Result<T, E>, count: nat) -> Result<Seq<T>, E>
    decreases count,
{
    if count == 0 {
        Ok(Seq::empty())
    } else {
        match collected(step, (count - 1) as nat) {
            Err(error) => Err(error),
            Ok(done) => match step(count - 1) {
                Err(error) => Err(error),
                Ok(value) => Ok(done.push(value)),
            },
        }
    }
}

/// The first failure stays the outcome however many steps follow it.
pub proof fn lemma_failure_stays<T, E>(step: spec_fn(int) -> Result<T, E>, count: nat, more: nat)
    requires
        count <= more,
        collected(step, count) is Err,
    ensures
        collected(step, more) == collected(step, count),
    decreases more,
{
    if count < more {
        lemma_failure_stays(step, count, (more - 1) as nat);
    }
}

/// A success holds the value of every step.
pub proof fn lemma_success_holds_values<T, E>(step: spec_fn(int) -> Result<T, E>, count: nat)
    requires
        collected(step, count) is Ok,
    ensures
        collected(step, count)->Ok_0.len() == count,
        forall|i: int|
            0 <= i < count ==> #[trigger] step(i) == Ok::<T, E>(collected(step, count)->Ok_0[i]),
    decreases count,
{
    if count > 0 {
        lemma_success_holds_values(step, (count - 1) as nat);
    }
}

/// Steps that all succeed collect into their values.
pub proof fn lemma_all_succeed<T, E>(
    step: spec_fn(int) -> Result<T, E>,
    count: nat,
    values: Seq<T>,
)
    requires
        values.len() == count,
        forall|i: int| 0 <= i < count ==> #[trigger] step(i) == Ok::<T, E>(values[i]),
    ensures
        collected(step, count) == Ok::<Seq<T>, E>(values),
    decreases count,
{
    if count > 0 {
        lemma_all_succeed(step, (count - 1) as nat, values.drop_last());
        assert(step(count - 1) == Ok::<T, E>(values[count - 1]));
        assert(values.drop_last().push(values[count - 1]) =~= values);
    } else {
        assert(values =~= Seq::<T>::empty());
    }
}

/// A failure is that of a step before which every step succeeded.
pub proof fn lemma_first_failure<T, E>(step: spec_fn(int) -> Result<T, E>, count: nat) -> (at: int)
    requires
        collected(step, count) is Err,
    ensures
        0 <= at < count,
        step(at) is Err,
        step(at)->Err_0 == collected(step, count)->Err_0,
        forall|i: int| 0 <= i < at ==> #[trigger] step(i) is Ok,
    decreases count,
{
    if collected(step, (count - 1) as nat) is Err {
        lemma_first_failure(step, (count - 1) as nat)
    } else {
        lemma_success_holds_values(step, (count - 1) as nat);
        count - 1
    }
}

} // verus!
