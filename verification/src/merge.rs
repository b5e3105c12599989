//! Gathering flushed generations for a merge into the base table.

use vstd::prelude::*;

use crate::batch::{align_batch_to_schema, aligned, AlignError, AlignFailure, Batch, BatchView};
use crate::collect::{collected, lemma_failure_stays};
use crate::schema::{Schema, SchemaView};
use crate::shard::{contains_number, Generation};
use crate::text::texts;

verus! {

/// The models of batches.
pub open spec fn batch_views(batches: Seq<Batch>) -> Seq<BatchView> {
    Seq::new(batches.len(), |i: int| batches[i]@)
}

/// The batches that hold a row.
pub open spec fn filled(batches: Seq<BatchView>) -> Seq<BatchView> {
    batches.filter(|batch: BatchView| batch.rows > 0)
}

/// One batch brought to the table's schema.
pub open spec fn align_step(batches: Seq<BatchView>, target: SchemaView) -> spec_fn(int) -> Result<
    BatchView,
    AlignFailure,
> {
    |i: int| aligned(batches[i], target)
}

/// The filled batches brought to the table's schema, or the first failure.
pub open spec fn aligned_batches(batches: Seq<BatchView>, target: SchemaView) -> Result<
    Seq<BatchView>,
    AlignFailure,
> {
    collected(align_step(filled(batches), target), filled(batches).len())
}

/// Rows read out of flushed generations, ready to be appended to the base
/// table and drained from the shard's manifest.
#[derive(Debug, Clone, PartialEq)]
pub struct PreparedMerge {
    pub merged_generations: Vec<u64>,
    pub merged_paths: Vec<String>,
    pub batches: Vec<Batch>,
    pub merge_schema: Schema,
}

impl PreparedMerge {
    /// No generation is noted twice.
    pub open spec fn well_formed(self) -> bool {
        self.merged_generations@.no_duplicates()
    }

    /// Nothing gathered yet, for a table of this schema.
    pub fn new(merge_schema: Schema) -> (prepared: PreparedMerge)
        ensures
            prepared.well_formed(),
            prepared.merged_generations@.len() == 0,
            prepared.merged_paths@.len() == 0,
            prepared.batches@.len() == 0,
            prepared.merge_schema == merge_schema,
    {
        PreparedMerge {
            merged_generations: Vec::new(),
            merged_paths: Vec::new(),
            batches: Vec::new(),
            merge_schema,
        }
    }

    /// How many generations the merge will take out.
    pub fn generation_count(&self) -> (count: usize)
        requires
            self.well_formed(),
        ensures
            count == self.merged_generations@.to_set().len(),
    {
        proof {
            self.merged_generations@.unique_seq_to_set();
        }
        self.merged_generations.len()
    }

    /// Adds a generation with the batches it holds, brought to the table's
    /// schema. Batches without rows are left out. The first batch that does
    /// not fit is the error, and nothing is added.
    pub fn add_generation(&mut self, generation: &Generation, read: &Vec<Batch>) -> (result: Result<
        (),
        AlignError,
    >)
        requires
            old(self).well_formed(),
            forall|i: int| 0 <= i < read@.len() ==> (#[trigger] read@[i])@.well_formed(),
        ensures
            final(self).well_formed(),
            final(self).merge_schema == old(self).merge_schema,
            match aligned_batches(batch_views(read@), old(self).merge_schema@) {
                Err(failure) => {
                    &&& result is Err
                    &&& result->Err_0@ == failure
                    &&& *final(self) == *old(self)
                },
                Ok(added) => {
                    &&& result is Ok
                    &&& final(self).merged_generations@.to_set() == old(self).merged_generations@.to_set().insert(
                        generation.generation,
                    )
                    &&& texts(final(self).merged_paths@) == texts(old(self).merged_paths@).push(
                        generation.path@,
                    )
                    &&& batch_views(final(self).batches@) == batch_views(old(self).batches@) + added
                },
            },
    {
        let mut fitted = match fit_batches(read, &self.merge_schema) {
            Err(error) => {
                return Err(error);
            },
            Ok(fitted) => fitted,
        };
        let ghost start = *self;
        let ghost added = batch_views(fitted@);
        if !contains_number(&self.merged_generations, generation.generation) {
            self.merged_generations.push(generation.generation);
            assert(self.merged_generations@.to_set()
                =~= start.merged_generations@.to_set().insert(generation.generation)) by {
                let numbers = start.merged_generations@;
                let more = self.merged_generations@;
                assert forall|n: u64| more.contains(n) == (numbers.contains(n) || n
                    == generation.generation) by {
                    if numbers.contains(n) {
                        let at = choose|at: int| 0 <= at < numbers.len() && numbers[at] == n;
                        assert(more[at] == n);
                    }
                    assert(more[numbers.len() as int] == generation.generation);
                }
            }
        } else {
            assert(self.merged_generations@.to_set()
                =~= start.merged_generations@.to_set().insert(generation.generation));
        }
        self.merged_paths.push(generation.path.clone());
        self.batches.append(&mut fitted);
        proof {
            assert(texts(self.merged_paths@) =~= texts(start.merged_paths@).push(generation.path@));
            assert(batch_views(self.batches@) =~= batch_views(start.batches@) + added);
        }
        Ok(())
    }
}

fn fit_batches(read: &Vec<Batch>, target: &Schema) -> (result: Result<Vec<Batch>, AlignError>)
    requires
        forall|i: int| 0 <= i < read@.len() ==> (#[trigger] read@[i])@.well_formed(),
    ensures
        match aligned_batches(batch_views(read@), target@) {
            Err(failure) => result is Err && result->Err_0@ == failure,
            Ok(added) => result is Ok && batch_views(result->Ok_0@) == added,
        },
{
    let ghost views = batch_views(read@);
    let ghost keep = |batch: BatchView| batch.rows > 0;
    let ghost all = filled(views);
    let ghost step = align_step(all, target@);
    let mut fitted: Vec<Batch> = Vec::new();
    let mut index: usize = 0;
    proof {
        assert(views.take(0).filter(keep) =~= Seq::<BatchView>::empty()) by {
            reveal(Seq::filter);
        }
        assert(batch_views(fitted@) =~= Seq::<BatchView>::empty());
    }
    while index < read.len()
        invariant
            index <= read.len(),
            views == batch_views(read@),
            keep == (|batch: BatchView| batch.rows > 0),
            all == filled(views),
            step == align_step(all, target@),
            forall|i: int| 0 <= i < read@.len() ==> (#[trigger] read@[i])@.well_formed(),
            collected(step, views.take(index as int).filter(keep).len()) == Ok::<
                Seq<BatchView>,
                AlignFailure,
            >(batch_views(fitted@)),
        decreases read.len() - index,
    {
        let ghost done = views.take(index as int).filter(keep);
        let batch = &read[index];
        proof {
            assert(views.take(index + 1) =~= views.take(index as int).push(batch@));
            views.take(index as int).lemma_filter_push(batch@, keep);
            lemma_filter_prefix(views, keep, index + 1);
        }
        if batch.rows > 0 {
            proof {
                let longer = views.take(index + 1).filter(keep);
                assert(longer == done.push(batch@));
                assert(longer[done.len() as int] == batch@);
                assert(all.take(longer.len() as int)[done.len() as int] == all[done.len() as int]);
            }
            match align_batch_to_schema(batch, target) {
                Err(error) => {
                    proof {
                        lemma_failure_stays(step, done.len() + 1, all.len());
                    }
                    return Err(error);
                },
                Ok(one) => {
                    let ghost before = fitted@;
                    fitted.push(one);
                    assert(batch_views(fitted@) =~= batch_views(before).push(one@));
                },
            }
        }
        index = index + 1;
    }
    assert(views.take(views.len() as int) =~= views);
    Ok(fitted)
}

proof fn lemma_filter_prefix(views: Seq<BatchView>, keep: spec_fn(BatchView) -> bool, count: int)
    requires
        0 <= count <= views.len(),
    ensures
        views.take(count).filter(keep).len() <= views.filter(keep).len(),
        views.take(count).filter(keep) == views.filter(keep).take(
            views.take(count).filter(keep).len() as int,
        ),
    decreases views.len() - count,
{
    if count == views.len() {
        assert(views.take(count) =~= views);
        assert(views.filter(keep).take(views.filter(keep).len() as int) =~= views.filter(keep));
    } else {
        lemma_filter_prefix(views, keep, count + 1);
        assert(views.take(count + 1) =~= views.take(count).push(views[count]));
        views.take(count).lemma_filter_push(views[count], keep);
        let shorter = views.take(count).filter(keep);
        let longer = views.take(count + 1).filter(keep);
        assert(shorter =~= longer.take(shorter.len() as int));
        assert(shorter =~= views.filter(keep).take(shorter.len() as int));
    }
}

/// Batches without rows are left out of a merge, and the others keep their order.
pub proof fn law_only_filled_batches_are_merged(batches: Seq<BatchView>, next: BatchView)
    ensures
        filled(Seq::empty()) == Seq::<BatchView>::empty(),
        filled(batches.push(next)) == if next.rows > 0 {
            filled(batches).push(next)
        } else {
            filled(batches)
        },
{
    reveal(Seq::filter);
    batches.lemma_filter_push(next, |batch: BatchView| batch.rows > 0);
}

/// The models stand in the order of what they are of, one for each.
pub proof fn law_batch_views_stand_in_order(batches: Seq<Batch>, at: int)
    requires
        0 <= at < batches.len(),
    ensures
        batch_views(batches).len() == batches.len(),
        batch_views(batches)[at] == batches[at]@,
{
}

/// A merge takes a generation's filled batches, each brought to the table's
/// columns, in their order; it fails exactly where one of them cannot be.
pub proof fn law_each_filled_batch_is_aligned(batches: Seq<BatchView>, target: SchemaView, at: int)
    requires
        0 <= at < filled(batches).len(),
    ensures
        aligned_batches(batches, target) is Ok ==> {
            &&& aligned_batches(batches, target)->Ok_0.len() == filled(batches).len()
            &&& aligned(filled(batches)[at], target) == Ok::<BatchView, AlignFailure>(
                aligned_batches(batches, target)->Ok_0[at],
            )
        },
        aligned(filled(batches)[at], target) is Err ==> aligned_batches(batches, target) is Err,
{
    let step = align_step(filled(batches), target);
    if aligned_batches(batches, target) is Ok {
        crate::collect::lemma_success_holds_values(step, filled(batches).len());
        assert(step(at) is Ok);
    }
}

} // verus!
