//! Ranking records by distance, by words, and by both.
//!
//! Distances and scores are bit patterns of 32-bit floats, ordered as the
//! total order of floats orders them.

use std::cmp::Ordering;

use vstd::prelude::*;

use crate::context_schema::{query_failure, validate_query_dimension};
use crate::error::{invalid_argument, Failure, StoreError};
use crate::order::{
    arrange, arranged, comes_before, covers, lemma_arranged_keeps_items,
    lemma_rank_order_has_no_duplicates, lemma_sorted_lists_are_equal, lemma_text_le_antisymmetric,
    lemma_text_le_total, lemma_text_le_transitive, rank_order, text_at_most, text_le, Ranking,
};
use crate::projection::ReadProjection;
use crate::record::{record_views, ContextRecord, RecordView};
use crate::text::{contains_text, same_text, texts};

verus! {

/// How many results a search gives where no number is asked for.
pub const DEFAULT_SEARCH_LIMIT: usize = 10;

/// Where a float stands in the total order of floats.
pub open spec fn total_key(bits: u32) -> int {
    if bits < 0x8000_0000 {
        bits as int
    } else {
        0x7FFF_FFFF - bits as int
    }
}

/// Where a float stands in the total order of floats.
pub fn float_key(bits: u32) -> (key: i64)
    ensures
        key == total_key(bits),
{
    if bits < 0x8000_0000 {
        bits as i64
    } else {
        0x7FFF_FFFF - bits as i64
    }
}

/// How many results are wanted, or none where the answer is empty.
pub open spec fn wanted_results(limit: Option<usize>) -> usize {
    match limit {
        Some(count) => count,
        None => DEFAULT_SEARCH_LIMIT,
    }
}

/// Checks a search and tells how many results are wanted; none means that the
/// answer is empty without a scan.
pub fn plan_search(query_length: usize, embedding_dim: i32, limit: Option<usize>) -> (result: Result<
    Option<usize>,
    StoreError,
>)
    requires
        embedding_dim > 0,
    ensures
        match query_failure(query_length as int, embedding_dim) {
            Some(failure) => result is Err && result->Err_0@ == failure,
            None => {
                &&& result is Ok
                &&& result->Ok_0 == if wanted_results(limit) == 0 {
                    None
                } else {
                    Some(wanted_results(limit))
                }
            },
        },
{
    match validate_query_dimension(query_length, embedding_dim) {
        Err(error) => {
            return Err(error);
        },
        Ok(_) => {},
    }
    let wanted = match limit {
        Some(count) => count,
        None => DEFAULT_SEARCH_LIMIT,
    };
    if wanted == 0 {
        Ok(None)
    } else {
        Ok(Some(wanted))
    }
}

/// What a search reads: what the caller wants, and the embeddings, which it
/// needs.
pub fn search_projection(projection: ReadProjection) -> (result: ReadProjection)
    ensures
        result == (ReadProjection { embedding: true, ..projection }),
{
    ReadProjection { text: projection.text, binary: projection.binary, embedding: true }
}

/// A record that a search found.
#[derive(Debug, Clone, PartialEq)]
pub struct SearchResult {
    pub record: ContextRecord,
    pub distance: u32,
}

/// The model of a [`SearchResult`].
#[verifier::ext_equal]
pub struct SearchView {
    pub record: RecordView,
    pub distance: u32,
}

impl View for SearchResult {
    type V = SearchView;

    open spec fn view(&self) -> SearchView {
        SearchView { record: self.record@, distance: self.distance }
    }
}

/// The models of search results.
pub open spec fn search_views(results: Seq<SearchResult>) -> Seq<SearchView> {
    Seq::new(results.len(), |i: int| results[i]@)
}

/// A record as a search gives it back.
pub open spec fn found_record(record: RecordView, keeps_embedding: bool) -> RecordView {
    if keeps_embedding {
        record
    } else {
        RecordView { embedding: None, ..record }
    }
}

/// The first `count` records that have a distance, with it.
pub open spec fn with_distances(
    records: Seq<RecordView>,
    distances: Seq<Option<u32>>,
    keeps_embedding: bool,
    count: nat,
) -> Seq<SearchView>
    decreases count,
{
    if count == 0 {
        Seq::empty()
    } else {
        let earlier = with_distances(records, distances, keeps_embedding, (count - 1) as nat);
        match distances[count - 1] {
            Some(distance) => earlier.push(
                SearchView {
                    record: found_record(records[count - 1], keeps_embedding),
                    distance,
                },
            ),
            None => earlier,
        }
    }
}

/// Search results ranked by distance.
pub struct DistanceRanking<'a> {
    pub results: &'a Vec<SearchResult>,
}

impl<'a> Ranking for DistanceRanking<'a> {
    open spec fn size(&self) -> nat {
        self.results@.len()
    }

    open spec fn ranks(&self, left: int, right: int) -> bool {
        total_key(self.results@[left].distance) <= total_key(self.results@[right].distance)
    }

    proof fn lemma_total(&self, left: int, right: int) {
    }

    proof fn lemma_transitive(&self, first: int, second: int, third: int) {
    }

    fn at_most(&self, left: usize, right: usize) -> (result: bool) {
        float_key(self.results[left].distance) <= float_key(self.results[right].distance)
    }
}

/// `order` lists the places of search results by distance; those at the same
/// distance keep their order.
pub open spec fn by_distance(results: Seq<SearchView>, order: Seq<usize>) -> bool {
    &&& covers(order, 0, results.len() as int)
    &&& forall|i: int, j: int|
        0 <= i < j < order.len() ==> {
            let near = total_key(results[#[trigger] order[i] as int].distance);
            let far = total_key(results[#[trigger] order[j] as int].distance);
            near <= far && (near == far ==> order[i] < order[j])
        }
}

/// The first items of a list.
pub open spec fn at_most<T>(items: Seq<T>, count: usize) -> Seq<T> {
    if items.len() > count {
        items.take(count as int)
    } else {
        items
    }
}

/// `ranked` holds the nearest results, as many as are wanted.
pub open spec fn nearest_first(found: Seq<SearchView>, wanted: usize, ranked: Seq<SearchView>) -> bool {
    exists|order: Seq<usize>|
        {
            &&& #[trigger] by_distance(found, order)
            &&& ranked == at_most(arranged(found, order), wanted)
        }
}

/// Ranks the records of a search by their distances to the query; records
/// without a distance have no embedding and are left out.
pub fn rank_search(
    records: Vec<ContextRecord>,
    distances: &Vec<Option<u32>>,
    keeps_embedding: bool,
    wanted: usize,
) -> (result: Vec<SearchResult>)
    requires
        distances@.len() == records@.len(),
    ensures
        nearest_first(
            with_distances(
                record_views(records@),
                distances@,
                keeps_embedding,
                records@.len(),
            ),
            wanted,
            search_views(result@),
        ),
{
    let ghost views = record_views(records@);
    let ghost total = records@.len();
    let mut results: Vec<SearchResult> = Vec::new();
    assert(search_views(results@) =~= Seq::<SearchView>::empty());
    let mut index: usize = 0;
    for record in it: records
        invariant
            it.seq() == records@,
            views == record_views(records@),
            total == records@.len(),
            distances@.len() == total,
            index == it.index(),
            index <= total,
            search_views(results@) == with_distances(
                views,
                distances@,
                keeps_embedding,
                index as nat,
            ),
    {
        let ghost source = record@;
        assert(views[index as int] == source);
        assert(index < distances.len());
        let mut record = record;
        match distances[index] {
            Some(distance) => {
                if !keeps_embedding {
                    record.embedding = None;
                }
                let ghost before = results@;
                let next = SearchResult { record, distance };
                assert(next@.record =~= found_record(source, keeps_embedding));
                results.push(next);
                assert(search_views(results@) =~= search_views(before).push(next@));
            },
            None => {},
        }
        index = index + 1;
    }
    let ghost found = search_views(results@);
    let ranking = DistanceRanking { results: &results };
    let order = rank_order(&ranking, results.len());
    proof {
        lemma_rank_order_has_no_duplicates(&ranking, order@);
        assert forall|i: int, j: int| 0 <= i < j < order@.len() implies {
            let near = total_key(found[#[trigger] order@[i] as int].distance);
            let far = total_key(found[#[trigger] order@[j] as int].distance);
            near <= far && (near == far ==> order@[i] < order@[j])
        } by {
            assert(comes_before(&ranking, order@[i] as int, order@[j] as int));
        }
        assert(by_distance(found, order@));
        assert(search_views(arranged(results@, order@)) =~= arranged(found, order@));
    }
    let mut ranked = arrange(results, &order);
    let ghost whole = ranked@;
    if ranked.len() > wanted {
        ranked.truncate(wanted);
        assert(search_views(ranked@) =~= arranged(found, order@).take(wanted as int));
    }
    ranked
}

/// What a retrieval asks for, once it was checked.
#[derive(Debug, Clone, Copy, PartialEq, Eq, Structural)]
pub struct RetrievePlan {
    pub has_text: bool,
    pub wanted: usize,
}

/// Why a retrieval is refused.
pub open spec fn retrieve_failure(
    terms: nat,
    query_length: Option<usize>,
    embedding_dim: i32,
) -> Option<Failure> {
    if terms == 0 && query_length is None {
        Some(invalid_argument("retrieve requires text or vector"@))
    } else {
        match query_length {
            Some(length) => query_failure(length as int, embedding_dim),
            None => None,
        }
    }
}

/// Checks a retrieval; no plan means that the answer is empty without a scan.
pub fn plan_retrieve(
    terms: &Vec<String>,
    query_length: Option<usize>,
    embedding_dim: i32,
    limit: Option<usize>,
) -> (result: Result<Option<RetrievePlan>, StoreError>)
    requires
        embedding_dim > 0,
    ensures
        match retrieve_failure(terms@.len(), query_length, embedding_dim) {
            Some(failure) => result is Err && result->Err_0@ == failure,
            None => {
                &&& result is Ok
                &&& result->Ok_0 == if wanted_results(limit) == 0 {
                    None
                } else {
                    Some(
                        RetrievePlan {
                            has_text: terms@.len() > 0,
                            wanted: wanted_results(limit),
                        },
                    )
                }
            },
        },
{
    let has_text = terms.len() > 0;
    match query_length {
        None => {
            if !has_text {
                return Err(
                    StoreError::invalid_argument("retrieve requires text or vector".to_owned()),
                );
            }
        },
        Some(length) => match validate_query_dimension(length, embedding_dim) {
            Err(error) => {
                return Err(error);
            },
            Ok(_) => {},
        },
    }
    let wanted = match limit {
        Some(count) => count,
        None => DEFAULT_SEARCH_LIMIT,
    };
    if wanted == 0 {
        Ok(None)
    } else {
        Ok(Some(RetrievePlan { has_text, wanted }))
    }
}

/// What a retrieval reads: the store's default, and the text where words are
/// compared.
pub fn retrieve_projection(default: ReadProjection, has_text: bool) -> (result: ReadProjection)
    ensures
        result == (ReadProjection { text: default.text || has_text, ..default }),
{
    ReadProjection {
        text: default.text || has_text,
        binary: default.binary,
        embedding: default.embedding,
    }
}

/// A record that one channel found, with its distance or score.
#[derive(Debug, Clone, Copy, PartialEq, Eq, Structural)]
pub struct Hit {
    pub record: usize,
    pub value: u32,
}

/// The places among the first `count` that have a value, with it.
pub open spec fn hits_of(values: Seq<Option<u32>>, count: nat) -> Seq<Hit>
    decreases count,
{
    if count == 0 {
        Seq::empty()
    } else {
        let earlier = hits_of(values, (count - 1) as nat);
        match values[count - 1] {
            Some(value) => earlier.push(Hit { record: (count - 1) as usize, value }),
            None => earlier,
        }
    }
}

proof fn lemma_hits_in_range(values: Seq<Option<u32>>, count: nat)
    requires
        count <= values.len() <= usize::MAX,
    ensures
        forall|i: int| 0 <= i < hits_of(values, count).len() ==> (#[trigger] hits_of(values, count)[i]).record
            < count,
    decreases count,
{
    if count > 0 {
        lemma_hits_in_range(values, (count - 1) as nat);
        let earlier = hits_of(values, (count - 1) as nat);
        assert forall|i: int| 0 <= i < hits_of(values, count).len() implies (#[trigger] hits_of(
            values,
            count,
        )[i]).record < count by {
            if i < earlier.len() {
                assert(hits_of(values, count)[i] == earlier[i]);
            }
        }
    }
}

/// Whether one hit of a channel ranks at or before another: by the nearest
/// distance or the highest score, then by the record's id.
pub open spec fn hit_le(records: Seq<RecordView>, left: Hit, right: Hit, highest_first: bool) -> bool {
    let first = total_key(left.value);
    let second = total_key(right.value);
    if first != second {
        (first < second) != highest_first
    } else {
        text_le(records[left.record as int].id, records[right.record as int].id)
    }
}

/// The hits of one channel, to be ranked.
pub struct HitRanking<'a> {
    pub records: &'a Vec<ContextRecord>,
    pub hits: &'a Vec<Hit>,
    pub highest_first: bool,
}

impl<'a> HitRanking<'a> {
    /// Every hit names a record.
    pub open spec fn well_formed(self) -> bool {
        forall|i: int| 0 <= i < self.hits@.len() ==> (#[trigger] self.hits@[i]).record < self.records@.len()
    }
}

impl<'a> Ranking for HitRanking<'a> {
    open spec fn size(&self) -> nat {
        if self.well_formed() {
            self.hits@.len()
        } else {
            0
        }
    }

    open spec fn ranks(&self, left: int, right: int) -> bool {
        hit_le(
            record_views(self.records@),
            self.hits@[left],
            self.hits@[right],
            self.highest_first,
        )
    }

    proof fn lemma_total(&self, left: int, right: int) {
        let records = record_views(self.records@);
        lemma_text_le_total(
            records[self.hits@[left].record as int].id,
            records[self.hits@[right].record as int].id,
        );
    }

    proof fn lemma_transitive(&self, first: int, second: int, third: int) {
        let records = record_views(self.records@);
        let a = self.hits@[first];
        let b = self.hits@[second];
        let c = self.hits@[third];
        if total_key(a.value) == total_key(b.value) && total_key(b.value) == total_key(c.value) {
            lemma_text_le_transitive(
                records[a.record as int].id,
                records[b.record as int].id,
                records[c.record as int].id,
            );
        }
    }

    fn at_most(&self, left: usize, right: usize) -> (result: bool) {
        let a = self.hits[left];
        let b = self.hits[right];
        let first = float_key(a.value);
        let second = float_key(b.value);
        if first != second {
            (first < second) != self.highest_first
        } else {
            text_at_most(
                self.records[a.record].id.as_str(),
                self.records[b.record].id.as_str(),
            )
        }
    }
}

/// `ranked` lists the hits of a channel in its order.
pub open spec fn ranked_hits(
    records: Seq<RecordView>,
    values: Seq<Option<u32>>,
    highest_first: bool,
    ranked: Seq<Hit>,
) -> bool {
    &&& ranked.to_multiset() == hits_of(values, values.len()).to_multiset()
    &&& forall|i: int, j: int|
        0 <= i < j < ranked.len() ==> hit_le(
            records,
            #[trigger] ranked[i],
            #[trigger] ranked[j],
            highest_first,
        )
}

/// Ranks the records that have a value in one channel.
pub fn rank_hits(records: &Vec<ContextRecord>, values: &Vec<Option<u32>>, highest_first: bool) -> (result: Vec<
    Hit,
>)
    requires
        values@.len() == records@.len(),
    ensures
        ranked_hits(record_views(records@), values@, highest_first, result@),
        forall|i: int| 0 <= i < result@.len() ==> (#[trigger] result@[i]).record < records@.len(),
{
    let mut hits: Vec<Hit> = Vec::new();
    let mut index: usize = 0;
    while index < values.len()
        invariant
            index <= values.len(),
            hits@ == hits_of(values@, index as nat),
        decreases values.len() - index,
    {
        match values[index] {
            Some(value) => {
                hits.push(Hit { record: index, value });
            },
            None => {},
        }
        index = index + 1;
    }
    proof {
        lemma_hits_in_range(values@, values@.len());
    }
    let ranking = HitRanking { records, hits: &hits, highest_first };
    let order = rank_order(&ranking, hits.len());
    proof {
        lemma_rank_order_has_no_duplicates(&ranking, order@);
        let sorted = arranged(hits@, order@);
        assert forall|i: int, j: int| 0 <= i < j < sorted.len() implies hit_le(
            record_views(records@),
            #[trigger] sorted[i],
            #[trigger] sorted[j],
            highest_first,
        ) by {
            assert(comes_before(&ranking, order@[i] as int, order@[j] as int));
        }
        assert forall|i: int| 0 <= i < sorted.len() implies (#[trigger] sorted[i]).record
            < records@.len() by {
            assert(hits@[order@[i] as int].record < records@.len());
        }
    }
    arrange(hits, &order)
}

/// A record that at least one channel found.
#[derive(Debug, Clone, PartialEq)]
pub struct RetrieveCandidate {
    /// The place of the record among those that were read.
    pub record: usize,
    /// The ranks, from one, under which channels found it.
    pub ranks: Vec<usize>,
    pub vector_distance: Option<u32>,
    pub text_score: Option<u32>,
    pub matched_channels: Vec<String>,
}

/// The model of a [`RetrieveCandidate`].
#[verifier::ext_equal]
pub struct CandidateView {
    pub record: usize,
    pub ranks: Seq<usize>,
    pub vector_distance: Option<u32>,
    pub text_score: Option<u32>,
    pub matched_channels: Seq<Seq<char>>,
}

impl View for RetrieveCandidate {
    type V = CandidateView;

    open spec fn view(&self) -> CandidateView {
        CandidateView {
            record: self.record,
            ranks: self.ranks@,
            vector_distance: self.vector_distance,
            text_score: self.text_score,
            matched_channels: texts(self.matched_channels@),
        }
    }
}

/// The models of candidates.
pub open spec fn candidate_views(candidates: Seq<RetrieveCandidate>) -> Seq<CandidateView> {
    Seq::new(candidates.len(), |i: int| candidates[i]@)
}

/// A channel of a retrieval.
#[derive(Debug, Clone, Copy, PartialEq, Eq, Structural)]
pub enum Channel {
    Vector,
    Text,
}

/// The name of a channel.
pub open spec fn channel_name(channel: Channel) -> Seq<char> {
    match channel {
        Channel::Vector => "vector"@,
        Channel::Text => "text"@,
    }
}

impl Channel {
    /// The name of the channel.
    pub fn name(self) -> (name: &'static str)
        ensures
            name@ == channel_name(self),
    {
        match self {
            Channel::Vector => "vector",
            Channel::Text => "text",
        }
    }
}

/// A candidate that nothing is known of yet.
pub open spec fn new_candidate(record: usize) -> CandidateView {
    CandidateView {
        record,
        ranks: Seq::empty(),
        vector_distance: None,
        text_score: None,
        matched_channels: Seq::empty(),
    }
}

/// A candidate with one more rank in a channel.
pub open spec fn with_rank(candidate: CandidateView, rank: usize, value: u32, channel: Channel) -> CandidateView {
    CandidateView {
        record: candidate.record,
        ranks: candidate.ranks.push(rank),
        vector_distance: if channel == Channel::Vector {
            Some(value)
        } else {
            candidate.vector_distance
        },
        text_score: if channel == Channel::Text {
            Some(value)
        } else {
            candidate.text_score
        },
        matched_channels: if candidate.matched_channels.contains(channel_name(channel)) {
            candidate.matched_channels
        } else {
            candidate.matched_channels.push(channel_name(channel))
        },
    }
}

/// Where the candidate for an id stands.
pub open spec fn candidate_for(
    records: Seq<RecordView>,
    candidates: Seq<CandidateView>,
    id: Seq<char>,
) -> Option<int>
    decreases candidates.len(),
{
    if candidates.len() == 0 {
        None
    } else if records[candidates.last().record as int].id == id {
        Some(candidates.len() - 1)
    } else {
        candidate_for(records, candidates.drop_last(), id)
    }
}

/// The candidates with one more hit: the candidate of the record's id, or a
/// new one, gets the rank.
pub open spec fn with_hit(
    records: Seq<RecordView>,
    candidates: Seq<CandidateView>,
    hit: Hit,
    rank: usize,
    channel: Channel,
) -> Seq<CandidateView> {
    match candidate_for(records, candidates, records[hit.record as int].id) {
        Some(at) => candidates.update(at, with_rank(candidates[at], rank, hit.value, channel)),
        None => candidates.push(with_rank(new_candidate(hit.record), rank, hit.value, channel)),
    }
}

/// The candidates with the first `count` ranked hits of a channel.
pub open spec fn with_hits(
    records: Seq<RecordView>,
    candidates: Seq<CandidateView>,
    hits: Seq<Hit>,
    channel: Channel,
    count: nat,
) -> Seq<CandidateView>
    decreases count,
{
    if count == 0 {
        candidates
    } else {
        with_hit(
            records,
            with_hits(records, candidates, hits, channel, (count - 1) as nat),
            hits[count - 1],
            count as usize,
            channel,
        )
    }
}

/// Every candidate names a record.
pub open spec fn in_records(records: Seq<RecordView>, candidates: Seq<CandidateView>) -> bool {
    forall|i: int| 0 <= i < candidates.len() ==> (#[trigger] candidates[i]).record < records.len()
}

/// No two candidates stand for the same id.
pub open spec fn one_each(records: Seq<RecordView>, candidates: Seq<CandidateView>) -> bool {
    forall|i: int, j: int|
        0 <= i < j < candidates.len() ==> records[(#[trigger] candidates[i]).record as int].id
            != records[(#[trigger] candidates[j]).record as int].id
}

fn find_candidate(
    records: &Vec<ContextRecord>,
    candidates: &Vec<RetrieveCandidate>,
    id: &str,
) -> (result: Option<usize>)
    requires
        in_records(record_views(records@), candidate_views(candidates@)),
    ensures
        match candidate_for(record_views(records@), candidate_views(candidates@), id@) {
            Some(at) => result is Some && result->Some_0 == at && at < candidates@.len(),
            None => result is None,
        },
{
    let ghost views = candidate_views(candidates@);
    let mut left: usize = candidates.len();
    assert(views.take(views.len() as int) =~= views);
    while left > 0
        invariant
            left <= candidates@.len(),
            views == candidate_views(candidates@),
            in_records(record_views(records@), views),
            candidate_for(record_views(records@), views, id@) == candidate_for(
                record_views(records@),
                views.take(left as int),
                id@,
            ),
        decreases left,
    {
        assert(views.take(left as int).drop_last() =~= views.take(left - 1));
        left = left - 1;
        assert(views[left as int].record < records@.len());
        if same_text(records[candidates[left].record].id.as_str(), id) {
            return Some(left);
        }
    }
    None
}

fn add_rank(candidate: &mut RetrieveCandidate, rank: usize, value: u32, channel: Channel)
    ensures
        final(candidate)@ == with_rank(old(candidate)@, rank, value, channel),
{
    let ghost before = candidate.matched_channels@;
    candidate.ranks.push(rank);
    match channel {
        Channel::Vector => {
            candidate.vector_distance = Some(value);
        },
        Channel::Text => {
            candidate.text_score = Some(value);
        },
    }
    if !contains_text(&candidate.matched_channels, channel.name()) {
        candidate.matched_channels.push(channel.name().to_owned());
        assert(texts(candidate.matched_channels@) =~= texts(before).push(channel_name(channel)));
    }
    assert(candidate@ =~= with_rank(old(candidate)@, rank, value, channel));
}

proof fn lemma_candidate_for(records: Seq<RecordView>, candidates: Seq<CandidateView>, id: Seq<char>)
    ensures
        match candidate_for(records, candidates, id) {
            Some(at) => 0 <= at < candidates.len() && records[candidates[at].record as int].id == id,
            None => forall|i: int|
                0 <= i < candidates.len() ==> records[(#[trigger] candidates[i]).record as int].id
                    != id,
        },
    decreases candidates.len(),
{
    if candidates.len() > 0 && records[candidates.last().record as int].id != id {
        lemma_candidate_for(records, candidates.drop_last(), id);
        if candidate_for(records, candidates, id) is None {
            assert forall|i: int| 0 <= i < candidates.len() implies records[(
            #[trigger] candidates[i]).record as int].id != id by {
                if i < candidates.len() - 1 {
                    assert(candidates.drop_last()[i] == candidates[i]);
                }
            }
        }
    }
}

/// Adds the ranked hits of one channel to the candidates. The first hit of an
/// id makes the candidate; every further one adds its rank.
pub fn add_retrieve_channel(
    records: &Vec<ContextRecord>,
    candidates: &mut Vec<RetrieveCandidate>,
    hits: &Vec<Hit>,
    channel: Channel,
)
    requires
        in_records(record_views(records@), candidate_views(old(candidates)@)),
        forall|i: int| 0 <= i < hits@.len() ==> (#[trigger] hits@[i]).record < records@.len(),
    ensures
        candidate_views(final(candidates)@) == with_hits(
            record_views(records@),
            candidate_views(old(candidates)@),
            hits@,
            channel,
            hits@.len(),
        ),
        in_records(record_views(records@), candidate_views(final(candidates)@)),
{
    let ghost views = record_views(records@);
    let ghost start = candidate_views(candidates@);
    let mut index: usize = 0;
    while index < hits.len()
        invariant
            index <= hits.len(),
            views == record_views(records@),
            views.len() == records@.len(),
            forall|i: int| 0 <= i < hits@.len() ==> (#[trigger] hits@[i]).record < records@.len(),
            in_records(views, candidate_views(candidates@)),
            candidate_views(candidates@) == with_hits(views, start, hits@, channel, index as nat),
        decreases hits.len() - index,
    {
        let hit = hits[index];
        let rank = index + 1;
        let ghost before = candidate_views(candidates@);
        let found = find_candidate(records, candidates, records[hit.record].id.as_str());
        match found {
            Some(at) => {
                let mut candidate = candidates.remove(at);
                add_rank(&mut candidate, rank, hit.value, channel);
                candidates.insert(at, candidate);
                proof {
                    assert(candidate_views(candidates@) =~= before.update(
                        at as int,
                        with_rank(before[at as int], rank, hit.value, channel),
                    ));
                }
            },
            None => {
                let mut candidate = RetrieveCandidate {
                    record: hit.record,
                    ranks: Vec::new(),
                    vector_distance: None,
                    text_score: None,
                    matched_channels: Vec::new(),
                };
                assert(candidate@ =~= new_candidate(hit.record));
                add_rank(&mut candidate, rank, hit.value, channel);
                candidates.push(candidate);
                proof {
                    assert(candidate_views(candidates@) =~= before.push(
                        with_rank(new_candidate(hit.record), rank, hit.value, channel),
                    ));
                }
            },
        }
        index = index + 1;
    }
}

/// `ranked` lists the hits of a channel in its order; a channel that is not
/// asked for has none.
pub open spec fn channel_hits(
    records: Seq<RecordView>,
    values: Option<Seq<Option<u32>>>,
    highest_first: bool,
    ranked: Seq<Hit>,
) -> bool {
    match values {
        Some(values) => ranked_hits(records, values, highest_first, ranked),
        None => ranked.len() == 0,
    }
}

/// The candidates of a retrieval: those of the vector channel, where there is
/// one, with what the text channel adds to them. Distances rank the nearest
/// first, scores the highest first.
pub open spec fn is_retrieval(
    records: Seq<RecordView>,
    distances: Option<Seq<Option<u32>>>,
    scores: Option<Seq<Option<u32>>>,
    candidates: Seq<CandidateView>,
) -> bool {
    exists|near: Seq<Hit>, high: Seq<Hit>|
        {
            &&& #[trigger] channel_hits(records, distances, false, near)
            &&& #[trigger] channel_hits(records, scores, true, high)
            &&& candidates == with_hits(
                records,
                with_hits(records, Seq::empty(), near, Channel::Vector, near.len()),
                high,
                Channel::Text,
                high.len(),
            )
        }
}

/// Finds the candidates of a retrieval. `distances` holds, where a vector was
/// asked for, the distance of each record that has an embedding, and `scores`,
/// where words were asked for, the score of each record that has some of them.
pub fn retrieve_candidates(
    records: &Vec<ContextRecord>,
    distances: &Option<Vec<Option<u32>>>,
    scores: &Option<Vec<Option<u32>>>,
) -> (candidates: Vec<RetrieveCandidate>)
    requires
        distances is Some ==> distances->Some_0@.len() == records@.len(),
        scores is Some ==> scores->Some_0@.len() == records@.len(),
    ensures
        is_retrieval(
            record_views(records@),
            crate::record::opt_seq(*distances),
            crate::record::opt_seq(*scores),
            candidate_views(candidates@),
        ),
        in_records(record_views(records@), candidate_views(candidates@)),
        one_each(record_views(records@), candidate_views(candidates@)),
{
    let ghost views = record_views(records@);
    let mut candidates: Vec<RetrieveCandidate> = Vec::new();
    assert(candidate_views(candidates@) =~= Seq::<CandidateView>::empty());
    let near = match distances {
        Some(values) => rank_hits(records, values, false),
        None => Vec::new(),
    };
    let ghost start = candidate_views(candidates@);
    add_retrieve_channel(records, &mut candidates, &near, Channel::Vector);
    let high = match scores {
        Some(values) => rank_hits(records, values, true),
        None => Vec::new(),
    };
    let ghost middle = candidate_views(candidates@);
    add_retrieve_channel(records, &mut candidates, &high, Channel::Text);
    proof {
        let first = crate::record::opt_seq(*distances);
        let second = crate::record::opt_seq(*scores);
        assert(channel_hits(views, first, false, near@));
        assert(channel_hits(views, second, true, high@));
        law_one_candidate_for_each_id(views, start, near@, Channel::Vector, near@.len());
        law_one_candidate_for_each_id(views, middle, high@, Channel::Text, high@.len());
    }
    candidates
}

/// However its channels' hits come, a retrieval has one candidate for each id.
pub proof fn law_one_candidate_for_each_id(
    records: Seq<RecordView>,
    candidates: Seq<CandidateView>,
    hits: Seq<Hit>,
    channel: Channel,
    count: nat,
)
    requires
        one_each(records, candidates),
        count <= hits.len(),
    ensures
        one_each(records, with_hits(records, candidates, hits, channel, count)),
    decreases count,
{
    if count > 0 {
        law_one_candidate_for_each_id(records, candidates, hits, channel, (count - 1) as nat);
        let earlier = with_hits(records, candidates, hits, channel, (count - 1) as nat);
        let now = with_hits(records, candidates, hits, channel, count);
        let hit = hits[count - 1];
        lemma_candidate_for(records, earlier, records[hit.record as int].id);
        assert forall|i: int, j: int| 0 <= i < j < now.len() implies records[(
        #[trigger] now[i]).record as int].id != records[(#[trigger] now[j]).record as int].id by {
            if j < earlier.len() {
                assert(records[earlier[i].record as int].id != records[earlier[j].record as int].id);
                assert(now[i].record == earlier[i].record);
                assert(now[j].record == earlier[j].record);
            } else {
                assert(now[i] == earlier[i]);
            }
        }
    }
}

/// A record that a retrieval gives back.
#[derive(Debug, Clone, PartialEq)]
pub struct RetrieveResult {
    pub record: ContextRecord,
    pub score: u32,
    pub vector_distance: Option<u32>,
    pub text_score: Option<u32>,
    pub matched_channels: Vec<String>,
}

/// The model of a [`RetrieveResult`].
#[verifier::ext_equal]
pub struct RetrieveView {
    pub record: RecordView,
    pub score: u32,
    pub vector_distance: Option<u32>,
    pub text_score: Option<u32>,
    pub matched_channels: Seq<Seq<char>>,
}

impl View for RetrieveResult {
    type V = RetrieveView;

    open spec fn view(&self) -> RetrieveView {
        RetrieveView {
            record: self.record@,
            score: self.score,
            vector_distance: self.vector_distance,
            text_score: self.text_score,
            matched_channels: texts(self.matched_channels@),
        }
    }
}

/// The models of retrieval results.
pub open spec fn retrieve_views(results: Seq<RetrieveResult>) -> Seq<RetrieveView> {
    Seq::new(results.len(), |i: int| results[i]@)
}

/// Whether a distance ranks at or before another: the nearest first, and a
/// result without one last.
pub open spec fn distance_le(left: Option<u32>, right: Option<u32>) -> bool {
    match (left, right) {
        (Some(a), Some(b)) => total_key(a) <= total_key(b),
        (Some(_), None) => true,
        (None, Some(_)) => false,
        (None, None) => true,
    }
}

/// Whether a score ranks at or before another: the highest first, and a result
/// without one last.
pub open spec fn score_le(left: Option<u32>, right: Option<u32>) -> bool {
    match (left, right) {
        (Some(a), Some(b)) => total_key(a) >= total_key(b),
        (Some(_), None) => true,
        (None, Some(_)) => false,
        (None, None) => true,
    }
}

/// Whether a result ranks at or before another: by score, then by distance,
/// then by text score, then by id.
pub open spec fn result_le(left: RetrieveView, right: RetrieveView) -> bool {
    if total_key(left.score) != total_key(right.score) {
        total_key(left.score) > total_key(right.score)
    } else if !(distance_le(left.vector_distance, right.vector_distance) && distance_le(
        right.vector_distance,
        left.vector_distance,
    )) {
        distance_le(left.vector_distance, right.vector_distance)
    } else if !(score_le(left.text_score, right.text_score) && score_le(
        right.text_score,
        left.text_score,
    )) {
        score_le(left.text_score, right.text_score)
    } else {
        text_le(left.record.id, right.record.id)
    }
}

/// Compares two distances: the nearest first, and none last.
pub fn compare_optional_distance(left: Option<u32>, right: Option<u32>) -> (order: Ordering)
    ensures
        order == Ordering::Less <==> distance_le(left, right) && !distance_le(right, left),
        order == Ordering::Equal <==> distance_le(left, right) && distance_le(right, left),
        order == Ordering::Greater <==> !distance_le(left, right),
{
    match (left, right) {
        (Some(a), Some(b)) => {
            let first = float_key(a);
            let second = float_key(b);
            if first < second {
                Ordering::Less
            } else if first == second {
                Ordering::Equal
            } else {
                Ordering::Greater
            }
        },
        (Some(_), None) => Ordering::Less,
        (None, Some(_)) => Ordering::Greater,
        (None, None) => Ordering::Equal,
    }
}

/// Compares two scores: the highest first, and none last.
pub fn compare_optional_score(left: Option<u32>, right: Option<u32>) -> (order: Ordering)
    ensures
        order == Ordering::Less <==> score_le(left, right) && !score_le(right, left),
        order == Ordering::Equal <==> score_le(left, right) && score_le(right, left),
        order == Ordering::Greater <==> !score_le(left, right),
{
    match (left, right) {
        (Some(a), Some(b)) => {
            let first = float_key(a);
            let second = float_key(b);
            if first > second {
                Ordering::Less
            } else if first == second {
                Ordering::Equal
            } else {
                Ordering::Greater
            }
        },
        (Some(_), None) => Ordering::Less,
        (None, Some(_)) => Ordering::Greater,
        (None, None) => Ordering::Equal,
    }
}

/// Compares two results: by score, then by distance, then by text score, then
/// by id.
pub fn compare_retrieve_results(left: &RetrieveResult, right: &RetrieveResult) -> (order: Ordering)
    ensures
        order == Ordering::Less <==> result_le(left@, right@) && !result_le(right@, left@),
        order == Ordering::Equal <==> result_le(left@, right@) && result_le(right@, left@),
        order == Ordering::Greater <==> !result_le(left@, right@),
{
    proof {
        lemma_text_le_total(left@.record.id, right@.record.id);
    }
    let first = float_key(left.score);
    let second = float_key(right.score);
    if first > second {
        return Ordering::Less;
    }
    if first < second {
        return Ordering::Greater;
    }
    match compare_optional_distance(left.vector_distance, right.vector_distance) {
        Ordering::Less => Ordering::Less,
        Ordering::Greater => Ordering::Greater,
        Ordering::Equal => match compare_optional_score(left.text_score, right.text_score) {
            Ordering::Less => Ordering::Less,
            Ordering::Greater => Ordering::Greater,
            Ordering::Equal => {
                let at_most = text_at_most(left.record.id.as_str(), right.record.id.as_str());
                let at_least = text_at_most(right.record.id.as_str(), left.record.id.as_str());
                if at_most && at_least {
                    Ordering::Equal
                } else if at_most {
                    Ordering::Less
                } else {
                    Ordering::Greater
                }
            },
        },
    }
}

/// Retrieval results, to be ranked.
pub struct ResultRanking<'a> {
    pub results: &'a Vec<RetrieveResult>,
}

impl<'a> Ranking for ResultRanking<'a> {
    open spec fn size(&self) -> nat {
        self.results@.len()
    }

    open spec fn ranks(&self, left: int, right: int) -> bool {
        result_le(self.results@[left]@, self.results@[right]@)
    }

    proof fn lemma_total(&self, left: int, right: int) {
        lemma_text_le_total(self.results@[left]@.record.id, self.results@[right]@.record.id);
    }

    proof fn lemma_transitive(&self, first: int, second: int, third: int) {
        lemma_text_le_transitive_where_tied(
            self.results@[first]@,
            self.results@[second]@,
            self.results@[third]@,
        );
    }

    fn at_most(&self, left: usize, right: usize) -> (result: bool) {
        match compare_retrieve_results(&self.results[left], &self.results[right]) {
            Ordering::Less => true,
            Ordering::Equal => true,
            Ordering::Greater => false,
        }
    }
}

proof fn lemma_text_le_transitive_where_tied(
    first: RetrieveView,
    second: RetrieveView,
    third: RetrieveView,
)
    requires
        result_le(first, second),
        result_le(second, third),
    ensures
        result_le(first, third),
{
    if text_le(first.record.id, second.record.id) && text_le(second.record.id, third.record.id) {
        lemma_text_le_transitive(first.record.id, second.record.id, third.record.id);
    }
}

/// The result of a candidate, given its score.
pub open spec fn scored(records: Seq<RecordView>, candidate: CandidateView, score: u32) -> RetrieveView {
    RetrieveView {
        record: records[candidate.record as int],
        score,
        vector_distance: candidate.vector_distance,
        text_score: candidate.text_score,
        matched_channels: candidate.matched_channels,
    }
}

/// The results of candidates, given their scores.
pub open spec fn all_scored(
    records: Seq<RecordView>,
    candidates: Seq<CandidateView>,
    scores: Seq<u32>,
) -> Seq<RetrieveView> {
    Seq::new(candidates.len(), |i: int| scored(records, candidates[i], scores[i]))
}

/// Results that come in rank order.
pub open spec fn in_result_order(results: Seq<RetrieveView>) -> bool {
    forall|i: int, j: int|
        0 <= i < j < results.len() ==> result_le(#[trigger] results[i], #[trigger] results[j])
}

fn build_results(
    records: &Vec<ContextRecord>,
    candidates: Vec<RetrieveCandidate>,
    scores: &Vec<u32>,
) -> (result: Vec<RetrieveResult>)
    requires
        in_records(record_views(records@), candidate_views(candidates@)),
        scores@.len() == candidates@.len(),
    ensures
        retrieve_views(result@) == all_scored(
            record_views(records@),
            candidate_views(candidates@),
            scores@,
        ),
{
    let ghost views = candidate_views(candidates@);
    let ghost wanted = all_scored(record_views(records@), views, scores@);
    let mut results: Vec<RetrieveResult> = Vec::new();
    let mut index: usize = 0;
    for candidate in it: candidates
        invariant
            it.seq() == candidates@,
            index == it.index(),
            index <= candidates@.len(),
            views == candidate_views(candidates@),
            in_records(record_views(records@), views),
            scores@.len() == candidates@.len(),
            wanted == all_scored(record_views(records@), views, scores@),
            results@.len() == index,
            forall|k: int| 0 <= k < index ==> (#[trigger] results@[k])@ == wanted[k],
    {
        assert(views[index as int] == candidate@);
        assert(index < scores.len());
        let next = RetrieveResult {
            record: records[candidate.record].copy(),
            score: scores[index],
            vector_distance: candidate.vector_distance,
            text_score: candidate.text_score,
            matched_channels: candidate.matched_channels,
        };
        assert(next@ =~= wanted[index as int]);
        results.push(next);
        index = index + 1;
    }
    assert(retrieve_views(results@) =~= wanted);
    results
}

/// Ranks the candidates of a retrieval by their scores and gives back as many
/// as are wanted.
pub fn rank_candidates(
    records: &Vec<ContextRecord>,
    candidates: Vec<RetrieveCandidate>,
    scores: &Vec<u32>,
    wanted: usize,
) -> (result: Vec<RetrieveResult>)
    requires
        in_records(record_views(records@), candidate_views(candidates@)),
        scores@.len() == candidates@.len(),
    ensures
        exists|ranked: Seq<RetrieveView>|
            {
                &&& #[trigger] in_result_order(ranked)
                &&& ranked.to_multiset() == all_scored(
                    record_views(records@),
                    candidate_views(candidates@),
                    scores@,
                ).to_multiset()
                &&& retrieve_views(result@) == at_most(ranked, wanted)
            },
{
    let results = build_results(records, candidates, scores);
    let ghost views = retrieve_views(results@);
    let ranking = ResultRanking { results: &results };
    let order = rank_order(&ranking, results.len());
    let ghost ranked = arranged(views, order@);
    proof {
        lemma_rank_order_has_no_duplicates(&ranking, order@);
        assert(retrieve_views(arranged(results@, order@)) =~= ranked);
        lemma_arranged_keeps_items(views, order@);
        assert forall|i: int, j: int| 0 <= i < j < ranked.len() implies result_le(
            #[trigger] ranked[i],
            #[trigger] ranked[j],
        ) by {
            assert(comes_before(&ranking, order@[i] as int, order@[j] as int));
        }
    }
    let mut answer = arrange(results, &order);
    proof {
        assert(retrieve_views(answer@) == ranked);
        assert(in_result_order(ranked));
    }
    if answer.len() > wanted {
        answer.truncate(wanted);
        assert(retrieve_views(answer@) =~= ranked.take(wanted as int));
    }
    answer
}

/// Results for different ids have one rank order only, so an answer does not
/// depend on the order in which its candidates came.
pub proof fn law_result_order_is_fixed(left: Seq<RetrieveView>, right: Seq<RetrieveView>)
    requires
        in_result_order(left),
        in_result_order(right),
        left.to_multiset() == right.to_multiset(),
        forall|i: int, j: int|
            0 <= i < j < left.len() ==> (#[trigger] left[i]).record.id != (
            #[trigger] left[j]).record.id,
    ensures
        left == right,
{
    let le = |a: RetrieveView, b: RetrieveView| result_le(a, b);
    assert forall|i: int, j: int| 0 <= i < j < left.len() implies !le(
        #[trigger] left[j],
        #[trigger] left[i],
    ) by {
        let a = left[i].record.id;
        let b = left[j].record.id;
        assert(a != b);
        assert(result_le(left[i], left[j]));
        if text_le(a, b) && text_le(b, a) {
            lemma_text_le_antisymmetric(a, b);
        }
    }
    lemma_sorted_lists_are_equal(left, right, le);
}

/// The order of floats by their bits: among those without the sign bit the
/// larger bits are the larger float, among those with it the larger bits are the
/// smaller float, and those with it come before those without. No two floats
/// with different bits share a place.
pub proof fn law_floats_are_ordered_by_their_bits(left: u32, right: u32)
    ensures
        left < 0x8000_0000 && right < 0x8000_0000 ==> (total_key(left) < total_key(right) <==> left
            < right),
        left >= 0x8000_0000 && right >= 0x8000_0000 ==> (total_key(left) < total_key(right)
            <==> left > right),
        left >= 0x8000_0000 && right < 0x8000_0000 ==> total_key(left) < total_key(right),
        total_key(left) == total_key(right) ==> left == right,
{
}

/// A search gives as many results as the caller asked for, and ten where no
/// number was asked for.
pub proof fn law_a_search_gives_ten_results_by_default(limit: usize)
    ensures
        wanted_results(Some(limit)) == limit,
        wanted_results(None) == 10,
{
}

spec fn distance_places(distances: Seq<Option<u32>>, count: nat) -> Seq<int>
    decreases count,
{
    if count == 0 {
        Seq::empty()
    } else {
        let earlier = distance_places(distances, (count - 1) as nat);
        if distances[count - 1] is Some {
            earlier.push(count - 1)
        } else {
            earlier
        }
    }
}

/// A record that a search gives is the one that was read: whole, or without its
/// embedding where that was not asked for.
pub open spec fn is_given_of(given: RecordView, read: RecordView, keeps_embedding: bool) -> bool {
    &&& RecordView { embedding: None, ..given } == RecordView { embedding: None, ..read }
    &&& given.embedding == if keeps_embedding {
        read.embedding
    } else {
        None
    }
}

proof fn lemma_with_distances(
    records: Seq<RecordView>,
    distances: Seq<Option<u32>>,
    keeps_embedding: bool,
    count: nat,
)
    requires
        count <= records.len(),
        distances.len() == records.len(),
    ensures
        ({
            let found = with_distances(records, distances, keeps_embedding, count);
            let places = distance_places(distances, count);
            &&& found.len() == places.len() <= count
            &&& forall|k: int|
                0 <= k < places.len() ==> {
                    &&& 0 <= #[trigger] places[k] < count
                    &&& distances[places[k]] == Some(found[k].distance)
                    &&& is_given_of(found[k].record, records[places[k]], keeps_embedding)
                }
            &&& forall|j: int, k: int|
                0 <= j < k < places.len() ==> #[trigger] places[j] < #[trigger] places[k]
            &&& forall|i: int|
                0 <= i < count && (#[trigger] distances[i]) is Some ==> places.contains(i)
        }),
    decreases count,
{
    if count > 0 {
        lemma_with_distances(records, distances, keeps_embedding, (count - 1) as nat);
        let before = distance_places(distances, (count - 1) as nat);
        let earlier = with_distances(records, distances, keeps_embedding, (count - 1) as nat);
        let places = distance_places(distances, count);
        let found = with_distances(records, distances, keeps_embedding, count);
        if distances[count - 1] is Some {
            assert(places[before.len() as int] == count - 1);
            assert forall|k: int| 0 <= k < places.len() implies {
                &&& 0 <= #[trigger] places[k] < count
                &&& distances[places[k]] == Some(found[k].distance)
                &&& is_given_of(found[k].record, records[places[k]], keeps_embedding)
            } by {
                if k < before.len() {
                    assert(places[k] == before[k]);
                    assert(found[k] == earlier[k]);
                }
            }
            assert forall|j: int, k: int| 0 <= j < k < places.len() implies #[trigger] places[j]
                < #[trigger] places[k] by {
                assert(places[j] == before[j]);
                if k < before.len() {
                    assert(places[k] == before[k]);
                }
            }
            assert forall|i: int|
                0 <= i < count && (#[trigger] distances[i]) is Some implies places.contains(i) by {
                if i < count - 1 {
                    assert(before.contains(i));
                    let k = choose|k: int| 0 <= k < before.len() && before[k] == i;
                    assert(places[k] == i);
                }
            }
        }
    }
}

/// A search gives the records with the smallest distances, nearest first, and of
/// two at the same distance the one that was stored first. Each result has the
/// distance of its record and the record as it was read. No record that has a
/// distance is left out unless as many results as are wanted rank before it, and
/// no record without one is given. `origin` tells which record each result is.
pub proof fn law_a_search_gives_the_nearest(
    records: Seq<RecordView>,
    distances: Seq<Option<u32>>,
    keeps_embedding: bool,
    wanted: usize,
    ranked: Seq<SearchView>,
) -> (origin: Seq<int>)
    requires
        distances.len() == records.len() <= usize::MAX,
        nearest_first(
            with_distances(records, distances, keeps_embedding, records.len()),
            wanted,
            ranked,
        ),
    ensures
        origin.len() == ranked.len() <= wanted,
        forall|k: int|
            0 <= k < ranked.len() ==> {
                &&& 0 <= #[trigger] origin[k] < records.len()
                &&& distances[origin[k]] == Some(ranked[k].distance)
                &&& is_given_of(ranked[k].record, records[origin[k]], keeps_embedding)
            },
        forall|j: int, k: int|
            0 <= j < k < ranked.len() ==> {
                &&& (#[trigger] origin[j]) != (#[trigger] origin[k])
                &&& total_key(ranked[j].distance) <= total_key(ranked[k].distance)
                &&& ranked[j].distance == ranked[k].distance ==> origin[j] < origin[k]
            },
        forall|i: int|
            0 <= i < records.len() && (#[trigger] distances[i]) is Some && !origin.contains(i) ==> {
                &&& ranked.len() == wanted
                &&& forall|k: int|
                    0 <= k < ranked.len()
                        ==> total_key((#[trigger] ranked[k]).distance) <= total_key(
                        distances[i]->Some_0,
                    )
            },
{
    let found = with_distances(records, distances, keeps_embedding, records.len());
    let places = distance_places(distances, records.len());
    lemma_with_distances(records, distances, keeps_embedding, records.len());
    let order = choose|order: Seq<usize>|
        {
            &&& #[trigger] by_distance(found, order)
            &&& ranked == at_most(arranged(found, order), wanted)
        };
    let origin = Seq::new(ranked.len(), |k: int| places[order[k] as int]);
    assert forall|k: int| 0 <= k < ranked.len() implies {
        &&& 0 <= #[trigger] origin[k] < records.len()
        &&& distances[origin[k]] == Some(ranked[k].distance)
        &&& is_given_of(ranked[k].record, records[origin[k]], keeps_embedding)
    } by {
        assert(ranked[k] == found[order[k] as int]);
        assert(0 <= places[order[k] as int] < records.len());
    }
    assert forall|j: int, k: int| 0 <= j < k < ranked.len() implies {
        &&& (#[trigger] origin[j]) != (#[trigger] origin[k])
        &&& total_key(ranked[j].distance) <= total_key(ranked[k].distance)
        &&& ranked[j].distance == ranked[k].distance ==> origin[j] < origin[k]
    } by {
        let near = order[j] as int;
        let far = order[k] as int;
        assert(ranked[j] == found[near] && ranked[k] == found[far]);
        assert(total_key(found[near].distance) <= total_key(found[far].distance));
        if near < far {
            assert(places[near] < places[far]);
        } else if far < near {
            assert(places[far] < places[near]);
        }
    }
    assert forall|i: int|
        0 <= i < records.len() && (#[trigger] distances[i]) is Some && !origin.contains(i) implies {
        &&& ranked.len() == wanted
        &&& forall|k: int|
            0 <= k < ranked.len() ==> total_key((#[trigger] ranked[k]).distance) <= total_key(
                distances[i]->Some_0,
            )
    } by {
        assert(places.contains(i));
        let p = choose|p: int| 0 <= p < places.len() && places[p] == i;
        assert(order.contains(p as usize));
        let q = choose|q: int| 0 <= q < order.len() && order[q] == p as usize;
        if q < ranked.len() {
            assert(origin[q] == i);
        }
        assert forall|k: int| 0 <= k < ranked.len() implies total_key((#[trigger] ranked[k]).distance)
            <= total_key(distances[i]->Some_0) by {
            assert(ranked[k] == found[order[k] as int]);
            assert(total_key(found[order[k] as int].distance) <= total_key(
                found[order[q] as int].distance,
            ));
        }
    }
    origin
}

proof fn lemma_hits_are_the_values(values: Seq<Option<u32>>, count: nat)
    requires
        count <= values.len() <= usize::MAX,
    ensures
        ({
            let hits = hits_of(values, count);
            &&& forall|k: int|
                0 <= k < hits.len() ==> (#[trigger] hits[k]).record < count
                    && values[hits[k].record as int] == Some(hits[k].value)
            &&& forall|j: int, k: int|
                0 <= j < k < hits.len() ==> (#[trigger] hits[j]).record < (
                #[trigger] hits[k]).record
            &&& forall|i: int|
                0 <= i < count && (#[trigger] values[i]) is Some ==> hits.contains(
                    (Hit { record: i as usize, value: values[i]->Some_0 }),
                )
        }),
    decreases count,
{
    if count > 0 {
        lemma_hits_are_the_values(values, (count - 1) as nat);
        let earlier = hits_of(values, (count - 1) as nat);
        let hits = hits_of(values, count);
        if values[count - 1] is Some {
            assert forall|k: int| 0 <= k < hits.len() implies (#[trigger] hits[k]).record < count
                && values[hits[k].record as int] == Some(hits[k].value) by {
                if k < earlier.len() {
                    assert(hits[k] == earlier[k]);
                }
            }
            assert forall|j: int, k: int| 0 <= j < k < hits.len() implies (
            #[trigger] hits[j]).record < (#[trigger] hits[k]).record by {
                assert(hits[j] == earlier[j]);
                if k < earlier.len() {
                    assert(hits[k] == earlier[k]);
                }
            }
            assert forall|i: int|
                0 <= i < count && (#[trigger] values[i]) is Some implies hits.contains(
                (Hit { record: i as usize, value: values[i]->Some_0 }),
            ) by {
                let hit = Hit { record: i as usize, value: values[i]->Some_0 };
                if i < count - 1 {
                    assert(earlier.contains(hit));
                    let k = choose|k: int| 0 <= k < earlier.len() && earlier[k] == hit;
                    assert(hits[k] == hit);
                } else {
                    assert(hits[earlier.len() as int] == hit);
                }
            }
        }
    }
}

/// `ranked` lists every record that has a value in a channel once, with its
/// value: by value, the smallest or the highest first, and records of one value
/// by id.
pub open spec fn lists_channel(
    records: Seq<RecordView>,
    values: Option<Seq<Option<u32>>>,
    highest_first: bool,
    ranked: Seq<Hit>,
) -> bool {
    &&& forall|k: int|
        0 <= k < ranked.len() ==> {
            &&& values is Some
            &&& (#[trigger] ranked[k]).record < values->Some_0.len()
            &&& values->Some_0[ranked[k].record as int] == Some(ranked[k].value)
        }
    &&& forall|i: int|
        values is Some && 0 <= i < values->Some_0.len() && (#[trigger] values->Some_0[i]) is Some
            ==> exists|k: int| 0 <= k < ranked.len() && (#[trigger] ranked[k]).record == i
    &&& forall|j: int, k: int|
        0 <= j < k < ranked.len() ==> {
            let first = total_key((#[trigger] ranked[j]).value);
            let second = total_key((#[trigger] ranked[k]).value);
            &&& ranked[j].record != ranked[k].record
            &&& if highest_first {
                first >= second
            } else {
                first <= second
            }
            &&& first == second ==> text_le(
                records[ranked[j].record as int].id,
                records[ranked[k].record as int].id,
            )
        }
}

/// The ranked hits of a channel are the records that have a value in it, each
/// once, best first.
pub proof fn law_a_channel_ranks_by_value(
    records: Seq<RecordView>,
    values: Option<Seq<Option<u32>>>,
    highest_first: bool,
    ranked: Seq<Hit>,
)
    requires
        values is Some ==> values->Some_0.len() <= usize::MAX,
        channel_hits(records, values, highest_first, ranked),
    ensures
        lists_channel(records, values, highest_first, ranked),
{
    broadcast use vstd::seq_lib::group_to_multiset_ensures;

    if values is Some {
        let all = values->Some_0;
        let hits = hits_of(all, all.len());
        lemma_hits_are_the_values(all, all.len());
        assert(hits.no_duplicates());
        hits.lemma_multiset_has_no_duplicates();
        assert forall|hit: Hit| ranked.to_multiset().contains(hit) implies ranked.to_multiset().count(
            hit,
        ) == 1 by {
            assert(hits.to_multiset().contains(hit));
        }
        ranked.lemma_multiset_has_no_duplicates_conv();
        assert forall|k: int| 0 <= k < ranked.len() implies {
            &&& (#[trigger] ranked[k]).record < all.len()
            &&& all[ranked[k].record as int] == Some(ranked[k].value)
        } by {
            assert(ranked.contains(ranked[k]));
            assert(hits.to_multiset().contains(ranked[k]));
            assert(hits.contains(ranked[k]));
            let at = choose|at: int| 0 <= at < hits.len() && hits[at] == ranked[k];
            assert(hits[at].record < all.len());
        }
        assert forall|i: int| 0 <= i < all.len()
            && (#[trigger] all[i]) is Some implies exists|k: int|
            0 <= k < ranked.len() && (#[trigger] ranked[k]).record == i by {
            let hit = Hit { record: i as usize, value: all[i]->Some_0 };
            assert(hits.contains(hit));
            assert(hits.to_multiset().contains(hit));
            assert(ranked.to_multiset().contains(hit));
            assert(ranked.contains(hit));
            let k = choose|k: int| 0 <= k < ranked.len() && ranked[k] == hit;
            assert(ranked[k].record == i);
        }
        assert forall|j: int, k: int| 0 <= j < k < ranked.len() implies {
            let first = total_key((#[trigger] ranked[j]).value);
            let second = total_key((#[trigger] ranked[k]).value);
            &&& ranked[j].record != ranked[k].record
            &&& if highest_first {
                first >= second
            } else {
                first <= second
            }
            &&& first == second ==> text_le(
                records[ranked[j].record as int].id,
                records[ranked[k].record as int].id,
            )
        } by {
            assert(hit_le(records, ranked[j], ranked[k], highest_first));
            assert(ranked[j] != ranked[k]);
        }
    }
}

/// A record is among the candidates.
pub open spec fn is_candidate(candidates: Seq<CandidateView>, record: usize) -> bool {
    exists|c: int| 0 <= c < candidates.len() && (#[trigger] candidates[c]).record == record
}

proof fn lemma_hits_are_added(
    records: Seq<RecordView>,
    start: Seq<CandidateView>,
    hits: Seq<Hit>,
    channel: Channel,
    count: nat,
)
    requires
        count <= hits.len() <= usize::MAX,
        forall|i: int, j: int|
            0 <= i < j < records.len() ==> (#[trigger] records[i]).id != (#[trigger] records[j]).id,
        in_records(records, start),
        one_each(records, start),
        forall|k: int| 0 <= k < hits.len() ==> (#[trigger] hits[k]).record < records.len(),
        forall|j: int, k: int|
            0 <= j < k < hits.len() ==> (#[trigger] hits[j]).record != (#[trigger] hits[k]).record,
    ensures
        ({
            let now = with_hits(records, start, hits, channel, count);
            &&& in_records(records, now)
            &&& one_each(records, now)
            &&& start.len() <= now.len()
            &&& forall|c: int|
                0 <= c < start.len() ==> (#[trigger] now[c]).record == start[c].record
            &&& forall|c: int, k: int|
                0 <= c < now.len() && 0 <= k < count && (#[trigger] hits[k]).record == (
                #[trigger] now[c]).record ==> now[c] == with_rank(
                    if c < start.len() {
                        start[c]
                    } else {
                        new_candidate(now[c].record)
                    },
                    (k + 1) as usize,
                    hits[k].value,
                    channel,
                )
            &&& forall|c: int|
                0 <= c < now.len() && (forall|k: int|
                    0 <= k < count ==> (#[trigger] hits[k]).record != now[c].record) ==> c
                    < start.len() && #[trigger] now[c] == start[c]
            &&& forall|k: int| 0 <= k < count ==> is_candidate(now, (#[trigger] hits[k]).record)
        }),
    decreases count,
{
    if count > 0 {
        let prior = (count - 1) as nat;
        lemma_hits_are_added(records, start, hits, channel, prior);
        law_one_candidate_for_each_id(records, start, hits, channel, count);
        let earlier = with_hits(records, start, hits, channel, prior);
        let now = with_hits(records, start, hits, channel, count);
        let hit = hits[count - 1];
        let id = records[hit.record as int].id;
        lemma_candidate_for(records, earlier, id);
        let found = candidate_for(records, earlier, id);
        if found is Some {
            let at = found->Some_0;
            assert(earlier[at].record < records.len());
            if earlier[at].record < hit.record {
                assert(records[earlier[at].record as int].id != id);
            } else if hit.record < earlier[at].record {
                assert(id != records[earlier[at].record as int].id);
            }
            assert(earlier[at].record == hit.record);
            assert forall|k: int| 0 <= k < prior implies (#[trigger] hits[k]).record
                != earlier[at].record by {
                assert(hits[k].record != hits[count - 1].record);
            }
            assert(at < start.len() && earlier[at] == start[at]);
            assert forall|c: int, k: int|
                0 <= c < now.len() && 0 <= k < count && (#[trigger] hits[k]).record == (
                #[trigger] now[c]).record implies now[c] == with_rank(
                if c < start.len() {
                    start[c]
                } else {
                    new_candidate(now[c].record)
                },
                (k + 1) as usize,
                hits[k].value,
                channel,
            ) by {
                if c == at {
                    if k < prior {
                        assert(hits[k].record != hits[count - 1].record);
                    }
                } else {
                    assert(now[c] == earlier[c]);
                    if k == prior {
                        if c < at {
                            assert(records[earlier[c].record as int].id
                                != records[earlier[at].record as int].id);
                        } else {
                            assert(records[earlier[at].record as int].id
                                != records[earlier[c].record as int].id);
                        }
                    }
                }
            }
            assert forall|c: int|
                0 <= c < now.len() && (forall|k: int|
                    0 <= k < count ==> (#[trigger] hits[k]).record != now[c].record) implies c
                < start.len() && #[trigger] now[c] == start[c] by {
                assert(hits[count - 1].record != now[c].record);
                assert(c != at);
                assert(now[c] == earlier[c]);
            }
            assert forall|k: int| 0 <= k < count implies is_candidate(
                now,
                (#[trigger] hits[k]).record,
            ) by {
                if k < prior {
                    let c = choose|c: int|
                        0 <= c < earlier.len() && (#[trigger] earlier[c]).record == hits[k].record;
                    assert(now[c].record == earlier[c].record);
                } else {
                    assert(now[at].record == hits[k].record);
                }
            }
        } else {
            let last = earlier.len() as int;
            assert forall|c: int, k: int|
                0 <= c < now.len() && 0 <= k < count && (#[trigger] hits[k]).record == (
                #[trigger] now[c]).record implies now[c] == with_rank(
                if c < start.len() {
                    start[c]
                } else {
                    new_candidate(now[c].record)
                },
                (k + 1) as usize,
                hits[k].value,
                channel,
            ) by {
                if c == last {
                    if k < prior {
                        assert(hits[k].record != hits[count - 1].record);
                    }
                } else {
                    assert(now[c] == earlier[c]);
                    if k == prior {
                        assert(records[earlier[c].record as int].id != id);
                    }
                }
            }
            assert forall|c: int|
                0 <= c < now.len() && (forall|k: int|
                    0 <= k < count ==> (#[trigger] hits[k]).record != now[c].record) implies c
                < start.len() && #[trigger] now[c] == start[c] by {
                assert(hits[count - 1].record != now[c].record);
                assert(c != last);
                assert(now[c] == earlier[c]);
            }
            assert forall|k: int| 0 <= k < count implies is_candidate(
                now,
                (#[trigger] hits[k]).record,
            ) by {
                if k < prior {
                    let c = choose|c: int|
                        0 <= c < earlier.len() && (#[trigger] earlier[c]).record == hits[k].record;
                    assert(now[c].record == earlier[c].record);
                } else {
                    assert(now[last].record == hits[k].record);
                }
            }
        }
    }
}

/// A record stands at this place of a ranked list.
pub open spec fn stands_at_rank(ranked: Seq<Hit>, place: int, record: usize) -> bool {
    0 <= place < ranked.len() && ranked[place].record == record
}

/// A record stands somewhere in a ranked list.
pub open spec fn is_ranked(ranked: Seq<Hit>, record: usize) -> bool {
    exists|place: int| #[trigger] stands_at_rank(ranked, place, record)
}

/// A candidate holds what the lists of the vector and the text channel say of its
/// record. Its ranks are its places there, from one, the vector channel's first;
/// its distance and text score are its values there; and its channels are those
/// in whose list it stands.
pub open spec fn has_both_ranks(near: Seq<Hit>, high: Seq<Hit>, candidate: CandidateView) -> bool {
    let record = candidate.record;
    &&& is_ranked(near, record) || is_ranked(high, record)
    &&& forall|p: int, q: int|
        #![trigger stands_at_rank(near, p, record), stands_at_rank(high, q, record)]
        stands_at_rank(near, p, record) && stands_at_rank(high, q, record) ==> {
            &&& candidate.ranks == seq![(p + 1) as usize, (q + 1) as usize]
            &&& candidate.vector_distance == Some(near[p].value)
            &&& candidate.text_score == Some(high[q].value)
            &&& candidate.matched_channels == seq!["vector"@, "text"@]
        }
    &&& forall|p: int|
        #![trigger stands_at_rank(near, p, record)]
        stands_at_rank(near, p, record) && !is_ranked(high, record) ==> {
            &&& candidate.ranks == seq![(p + 1) as usize]
            &&& candidate.vector_distance == Some(near[p].value)
            &&& candidate.text_score is None
            &&& candidate.matched_channels == seq!["vector"@]
        }
    &&& forall|q: int|
        #![trigger stands_at_rank(high, q, record)]
        stands_at_rank(high, q, record) && !is_ranked(near, record) ==> {
            &&& candidate.ranks == seq![(q + 1) as usize]
            &&& candidate.vector_distance is None
            &&& candidate.text_score == Some(high[q].value)
            &&& candidate.matched_channels == seq!["text"@]
        }
}

/// The candidates of a retrieval are the records that a channel found, each
/// once. A candidate's ranks are its places, from one, in the list of the vector
/// channel and then in that of the text channel, each where it stands there; its
/// distance and its text score are its values there, and its channels are those
/// that found it. The vector channel lists the smallest distance first and the
/// text channel the highest score. `lists` are the two lists.
pub proof fn law_a_retrieval_keeps_the_ranks_of_both_channels(
    records: Seq<RecordView>,
    distances: Option<Seq<Option<u32>>>,
    scores: Option<Seq<Option<u32>>>,
    candidates: Seq<CandidateView>,
) -> (lists: (Seq<Hit>, Seq<Hit>))
    requires
        records.len() <= usize::MAX,
        distances is Some ==> distances->Some_0.len() == records.len(),
        scores is Some ==> scores->Some_0.len() == records.len(),
        forall|i: int, j: int|
            0 <= i < j < records.len() ==> (#[trigger] records[i]).id != (#[trigger] records[j]).id,
        is_retrieval(records, distances, scores, candidates),
    ensures
        lists_channel(records, distances, false, lists.0),
        lists_channel(records, scores, true, lists.1),
        forall|p: int|
            0 <= p < lists.0.len() ==> is_candidate(candidates, (#[trigger] lists.0[p]).record),
        forall|q: int|
            0 <= q < lists.1.len() ==> is_candidate(candidates, (#[trigger] lists.1[q]).record),
        forall|b: int, c: int|
            0 <= b < c < candidates.len() ==> (#[trigger] candidates[b]).record != (
            #[trigger] candidates[c]).record,
        forall|c: int|
            0 <= c < candidates.len() ==> has_both_ranks(
                lists.0,
                lists.1,
                #[trigger] candidates[c],
            ),
{
    let (near, high) = choose|near: Seq<Hit>, high: Seq<Hit>|
        {
            &&& #[trigger] channel_hits(records, distances, false, near)
            &&& #[trigger] channel_hits(records, scores, true, high)
            &&& candidates == with_hits(
                records,
                with_hits(records, Seq::empty(), near, Channel::Vector, near.len()),
                high,
                Channel::Text,
                high.len(),
            )
        };
    law_a_channel_ranks_by_value(records, distances, false, near);
    law_a_channel_ranks_by_value(records, scores, true, high);
    lemma_channel_is_short(records, distances, false, near);
    lemma_channel_is_short(records, scores, true, high);
    let none = Seq::<CandidateView>::empty();
    let middle = with_hits(records, none, near, Channel::Vector, near.len());
    lemma_hits_are_added(records, none, near, Channel::Vector, near.len());
    lemma_hits_are_added(records, middle, high, Channel::Text, high.len());
    assert forall|c: int| 0 <= c < candidates.len() implies has_both_ranks(
        near,
        high,
        #[trigger] candidates[c],
    ) by {
        lemma_candidate_is(records, near, high, c);
    }
    assert forall|b: int, c: int| 0 <= b < c < candidates.len() implies (
    #[trigger] candidates[b]).record != (#[trigger] candidates[c]).record by {
        assert(records[candidates[b].record as int].id != records[candidates[c].record as int].id);
    }
    assert forall|p: int| 0 <= p < near.len() implies is_candidate(
        candidates,
        (#[trigger] near[p]).record,
    ) by {
        assert(is_candidate(middle, near[p].record));
        let c = choose|c: int|
            0 <= c < middle.len() && (#[trigger] middle[c]).record == near[p].record;
        assert(candidates[c].record == middle[c].record);
    }
    (near, high)
}

proof fn lemma_channel_names_differ()
    ensures
        "vector"@ != "text"@,
{
    reveal_strlit("vector");
    reveal_strlit("text");
    assert("vector"@.len() != "text"@.len());
}

proof fn lemma_candidate_is(records: Seq<RecordView>, near: Seq<Hit>, high: Seq<Hit>, c: int)
    requires
        near.len() <= usize::MAX,
        high.len() <= usize::MAX,
        forall|i: int, j: int|
            0 <= i < j < records.len() ==> (#[trigger] records[i]).id != (#[trigger] records[j]).id,
        forall|k: int| 0 <= k < near.len() ==> (#[trigger] near[k]).record < records.len(),
        forall|k: int| 0 <= k < high.len() ==> (#[trigger] high[k]).record < records.len(),
        forall|j: int, k: int|
            0 <= j < k < near.len() ==> (#[trigger] near[j]).record != (#[trigger] near[k]).record,
        forall|j: int, k: int|
            0 <= j < k < high.len() ==> (#[trigger] high[j]).record != (#[trigger] high[k]).record,
        0 <= c < with_hits(
            records,
            with_hits(records, Seq::empty(), near, Channel::Vector, near.len()),
            high,
            Channel::Text,
            high.len(),
        ).len(),
    ensures
        has_both_ranks(
            near,
            high,
            with_hits(
                records,
                with_hits(records, Seq::empty(), near, Channel::Vector, near.len()),
                high,
                Channel::Text,
                high.len(),
            )[c],
        ),
{
    let none = Seq::<CandidateView>::empty();
    let middle = with_hits(records, none, near, Channel::Vector, near.len());
    let candidates = with_hits(records, middle, high, Channel::Text, high.len());
    lemma_hits_are_added(records, none, near, Channel::Vector, near.len());
    lemma_hits_are_added(records, middle, high, Channel::Text, high.len());
    lemma_channel_names_differ();
    let record = candidates[c].record;
    let was = if c < middle.len() {
        middle[c]
    } else {
        new_candidate(record)
    };
    if c < middle.len() {
        assert(middle[c].record == record);
        if forall|k: int| 0 <= k < near.len() ==> (#[trigger] near[k]).record != record {
            assert(c < none.len());
        }
        let p = choose|p: int| 0 <= p < near.len() && (#[trigger] near[p]).record == record;
        assert(stands_at_rank(near, p, record));
        assert(was == with_rank(
            new_candidate(record),
            (p + 1) as usize,
            near[p].value,
            Channel::Vector,
        ));
        assert(was.ranks =~= seq![(p + 1) as usize]);
        assert(was.matched_channels =~= seq!["vector"@]);
    } else {
        assert forall|p: int| !stands_at_rank(near, p, record) by {
            if stands_at_rank(near, p, record) {
                let b = choose|b: int|
                    0 <= b < middle.len() && (#[trigger] middle[b]).record == near[p].record;
                assert(candidates[b].record == middle[b].record);
                assert(records[candidates[b].record as int].id
                    != records[candidates[c].record as int].id);
            }
        }
    }
    if exists|q: int| 0 <= q < high.len() && (#[trigger] high[q]).record == record {
        let q = choose|q: int| 0 <= q < high.len() && (#[trigger] high[q]).record == record;
        assert(stands_at_rank(high, q, record));
        assert(candidates[c] == with_rank(was, (q + 1) as usize, high[q].value, Channel::Text));
        if c < middle.len() {
            let p = choose|p: int| 0 <= p < near.len() && (#[trigger] near[p]).record == record;
            assert(!seq!["vector"@].contains("text"@)) by {
                if seq!["vector"@].contains("text"@) {
                    assert(seq!["vector"@][0] == "text"@);
                }
            }
            assert(candidates[c].ranks =~= seq![(p + 1) as usize, (q + 1) as usize]);
            assert(candidates[c].matched_channels =~= seq!["vector"@, "text"@]);
        } else {
            assert(candidates[c].ranks =~= seq![(q + 1) as usize]);
            assert(candidates[c].matched_channels =~= seq!["text"@]);
        }
    } else {
        assert(c < middle.len() && candidates[c] == middle[c]);
    }
}

proof fn lemma_channel_is_short(
    records: Seq<RecordView>,
    values: Option<Seq<Option<u32>>>,
    highest_first: bool,
    ranked: Seq<Hit>,
)
    requires
        values is Some ==> values->Some_0.len() <= usize::MAX,
        channel_hits(records, values, highest_first, ranked),
    ensures
        ranked.len() <= usize::MAX,
{
    broadcast use vstd::seq_lib::group_to_multiset_ensures;

    if values is Some {
        let all = values->Some_0;
        assert(ranked.len() == ranked.to_multiset().len());
        assert(hits_of(all, all.len()).len() == hits_of(all, all.len()).to_multiset().len());
        lemma_hits_are_few(all, all.len());
    }
}

proof fn lemma_hits_are_few(values: Seq<Option<u32>>, count: nat)
    ensures
        hits_of(values, count).len() <= count,
    decreases count,
{
    if count > 0 {
        lemma_hits_are_few(values, (count - 1) as nat);
    }
}

/// The first optional value is at or before the second, where the smaller key
/// comes first and no value comes last.
pub open spec fn smaller_or_present(left: Option<u32>, right: Option<u32>) -> bool {
    right is Some ==> left is Some && total_key(left->Some_0) <= total_key(right->Some_0)
}

/// The first optional value is at or before the second, where the larger key
/// comes first and no value comes last.
pub open spec fn larger_or_present(left: Option<u32>, right: Option<u32>) -> bool {
    right is Some ==> left is Some && total_key(left->Some_0) >= total_key(right->Some_0)
}

/// A result is at or before another: its score is higher; or the scores are the
/// same and it is nearer; or both are and its text score is higher; or all three
/// are the same and its id comes first.
pub open spec fn is_at_or_before(left: RetrieveView, right: RetrieveView) -> bool {
    &&& total_key(left.score) >= total_key(right.score)
    &&& left.score == right.score ==> {
        &&& smaller_or_present(left.vector_distance, right.vector_distance)
        &&& left.vector_distance == right.vector_distance ==> {
            &&& larger_or_present(left.text_score, right.text_score)
            &&& left.text_score == right.text_score ==> text_le(left.record.id, right.record.id)
        }
    }
}

/// A result is that of a candidate: it has the candidate's record whole, its
/// score, and its distance, text score and channels.
pub open spec fn is_result_of_candidate(
    records: Seq<RecordView>,
    candidate: CandidateView,
    score: u32,
    result: RetrieveView,
) -> bool {
    &&& result.record == records[candidate.record as int]
    &&& result.score == score
    &&& result.vector_distance == candidate.vector_distance
    &&& result.text_score == candidate.text_score
    &&& result.matched_channels == candidate.matched_channels
}

/// A result is that of some candidate.
pub open spec fn is_some_result(
    records: Seq<RecordView>,
    candidates: Seq<CandidateView>,
    scores: Seq<u32>,
    result: RetrieveView,
) -> bool {
    exists|c: int|
        0 <= c < candidates.len() && #[trigger] is_result_of_candidate(
            records,
            candidates[c],
            scores[c],
            result,
        )
}

/// A retrieval gives the candidates with the highest scores, best first: of two
/// with one score the nearer, then the one with the higher text score, then the
/// one whose id comes first. Every result is that of a candidate, and no
/// candidate is left out unless as many results as are wanted stand at or before
/// it.
pub proof fn law_a_retrieval_gives_the_best(
    records: Seq<RecordView>,
    candidates: Seq<CandidateView>,
    scores: Seq<u32>,
    wanted: usize,
    ranked: Seq<RetrieveView>,
)
    requires
        scores.len() == candidates.len(),
        in_result_order(ranked),
        ranked.to_multiset() == all_scored(records, candidates, scores).to_multiset(),
    ensures
        candidates.len() <= wanted ==> at_most(ranked, wanted).len() == candidates.len(),
        candidates.len() > wanted ==> at_most(ranked, wanted).len() == wanted,
        forall|k: int|
            0 <= k < at_most(ranked, wanted).len() ==> is_some_result(
                records,
                candidates,
                scores,
                #[trigger] at_most(ranked, wanted)[k],
            ),
        forall|j: int, k: int|
            0 <= j < k < at_most(ranked, wanted).len() ==> is_at_or_before(
                #[trigger] at_most(ranked, wanted)[j],
                #[trigger] at_most(ranked, wanted)[k],
            ),
        forall|c: int, result: RetrieveView|
            0 <= c < candidates.len() && #[trigger] is_result_of_candidate(
                records,
                candidates[c],
                scores[c],
                result,
            ) && !at_most(ranked, wanted).contains(result) ==> {
                &&& at_most(ranked, wanted).len() == wanted
                &&& forall|k: int|
                    0 <= k < wanted ==> is_at_or_before(
                        #[trigger] at_most(ranked, wanted)[k],
                        result,
                    )
            },
{
    broadcast use vstd::seq_lib::group_to_multiset_ensures;

    let all = all_scored(records, candidates, scores);
    let results = at_most(ranked, wanted);
    assert(ranked.len() == ranked.to_multiset().len());
    assert(all.len() == all.to_multiset().len());
    assert forall|j: int, k: int| 0 <= j < k < ranked.len() implies is_at_or_before(
        #[trigger] ranked[j],
        #[trigger] ranked[k],
    ) by {
        assert(result_le(ranked[j], ranked[k]));
        lemma_at_or_before(ranked[j], ranked[k]);
    }
    assert forall|k: int| 0 <= k < results.len() implies is_some_result(
        records,
        candidates,
        scores,
        #[trigger] results[k],
    ) by {
        assert(results[k] == ranked[k]);
        assert(ranked.contains(ranked[k]));
        assert(ranked.to_multiset().contains(ranked[k]));
        assert(all.to_multiset().contains(ranked[k]));
        assert(all.contains(ranked[k]));
        let c = choose|c: int| 0 <= c < all.len() && all[c] == ranked[k];
        assert(is_result_of_candidate(records, candidates[c], scores[c], results[k]));
    }
    assert forall|j: int, k: int| 0 <= j < k < results.len() implies is_at_or_before(
        #[trigger] results[j],
        #[trigger] results[k],
    ) by {
        assert(results[j] == ranked[j] && results[k] == ranked[k]);
    }
    assert forall|c: int, result: RetrieveView|
        0 <= c < candidates.len() && #[trigger] is_result_of_candidate(
            records,
            candidates[c],
            scores[c],
            result,
        ) && !results.contains(result) implies {
        &&& results.len() == wanted
        &&& forall|k: int| 0 <= k < wanted ==> is_at_or_before(#[trigger] results[k], result)
    } by {
        assert(all[c] =~= result);
        assert(all.contains(result));
        assert(all.to_multiset().contains(result));
        assert(ranked.to_multiset().contains(result));
        assert(ranked.contains(result));
        let q = choose|q: int| 0 <= q < ranked.len() && ranked[q] == result;
        if q < results.len() {
            assert(results[q] == result);
        }
        assert forall|k: int| 0 <= k < wanted implies is_at_or_before(
            #[trigger] results[k],
            result,
        ) by {
            assert(results[k] == ranked[k]);
        }
    }
}

proof fn lemma_at_or_before(left: RetrieveView, right: RetrieveView)
    requires
        result_le(left, right),
    ensures
        is_at_or_before(left, right),
{
    if left.vector_distance == right.vector_distance && left.text_score == right.text_score {
        law_floats_are_ordered_by_their_bits(left.score, right.score);
    }
}

/// The model of a search result holds each of its parts.
pub proof fn law_a_search_results_model_is_whole(result: SearchResult)
    ensures
        result@.record == result.record@,
        result@.distance == result.distance,
{
}

/// The model of a candidate holds each of its parts.
pub proof fn law_a_candidates_model_is_whole(candidate: RetrieveCandidate)
    ensures
        candidate@.record == candidate.record,
        candidate@.ranks == candidate.ranks@,
        candidate@.vector_distance == candidate.vector_distance,
        candidate@.text_score == candidate.text_score,
        candidate@.matched_channels == texts(candidate.matched_channels@),
{
}

/// The model of a retrieval result holds each of its parts.
pub proof fn law_a_retrieve_results_model_is_whole(result: RetrieveResult)
    ensures
        result@.record == result.record@,
        result@.score == result.score,
        result@.vector_distance == result.vector_distance,
        result@.text_score == result.text_score,
        result@.matched_channels == texts(result.matched_channels@),
{
}

/// The models stand in the order of what they are of, one for each.
pub proof fn law_search_views_stand_in_order(results: Seq<SearchResult>, at: int)
    requires
        0 <= at < results.len(),
    ensures
        search_views(results).len() == results.len(),
        search_views(results)[at] == results[at]@,
{
}

/// The models stand in the order of what they are of, one for each.
pub proof fn law_candidate_views_stand_in_order(candidates: Seq<RetrieveCandidate>, at: int)
    requires
        0 <= at < candidates.len(),
    ensures
        candidate_views(candidates).len() == candidates.len(),
        candidate_views(candidates)[at] == candidates[at]@,
{
}

/// The models stand in the order of what they are of, one for each.
pub proof fn law_retrieve_views_stand_in_order(results: Seq<RetrieveResult>, at: int)
    requires
        0 <= at < results.len(),
    ensures
        retrieve_views(results).len() == results.len(),
        retrieve_views(results)[at] == results[at]@,
{
}

/// A hit joins the candidate of its record's id: that one gets the rank behind
/// those it has, the hit's value as the value of the channel, and the channel's
/// name if it lacks it, and keeps everything else. Where no candidate has the id a
/// new one comes last, with that rank alone. Every other candidate stays as it is.
pub proof fn law_a_hit_joins_the_candidate_of_its_id(
    records: Seq<RecordView>,
    candidates: Seq<CandidateView>,
    hit: Hit,
    rank: usize,
    channel: Channel,
    at: int,
    other: int,
)
    requires
        one_each(records, candidates),
        0 <= at < candidates.len(),
        0 <= other < candidates.len(),
    ensures
        ({
            let id = records[hit.record as int].id;
            let now = with_hit(records, candidates, hit, rank, channel);
            let name = if channel == Channel::Vector {
                "vector"@
            } else {
                "text"@
            };
            &&& records[candidates[at].record as int].id == id ==> {
                &&& now.len() == candidates.len()
                &&& now[at].record == candidates[at].record
                &&& now[at].ranks == candidates[at].ranks.push(rank)
                &&& channel == Channel::Vector ==> now[at].vector_distance == Some(hit.value)
                    && now[at].text_score == candidates[at].text_score
                &&& channel == Channel::Text ==> now[at].text_score == Some(hit.value)
                    && now[at].vector_distance == candidates[at].vector_distance
                &&& now[at].matched_channels.contains(name)
                &&& candidates[at].matched_channels.is_prefix_of(now[at].matched_channels)
                &&& now[at].matched_channels.len() <= candidates[at].matched_channels.len() + 1
                &&& candidates[at].matched_channels.contains(name) ==> now[at].matched_channels
                    == candidates[at].matched_channels
                &&& other != at ==> now[other] == candidates[other]
            }
            &&& (forall|c: int|
                0 <= c < candidates.len() ==> records[(#[trigger] candidates[c]).record as int].id
                    != id) ==> {
                &&& now.len() == candidates.len() + 1
                &&& now[other] == candidates[other]
                &&& now.last().record == hit.record
                &&& now.last().ranks == seq![rank]
                &&& now.last().matched_channels == seq![name]
                &&& channel == Channel::Vector ==> now.last().vector_distance == Some(hit.value)
                    && now.last().text_score is None
                &&& channel == Channel::Text ==> now.last().text_score == Some(hit.value)
                    && now.last().vector_distance is None
            }
        }),
{
    let id = records[hit.record as int].id;
    let name = channel_name(channel);
    lemma_candidate_for(records, candidates, id);
    let found = candidate_for(records, candidates, id);
    if records[candidates[at].record as int].id == id {
        if found is Some {
            let place = found->Some_0;
            if place < at {
                assert(records[candidates[place].record as int].id
                    != records[candidates[at].record as int].id);
            } else if at < place {
                assert(records[candidates[at].record as int].id
                    != records[candidates[place].record as int].id);
            }
        }
        let longer = candidates[at].matched_channels.push(name);
        assert(longer[candidates[at].matched_channels.len() as int] == name);
        assert(longer.take(candidates[at].matched_channels.len() as int)
            =~= candidates[at].matched_channels);
        assert(candidates[at].matched_channels.take(
            candidates[at].matched_channels.len() as int,
        ) =~= candidates[at].matched_channels);
    }
    assert(Seq::<usize>::empty().push(rank) =~= seq![rank]);
    assert(Seq::<Seq<char>>::empty().push(name) =~= seq![name]);
    assert(!Seq::<Seq<char>>::empty().contains(name));
}

/// Hits are added one after the other, and the rank of each is its place among
/// them, from one.
pub proof fn law_hits_are_added_in_order(
    records: Seq<RecordView>,
    candidates: Seq<CandidateView>,
    hits: Seq<Hit>,
    channel: Channel,
    count: nat,
)
    requires
        count < hits.len() <= usize::MAX,
    ensures
        with_hits(records, candidates, hits, channel, 0) == candidates,
        with_hits(records, candidates, hits, channel, count + 1) == with_hit(
            records,
            with_hits(records, candidates, hits, channel, count),
            hits[count as int],
            (count + 1) as usize,
            channel,
        ),
{
}

/// A retrieval is refused exactly where it has neither text nor vector, or where
/// its vector is not as wide as the column.
pub proof fn law_which_retrievals_are_refused(terms: nat, query_length: Option<usize>, dim: i32)
    ensures
        retrieve_failure(terms, query_length, dim) is None <==> (query_length matches Some(length)
            ==> length == dim) && (terms > 0 || query_length is Some),
{
}

/// A smaller distance comes first and a higher score does, and a value that is
/// missing comes last.
pub proof fn law_missing_values_come_last(left: u32, right: u32)
    ensures
        distance_le(Some(left), Some(right)) <==> total_key(left) <= total_key(right),
        score_le(Some(left), Some(right)) <==> total_key(left) >= total_key(right),
        distance_le(Some(left), None) && !distance_le(None, Some(left)),
        score_le(Some(left), None) && !score_le(None, Some(left)),
        distance_le(None, None) && score_le(None, None),
        channel_name(Channel::Vector) == "vector"@,
        channel_name(Channel::Text) == "text"@,
{
}

/// Results compare by their scores first, the higher before the lower; then by
/// distance and by text score, as those compare; and then by id. Two results
/// always compare.
pub proof fn law_results_compare_by_score_first(left: RetrieveView, right: RetrieveView)
    ensures
        total_key(left.score) > total_key(right.score) ==> result_le(left, right) && !result_le(
            right,
            left,
        ),
        left.score == right.score && distance_le(left.vector_distance, right.vector_distance)
            && !distance_le(right.vector_distance, left.vector_distance) ==> result_le(left, right)
            && !result_le(right, left),
        left.score == right.score && left.vector_distance == right.vector_distance && score_le(
            left.text_score,
            right.text_score,
        ) && !score_le(right.text_score, left.text_score) ==> result_le(left, right) && !result_le(
            right,
            left,
        ),
        left.score == right.score && left.vector_distance == right.vector_distance
            && left.text_score == right.text_score ==> (result_le(left, right) <==> text_le(
            left.record.id,
            right.record.id,
        )),
{
}

/// Candidates are of records that were read.
pub proof fn law_candidates_are_of_the_records(
    records: Seq<RecordView>,
    candidates: Seq<CandidateView>,
    at: int,
)
    requires
        0 <= at < candidates.len(),
    ensures
        in_records(records, candidates) ==> candidates[at].record < records.len(),
        (forall|i: int|
            0 <= i < candidates.len() ==> (#[trigger] candidates[i]).record < records.len())
            ==> in_records(records, candidates),
{
}

} // verus!
