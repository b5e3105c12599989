//! Writer shards: their identity, their manifests, and where their flushed
//! generations lie.

use vstd::prelude::*;

use crate::outside::{name_based_uuid, uuid_v5_oid};
use crate::text::{join3, push_char, texts};

verus! {

/// The lower-case hexadecimal digit for a number below sixteen.
pub open spec fn hex_digit(value: int) -> char {
    if value < 10 {
        (('0' as u32) + value) as char
    } else {
        (('a' as u32) + (value - 10)) as char
    }
}

/// The last `count` hexadecimal digits of a number.
pub open spec fn hex_digits(value: nat, count: nat) -> Seq<char>
    decreases count,
{
    if count == 0 {
        Seq::empty()
    } else {
        hex_digits(value / 16, (count - 1) as nat).push(hex_digit((value % 16) as int))
    }
}

/// An identifier in hyphenated form: its thirty-two hexadecimal digits in
/// groups of eight, four, four, four and twelve.
pub open spec fn hyphenated(id: u128) -> Seq<char> {
    let digits = hex_digits(id as nat, 32);
    digits.subrange(0, 8) + seq!['-'] + digits.subrange(8, 12) + seq!['-'] + digits.subrange(
        12,
        16,
    ) + seq!['-'] + digits.subrange(16, 20) + seq!['-'] + digits.subrange(20, 32)
}

fn hex_char(value: u8) -> (result: char)
    requires
        value < 16,
    ensures
        result == hex_digit(value as int),
{
    if value < 10 {
        let code: u8 = 48 + value;
        code as char
    } else {
        let code: u8 = 97 + (value - 10);
        code as char
    }
}

fn hex_chars(value: u128, count: usize) -> (result: Vec<char>)
    ensures
        result@ == hex_digits(value as nat, count as nat),
    decreases count,
{
    if count == 0 {
        Vec::new()
    } else {
        let mut result = hex_chars(value / 16, count - 1);
        result.push(hex_char((value % 16) as u8));
        result
    }
}

proof fn lemma_hex_digits_len(value: nat, count: nat)
    ensures
        hex_digits(value, count).len() == count,
    decreases count,
{
    if count > 0 {
        lemma_hex_digits_len(value / 16, (count - 1) as nat);
    }
}

/// An identifier in hyphenated form.
pub fn uuid_text(id: u128) -> (result: String)
    ensures
        result@ == hyphenated(id),
{
    let digits = hex_chars(id, 32);
    proof {
        lemma_hex_digits_len(id as nat, 32);
    }
    let ghost whole = digits@;
    let mut result = String::new();
    let mut index: usize = 0;
    while index < 32
        invariant
            index <= 32,
            digits@ == whole,
            whole.len() == 32,
            result@ == grouped(whole, index as int),
        decreases 32 - index,
    {
        if index == 8 || index == 12 || index == 16 || index == 20 {
            push_char(&mut result, '-');
        }
        push_char(&mut result, digits[index]);
        index = index + 1;
    }
    proof {
        lemma_grouped(whole);
    }
    result
}

/// The first `count` digits with hyphens in front of the groups.
spec fn grouped(digits: Seq<char>, count: int) -> Seq<char>
    decreases count,
{
    if count <= 0 {
        Seq::empty()
    } else {
        let before = grouped(digits, count - 1);
        let index = count - 1;
        if index == 8 || index == 12 || index == 16 || index == 20 {
            before.push('-').push(digits[index])
        } else {
            before.push(digits[index])
        }
    }
}

proof fn lemma_grouped(digits: Seq<char>)
    requires
        digits.len() == 32,
    ensures
        grouped(digits, 32) == digits.subrange(0, 8) + seq!['-'] + digits.subrange(8, 12)
            + seq!['-'] + digits.subrange(12, 16) + seq!['-'] + digits.subrange(16, 20) + seq![
            '-',
        ] + digits.subrange(20, 32),
{
    reveal_with_fuel(grouped, 33);
    assert(grouped(digits, 32) =~= digits.subrange(0, 8) + seq!['-'] + digits.subrange(8, 12)
        + seq!['-'] + digits.subrange(12, 16) + seq!['-'] + digits.subrange(16, 20) + seq!['-']
        + digits.subrange(20, 32));
}

/// The shard of a writer instance: derived from its id, or from `default`
/// where it has none.
pub open spec fn shard_of(instance_id: Option<Seq<char>>) -> u128 {
    match instance_id {
        Some(id) => uuid_v5_oid(id),
        None => uuid_v5_oid("default"@),
    }
}

/// Derives the shard that a writer instance writes to. The same instance id
/// gives the same shard on every start. Two ids share a shard only where their
/// hashes are equal.
pub fn derive_shard_id(instance_id: &Option<String>) -> (shard: u128)
    ensures
        shard == shard_of(crate::text::opt_text(*instance_id)),
{
    match instance_id {
        Some(id) => name_based_uuid(id.as_str()),
        None => name_based_uuid("default"),
    }
}

/// An instance writes to one shard, on every start: the shard is decided by the
/// instance id alone, and an instance without an id is the one called
/// `default`.
pub proof fn law_an_instance_keeps_its_shard(left: Option<Seq<char>>, right: Option<Seq<char>>)
    ensures
        left == right ==> shard_of(left) == shard_of(right),
        shard_of(None) == shard_of(Some("default"@)),
{
}

/// `text` without the slashes at its end.
pub open spec fn without_trailing_slashes(text: Seq<char>) -> Seq<char>
    decreases text.len(),
{
    if text.len() > 0 && text.last() == '/' {
        without_trailing_slashes(text.drop_last())
    } else {
        text
    }
}

fn trim_slashes(text: &str) -> (result: String)
    ensures
        result@ == without_trailing_slashes(text@),
{
    let chars = crate::order::chars_of(text);
    let mut end: usize = chars.len();
    assert(text@.take(text@.len() as int) =~= text@);
    while end > 0 && chars[end - 1] == '/'
        invariant
            end <= chars@.len(),
            chars@ == text@,
            without_trailing_slashes(text@) == without_trailing_slashes(text@.take(end as int)),
        decreases end,
    {
        assert(text@.take(end as int).drop_last() =~= text@.take(end - 1));
        end = end - 1;
    }
    let mut result = String::new();
    let mut index: usize = 0;
    while index < end
        invariant
            index <= end <= chars@.len(),
            chars@ == text@,
            result@ == text@.take(index as int),
        decreases end - index,
    {
        push_char(&mut result, chars[index]);
        index = index + 1;
        assert(result@ =~= text@.take(index as int));
    }
    result
}

/// Where a flushed generation of a shard lies.
pub open spec fn generation_uri(uri: Seq<char>, shard: u128, path: Seq<char>) -> Seq<char> {
    without_trailing_slashes(uri) + "/_mem_wal/"@ + hyphenated(shard) + "/"@ + path
}

/// Where a flushed generation of a shard lies, below the table's own place.
pub fn flushed_generation_uri(uri: &str, shard: u128, path: &str) -> (result: String)
    ensures
        result@ == generation_uri(uri@, shard, path@),
{
    let base = trim_slashes(uri);
    let id = uuid_text(shard);
    let mut result = join3(base.as_str(), "/_mem_wal/", id.as_str());
    result.append("/");
    result.append(path);
    result
}

/// A flushed generation that is not yet merged.
#[derive(Debug, Clone, PartialEq)]
pub struct Generation {
    pub generation: u64,
    pub path: String,
}

/// The model of a [`Generation`].
#[verifier::ext_equal]
pub struct GenerationView {
    pub generation: u64,
    pub path: Seq<char>,
}

impl View for Generation {
    type V = GenerationView;

    open spec fn view(&self) -> GenerationView {
        GenerationView { generation: self.generation, path: self.path@ }
    }
}

/// The models of generations.
pub open spec fn generation_views(generations: Seq<Generation>) -> Seq<GenerationView> {
    Seq::new(generations.len(), |i: int| generations[i]@)
}

/// What a shard records of itself.
#[derive(Debug, Clone, PartialEq)]
pub struct ShardManifest {
    pub version: u64,
    pub writer_epoch: u64,
    pub shard_spec_id: u32,
    pub current_generation: u64,
    pub replay_after_wal_entry_position: u64,
    pub wal_entry_position_last_seen: u64,
    pub flushed_generations: Vec<Generation>,
}

/// The model of a [`ShardManifest`].
#[verifier::ext_equal]
pub struct ManifestView {
    pub version: u64,
    pub writer_epoch: u64,
    pub shard_spec_id: u32,
    pub current_generation: u64,
    pub replay_after_wal_entry_position: u64,
    pub wal_entry_position_last_seen: u64,
    pub flushed_generations: Seq<GenerationView>,
}

impl View for ShardManifest {
    type V = ManifestView;

    open spec fn view(&self) -> ManifestView {
        ManifestView {
            version: self.version,
            writer_epoch: self.writer_epoch,
            shard_spec_id: self.shard_spec_id,
            current_generation: self.current_generation,
            replay_after_wal_entry_position: self.replay_after_wal_entry_position,
            wal_entry_position_last_seen: self.wal_entry_position_last_seen,
            flushed_generations: generation_views(self.flushed_generations@),
        }
    }
}

/// The generations that a merge left alone.
pub open spec fn unmerged(generations: Seq<GenerationView>, merged: Seq<u64>) -> Seq<GenerationView> {
    generations.filter(|entry: GenerationView| !merged.contains(entry.generation))
}

/// The manifest after a merge: the next version, without the merged
/// generations, otherwise as it was.
pub open spec fn drained(manifest: ManifestView, merged: Seq<u64>) -> ManifestView {
    ManifestView {
        version: (manifest.version + 1) as u64,
        flushed_generations: unmerged(manifest.flushed_generations, merged),
        ..manifest
    }
}

pub(crate) fn contains_number(values: &Vec<u64>, wanted: u64) -> (result: bool)
    ensures
        result == values@.contains(wanted),
{
    let mut index: usize = 0;
    while index < values.len()
        invariant
            index <= values.len(),
            forall|j: int| 0 <= j < index ==> #[trigger] values@[j] != wanted,
        decreases values.len() - index,
    {
        if values[index] == wanted {
            assert(values@[index as int] == wanted);
            return true;
        }
        index = index + 1;
    }
    false
}

/// Takes the merged generations out of the manifest as it now stands. Only
/// they leave: a generation that was flushed while the merge ran stays.
pub fn drain_manifest(current: &ShardManifest, merged: &Vec<u64>) -> (result: ShardManifest)
    requires
        current.version < u64::MAX,
    ensures
        result@ == drained(current@, merged@),
{
    let ghost all = generation_views(current.flushed_generations@);
    let ghost keep = |entry: GenerationView| !merged@.contains(entry.generation);
    let mut kept: Vec<Generation> = Vec::new();
    let mut index: usize = 0;
    proof {
        assert(all.take(0).filter(keep) =~= Seq::<GenerationView>::empty()) by {
            reveal(Seq::filter);
        }
        assert(generation_views(kept@) =~= Seq::<GenerationView>::empty());
    }
    while index < current.flushed_generations.len()
        invariant
            index <= current.flushed_generations.len(),
            all == generation_views(current.flushed_generations@),
            keep == (|entry: GenerationView| !merged@.contains(entry.generation)),
            generation_views(kept@) == all.take(index as int).filter(keep),
        decreases current.flushed_generations.len() - index,
    {
        let entry = &current.flushed_generations[index];
        proof {
            assert(all.take(index + 1) =~= all.take(index as int).push(entry@));
            all.take(index as int).lemma_filter_push(entry@, keep);
        }
        let ghost before = kept@;
        if !contains_number(merged, entry.generation) {
            let copied = Generation { generation: entry.generation, path: entry.path.clone() };
            kept.push(copied);
            assert(generation_views(kept@) =~= generation_views(before).push(entry@));
        }
        index = index + 1;
    }
    assert(all.take(all.len() as int) =~= all);
    ShardManifest {
        version: current.version + 1,
        writer_epoch: current.writer_epoch,
        shard_spec_id: current.shard_spec_id,
        current_generation: current.current_generation,
        replay_after_wal_entry_position: current.replay_after_wal_entry_position,
        wal_entry_position_last_seen: current.wal_entry_position_last_seen,
        flushed_generations: kept,
    }
}

/// The numbers of generations.
pub open spec fn numbers(generations: Seq<GenerationView>) -> Seq<u64> {
    Seq::new(generations.len(), |i: int| generations[i].generation)
}

/// The numbers of the generations that a manifest lists: what a merge of all
/// of them takes out.
pub fn generation_numbers(manifest: &ShardManifest) -> (result: Vec<u64>)
    ensures
        result@ == numbers(manifest@.flushed_generations),
{
    let mut result: Vec<u64> = Vec::new();
    let mut index: usize = 0;
    while index < manifest.flushed_generations.len()
        invariant
            index <= manifest.flushed_generations.len(),
            result.len() == index,
            forall|k: int|
                0 <= k < index ==> #[trigger] result@[k]
                    == manifest.flushed_generations@[k].generation,
        decreases manifest.flushed_generations.len() - index,
    {
        result.push(manifest.flushed_generations[index].generation);
        index = index + 1;
    }
    assert(result@ =~= numbers(manifest@.flushed_generations));
    result
}

/// Whether a shard has enough pending generations for a merge. A threshold of
/// zero counts as one.
pub fn merge_is_due(pending: usize, threshold: usize) -> (result: bool)
    ensures
        result == (pending > 0 && pending >= threshold),
{
    let least: usize = if threshold < 1 {
        1
    } else {
        threshold
    };
    !(pending == 0 || pending < least)
}

/// A generation that was flushed after the merge began is still listed once
/// the merged ones are taken out.
pub proof fn law_late_generations_survive_a_drain(
    manifest: ManifestView,
    merged: Seq<u64>,
    late: GenerationView,
)
    requires
        manifest.flushed_generations.contains(late),
        !merged.contains(late.generation),
    ensures
        drained(manifest, merged).flushed_generations.contains(late),
{
    let keep = |entry: GenerationView| !merged.contains(entry.generation);
    let all = manifest.flushed_generations;
    let at = choose|at: int| 0 <= at < all.len() && all[at] == late;
    all.lemma_filter_contains(keep, at);
}

/// No merged generation is listed after a drain.
pub proof fn law_merged_generations_leave(
    manifest: ManifestView,
    merged: Seq<u64>,
    entry: GenerationView,
)
    requires
        merged.contains(entry.generation),
    ensures
        !drained(manifest, merged).flushed_generations.contains(entry),
{
    let keep = |entry: GenerationView| !merged.contains(entry.generation);
    let all = manifest.flushed_generations;
    let kept = all.filter(keep);
    if kept.contains(entry) {
        let at = choose|at: int| 0 <= at < kept.len() && kept[at] == entry;
        all.lemma_filter_pred(keep, at);
    }
}

/// Draining a shard of everything it lists leaves nothing pending.
pub proof fn law_full_drain_empties_the_shard(manifest: ManifestView)
    ensures
        drained(manifest, numbers(manifest.flushed_generations)).flushed_generations.len() == 0,
{
    let all = manifest.flushed_generations;
    let merged = numbers(all);
    let keep = |entry: GenerationView| !merged.contains(entry.generation);
    let kept = all.filter(keep);
    if kept.len() > 0 {
        all.lemma_filter_pred(keep, 0);
        assert(kept.contains(kept[0]));
        all.lemma_filter_contains_rev(keep, kept[0]);
        assert(all.contains(kept[0]));
        let at = choose|at: int| 0 <= at < all.len() && all[at] == kept[0];
        assert(merged[at] == kept[0].generation);
    }
}

/// A generation with the rows it holds.
pub struct HeldRows<T> {
    pub generation: u64,
    pub rows: Seq<T>,
}

/// The rows of all generations.
pub open spec fn held_rows<T>(generations: Seq<HeldRows<T>>) -> vstd::multiset::Multiset<T>
    decreases generations.len(),
{
    if generations.len() == 0 {
        vstd::multiset::Multiset::empty()
    } else {
        held_rows(generations.drop_last()).add(generations.last().rows.to_multiset())
    }
}

proof fn lemma_rows_split<T>(generations: Seq<HeldRows<T>>, merged: Seq<u64>)
    ensures
        held_rows(generations) =~= held_rows(
            generations.filter(|entry: HeldRows<T>| merged.contains(entry.generation)),
        ).add(
            held_rows(generations.filter(|entry: HeldRows<T>| !merged.contains(entry.generation))),
        ),
    decreases generations.len(),
{
    let taken = |entry: HeldRows<T>| merged.contains(entry.generation);
    let kept = |entry: HeldRows<T>| !merged.contains(entry.generation);
    if generations.len() == 0 {
        assert(generations.filter(taken) =~= Seq::empty()) by {
            reveal(Seq::filter);
        }
        assert(generations.filter(kept) =~= Seq::empty()) by {
            reveal(Seq::filter);
        }
        assert(held_rows(generations) =~= held_rows(generations.filter(taken)).add(
            held_rows(generations.filter(kept)),
        ));
    } else {
        let earlier = generations.drop_last();
        let last = generations.last();
        lemma_rows_split(earlier, merged);
        assert(generations =~= earlier.push(last));
        earlier.lemma_filter_push(last, taken);
        earlier.lemma_filter_push(last, kept);
        if merged.contains(last.generation) {
            assert(generations.filter(taken).drop_last() =~= earlier.filter(taken));
        } else {
            assert(generations.filter(kept).drop_last() =~= earlier.filter(kept));
        }
        assert(held_rows(generations) =~= held_rows(generations.filter(taken)).add(
            held_rows(generations.filter(kept)),
        ));
    }
}

/// A merge neither loses nor repeats a row: the rows of the base table and of
/// all pending generations together are the same before and after, also where
/// further generations were flushed while it ran.
pub proof fn law_merge_keeps_every_row<T>(
    base: vstd::multiset::Multiset<T>,
    snapshot: Seq<HeldRows<T>>,
    current: Seq<HeldRows<T>>,
    merged: Seq<u64>,
)
    requires
        current.filter(|entry: HeldRows<T>| merged.contains(entry.generation)) == snapshot,
    ensures
        base.add(held_rows(snapshot)).add(
            held_rows(current.filter(|entry: HeldRows<T>| !merged.contains(entry.generation))),
        ) == base.add(held_rows(current)),
{
    lemma_rows_split(current, merged);
    assert(base.add(held_rows(snapshot)).add(
        held_rows(current.filter(|entry: HeldRows<T>| !merged.contains(entry.generation))),
    ) =~= base.add(held_rows(current)));
}

/// The pending generations of one shard, as a read sees them.
#[derive(Debug, Clone, PartialEq)]
pub struct ShardSnapshot {
    pub shard_id: u128,
    pub flushed_generations: Vec<Generation>,
}

/// How many generations are pending in all shards.
pub open spec fn pending_in(snapshots: Seq<ShardSnapshot>) -> nat
    decreases snapshots.len(),
{
    if snapshots.len() == 0 {
        0
    } else {
        pending_in(snapshots.drop_last()) + snapshots.last().flushed_generations@.len()
    }
}

/// Counts the pending generations of all shards.
pub fn pending_generations(snapshots: &Vec<ShardSnapshot>) -> (result: usize)
    requires
        pending_in(snapshots@) <= usize::MAX,
    ensures
        result == pending_in(snapshots@),
{
    let ghost all = snapshots@;
    let mut total: usize = 0;
    let mut index: usize = 0;
    assert(all.take(0) =~= Seq::empty());
    while index < snapshots.len()
        invariant
            index <= snapshots.len(),
            all == snapshots@,
            pending_in(all) <= usize::MAX,
            total == pending_in(all.take(index as int)),
        decreases snapshots.len() - index,
    {
        proof {
            assert(all.take(index + 1).drop_last() =~= all.take(index as int));
            lemma_pending_grows(all, index + 1);
        }
        total = total + snapshots[index].flushed_generations.len();
        index = index + 1;
    }
    assert(all.take(all.len() as int) =~= all);
    total
}

proof fn lemma_pending_grows(snapshots: Seq<ShardSnapshot>, count: int)
    requires
        0 <= count <= snapshots.len(),
    ensures
        pending_in(snapshots.take(count)) <= pending_in(snapshots),
    decreases snapshots.len(),
{
    if count < snapshots.len() {
        lemma_pending_grows(snapshots.drop_last(), count);
        assert(snapshots.drop_last().take(count) =~= snapshots.take(count));
    } else {
        assert(snapshots.take(count) =~= snapshots);
    }
}

/// Where the generations of one shard lie.
pub open spec fn shard_uris(uri: Seq<char>, snapshot: ShardSnapshot) -> Seq<Seq<char>> {
    Seq::new(
        snapshot.flushed_generations@.len(),
        |i: int|
            generation_uri(uri, snapshot.shard_id, snapshot.flushed_generations@[i].path@),
    )
}

/// Where the generations of all shards lie, shard by shard.
pub open spec fn all_uris(uri: Seq<char>, snapshots: Seq<ShardSnapshot>) -> Seq<Seq<char>>
    decreases snapshots.len(),
{
    if snapshots.len() == 0 {
        Seq::empty()
    } else {
        all_uris(uri, snapshots.drop_last()) + shard_uris(uri, snapshots.last())
    }
}

/// Lists where the pending generations of all shards lie.
pub fn pending_uris(uri: &str, snapshots: &Vec<ShardSnapshot>) -> (result: Vec<String>)
    ensures
        texts(result@) == all_uris(uri@, snapshots@),
{
    let ghost all = snapshots@;
    let mut result: Vec<String> = Vec::new();
    let mut index: usize = 0;
    proof {
        assert(all.take(0) =~= Seq::empty());
        assert(texts(result@) =~= Seq::<Seq<char>>::empty());
    }
    while index < snapshots.len()
        invariant
            index <= snapshots.len(),
            all == snapshots@,
            texts(result@) == all_uris(uri@, all.take(index as int)),
        decreases snapshots.len() - index,
    {
        let snapshot = &snapshots[index];
        let ghost done = all_uris(uri@, all.take(index as int));
        let ghost own = shard_uris(uri@, *snapshot);
        let mut inner: usize = 0;
        assert(done + own.take(0) =~= done);
        while inner < snapshot.flushed_generations.len()
            invariant
                inner <= snapshot.flushed_generations.len(),
                own == shard_uris(uri@, *snapshot),
                texts(result@) == done + own.take(inner as int),
            decreases snapshot.flushed_generations.len() - inner,
        {
            let ghost before = result@;
            let next = flushed_generation_uri(
                uri,
                snapshot.shard_id,
                snapshot.flushed_generations[inner].path.as_str(),
            );
            result.push(next);
            proof {
                assert(texts(result@) =~= texts(before).push(own[inner as int]));
                assert(own.take(inner + 1) =~= own.take(inner as int).push(own[inner as int]));
                assert(texts(result@) =~= done + own.take(inner + 1));
            }
            inner = inner + 1;
        }
        proof {
            assert(own.take(own.len() as int) =~= own);
            assert(all.take(index + 1).drop_last() =~= all.take(index as int));
        }
        index = index + 1;
    }
    assert(all.take(all.len() as int) =~= all);
    result
}

/// The digits of a number to the base 16, the highest first: each is the
/// character that stands for the number's share of that power.
pub proof fn law_digits_stand_for_their_powers(value: nat, count: nat)
    ensures
        hex_digits(value, count).len() == count,
        forall|i: int|
            0 <= i < count
                ==> #[trigger] hex_digits(value, count)[i] == "0123456789abcdef"@[((value as int)
                / vstd::arithmetic::power::pow(16, (count - 1 - i) as nat)) % 16],
    decreases count,
{
    reveal_strlit("0123456789abcdef");
    if count > 0 {
        let higher = value / 16;
        law_digits_stand_for_their_powers(higher, (count - 1) as nat);
        assert forall|i: int| 0 <= i < count implies #[trigger] hex_digits(value, count)[i]
            == "0123456789abcdef"@[((value as int) / vstd::arithmetic::power::pow(
            16,
            (count - 1 - i) as nat,
        )) % 16] by {
            if i < count - 1 {
                let power = vstd::arithmetic::power::pow(16, (count - 2 - i) as nat);
                vstd::arithmetic::power::lemma_pow_positive(16, (count - 2 - i) as nat);
                reveal(vstd::arithmetic::power::pow);
                vstd::arithmetic::div_mod::lemma_div_denominator(value as int, 16, power);
                assert(vstd::arithmetic::power::pow(16, (count - 1 - i) as nat) == 16 * power);
                assert(hex_digits(value, count)[i] == hex_digits(higher, (count - 1) as nat)[i]);
            } else {
                vstd::arithmetic::power::lemma_pow0(16);
                assert((value as int) / 1 == value as int);
                lemma_hex_digit((value % 16) as int);
            }
        }
    }
}

proof fn lemma_hex_digit(value: int)
    requires
        0 <= value < 16,
    ensures
        hex_digit(value) == "0123456789abcdef"@[value],
{
    reveal_strlit("0123456789abcdef");
}

/// A shard's id is written as 32 digits in groups of 8, 4, 4, 4 and 12 with a
/// hyphen between two groups.
pub proof fn law_an_id_is_written_in_five_groups(id: u128)
    ensures
        hyphenated(id).len() == 36,
        hyphenated(id)[8] == '-' && hyphenated(id)[13] == '-' && hyphenated(id)[18] == '-'
            && hyphenated(id)[23] == '-',
        forall|i: int| 0 <= i < 8 ==> #[trigger] hyphenated(id)[i] == hex_digits(id as nat, 32)[i],
        forall|i: int|
            9 <= i < 13 ==> #[trigger] hyphenated(id)[i] == hex_digits(id as nat, 32)[i - 1],
        forall|i: int|
            14 <= i < 18 ==> #[trigger] hyphenated(id)[i] == hex_digits(id as nat, 32)[i - 2],
        forall|i: int|
            19 <= i < 23 ==> #[trigger] hyphenated(id)[i] == hex_digits(id as nat, 32)[i - 3],
        forall|i: int|
            24 <= i < 36 ==> #[trigger] hyphenated(id)[i] == hex_digits(id as nat, 32)[i - 4],
{
    law_digits_stand_for_their_powers(id as nat, 32);
}

/// Only slashes at the end are taken away, and all of them.
pub proof fn law_only_slashes_at_the_end_go(text: Seq<char>)
    ensures
        without_trailing_slashes(text).len() <= text.len(),
        without_trailing_slashes(text) == text.take(without_trailing_slashes(text).len() as int),
        forall|i: int|
            without_trailing_slashes(text).len() <= i < text.len() ==> #[trigger] text[i] == '/',
        without_trailing_slashes(text).len() > 0 ==> without_trailing_slashes(text).last() != '/',
    decreases text.len(),
{
    if text.len() > 0 && text.last() == '/' {
        let shorter = text.drop_last();
        law_only_slashes_at_the_end_go(shorter);
        let rest = without_trailing_slashes(text);
        assert(shorter.take(rest.len() as int) =~= text.take(rest.len() as int));
        assert forall|i: int| rest.len() <= i < text.len() implies #[trigger] text[i] == '/' by {
            if i < shorter.len() {
                assert(shorter[i] == text[i]);
            }
        }
    } else {
        assert(text.take(text.len() as int) =~= text);
    }
}

/// A generation is stored below the table, in the log directory of its shard, and
/// slashes at the end of the table's location change nothing.
pub proof fn law_where_a_generation_is_stored(uri: Seq<char>, shard: u128, path: Seq<char>)
    ensures
        uri.len() > 0 && uri.last() != '/' ==> generation_uri(uri, shard, path) == uri
            + "/_mem_wal/"@ + hyphenated(shard) + "/"@ + path,
        generation_uri(uri.push('/'), shard, path) == generation_uri(uri, shard, path),
{
    assert(uri.push('/').drop_last() =~= uri);
}

/// A drain gives the manifest the next version and changes nothing else but the
/// list of generations, in which the rest keep their order.
pub proof fn law_a_drain_changes_the_list_only(
    manifest: ManifestView,
    merged: Seq<u64>,
    next: GenerationView,
)
    requires
        manifest.version < u64::MAX,
    ensures
        drained(manifest, merged).version == manifest.version + 1,
        drained(manifest, merged).writer_epoch == manifest.writer_epoch,
        drained(manifest, merged).shard_spec_id == manifest.shard_spec_id,
        drained(manifest, merged).current_generation == manifest.current_generation,
        drained(manifest, merged).replay_after_wal_entry_position
            == manifest.replay_after_wal_entry_position,
        drained(manifest, merged).wal_entry_position_last_seen
            == manifest.wal_entry_position_last_seen,
        ({
            let longer = ManifestView {
                flushed_generations: manifest.flushed_generations.push(next),
                ..manifest
            };
            let kept = drained(manifest, merged).flushed_generations;
            drained(longer, merged).flushed_generations == if merged.contains(next.generation) {
                kept
            } else {
                kept.push(next)
            }
        }),
{
    manifest.flushed_generations.lemma_filter_push(
        next,
        |entry: GenerationView| !merged.contains(entry.generation),
    );
}

/// What is pending is what each shard's snapshot lists, one after the other, and
/// there is one location for each.
pub proof fn law_every_listed_generation_is_pending(
    uri: Seq<char>,
    snapshots: Seq<ShardSnapshot>,
    at: int,
    index: int,
)
    requires
        0 <= at < snapshots.len(),
        0 <= index < snapshots[at].flushed_generations@.len(),
    ensures
        all_uris(uri, snapshots).len() == pending_in(snapshots),
        pending_in(snapshots.take(at)) + index < pending_in(snapshots),
        all_uris(uri, snapshots)[pending_in(snapshots.take(at)) + index] == generation_uri(
            uri,
            snapshots[at].shard_id,
            snapshots[at].flushed_generations@[index].path@,
        ),
    decreases snapshots.len(),
{
    let rest = snapshots.drop_last();
    lemma_one_uri_each(uri, snapshots);
    lemma_one_uri_each(uri, rest);
    if at < snapshots.len() - 1 {
        law_every_listed_generation_is_pending(uri, rest, at, index);
        assert(rest.take(at) =~= snapshots.take(at));
    } else {
        assert(snapshots.take(at) =~= rest);
    }
}

proof fn lemma_one_uri_each(uri: Seq<char>, snapshots: Seq<ShardSnapshot>)
    ensures
        all_uris(uri, snapshots).len() == pending_in(snapshots),
    decreases snapshots.len(),
{
    if snapshots.len() > 0 {
        lemma_one_uri_each(uri, snapshots.drop_last());
    }
}

/// The model of a generation holds each of its parts.
pub proof fn law_a_generations_model_is_whole(generation: Generation)
    ensures
        generation@.generation == generation.generation,
        generation@.path == generation.path@,
{
}

/// The model of a manifest holds each of its parts.
pub proof fn law_a_manifests_model_is_whole(manifest: ShardManifest)
    ensures
        manifest@.version == manifest.version,
        manifest@.writer_epoch == manifest.writer_epoch,
        manifest@.shard_spec_id == manifest.shard_spec_id,
        manifest@.current_generation == manifest.current_generation,
        manifest@.replay_after_wal_entry_position == manifest.replay_after_wal_entry_position,
        manifest@.wal_entry_position_last_seen == manifest.wal_entry_position_last_seen,
        manifest@.flushed_generations == generation_views(manifest.flushed_generations@),
{
}

/// The models stand in the order of what they are of, one for each.
pub proof fn law_generation_views_stand_in_order(generations: Seq<Generation>, at: int)
    requires
        0 <= at < generations.len(),
    ensures
        generation_views(generations).len() == generations.len(),
        generation_views(generations)[at] == generations[at]@,
{
}

} // verus!
