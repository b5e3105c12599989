//! Which columns and which part of a table a read covers.

use vstd::prelude::*;

use crate::text::{contains_text, same_text, texts};

verus! {

/// Which large payload columns to load on a read.
///
/// The columns left out come back as `None`; everything else is always loaded.
#[derive(Debug, Clone, Copy, PartialEq, Eq, Structural)]
pub struct ReadProjection {
    pub text: bool,
    pub binary: bool,
    pub embedding: bool,
}

/// The part of a store a read covers.
#[derive(Debug, Clone, Copy, PartialEq, Eq, Structural)]
pub enum ListSource {
    /// The base table only.
    Fragments,
    /// Flushed, not yet merged generations only.
    Wal,
    /// The union of both.
    All,
}

/// Type of scalar index on the `id` column.
#[derive(Debug, Clone, Copy, PartialEq, Eq, Structural)]
pub enum IdIndexType {
    /// No index on the id column.
    NoIndex,
    /// Zone-map index (min/max per fragment, lightweight).
    ZoneMap,
    /// B-tree index (point lookups, heavier).
    BTree,
}

impl Default for ListSource {
    fn default() -> (source: Self)
        ensures
            source == ListSource::Fragments,
    {
        ListSource::Fragments
    }
}

impl Default for IdIndexType {
    fn default() -> (index: Self)
        ensures
            index == IdIndexType::NoIndex,
    {
        IdIndexType::NoIndex
    }
}

impl Default for ReadProjection {
    fn default() -> (projection: Self)
        ensures
            projection == (ReadProjection { text: true, binary: true, embedding: true }),
    {
        ReadProjection { text: true, binary: true, embedding: true }
    }
}

impl ReadProjection {
    /// Whether a column of this name is read under the projection.
    pub open spec fn reads(self, column: Seq<char>) -> bool {
        &&& (self.text || column != "text_payload"@)
        &&& (self.binary || column != "binary_payload"@)
        &&& (self.embedding || column != "embedding"@)
    }

    /// Load only scalar and metadata columns.
    pub fn metadata_only() -> (projection: ReadProjection)
        ensures
            projection == (ReadProjection { text: false, binary: false, embedding: false }),
    {
        ReadProjection { text: false, binary: false, embedding: false }
    }

    /// Load everything except the binary payload.
    pub fn without_binary() -> (projection: ReadProjection)
        ensures
            projection == (ReadProjection { text: true, binary: false, embedding: true }),
    {
        ReadProjection { text: true, binary: false, embedding: true }
    }

    /// Whether nothing is left out.
    pub fn loads_all(self) -> (result: bool)
        ensures
            result == (self.text && self.binary && self.embedding),
    {
        self.text && self.binary && self.embedding
    }
}

/// The projection of a read that names none: payload columns configured as
/// blobs stay behind, the embedding is loaded.
pub fn default_read_projection(blob_columns: &Vec<String>) -> (projection: ReadProjection)
    ensures
        projection.text == !texts(blob_columns@).contains("text_payload"@),
        projection.binary == !texts(blob_columns@).contains("binary_payload"@),
        projection.embedding,
{
    ReadProjection {
        text: !contains_text(blob_columns, "text_payload"),
        binary: !contains_text(blob_columns, "binary_payload"),
        embedding: true,
    }
}

/// The columns of a table to read under `projection`, in table order.
pub fn projected_columns(columns: &Vec<String>, projection: ReadProjection) -> (result: Vec<String>)
    ensures
        texts(result@) == texts(columns@).filter(|name: Seq<char>| projection.reads(name)),
{
    let ghost all = texts(columns@);
    let ghost keep = |name: Seq<char>| projection.reads(name);
    let mut result: Vec<String> = Vec::new();
    let mut index: usize = 0;
    assert(all.take(0).filter(keep) =~= Seq::<Seq<char>>::empty());
    assert(texts(result@) =~= Seq::<Seq<char>>::empty());
    while index < columns.len()
        invariant
            index <= columns.len(),
            all == texts(columns@),
            keep == (|name: Seq<char>| projection.reads(name)),
            texts(result@) == all.take(index as int).filter(keep),
        decreases columns.len() - index,
    {
        let name = columns[index].as_str();
        let wanted = (projection.text || !same_text(name, "text_payload"))
            && (projection.binary || !same_text(name, "binary_payload"))
            && (projection.embedding || !same_text(name, "embedding"));
        proof {
            assert(all.take(index + 1) =~= all.take(index as int).push(all[index as int]));
            all.take(index as int).lemma_filter_push(all[index as int], keep);
            assert(wanted == keep(all[index as int]));
        }
        let ghost before = result@;
        if wanted {
            result.push(columns[index].clone());
            assert(texts(result@) =~= texts(before).push(all[index as int]));
        }
        index = index + 1;
    }
    assert(all.take(all.len() as int) =~= all);
    result
}

/// The columns of a table that a bulk read loads: all but `blob_column`.
pub fn non_blob_columns(columns: &Vec<String>, blob_column: &str) -> (result: Vec<String>)
    ensures
        texts(result@) == texts(columns@).filter(|name: Seq<char>| name != blob_column@),
{
    let ghost all = texts(columns@);
    let ghost keep = |name: Seq<char>| name != blob_column@;
    let mut result: Vec<String> = Vec::new();
    let mut index: usize = 0;
    assert(all.take(0).filter(keep) =~= Seq::<Seq<char>>::empty());
    assert(texts(result@) =~= Seq::<Seq<char>>::empty());
    while index < columns.len()
        invariant
            index <= columns.len(),
            all == texts(columns@),
            keep == (|name: Seq<char>| name != blob_column@),
            texts(result@) == all.take(index as int).filter(keep),
        decreases columns.len() - index,
    {
        let wanted = !same_text(columns[index].as_str(), blob_column);
        proof {
            assert(all.take(index + 1) =~= all.take(index as int).push(all[index as int]));
            all.take(index as int).lemma_filter_push(all[index as int], keep);
            assert(wanted == keep(all[index as int]));
        }
        let ghost before = result@;
        if wanted {
            result.push(columns[index].clone());
            assert(texts(result@) =~= texts(before).push(all[index as int]));
        }
        index = index + 1;
    }
    assert(all.take(all.len() as int) =~= all);
    result
}

/// A read loads the text, the binary payload and the embedding each where it is
/// asked for, and every other column always.
pub proof fn law_a_projection_leaves_out_only_what_is_unwanted(
    projection: ReadProjection,
    column: Seq<char>,
)
    ensures
        column == "text_payload"@ ==> projection.reads(column) == projection.text,
        column == "binary_payload"@ ==> projection.reads(column) == projection.binary,
        column == "embedding"@ ==> projection.reads(column) == projection.embedding,
        column != "text_payload"@ && column != "binary_payload"@ && column != "embedding"@
            ==> projection.reads(column),
{
    reveal_strlit("text_payload");
    reveal_strlit("binary_payload");
    reveal_strlit("embedding");
    assert("text_payload"@.len() == 12 && "binary_payload"@.len() == 14 && "embedding"@.len() == 9);
}

} // verus!
