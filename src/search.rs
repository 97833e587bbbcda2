//! Fan-out search: one query asked of several sources' indexes, each
//! source's best hits kept under that source.
use crate::engine::top_hits;
use crate::indexer::{IndexMap, ReaderMap};
use vstd::prelude::*;

verus! {

/// How many hits per source a search keeps when no limit is given.
pub const DEFAULT_LIMIT: usize = 10;

/// One hit: its relevance score, as the bit pattern of the engine's float,
/// and the stored document as JSON.
#[derive(Debug, Clone)]
pub struct IndexResult {
    pub score_bits: u32,
    pub document: String,
}

/// The hits of each searched source, by its place in the source table;
/// `None` for a source that was not searched.
pub type SearchResults = Vec<Option<Vec<IndexResult>>>;

/// The limit a search works with.
pub open spec fn effective_limit(maybe_limit: Option<usize>) -> usize {
    match maybe_limit {
        Some(l) => l,
        None => DEFAULT_LIMIT,
    }
}

/// Whether a source is searched: it was selected, and it has both an index
/// and a reader.
pub open spec fn is_searched(
    indexes: Seq<Option<tantivy::Index>>,
    readers: Seq<Option<tantivy::IndexReader>>,
    selected: Seq<usize>,
    i: int,
) -> bool {
    &&& selected.contains(i as usize)
    &&& 0 <= i < indexes.len()
    &&& indexes[i] is Some
    &&& i < readers.len()
    &&& readers[i] is Some
}

/// Whether there are at most `limit` hits.
pub open spec fn within_limit(hits: Seq<IndexResult>, limit: int) -> bool {
    hits.len() <= limit
}

/// The results of what the engine found for one source: one per hit, with
/// its score and stored document, in the engine's order; none when the
/// engine reported an error, such as a query it cannot parse.
pub fn results_from_hits(found: Result<Vec<(u32, String)>, tantivy::TantivyError>) -> (r: Vec<
    IndexResult,
>)
    ensures
        found is Err ==> r@.len() == 0,
        found matches Ok(hits) ==> r@.len() == hits@.len() && forall|k: int|
            0 <= k < hits@.len() ==> (#[trigger] r@[k]).score_bits == hits@[k].0
                && r@[k].document@ == hits@[k].1@,
{
    let mut out: Vec<IndexResult> = Vec::new();
    let hits = match found {
        Ok(hits) => hits,
        Err(_) => return out,
    };
    let mut i: usize = 0;
    while i < hits.len()
        invariant
            i <= hits@.len(),
            out@.len() == i,
            forall|k: int|
                0 <= k < i ==> (#[trigger] out@[k]).score_bits == hits@[k].0
                    && out@[k].document@ == hits@[k].1@,
        decreases hits@.len() - i,
    {
        let (score_bits, document) = (hits[i].0, hits[i].1.clone());
        out.push(IndexResult { score_bits, document });
        i = i + 1;
    }
    out
}

/// The best hits of one source for `query`, at most `limit` of them, in the
/// engine's ranking order, each with its stored document. A query the source cannot parse,
/// or a failure of its engine, yields no hits.
pub fn search_source(reader: &tantivy::IndexReader, query: &str, limit: usize) -> (r: Vec<
    IndexResult,
>)
    ensures
        within_limit(r@, limit as int),
        limit == 0 ==> r@.len() == 0,
{
    if limit == 0 {
        let none: Vec<IndexResult> = Vec::new();
        return none;
    }
    let found = top_hits(reader, query, limit);
    results_from_hits(found)
}

/// Asks `query` of each selected source that has both an index and a
/// reader, keeping at most `maybe_limit` hits (ten when none is given) per
/// source, in the engine's ranking order. Other sources get no entry; a source whose search
/// fails gets an empty one.
pub fn search_indexes(
    indexes: &IndexMap,
    readers: &ReaderMap,
    selected: &Vec<usize>,
    query: &str,
    maybe_limit: Option<usize>,
) -> (r: SearchResults)
    ensures
        r@.len() == indexes@.len(),
        forall|i: int|
            0 <= i < r@.len() ==> ((#[trigger] r@[i]) is Some <==> is_searched(
                indexes@,
                readers@,
                selected@,
                i,
            )),
        forall|i: int|
            0 <= i < r@.len() && (#[trigger] r@[i]) is Some ==> within_limit(
                r@[i]->0@,
                effective_limit(maybe_limit) as int,
            ),
{
    let limit = match maybe_limit {
        Some(l) => l,
        None => DEFAULT_LIMIT,
    };
    let mut results: SearchResults = Vec::new();
    let mut i: usize = 0;
    while i < indexes.len()
        invariant
            i <= indexes@.len(),
            results@.len() == i,
            limit == effective_limit(maybe_limit),
            forall|k: int|
                0 <= k < i ==> ((#[trigger] results@[k]) is Some <==> is_searched(
                    indexes@,
                    readers@,
                    selected@,
                    k,
                )),
            forall|k: int|
                0 <= k < i && (#[trigger] results@[k]) is Some ==> within_limit(
                    results@[k]->0@,
                    limit as int,
                ),
        decreases indexes@.len() - i,
    {
        let wanted = contains_source(selected, i);
        let entry = if wanted && i < readers.len() {
            match (&indexes[i], &readers[i]) {
                (Some(_), Some(reader)) => Some(search_source(reader, query, limit)),
                _ => None,
            }
        } else {
            None
        };
        results.push(entry);
        i = i + 1;
    }
    results
}

/// Whether `selected` names the source at place `i`.
pub fn contains_source(selected: &Vec<usize>, i: usize) -> (r: bool)
    ensures
        r == selected@.contains(i),
{
    let mut k: usize = 0;
    while k < selected.len()
        invariant
            k <= selected@.len(),
            forall|j: int| 0 <= j < k ==> selected@[j] != i,
        decreases selected@.len() - k,
    {
        if selected[k] == i {
            return true;
        }
        k = k + 1;
    }
    false
}

/// A search of no sources has no entries.
pub proof fn lemma_search_of_no_sources(
    indexes: Seq<Option<tantivy::Index>>,
    readers: Seq<Option<tantivy::IndexReader>>,
)
    ensures
        forall|i: int| !is_searched(indexes, readers, Seq::<usize>::empty(), i),
{
}

} // verus!
