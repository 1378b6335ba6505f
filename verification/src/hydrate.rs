//! Hydration and the degraded paths: resolving ranked identifiers back to
//! authoritative records in rank order, and deciding between the full-text
//! engine, the store's substring fallback and plain browsing.

use crate::query::SearchFacets;
use crate::query::SearchParams;
use crate::query::SearchResponse;
use crate::text;
use vstd::prelude::*;
use vstd::string::StringExecFns;

verus! {

/// Upper bound accepted for a page size.
pub const MAX_PAGE_LIMIT: usize = 100;

/// The requested page size: defaults to 20, clamped into `0..=100`.
pub open spec fn spec_effective_limit(limit: Option<i64>) -> int {
    let l = match limit {
        Some(v) => v as int,
        None => 20,
    };
    if l < 0 {
        0
    } else if l > MAX_PAGE_LIMIT as int {
        MAX_PAGE_LIMIT as int
    } else {
        l
    }
}

/// The requested page offset: defaults to 0; a negative value (which the
/// store would reject) reads as 0; otherwise the offset is carried through
/// unchanged, limited only by what the machine word can hold.
pub open spec fn spec_effective_offset(offset: Option<i64>) -> int {
    let o = match offset {
        Some(v) => v as int,
        None => 0,
    };
    if o < 0 {
        0
    } else if o > usize::MAX as int {
        usize::MAX as int
    } else {
        o
    }
}

/// Clamped page size for a request.
pub fn effective_limit(limit: &Option<i64>) -> (r: usize)
    ensures
        r == spec_effective_limit(*limit),
        r <= MAX_PAGE_LIMIT,
{
    let l: i64 = match limit {
        Some(v) => *v,
        None => 20,
    };
    if l < 0 {
        0
    } else if l > MAX_PAGE_LIMIT as i64 {
        MAX_PAGE_LIMIT
    } else {
        l as usize
    }
}

/// Effective page offset for a request.
pub fn effective_offset(offset: &Option<i64>) -> (r: usize)
    ensures
        r == spec_effective_offset(*offset),
{
    let o: i64 = match offset {
        Some(v) => *v,
        None => 0,
    };
    if o < 0 {
        0
    } else if o as u64 > usize::MAX as u64 {
        usize::MAX
    } else {
        o as usize
    }
}

/// Whether results are to be listed newest first; anything but an explicit
/// `asc` means descending.
pub open spec fn spec_descending(order: Option<String>) -> bool {
    !(order matches Some(o) && o@ == "asc"@)
}

/// Decides the order direction of a request.
pub fn is_descending(order: &Option<String>) -> (r: bool)
    ensures
        r == spec_descending(*order),
{
    match order {
        Some(o) => !text::str_eq(o.as_str(), "asc"),
        None => true,
    }
}

/// How a papers request is served.
pub enum RequestPlan {
    /// A non-blank query with an index available: ranked retrieval.
    FullText { limit: usize, offset: usize },
    /// A non-blank query without an index: substring match against the
    /// store, ordered by recency.
    StoreFallback { pattern: String, limit: usize, offset: usize, descending: bool },
    /// A blank or absent query: list records from the store; the engine is
    /// never invoked.
    Browse { limit: usize, offset: usize, descending: bool },
}

/// The effective query text of a request, `q` before the legacy `search`.
pub open spec fn spec_query(p: SearchParams) -> Option<Seq<char>> {
    match p.q {
        Some(q) => Some(q@),
        None => match p.search {
            Some(s) => Some(s@),
            None => None,
        },
    }
}

/// A request is a browse when it carries no query text or only whitespace.
pub open spec fn spec_is_browse(p: SearchParams) -> bool {
    match spec_query(p) {
        Some(q) => text::is_blank_seq(q),
        None => true,
    }
}

/// Decides how to serve a papers request.  A blank query browses the store
/// and never invokes the engine; a real query uses the engine when an index
/// handle exists and otherwise falls back to a store substring match with
/// the query wrapped in SQL `LIKE` wildcards.  The fallback path never
/// raises an engine error: no plan other than `FullText` touches the index.
pub fn plan_papers_request(params: &SearchParams, index_available: bool) -> (p: RequestPlan)
    ensures
        (p is Browse <==> spec_is_browse(*params)),
        (p is FullText <==> !spec_is_browse(*params) && index_available),
        (p is StoreFallback <==> !spec_is_browse(*params) && !index_available),
        p matches RequestPlan::FullText { limit, offset } ==> limit == spec_effective_limit(
            params.limit,
        ) && offset == spec_effective_offset(params.offset),
        p matches RequestPlan::StoreFallback { pattern, limit, offset, descending } ==> {
            &&& pattern@ == seq!['%'] + spec_query(*params)->Some_0 + seq!['%']
            &&& limit == spec_effective_limit(params.limit)
            &&& offset == spec_effective_offset(params.offset)
            &&& descending == spec_descending(params.order)
        },
        p matches RequestPlan::Browse { limit, offset, descending } ==> {
            &&& limit == spec_effective_limit(params.limit)
            &&& offset == spec_effective_offset(params.offset)
            &&& descending == spec_descending(params.order)
        },
{
    let limit = effective_limit(&params.limit);
    let offset = effective_offset(&params.offset);
    let descending = is_descending(&params.order);
    let query: Option<&str> = params.get_query();
    match query {
        None => RequestPlan::Browse { limit, offset, descending },
        Some(q) => {
            if text::is_blank(q) {
                RequestPlan::Browse { limit, offset, descending }
            } else if index_available {
                RequestPlan::FullText { limit, offset }
            } else {
                proof {
                    reveal_strlit("%");
                }
                let mut pattern = String::new();
                pattern.append("%");
                pattern.append(q);
                pattern.append("%");
                proof {
                    assert(pattern@ =~= seq!['%'] + spec_query(*params)->Some_0 + seq!['%']);
                }
                RequestPlan::StoreFallback { pattern, limit, offset, descending }
            }
        },
    }
}

/// Response of the store fallback path: the page the store returned, a hit
/// total that reflects only the returned page length (no true count exists
/// on this path), and no facet summary.
pub fn fallback_response<T>(records: Vec<T>) -> (r: SearchResponse<T>)
    ensures
        r.papers@ == records@,
        r.total_hits == records@.len(),
        r.facets is None,
{
    let total = records.len();
    SearchResponse { papers: records, total_hits: total, facets: None }
}

/// Response of the browsing path: the listed page with its length as the
/// total, no facets.
pub fn browse_response<T>(records: Vec<T>) -> (r: SearchResponse<T>)
    ensures
        r.papers@ == records@,
        r.total_hits == records@.len(),
        r.facets is None,
{
    let total = records.len();
    SearchResponse { papers: records, total_hits: total, facets: None }
}

/// Assembles the hydrated response of the full-text path.
pub fn hydrated_response<T>(records: Vec<T>, total_hits: usize, facets: Option<SearchFacets>) -> (r:
    SearchResponse<T>)
    ensures
        r.papers@ == records@,
        r.total_hits == total_hits,
        r.facets == facets,
{
    SearchResponse { papers: records, total_hits, facets }
}

/// Index (into the record list) of the record carrying `id`; when several
/// records carry it, the last one, matching a map built by insertion.
pub open spec fn spec_lookup_idx(rec_ids: Seq<Seq<char>>, id: Seq<char>) -> Option<int>
    decreases rec_ids.len(),
{
    if rec_ids.len() == 0 {
        None
    } else if rec_ids.last() == id {
        Some(rec_ids.len() - 1)
    } else {
        spec_lookup_idx(rec_ids.drop_last(), id)
    }
}

/// The hydration order: for each ranked identifier, in rank order, the
/// index of its record; identifiers without a record (store/index
/// divergence) are dropped, not errors.
pub open spec fn spec_hydrate_idx(ids: Seq<Seq<char>>, rec_ids: Seq<Seq<char>>) -> Seq<int>
    decreases ids.len(),
{
    if ids.len() == 0 {
        Seq::empty()
    } else {
        match spec_lookup_idx(rec_ids, ids[0]) {
            Some(j) => seq![j] + spec_hydrate_idx(ids.drop_first(), rec_ids),
            None => spec_hydrate_idx(ids.drop_first(), rec_ids),
        }
    }
}

proof fn lemma_hydrate_idx_push(ids: Seq<Seq<char>>, rec_ids: Seq<Seq<char>>, id: Seq<char>)
    ensures
        spec_hydrate_idx(ids.push(id), rec_ids) == spec_hydrate_idx(ids, rec_ids) + (
        match spec_lookup_idx(rec_ids, id) {
            Some(j) => seq![j],
            None => Seq::<int>::empty(),
        }),
    decreases ids.len(),
{
    let tail = match spec_lookup_idx(rec_ids, id) {
        Some(j) => seq![j],
        None => Seq::<int>::empty(),
    };
    if ids.len() == 0 {
        reveal_with_fuel(spec_hydrate_idx, 3);
        assert(ids.push(id)[0] == id);
        assert(ids.push(id).drop_first() =~= Seq::<Seq<char>>::empty());
        assert(spec_hydrate_idx(ids.push(id), rec_ids) =~= tail);
        assert(spec_hydrate_idx(ids, rec_ids) + tail =~= tail);
    } else {
        assert(ids.push(id).drop_first() =~= ids.drop_first().push(id));
        assert(ids.push(id)[0] == ids[0]);
        lemma_hydrate_idx_push(ids.drop_first(), rec_ids, id);
        match spec_lookup_idx(rec_ids, ids[0]) {
            Some(j) => {
                assert(seq![j] + (spec_hydrate_idx(ids.drop_first(), rec_ids) + tail) =~= (
                seq![j] + spec_hydrate_idx(ids.drop_first(), rec_ids)) + tail);
            },
            None => {},
        }
    }
}

/// Finds the record position for one identifier, scanning from the end so
/// that the last record with a duplicated identifier wins, as with a map
/// built by insertion.
fn lookup_idx(rec_ids: &Vec<String>, id: &String) -> (r: Option<usize>)
    ensures
        match r {
            Some(u) => Some(u as int) == spec_lookup_idx(crate::query::strs_view(rec_ids@), id@)
                && u < rec_ids@.len(),
            None => spec_lookup_idx(crate::query::strs_view(rec_ids@), id@) is None,
        },
{
    let ghost rv = crate::query::strs_view(rec_ids@);
    let mut j: usize = rec_ids.len();
    proof {
        assert(rv.take(rec_ids@.len() as int) =~= rv);
    }
    while j > 0
        invariant
            0 <= j <= rec_ids@.len(),
            rv == crate::query::strs_view(rec_ids@),
            spec_lookup_idx(rv, id@) == spec_lookup_idx(rv.take(j as int), id@),
        decreases j,
    {
        j = j - 1;
        proof {
            assert(rv.take(j + 1).last() == rv[j as int]);
            assert(rv.take(j + 1).drop_last() =~= rv.take(j as int));
        }
        if text::str_eq(rec_ids[j].as_str(), id.as_str()) {
            return Some(j);
        }
    }
    proof {
        assert(rv.take(0) =~= Seq::<Seq<char>>::empty());
    }
    None
}

/// Computes the hydration order: the positions, within the batch the store
/// returned, of the ranked identifiers, preserving rank order and silently
/// dropping identifiers whose record is missing.
pub fn reorder_to_indices(ids: &Vec<String>, rec_ids: &Vec<String>) -> (r: Vec<usize>)
    ensures
        r@.map_values(|u: usize| u as int) == spec_hydrate_idx(
            crate::query::strs_view(ids@),
            crate::query::strs_view(rec_ids@),
        ),
        forall|i: int| 0 <= i < r@.len() ==> (#[trigger] r@[i]) < rec_ids@.len(),
{
    let ghost iv = crate::query::strs_view(ids@);
    let ghost rv = crate::query::strs_view(rec_ids@);
    let mut out: Vec<usize> = Vec::new();
    let mut i: usize = 0;
    proof {
        assert(iv.take(0) =~= Seq::<Seq<char>>::empty());
        assert(out@.map_values(|u: usize| u as int) =~= Seq::<int>::empty());
    }
    while i < ids.len()
        invariant
            0 <= i <= ids@.len(),
            iv == crate::query::strs_view(ids@),
            rv == crate::query::strs_view(rec_ids@),
            out@.map_values(|u: usize| u as int) == spec_hydrate_idx(iv.take(i as int), rv),
            forall|k: int| 0 <= k < out@.len() ==> (#[trigger] out@[k]) < rec_ids@.len(),
        decreases ids@.len() - i,
    {
        proof {
            assert(iv.take(i + 1) =~= iv.take(i as int).push(iv[i as int]));
            lemma_hydrate_idx_push(iv.take(i as int), rv, iv[i as int]);
        }
        match lookup_idx(rec_ids, &ids[i]) {
            Some(j) => {
                let ghost pre = out@;
                out.push(j);
                proof {
                    assert(out@.map_values(|u: usize| u as int) =~= pre.map_values(
                        |u: usize| u as int,
                    ).push(j as int));
                }
            },
            None => {},
        }
        i = i + 1;
    }
    proof {
        assert(iv.take(ids@.len() as int) =~= iv);
    }
    out
}

} // verus!
