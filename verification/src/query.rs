//! The query engine: free-text retrieval with an optional date filter,
//! bounded top-K collection, pagination and date-histogram facets.

use crate::dates::date_of_secs;
use crate::dates::Date;
use crate::dates::SECS_PER_DAY;
use crate::engine;
use crate::engine::addr_in;
use crate::engine::doc_date_at;
use crate::engine::doc_date_values;
use crate::engine::some_date_in;
use crate::engine::doc_id_at;
use crate::engine::parse_ok;
use crate::engine::range_spec;
use crate::engine::ranked_hits;
use crate::engine::seq_prefix;
use crate::error::is_parse_err;
use crate::error::SearchError;
use crate::index::MAX_INDEXABLE_SECS;
use crate::index::MIN_INDEXABLE_SECS;
use tantivy::DocAddress;
use tantivy::Searcher;
use vstd::pervasive::VecAdditionalExecFns;
use vstd::prelude::*;

verus! {

/// How many hits beyond the requested page the collector gathers, so that
/// `total_hits` approximates the match count without a full scan.  Beyond
/// `offset + limit + OVER_FETCH` the reported total undercounts; API
/// consumers must not treat it as exact.
pub const OVER_FETCH: usize = 1000;

/// Facets are computed over at most this many of the top-ranked hits,
/// independently of pagination.
pub const FACET_SAMPLE_CAP: usize = 10000;

/// Search query parameters.
pub struct SearchParams {
    /// Full-text search query.
    pub q: Option<String>,
    /// Pagination limit.
    pub limit: Option<i64>,
    /// Pagination offset.
    pub offset: Option<i64>,
    /// Order by field (relevance, published_date).
    pub order_by: Option<String>,
    /// Order direction (asc, desc).
    pub order: Option<String>,
    /// Filter: papers published on or after this date.
    pub date_from: Option<Date>,
    /// Filter: papers published on or before this date.
    pub date_to: Option<Date>,
    /// Legacy search parameter, used only when `q` is absent.
    pub search: Option<String>,
}

impl SearchParams {
    /// Well-formedness: present filter dates are real calendar dates.
    pub open spec fn wf(self) -> bool {
        &&& (self.date_from matches Some(d) ==> d.valid())
        &&& (self.date_to matches Some(d) ==> d.valid())
    }

    /// The effective free-text query: `q` takes precedence over the legacy
    /// `search` parameter.
    pub fn get_query(&self) -> (r: Option<&str>)
        ensures
            self.q matches Some(qs) ==> (r matches Some(s) && s@ == qs@),
            (self.q is None && self.search is Some) ==> (r matches Some(s) && s@
                == self.search->Some_0@),
            self.q is None && self.search is None ==> r is None,
    {
        match &self.q {
            Some(s) => Some(s.as_str()),
            None => match &self.search {
                Some(s) => Some(s.as_str()),
                None => None,
            },
        }
    }
}

/// One month bucket of the publication-date histogram.
#[derive(Clone, Copy, PartialEq, Eq, Structural, Debug)]
pub struct DateBucket {
    pub year: i32,
    pub month: u32,
    pub count: u64,
}

/// Faceted search results.
#[derive(Debug)]
pub struct SearchFacets {
    pub date_histogram: Vec<DateBucket>,
}

/// Search response with records, an (approximate, capped) hit total and
/// optional facets.
pub struct SearchResponse<T> {
    pub papers: Vec<T>,
    pub total_hits: usize,
    pub facets: Option<SearchFacets>,
}

/// Result of a ranked index search: page of record identifiers in rank
/// order, capped hit total, facets.
#[derive(Debug)]
pub struct TantivySearchResult {
    pub paper_ids: Vec<String>,
    pub total_hits: usize,
    pub facets: Option<SearchFacets>,
}

/// Whether the request carries a date filter.
pub open spec fn has_date_filter(p: SearchParams) -> bool {
    p.date_from is Some || p.date_to is Some
}

/// The lower second bound handed to the engine: the first second of
/// `date_from` (or the representable minimum), clamped up to the
/// representable window.
pub open spec fn spec_lo_secs(p: SearchParams) -> int {
    let raw = match p.date_from {
        Some(d) => d.spec_day_number() * SECS_PER_DAY,
        None => MIN_INDEXABLE_SECS as int,
    };
    if raw < MIN_INDEXABLE_SECS as int {
        MIN_INDEXABLE_SECS as int
    } else {
        raw
    }
}

/// The upper second bound handed to the engine: the last second of
/// `date_to` (or the representable maximum), clamped down to the
/// representable window.
pub open spec fn spec_hi_secs(p: SearchParams) -> int {
    let raw = match p.date_to {
        Some(d) => d.spec_day_number() * SECS_PER_DAY + (SECS_PER_DAY - 1),
        None => MAX_INDEXABLE_SECS as int,
    };
    if raw > MAX_INDEXABLE_SECS as int {
        MAX_INDEXABLE_SECS as int
    } else {
        raw
    }
}

/// The full ranked hit list a request is answered from: the text query
/// alone, or AND-combined with the date filter; a filter window lying
/// entirely outside the representable dates matches nothing.
pub open spec fn spec_ranked(s: Searcher, q: Seq<char>, p: SearchParams) -> Seq<DocAddress> {
    if !has_date_filter(p) {
        ranked_hits(s, q, None, None)
    } else if spec_lo_secs(p) > spec_hi_secs(p) {
        Seq::empty()
    } else {
        ranked_hits(s, q, Some(spec_lo_secs(p)), Some(spec_hi_secs(p)))
    }
}

/// The smaller of two integers.
pub open spec fn spec_min(a: int, b: int) -> int {
    if a <= b {
        a
    } else {
        b
    }
}

/// The page cut out of the capped hit list: skip `offset`, take `limit`.
pub open spec fn page_slice(hits: Seq<DocAddress>, offset: int, limit: int) -> Seq<DocAddress> {
    hits.subrange(spec_min(offset, hits.len() as int), spec_min(offset + limit, hits.len() as int))
}

/// The stored identifiers of a hit sequence, in order, skipping hits whose
/// document stores none.
pub open spec fn ids_of(s: Searcher, addrs: Seq<DocAddress>) -> Seq<Seq<char>>
    decreases addrs.len(),
{
    if addrs.len() == 0 {
        Seq::empty()
    } else {
        match doc_id_at(s, addrs[0]) {
            Some(id) => seq![id] + ids_of(s, addrs.drop_first()),
            None => ids_of(s, addrs.drop_first()),
        }
    }
}

/// Views of a vector of strings.
pub open spec fn strs_view(v: Seq<String>) -> Seq<Seq<char>> {
    v.map_values(|x: String| x@)
}

proof fn lemma_ids_of_push(s: Searcher, t: Seq<DocAddress>, a: DocAddress)
    ensures
        ids_of(s, t.push(a)) == ids_of(s, t) + (match doc_id_at(s, a) {
            Some(id) => seq![id],
            None => Seq::<Seq<char>>::empty(),
        }),
    decreases t.len(),
{
    let tail = match doc_id_at(s, a) {
        Some(id) => seq![id],
        None => Seq::<Seq<char>>::empty(),
    };
    if t.len() == 0 {
        reveal_with_fuel(ids_of, 3);
        assert(t.push(a).len() == 1);
        assert(t.push(a)[0] == a);
        assert(t.push(a).drop_first() =~= Seq::<DocAddress>::empty());
        assert(ids_of(s, t.push(a)) =~= tail);
        assert(ids_of(s, t) + tail =~= tail);
    } else {
        assert(t.push(a).drop_first() =~= t.drop_first().push(a));
        lemma_ids_of_push(s, t.drop_first(), a);
        assert(t.push(a)[0] == t[0]);
        match doc_id_at(s, t[0]) {
            Some(id) => {
                assert(seq![id] + (ids_of(s, t.drop_first()) + tail) =~= (seq![id] + ids_of(
                    s,
                    t.drop_first(),
                )) + tail);
            },
            None => {},
        }
    }
}

proof fn lemma_ids_of_concat(s: Searcher, x: Seq<DocAddress>, y: Seq<DocAddress>)
    ensures
        ids_of(s, x + y) == ids_of(s, x) + ids_of(s, y),
    decreases x.len(),
{
    if x.len() == 0 {
        assert(x + y =~= y);
        assert(ids_of(s, x) + ids_of(s, y) =~= ids_of(s, y));
    } else {
        assert((x + y).drop_first() =~= x.drop_first() + y);
        assert((x + y)[0] == x[0]);
        assert((x + y).len() > 0);
        lemma_ids_of_concat(s, x.drop_first(), y);
        match doc_id_at(s, x[0]) {
            Some(id) => {
                assert(seq![id] + (ids_of(s, x.drop_first()) + ids_of(s, y)) =~= (seq![id]
                    + ids_of(s, x.drop_first())) + ids_of(s, y));
            },
            None => {},
        }
    }
}

/// A valid date whose day window contains the second `ds`.
pub open spec fn covers(d: Date, ds: int) -> bool {
    d.valid() && d.spec_day_number() * SECS_PER_DAY <= ds < (d.spec_day_number() + 1)
        * SECS_PER_DAY
}

/// The second count decodes to a calendar date of the supported years.
pub open spec fn decodable_secs(ds: int) -> bool {
    exists|d: Date| covers(d, ds)
}

/// A hit contributes to the histogram when its document stores a date and
/// that date decodes to a supported calendar date.
pub open spec fn facet_eligible(s: Searcher, a: DocAddress) -> bool {
    match doc_date_at(s, a) {
        Some(ds) => decodable_secs(ds),
        None => false,
    }
}

/// How many of the hits contribute to the histogram.
pub open spec fn facet_count(s: Searcher, addrs: Seq<DocAddress>) -> int
    decreases addrs.len(),
{
    if addrs.len() == 0 {
        0
    } else {
        (if facet_eligible(s, addrs[0]) {
            1int
        } else {
            0int
        }) + facet_count(s, addrs.drop_first())
    }
}

proof fn lemma_facet_count_push(s: Searcher, t: Seq<DocAddress>, a: DocAddress)
    ensures
        facet_count(s, t.push(a)) == facet_count(s, t) + (if facet_eligible(s, a) {
            1int
        } else {
            0int
        }),
    decreases t.len(),
{
    if t.len() == 0 {
        reveal_with_fuel(facet_count, 3);
        assert(t.push(a)[0] == a);
        assert(t.push(a).drop_first() =~= Seq::<DocAddress>::empty());
    } else {
        assert(t.push(a).drop_first() =~= t.drop_first().push(a));
        assert(t.push(a)[0] == t[0]);
        lemma_facet_count_push(s, t.drop_first(), a);
    }
}

/// The histogram sample bound: no more hits contribute to the facets than
/// were scanned.
pub proof fn lemma_facet_count_le_len(s: Searcher, addrs: Seq<DocAddress>)
    ensures
        0 <= facet_count(s, addrs) <= addrs.len(),
    decreases addrs.len(),
{
    if addrs.len() > 0 {
        lemma_facet_count_le_len(s, addrs.drop_first());
    }
}

/// The document at `a` stores a date whose calendar decoding falls in
/// month `(y, m)`.
pub open spec fn hit_month(s: Searcher, a: DocAddress, y: int, m: int) -> bool {
    match doc_date_at(s, a) {
        Some(ds) => exists|d: Date| covers(d, ds) && d.year as int == y && d.month as int == m,
        None => false,
    }
}

/// How many of the hits fall in month `(y, m)`.
pub open spec fn month_count(s: Searcher, addrs: Seq<DocAddress>, y: int, m: int) -> int
    decreases addrs.len(),
{
    if addrs.len() == 0 {
        0
    } else {
        (if hit_month(s, addrs[0], y, m) {
            1int
        } else {
            0int
        }) + month_count(s, addrs.drop_first(), y, m)
    }
}

proof fn lemma_month_count_push(s: Searcher, t: Seq<DocAddress>, a: DocAddress, y: int, m: int)
    ensures
        month_count(s, t.push(a), y, m) == month_count(s, t, y, m) + (if hit_month(s, a, y, m) {
            1int
        } else {
            0int
        }),
    decreases t.len(),
{
    if t.len() == 0 {
        reveal_with_fuel(month_count, 3);
        assert(t.push(a)[0] == a);
        assert(t.push(a).drop_first() =~= Seq::<DocAddress>::empty());
    } else {
        assert(t.push(a).drop_first() =~= t.drop_first().push(a));
        assert(t.push(a)[0] == t[0]);
        lemma_month_count_push(s, t.drop_first(), a, y, m);
    }
}

/// The contribution of one bucket to the count of month `(y, m)`.
pub open spec fn key_contrib(b: DateBucket, y: int, m: int) -> int {
    if b.year as int == y && b.month as int == m {
        b.count as int
    } else {
        0
    }
}

/// The total the histogram reports for month `(y, m)`.
pub open spec fn bucket_count(bs: Seq<DateBucket>, y: int, m: int) -> int
    decreases bs.len(),
{
    if bs.len() == 0 {
        0
    } else {
        key_contrib(bs[0], y, m) + bucket_count(bs.drop_first(), y, m)
    }
}

proof fn lemma_bucket_count_update(bs: Seq<DateBucket>, p: int, b: DateBucket, y: int, m: int)
    requires
        0 <= p < bs.len(),
    ensures
        bucket_count(bs.update(p, b), y, m) == bucket_count(bs, y, m) - key_contrib(bs[p], y, m)
            + key_contrib(b, y, m),
    decreases bs.len(),
{
    if p == 0 {
        assert(bs.update(0, b).drop_first() =~= bs.drop_first());
        assert(bs.update(0, b)[0] == b);
    } else {
        assert(bs.update(p, b).drop_first() =~= bs.drop_first().update(p - 1, b));
        assert(bs.update(p, b)[0] == bs[0]);
        lemma_bucket_count_update(bs.drop_first(), p - 1, b, y, m);
    }
}

proof fn lemma_bucket_count_concat(x: Seq<DateBucket>, z: Seq<DateBucket>, y: int, m: int)
    ensures
        bucket_count(x + z, y, m) == bucket_count(x, y, m) + bucket_count(z, y, m),
    decreases x.len(),
{
    if x.len() == 0 {
        assert(x + z =~= z);
    } else {
        assert((x + z).drop_first() =~= x.drop_first() + z);
        assert((x + z)[0] == x[0]);
        lemma_bucket_count_concat(x.drop_first(), z, y, m);
    }
}

/// Strict descending order on bucket keys: most recent month first.
pub open spec fn bucket_key_gt(a: DateBucket, b: DateBucket) -> bool {
    a.year > b.year || (a.year == b.year && a.month > b.month)
}

/// The histogram is strictly sorted, most recent month first (so every
/// month appears at most once).
pub open spec fn buckets_sorted_desc(bs: Seq<DateBucket>) -> bool {
    forall|i: int, j: int|
        0 <= i < j < bs.len() ==> bucket_key_gt(#[trigger] bs[i], #[trigger] bs[j])
}

/// Every bucket counts at least one sampled hit.
pub open spec fn buckets_positive(bs: Seq<DateBucket>) -> bool {
    forall|i: int| 0 <= i < bs.len() ==> (#[trigger] bs[i]).count >= 1
}

/// Total of the bucket counts.
pub open spec fn sum_counts(bs: Seq<DateBucket>) -> int
    decreases bs.len(),
{
    if bs.len() == 0 {
        0
    } else {
        bs[0].count + sum_counts(bs.drop_first())
    }
}

proof fn lemma_sum_nonneg(bs: Seq<DateBucket>)
    requires
        buckets_positive(bs),
    ensures
        sum_counts(bs) >= bs.len(),
    decreases bs.len(),
{
    if bs.len() > 0 {
        assert(buckets_positive(bs.drop_first())) by {
            assert(forall|i: int|
                0 <= i < bs.drop_first().len() ==> #[trigger] bs.drop_first()[i] == bs[i + 1]);
        }
        lemma_sum_nonneg(bs.drop_first());
    }
}

proof fn lemma_sum_update(bs: Seq<DateBucket>, p: int, b: DateBucket)
    requires
        0 <= p < bs.len(),
    ensures
        sum_counts(bs.update(p, b)) == sum_counts(bs) - bs[p].count + b.count,
    decreases bs.len(),
{
    if p == 0 {
        assert(bs.update(0, b).drop_first() =~= bs.drop_first());
        assert(bs.update(0, b)[0] == b);
    } else {
        assert(bs.update(p, b).drop_first() =~= bs.drop_first().update(p - 1, b));
        assert(bs.update(p, b)[0] == bs[0]);
        lemma_sum_update(bs.drop_first(), p - 1, b);
    }
}

proof fn lemma_sum_concat(x: Seq<DateBucket>, y: Seq<DateBucket>)
    ensures
        sum_counts(x + y) == sum_counts(x) + sum_counts(y),
    decreases x.len(),
{
    if x.len() == 0 {
        assert(x + y =~= y);
    } else {
        assert((x + y).drop_first() =~= x.drop_first() + y);
        assert((x + y)[0] == x[0]);
        lemma_sum_concat(x.drop_first(), y);
    }
}

/// The contract of a computed facet summary over the sampled hits: for
/// every month, the histogram reports exactly the number of sampled hits
/// whose stored date decodes into that month (so each bucket's count is
/// that month's sample count, months without dated hits have no bucket,
/// and two summaries of one sample are equal); the bucket counts add up to
/// exactly the sampled hits that carry a decodable date; the histogram is
/// strictly sorted most recent first; and no bucket is empty.
pub open spec fn facets_wf(f: SearchFacets, s: Searcher, sample: Seq<DocAddress>) -> bool {
    &&& forall|y: int, m: int|
        #![trigger bucket_count(f.date_histogram@, y, m)]
        #![trigger month_count(s, sample, y, m)]
        bucket_count(f.date_histogram@, y, m) == month_count(s, sample, y, m)
    &&& sum_counts(f.date_histogram@) == facet_count(s, sample)
    &&& buckets_sorted_desc(f.date_histogram@)
    &&& buckets_positive(f.date_histogram@)
}

/// Raises the count of the bucket for `(year, month)` by one, inserting the
/// bucket at its sorted position when it is new.
fn bump_bucket(buckets: &mut Vec<DateBucket>, year: i32, month: u32)
    requires
        buckets_sorted_desc(old(buckets)@),
        buckets_positive(old(buckets)@),
        sum_counts(old(buckets)@) < 100_000,
    ensures
        buckets_sorted_desc(final(buckets)@),
        buckets_positive(final(buckets)@),
        sum_counts(final(buckets)@) == sum_counts(old(buckets)@) + 1,
        forall|y: int, m: int|
            #![trigger bucket_count(final(buckets)@, y, m)]
            bucket_count(final(buckets)@, y, m) == bucket_count(old(buckets)@, y, m) + (if y
                == year as int && m == month as int {
                1int
            } else {
                0int
            }),
{
    proof {
        lemma_sum_nonneg(old(buckets)@);
        lemma_sum_bounds_counts(old(buckets)@);
    }
    let mut p: usize = 0;
    while p < buckets.len() && (buckets[p].year > year || (buckets[p].year == year
        && buckets[p].month > month))
        invariant
            0 <= p <= buckets@.len(),
            forall|i: int|
                0 <= i < p ==> bucket_key_gt(
                    #[trigger] buckets@[i],
                    DateBucket { year, month, count: 1 },
                ),
            buckets@ == old(buckets)@,
        decreases buckets@.len() - p,
    {
        p = p + 1;
    }
    if p < buckets.len() && buckets[p].year == year && buckets[p].month == month {
        let b = buckets[p];
        let nb = DateBucket { year: b.year, month: b.month, count: b.count + 1 };
        buckets.set(p, nb);
        proof {
            lemma_sum_update(old(buckets)@, p as int, nb);
            assert forall|y: int, m: int|
                #![trigger bucket_count(buckets@, y, m)]
                bucket_count(buckets@, y, m) == bucket_count(old(buckets)@, y, m) + (if y
                    == year as int && m == month as int {
                    1int
                } else {
                    0int
                }) by {
                lemma_bucket_count_update(old(buckets)@, p as int, nb, y, m);
            }
        }
    } else {
        let nb = DateBucket { year, month, count: 1 };
        buckets.insert(p, nb);
        proof {
            let pre = old(buckets)@;
            let post = buckets@;
            assert(post =~= pre.subrange(0, p as int) + seq![nb] + pre.subrange(
                p as int,
                pre.len() as int,
            ));
            lemma_sum_concat(pre.subrange(0, p as int) + seq![nb], pre.subrange(
                p as int,
                pre.len() as int,
            ));
            lemma_sum_concat(pre.subrange(0, p as int), seq![nb]);
            assert(sum_counts(seq![nb]) == 1) by {
                reveal_with_fuel(sum_counts, 3);
                assert(seq![nb].len() == 1);
                assert(seq![nb][0] == nb);
                assert(seq![nb].drop_first() =~= Seq::<DateBucket>::empty());
            }
            assert(pre.subrange(0, p as int) + pre.subrange(p as int, pre.len() as int) =~= pre);
            lemma_sum_concat(pre.subrange(0, p as int), pre.subrange(p as int, pre.len() as int));
            assert forall|y: int, m: int|
                #![trigger bucket_count(post, y, m)]
                bucket_count(post, y, m) == bucket_count(pre, y, m) + (if y == year as int && m
                    == month as int {
                    1int
                } else {
                    0int
                }) by {
                lemma_bucket_count_concat(
                    pre.subrange(0, p as int) + seq![nb],
                    pre.subrange(p as int, pre.len() as int),
                    y,
                    m,
                );
                lemma_bucket_count_concat(pre.subrange(0, p as int), seq![nb], y, m);
                lemma_bucket_count_concat(
                    pre.subrange(0, p as int),
                    pre.subrange(p as int, pre.len() as int),
                    y,
                    m,
                );
                assert(bucket_count(seq![nb], y, m) == key_contrib(nb, y, m)) by {
                    reveal_with_fuel(bucket_count, 3);
                    assert(seq![nb][0] == nb);
                    assert(seq![nb].drop_first() =~= Seq::<DateBucket>::empty());
                }
            }
            assert forall|i: int, j: int| 0 <= i < j < post.len() implies bucket_key_gt(
                #[trigger] post[i],
                #[trigger] post[j],
            ) by {
                if i < p && j == p {
                    assert(post[i] == pre[i]);
                } else if i == p && j > p {
                    assert(post[j] == pre[j - 1]);
                    if p < pre.len() && j == p + 1 {
                    }
                } else if i < p && j > p {
                    assert(post[i] == pre[i] && post[j] == pre[j - 1]);
                } else if i > p {
                    assert(post[i] == pre[i - 1] && post[j] == pre[j - 1]);
                } else if j < p {
                    assert(post[i] == pre[i] && post[j] == pre[j]);
                }
            }
        }
    }
}

proof fn lemma_sum_bounds_counts(bs: Seq<DateBucket>)
    requires
        buckets_positive(bs),
    ensures
        forall|i: int| 0 <= i < bs.len() ==> (#[trigger] bs[i]).count <= sum_counts(bs),
    decreases bs.len(),
{
    if bs.len() > 0 {
        assert(buckets_positive(bs.drop_first())) by {
            assert(forall|i: int|
                0 <= i < bs.drop_first().len() ==> #[trigger] bs.drop_first()[i] == bs[i + 1]);
        }
        lemma_sum_bounds_counts(bs.drop_first());
        lemma_sum_nonneg(bs.drop_first());
        assert forall|i: int| 0 <= i < bs.len() implies (#[trigger] bs[i]).count <= sum_counts(
            bs,
        ) by {
            assert(sum_counts(bs) == bs[0].count + sum_counts(bs.drop_first()));
            if i > 0 {
                assert(bs.drop_first()[i - 1] == bs[i]);
            }
        }
    }
}

/// Computes the publication-date histogram over the first
/// `FACET_SAMPLE_CAP` ranked hits: one bucket per `(year, month)`, most
/// recent first, counting only hits whose document stores a decodable date.
/// The counts are a sample, not an exact aggregate over all matches.
pub fn collect_date_facets(s: &Searcher, hits: &Vec<DocAddress>) -> (r: Result<
    SearchFacets,
    SearchError,
>)
    requires
        forall|j: int| 0 <= j < hits@.len() ==> addr_in(*s, #[trigger] hits@[j]),
    ensures
        r matches Ok(f) ==> facets_wf(f, *s, seq_prefix(hits@, FACET_SAMPLE_CAP as int)),
        r matches Err(e) ==> e is Backend,
{
    let sample_len: usize = if hits.len() < FACET_SAMPLE_CAP {
        hits.len()
    } else {
        FACET_SAMPLE_CAP
    };
    let ghost sample = seq_prefix(hits@, FACET_SAMPLE_CAP as int);
    proof {
        assert(sample =~= hits@.subrange(0, sample_len as int));
    }
    let mut buckets: Vec<DateBucket> = Vec::new();
    let mut i: usize = 0;
    proof {
        assert forall|y: int, m: int|
            #![trigger month_count(*s, hits@.subrange(0, 0int), y, m)]
            bucket_count(buckets@, y, m) == month_count(*s, hits@.subrange(0, 0int), y, m) by {
            assert(hits@.subrange(0, 0int) =~= Seq::<DocAddress>::empty());
        }
    }
    while i < sample_len
        invariant
            0 <= i <= sample_len <= hits@.len(),
            sample_len <= FACET_SAMPLE_CAP,
            forall|t: int| 0 <= t < hits@.len() ==> addr_in(*s, #[trigger] hits@[t]),
            buckets_sorted_desc(buckets@),
            buckets_positive(buckets@),
            sum_counts(buckets@) == facet_count(*s, hits@.subrange(0, i as int)),
            sum_counts(buckets@) <= i,
            forall|y: int, m: int|
                #![trigger month_count(*s, hits@.subrange(0, i as int), y, m)]
                bucket_count(buckets@, y, m) == month_count(
                    *s,
                    hits@.subrange(0, i as int),
                    y,
                    m,
                ),
        decreases sample_len - i,
    {
        proof {
            assert(hits@.subrange(0, i + 1) =~= hits@.subrange(0, i as int).push(hits@[i as int]));
            lemma_facet_count_push(*s, hits@.subrange(0, i as int), hits@[i as int]);
        }
        let a = hits[i];
        match engine::stored_date(s, a) {
            Err(e) => {
                return Err(e);
            },
            Ok(None) => {
                proof {
                    assert(!facet_eligible(*s, hits@[i as int]));
                    assert forall|y: int, m: int|
                        #![trigger month_count(*s, hits@.subrange(0, i + 1), y, m)]
                        bucket_count(buckets@, y, m) == month_count(
                            *s,
                            hits@.subrange(0, i + 1),
                            y,
                            m,
                        ) by {
                        lemma_month_count_push(
                            *s,
                            hits@.subrange(0, i as int),
                            hits@[i as int],
                            y,
                            m,
                        );
                        assert(!hit_month(*s, hits@[i as int], y, m));
                    }
                }
            },
            Ok(Some(ds)) => {
                match date_of_secs(ds) {
                    Some(d) => {
                        proof {
                            assert(covers(d, ds as int));
                            assert(facet_eligible(*s, hits@[i as int]));
                        }
                        bump_bucket(&mut buckets, d.year as i32, d.month);
                        proof {
                            assert forall|y: int, m: int|
                                #![trigger month_count(*s, hits@.subrange(0, i + 1), y, m)]
                                bucket_count(buckets@, y, m) == month_count(
                                    *s,
                                    hits@.subrange(0, i + 1),
                                    y,
                                    m,
                                ) by {
                                lemma_month_count_push(
                                    *s,
                                    hits@.subrange(0, i as int),
                                    hits@[i as int],
                                    y,
                                    m,
                                );
                                if y == d.year as int && m == d.month as int {
                                    assert(hit_month(*s, hits@[i as int], y, m));
                                } else {
                                    if hit_month(*s, hits@[i as int], y, m) {
                                        let d2 = choose|d2: Date|
                                            covers(d2, ds as int) && d2.year as int == y
                                                && d2.month as int == m;
                                        assert(d2.spec_day_number() == d.spec_day_number());
                                        crate::dates::lemma_day_number_injective(d2, d);
                                        assert(false);
                                    }
                                }
                            }
                        }
                    },
                    None => {
                        proof {
                            assert(!decodable_secs(ds as int)) by {
                                if exists|d: Date| covers(d, ds as int) {
                                    let d = choose|d: Date| covers(d, ds as int);
                                    assert(false);
                                }
                            }
                            assert(!facet_eligible(*s, hits@[i as int]));
                            assert forall|y: int, m: int|
                                #![trigger month_count(*s, hits@.subrange(0, i + 1), y, m)]
                                bucket_count(buckets@, y, m) == month_count(
                                    *s,
                                    hits@.subrange(0, i + 1),
                                    y,
                                    m,
                                ) by {
                                lemma_month_count_push(
                                    *s,
                                    hits@.subrange(0, i as int),
                                    hits@[i as int],
                                    y,
                                    m,
                                );
                                if hit_month(*s, hits@[i as int], y, m) {
                                    let d2 = choose|d2: Date|
                                        covers(d2, ds as int) && d2.year as int == y
                                            && d2.month as int == m;
                                    assert(covers(d2, ds as int));
                                    assert(false);
                                }
                            }
                        }
                    },
                }
            },
        }
        i = i + 1;
    }
    proof {
        assert(hits@.subrange(0, sample_len as int) =~= sample);
    }
    Ok(SearchFacets { date_histogram: buckets })
}

/// Executes a ranked search against one snapshot: parses the free-text
/// query over title, abstract and authors, AND-combines the optional date
/// filter, collects the top `offset + limit + OVER_FETCH` hits, and returns
/// the requested page of stored identifiers in rank order, the capped hit
/// total, and the date facets sampled from the top hits before pagination.
pub fn search_papers(
    s: &Searcher,
    query_str: &str,
    params: &SearchParams,
    limit: usize,
    offset: usize,
) -> (r: Result<TantivySearchResult, SearchError>)
    requires
        params.wf(),
        offset + limit + OVER_FETCH as int <= usize::MAX,
    ensures
        r matches Ok(res) ==> {
            let full = spec_ranked(*s, query_str@, *params);
            let capped = seq_prefix(full, offset + limit + OVER_FETCH as int);
            &&& res.total_hits == capped.len()
            &&& strs_view(res.paper_ids@) == ids_of(
                *s,
                page_slice(capped, offset as int, limit as int),
            )
            &&& (res.facets matches Some(f) && facets_wf(
                f,
                *s,
                seq_prefix(capped, FACET_SAMPLE_CAP as int),
            ))
            &&& (has_date_filter(*params) ==> forall|j: int|
                0 <= j < capped.len() ==> some_date_in(
                    *s,
                    #[trigger] capped[j],
                    spec_lo_secs(*params),
                    spec_hi_secs(*params),
                ))
        },
        r is Ok ==> parse_ok(*s, query_str@),
        is_parse_err(r) ==> !parse_ok(*s, query_str@),
{
    let k: usize = offset + limit + OVER_FETCH;
    let ghost full = spec_ranked(*s, query_str@, *params);
    proof {
        reveal_strlit("title");
        reveal_strlit("abstract");
        reveal_strlit("authors");
        reveal_strlit("published_date");
    }
    let f_title = match engine::get_search_field(s, "title") {
        Ok(f) => f,
        Err(e) => {
            return Err(e);
        },
    };
    let f_abstract = match engine::get_search_field(s, "abstract") {
        Ok(f) => f,
        Err(e) => {
            return Err(e);
        },
    };
    let f_authors = match engine::get_search_field(s, "authors") {
        Ok(f) => f,
        Err(e) => {
            return Err(e);
        },
    };
    let hits: Vec<DocAddress> = if params.date_from.is_none() && params.date_to.is_none() {
        match engine::ranked_search_with(s, f_title, f_abstract, f_authors, query_str, None, k) {
            Ok(v) => v,
            Err(e) => {
                return Err(e);
            },
        }
    } else {
        let lo_raw: i64 = match &params.date_from {
            Some(d) => d.day_start_secs(),
            None => MIN_INDEXABLE_SECS,
        };
        let hi_raw: i64 = match &params.date_to {
            Some(d) => d.day_end_secs(),
            None => MAX_INDEXABLE_SECS,
        };
        let lo: i64 = if lo_raw < MIN_INDEXABLE_SECS {
            MIN_INDEXABLE_SECS
        } else {
            lo_raw
        };
        let hi: i64 = if hi_raw > MAX_INDEXABLE_SECS {
            MAX_INDEXABLE_SECS
        } else {
            hi_raw
        };
        if lo > hi {
            // The window admits nothing, but a malformed query is still the
            // client-facing parse error, as on every other path.
            match engine::check_query(s, f_title, f_abstract, f_authors, query_str) {
                Ok(()) => {},
                Err(e) => {
                    return Err(e);
                },
            }
            let empty_hits: Vec<DocAddress> = Vec::new();
            proof {
                assert(empty_hits@.len() == 0);
            }
            empty_hits
        } else {
            let f_date = match engine::get_search_field(s, "published_date") {
                Ok(f) => f,
                Err(e) => {
                    return Err(e);
                },
            };
            let range = engine::date_range(f_date, lo, hi);
            match engine::ranked_search_with(
                s,
                f_title,
                f_abstract,
                f_authors,
                query_str,
                Some(range),
                k,
            ) {
                Ok(v) => {
                    proof {
                        assert(range_spec(range).1 == spec_lo_secs(*params));
                        assert(range_spec(range).2 == spec_hi_secs(*params));
                        assert(forall|j2: int|
                            0 <= j2 < v@.len() ==> some_date_in(
                                *s,
                                #[trigger] v@[j2],
                                spec_lo_secs(*params),
                                spec_hi_secs(*params),
                            ));
                    }
                    v
                },
                Err(e) => {
                    return Err(e);
                },
            }
        }
    };
    proof {
        if full.len() == 0 {
            assert(seq_prefix(full, k as int) =~= full);
        }
        assert(hits@ == seq_prefix(full, k as int));
        assert(forall|j: int| 0 <= j < hits@.len() ==> addr_in(*s, #[trigger] hits@[j]));
    }
    let total: usize = hits.len();
    let start: usize = if offset < total {
        offset
    } else {
        total
    };
    let end: usize = {
        let e: usize = offset + limit;
        if e < total {
            e
        } else {
            total
        }
    };
    let mut ids: Vec<String> = Vec::new();
    let mut j: usize = start;
    proof {
        assert(hits@.subrange(start as int, start as int) =~= Seq::<DocAddress>::empty());
        assert(strs_view(ids@) =~= Seq::<Seq<char>>::empty());
    }
    while j < end
        invariant
            start <= j <= end <= total,
            total == hits@.len(),
            forall|t: int| 0 <= t < hits@.len() ==> addr_in(*s, #[trigger] hits@[t]),
            strs_view(ids@) == ids_of(*s, hits@.subrange(start as int, j as int)),
        decreases end - j,
    {
        let a = hits[j];
        proof {
            assert(hits@.subrange(start as int, j + 1) =~= hits@.subrange(
                start as int,
                j as int,
            ).push(hits@[j as int]));
            lemma_ids_of_push(*s, hits@.subrange(start as int, j as int), hits@[j as int]);
        }
        match engine::stored_id(s, a) {
            Ok(Some(idstr)) => {
                let ghost pre = ids@;
                ids.push(idstr);
                proof {
                    assert(strs_view(ids@) =~= strs_view(pre).push(idstr@));
                }
            },
            Ok(None) => {},
            Err(e) => {
                return Err(e);
            },
        }
        j = j + 1;
    }
    proof {
        if has_date_filter(*params) {
            assert(forall|j2: int|
                0 <= j2 < hits@.len() ==> some_date_in(
                    *s,
                    #[trigger] hits@[j2],
                    spec_lo_secs(*params),
                    spec_hi_secs(*params),
                ));
        }
    }
    let facets = match collect_date_facets(s, &hits) {
        Ok(f) => f,
        Err(e) => {
            return Err(e);
        },
    };
    proof {
        assert(hits@.subrange(start as int, end as int) =~= page_slice(
            hits@,
            offset as int,
            limit as int,
        ));
    }
    Ok(TantivySearchResult { paper_ids: ids, total_hits: total, facets: Some(facets) })
}

/// Pagination concatenation law: with no intervening commits (one
/// snapshot), one page of `a + b` hits is exactly the page of the first `a`
/// followed by the page of the next `b`.
pub proof fn lemma_pagination_concat(
    s: Searcher,
    full: Seq<DocAddress>,
    a: int,
    b: int,
)
    requires
        0 <= a,
        0 <= b,
    ensures
        ids_of(s, page_slice(seq_prefix(full, a + b + OVER_FETCH as int), 0, a + b)) == ids_of(
            s,
            page_slice(seq_prefix(full, a + OVER_FETCH as int), 0, a),
        ) + ids_of(s, page_slice(seq_prefix(full, a + b + OVER_FETCH as int), a, b)),
{
    let n = full.len() as int;
    let m_a = spec_min(a, n);
    let m_ab = spec_min(a + b, n);
    assert(page_slice(seq_prefix(full, a + b + OVER_FETCH as int), 0, a + b) =~= full.subrange(
        0,
        m_ab,
    ));
    assert(page_slice(seq_prefix(full, a + OVER_FETCH as int), 0, a) =~= full.subrange(0, m_a));
    assert(page_slice(seq_prefix(full, a + b + OVER_FETCH as int), a, b) =~= full.subrange(
        m_a,
        m_ab,
    ));
    assert(full.subrange(0, m_a) + full.subrange(m_a, m_ab) =~= full.subrange(0, m_ab));
    lemma_ids_of_concat(s, full.subrange(0, m_a), full.subrange(m_a, m_ab));
}

/// Date filter exclusion: any date value that the filter admitted a hit
/// for lies between `date_from` and `date_to` inclusive (for the documents
/// this crate writes, that value is the stored publication date).
pub proof fn lemma_date_filter_exclusion(
    params: SearchParams,
    d1: Date,
    d2: Date,
    ds: int,
    d: Date,
)
    requires
        params.wf(),
        params.date_from == Some(d1),
        params.date_to == Some(d2),
        spec_lo_secs(params) <= ds <= spec_hi_secs(params),
        covers(d, ds),
    ensures
        d1.spec_le(d),
        d.spec_le(d2),
{
    assert(d1.spec_day_number() * SECS_PER_DAY <= ds);
    assert(ds <= d2.spec_day_number() * SECS_PER_DAY + (SECS_PER_DAY - 1));
    assert(d.spec_day_number() * SECS_PER_DAY <= ds < (d.spec_day_number() + 1) * SECS_PER_DAY);
    assert(d1.spec_le(d) && d.spec_le(d2)) by (nonlinear_arith)
        requires
            d1.spec_day_number() * SECS_PER_DAY <= ds,
            ds <= d2.spec_day_number() * SECS_PER_DAY + (SECS_PER_DAY - 1),
            d.spec_day_number() * SECS_PER_DAY <= ds,
            ds < (d.spec_day_number() + 1) * SECS_PER_DAY,
            SECS_PER_DAY == 86400,
            d1.spec_le(d) <==> d1.spec_day_number() <= d.spec_day_number(),
            d.spec_le(d2) <==> d.spec_day_number() <= d2.spec_day_number(),
    ;
}

} // verus!
