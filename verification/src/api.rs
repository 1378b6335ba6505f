//! Plain response and parameter types of the HTTP surface.

use vstd::prelude::*;
use vstd::string::StringExecFns;

verus! {

/// A plain message payload.
pub struct Message {
    pub message: String,
}

/// A client-facing error payload.
pub struct ApiError {
    pub error: String,
}

/// Counts of the catalog's record kinds.
pub struct StatsResponse {
    pub papers_count: i64,
    pub datasets_count: i64,
    pub benchmarks_count: i64,
    pub implementations_count: i64,
}

/// Pagination and ordering of the plain listing endpoints.
pub struct PaginationParams {
    pub limit: Option<i64>,
    pub offset: Option<i64>,
    pub order_by: Option<String>,
    pub order: Option<String>,
    pub search: Option<String>,
}

impl Default for PaginationParams {
    /// The default page: 20 records from the start, newest first, no
    /// search.
    fn default() -> (r: PaginationParams)
        ensures
            r.limit == Some(20i64),
            r.offset == Some(0i64),
            r.order_by is None,
            (r.order matches Some(o) && o@ == "desc"@),
            r.search is None,
    {
        PaginationParams {
            limit: Some(20),
            offset: Some(0),
            order_by: None,
            order: Some(String::from_str("desc")),
            search: None,
        }
    }
}

/// Assembles the stats payload.
pub fn make_stats_response(papers: i64, datasets: i64, benchmarks: i64, implementations: i64) -> (r:
    StatsResponse)
    ensures
        r.papers_count == papers,
        r.datasets_count == datasets,
        r.benchmarks_count == benchmarks,
        r.implementations_count == implementations,
{
    StatsResponse {
        papers_count: papers,
        datasets_count: datasets,
        benchmarks_count: benchmarks,
        implementations_count: implementations,
    }
}

} // verus!
