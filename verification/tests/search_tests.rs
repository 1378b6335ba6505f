//! End-to-end behaviour of the index build pipeline and the query engine,
//! against a real in-memory index.

use backend::builder::BuildState;
use backend::dates::Date;
use backend::index::{Paper, SearchIndex};
use backend::query::{search_papers, SearchParams, TantivySearchResult};

fn make_paper(id: &str, title: &str, date: Option<Date>) -> Paper {
    Paper {
        id: id.to_string(),
        title: title.to_string(),
        abstract_text: Some(format!("Abstract of {}", title)),
        arxiv_id: None,
        arxiv_url: None,
        pdf_url: None,
        published_date: date,
        authors: Some(vec!["Alice Example".to_string(), "Bob Example".to_string()]),
    }
}

fn plain_params() -> SearchParams {
    SearchParams {
        q: None,
        limit: None,
        offset: None,
        order_by: None,
        order: None,
        date_from: None,
        date_to: None,
        search: None,
    }
}

fn build_index(papers: &[Paper], commit_interval: usize, force: bool) -> (SearchIndex, usize) {
    let idx = SearchIndex::create_in_ram().expect("create index");
    let mut b = BuildState::begin(&idx, 50_000_000, commit_interval, force).expect("writer");
    for p in papers {
        b.add_record(&idx, p).expect("add");
    }
    let report = b.finish().expect("final commit");
    idx.reload().expect("reload");
    (idx, report.commits)
}

fn run_search(
    idx: &SearchIndex,
    q: &str,
    params: &SearchParams,
    limit: usize,
    offset: usize,
) -> TantivySearchResult {
    let snapshot = idx.snapshot();
    search_papers(&snapshot, q, params, limit, offset).expect("search")
}

fn graph_corpus() -> Vec<Paper> {
    vec![
        make_paper("id-gnn", "Graph Neural Networks", Date::new_checked(2020, 6, 15)),
        make_paper("id-nmt", "Neural Machine Translation", Date::new_checked(2019, 1, 1)),
        make_paper("id-gdb", "Graph Databases at Scale", Date::new_checked(2021, 1, 1)),
    ]
}

#[test]
fn unique_title_token_is_found_after_forced_rebuild() {
    let (idx, _) = build_index(&graph_corpus(), 1000, true);
    let r = run_search(&idx, "databases", &plain_params(), 10, 0);
    assert_eq!(r.paper_ids, vec!["id-gdb".to_string()]);
    assert_eq!(r.total_hits, 1);
}

#[test]
fn stemming_matches_inflected_tokens() {
    let (idx, _) = build_index(&graph_corpus(), 1000, true);
    let r = run_search(&idx, "network", &plain_params(), 10, 0);
    assert_eq!(r.paper_ids, vec!["id-gnn".to_string()]);
}

#[test]
fn authors_field_is_searchable() {
    let (idx, _) = build_index(&graph_corpus(), 1000, true);
    let r = run_search(&idx, "alice", &plain_params(), 10, 0);
    assert_eq!(r.total_hits, 3);
}

#[test]
fn graph_query_ranks_graph_titles_and_date_filter_excludes() {
    let (idx, _) = build_index(&graph_corpus(), 1000, true);

    let r = run_search(&idx, "graph", &plain_params(), 10, 0);
    assert_eq!(r.total_hits, 2);
    assert!(r.paper_ids.contains(&"id-gnn".to_string()));
    assert!(r.paper_ids.contains(&"id-gdb".to_string()));
    assert!(!r.paper_ids.contains(&"id-nmt".to_string()));

    // Even a query matching all three never admits the translation record
    // once the date filter excludes its 2019 date.
    let mut params = plain_params();
    params.date_from = Date::new_checked(2020, 1, 1);
    params.date_to = Date::new_checked(2021, 12, 31);
    let r = run_search(&idx, "neural OR graph OR translation", &params, 10, 0);
    assert!(!r.paper_ids.contains(&"id-nmt".to_string()));
    assert_eq!(r.total_hits, 2);
}

#[test]
fn date_filter_bounds_are_inclusive() {
    let (idx, _) = build_index(&graph_corpus(), 1000, true);
    let mut params = plain_params();
    params.date_from = Date::new_checked(2020, 6, 15);
    params.date_to = Date::new_checked(2020, 6, 15);
    let r = run_search(&idx, "graph", &params, 10, 0);
    assert_eq!(r.paper_ids, vec!["id-gnn".to_string()]);
}

#[test]
fn pagination_concatenation() {
    let mut papers = Vec::new();
    for i in 0..9 {
        papers.push(make_paper(
            &format!("id-{}", i),
            &format!("shared topic paper number {}", i),
            Date::new_checked(2015 + i as u32, 1, 1),
        ));
    }
    let (idx, _) = build_index(&papers, 1000, true);
    let whole = run_search(&idx, "topic", &plain_params(), 7, 0);
    let first = run_search(&idx, "topic", &plain_params(), 3, 0);
    let second = run_search(&idx, "topic", &plain_params(), 4, 3);
    assert_eq!(whole.paper_ids.len(), 7);
    let mut joined = first.paper_ids.clone();
    joined.extend(second.paper_ids.clone());
    assert_eq!(whole.paper_ids, joined);
}

#[test]
fn facets_histogram_counts_and_order() {
    let papers = vec![
        make_paper("a", "facet paper one", Date::new_checked(2020, 5, 1)),
        make_paper("b", "facet paper two", Date::new_checked(2020, 5, 20)),
        make_paper("c", "facet paper three", Date::new_checked(2021, 1, 1)),
        make_paper("d", "facet paper undated", None),
    ];
    let (idx, _) = build_index(&papers, 1000, true);
    let r = run_search(&idx, "facet", &plain_params(), 10, 0);
    assert_eq!(r.total_hits, 4);
    let facets = r.facets.expect("facets present");
    let hist = facets.date_histogram;
    assert_eq!(hist.len(), 2);
    assert_eq!((hist[0].year, hist[0].month, hist[0].count), (2021, 1, 1));
    assert_eq!((hist[1].year, hist[1].month, hist[1].count), (2020, 5, 2));
    let total: u64 = hist.iter().map(|b| b.count).sum();
    assert_eq!(total, 3);
    assert!(total <= r.total_hits as u64);
}

#[test]
fn commit_interval_schedule() {
    let papers: Vec<Paper> = (0..5)
        .map(|i| make_paper(&format!("p{}", i), &format!("interval paper {}", i), None))
        .collect();
    let (idx, commits) = build_index(&papers, 2, true);
    assert_eq!(commits, 3);
    let r = run_search(&idx, "interval", &plain_params(), 10, 0);
    assert_eq!(r.total_hits, 5);
}

#[test]
fn interim_commits_are_queryable_after_reload() {
    let idx = SearchIndex::create_in_ram().expect("create index");
    let mut b = BuildState::begin(&idx, 50_000_000, 2, true).expect("writer");
    let papers: Vec<Paper> = (0..5)
        .map(|i| make_paper(&format!("p{}", i), &format!("steady paper {}", i), None))
        .collect();
    b.add_record(&idx, &papers[0]).unwrap();
    b.add_record(&idx, &papers[1]).unwrap();
    // One interim commit has happened; a reloaded reader sees two documents.
    idx.reload().unwrap();
    let mid = run_search(&idx, "steady", &plain_params(), 10, 0);
    assert_eq!(mid.total_hits, 2);
    b.add_record(&idx, &papers[2]).unwrap();
    b.add_record(&idx, &papers[3]).unwrap();
    b.add_record(&idx, &papers[4]).unwrap();
    let report = b.finish().unwrap();
    assert_eq!(report.commits, 3);
    assert_eq!(report.indexed, 5);
    idx.reload().unwrap();
    let done = run_search(&idx, "steady", &plain_params(), 10, 0);
    assert_eq!(done.total_hits, 5);
}

#[test]
fn forced_rebuild_removes_stale_documents() {
    let idx = SearchIndex::create_in_ram().expect("create index");
    {
        let mut b = BuildState::begin(&idx, 50_000_000, 1000, false).expect("writer");
        b.add_record(&idx, &make_paper("old", "stale survivor", None)).unwrap();
        b.finish().unwrap();
    }
    idx.reload().unwrap();
    assert_eq!(run_search(&idx, "survivor", &plain_params(), 10, 0).total_hits, 1);

    {
        let mut b = BuildState::begin(&idx, 50_000_000, 1000, true).expect("writer");
        b.add_record(&idx, &make_paper("new", "fresh only", None)).unwrap();
        b.finish().unwrap();
    }
    idx.reload().unwrap();
    assert_eq!(run_search(&idx, "survivor", &plain_params(), 10, 0).total_hits, 0);
    assert_eq!(run_search(&idx, "fresh", &plain_params(), 10, 0).total_hits, 1);
}

#[test]
fn append_without_force_duplicates() {
    let idx = SearchIndex::create_in_ram().expect("create index");
    let paper = make_paper("dup", "duplicated record", None);
    {
        let mut b = BuildState::begin(&idx, 50_000_000, 1000, false).expect("writer");
        b.add_record(&idx, &paper).unwrap();
        b.finish().unwrap();
    }
    {
        let mut b = BuildState::begin(&idx, 50_000_000, 1000, false).expect("writer");
        b.add_record(&idx, &paper).unwrap();
        b.finish().unwrap();
    }
    idx.reload().unwrap();
    let r = run_search(&idx, "duplicated", &plain_params(), 10, 0);
    assert_eq!(r.total_hits, 2);
    assert_eq!(r.paper_ids, vec!["dup".to_string(), "dup".to_string()]);
}

#[test]
fn malformed_query_is_a_parse_error() {
    let (idx, _) = build_index(&graph_corpus(), 1000, true);
    let snapshot = idx.snapshot();
    let err = search_papers(&snapshot, "title:(", &plain_params(), 10, 0).unwrap_err();
    assert!(err.is_parse());
}

#[test]
fn opening_a_missing_index_reports_index_missing() {
    match SearchIndex::open("/nonexistent/search-index-dir") {
        Ok(_) => panic!("opening a missing index must fail"),
        Err(err) => {
            assert!(err.is_index_missing());
            assert!(!err.is_parse());
        }
    }
}

#[test]
fn malformed_query_is_rejected_even_with_an_empty_window() {
    // With an inverted date window the engine is never consulted, but a
    // malformed query must still be the client-facing parse error.
    let (idx, _) = build_index(&graph_corpus(), 1000, true);
    let snapshot = idx.snapshot();
    let mut params = plain_params();
    params.date_from = Date::new_checked(2022, 1, 1);
    params.date_to = Date::new_checked(2020, 1, 1);
    let err = match search_papers(&snapshot, "title:(", &params, 10, 0) {
        Ok(_) => panic!("malformed query must not succeed"),
        Err(e) => e,
    };
    assert!(err.is_parse());
}

#[test]
fn empty_range_filter_matches_nothing() {
    let (idx, _) = build_index(&graph_corpus(), 1000, true);
    let mut params = plain_params();
    // from after to: the window is empty.
    params.date_from = Date::new_checked(2022, 1, 1);
    params.date_to = Date::new_checked(2020, 1, 1);
    let r = run_search(&idx, "graph", &params, 10, 0);
    assert_eq!(r.total_hits, 0);
    assert!(r.paper_ids.is_empty());
}
