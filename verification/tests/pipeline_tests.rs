//! The pieces around the engine: request planning, hydration order, audit
//! bookkeeping, scraping decisions, batch loading and text utilities.

use backend::api::PaginationParams;
use backend::github::{classify_fetch_status, parse_github_url, FetchClass, RepoEvent, ScraperStats};
use backend::hydrate::{
    browse_response, effective_limit, effective_offset, fallback_response, is_descending,
    plan_papers_request, reorder_to_indices, RequestPlan,
};
use backend::loader::{
    prepare_dataset_rows, prepare_link_rows, prepare_paper_rows, print_stats, LoaderStats,
    RawDatasetRow, RawLinkRow, RawPaperRow,
};
use backend::query::SearchParams;
use backend::sota::{collect_tasks, leaderboard_benchmark_name, note_seen, should_ingest_dataset};
use backend::submit::{
    benchmark_result_identifier, submission_benchmark_name, AuditEntry, DbOutcome,
    InsertionStatus,
};
use backend::text::{contains_str, is_blank, join_space, u64_to_string};

fn params_with_query(q: Option<&str>, search: Option<&str>) -> SearchParams {
    SearchParams {
        q: q.map(|s| s.to_string()),
        limit: None,
        offset: None,
        order_by: None,
        order: None,
        date_from: None,
        date_to: None,
        search: search.map(|s| s.to_string()),
    }
}

#[test]
fn planner_chooses_fulltext_fallback_or_browse() {
    let p = params_with_query(Some("graph"), None);
    assert!(matches!(plan_papers_request(&p, true), RequestPlan::FullText { .. }));
    match plan_papers_request(&p, false) {
        RequestPlan::StoreFallback { pattern, limit, offset, descending } => {
            assert_eq!(pattern, "%graph%");
            assert_eq!(limit, 20);
            assert_eq!(offset, 0);
            assert!(descending);
        }
        other => panic!("expected fallback, got {:?}", plan_kind(&other)),
    }
    let blank = params_with_query(Some("   "), None);
    assert!(matches!(plan_papers_request(&blank, true), RequestPlan::Browse { .. }));
    let none = params_with_query(None, None);
    assert!(matches!(plan_papers_request(&none, false), RequestPlan::Browse { .. }));
    let legacy = params_with_query(None, Some("nets"));
    match plan_papers_request(&legacy, false) {
        RequestPlan::StoreFallback { pattern, .. } => assert_eq!(pattern, "%nets%"),
        _ => panic!("legacy search parameter must reach the fallback"),
    }
}

fn plan_kind(p: &RequestPlan) -> &'static str {
    match p {
        RequestPlan::FullText { .. } => "fulltext",
        RequestPlan::StoreFallback { .. } => "fallback",
        RequestPlan::Browse { .. } => "browse",
    }
}

#[test]
fn fallback_total_is_page_length_only() {
    let page = vec!["a".to_string(), "b".to_string(), "c".to_string()];
    let resp = fallback_response(page.clone());
    assert_eq!(resp.total_hits, 3);
    assert_eq!(resp.papers, page);
    assert!(resp.facets.is_none());
    let browse = browse_response(vec![1, 2]);
    assert_eq!(browse.total_hits, 2);
    assert!(browse.facets.is_none());
}

#[test]
fn paging_clamps() {
    assert_eq!(effective_limit(&None), 20);
    assert_eq!(effective_limit(&Some(7)), 7);
    assert_eq!(effective_limit(&Some(1000)), 100);
    assert_eq!(effective_limit(&Some(-3)), 0);
    assert_eq!(effective_offset(&None), 0);
    assert_eq!(effective_offset(&Some(40)), 40);
    assert_eq!(effective_offset(&Some(-1)), 0);
    // The offset is carried through unchanged, however deep the page.
    assert_eq!(effective_offset(&Some(2_000_000)), 2_000_000);
    assert!(is_descending(&None));
    assert!(is_descending(&Some("desc".to_string())));
    assert!(!is_descending(&Some("asc".to_string())));
}

#[test]
fn pagination_defaults() {
    let d = PaginationParams::default();
    assert_eq!(d.limit, Some(20));
    assert_eq!(d.offset, Some(0));
    assert_eq!(d.order.as_deref(), Some("desc"));
    assert!(d.order_by.is_none() && d.search.is_none());
}

#[test]
fn hydration_preserves_rank_order_and_drops_missing() {
    let ids = vec![
        "x3".to_string(),
        "x1".to_string(),
        "gone".to_string(),
        "x2".to_string(),
    ];
    let rec_ids = vec!["x1".to_string(), "x2".to_string(), "x3".to_string()];
    let order = reorder_to_indices(&ids, &rec_ids);
    assert_eq!(order, vec![2, 0, 1]);
}

#[test]
fn hydration_duplicate_record_ids_take_the_last() {
    let ids = vec!["k".to_string()];
    let rec_ids = vec!["k".to_string(), "k".to_string()];
    assert_eq!(reorder_to_indices(&ids, &rec_ids), vec![1]);
}

#[test]
fn audit_success_and_rollback() {
    let mut audit = AuditEntry::new("sub.yaml", "2024-06-01T00:00:00Z", "abc123");
    assert_eq!(audit.overall_status, InsertionStatus::Skipped);
    let cont = audit.record_paper(
        "2301.12345",
        DbOutcome::Done { id: "row-1".to_string(), inserted: true },
    );
    assert!(cont);
    let cont = audit.record_implementation(
        "https://github.com/o/r",
        DbOutcome::Done { id: "row-2".to_string(), inserted: false },
    );
    assert!(cont);
    audit.record_commit(None);
    assert_eq!(audit.overall_status, InsertionStatus::Success);
    assert!(!audit.rollback_performed);
    assert_eq!(audit.records.len(), 2);
    assert_eq!(audit.records[0].status, InsertionStatus::Success);
    assert_eq!(audit.records[0].table, "papers");
    assert_eq!(audit.records[1].status, InsertionStatus::Duplicate);
    assert_eq!(audit.records[1].message, "Updated existing");

    let mut audit = AuditEntry::new("bad.yaml", "2024-06-01T00:00:00Z", "abc123");
    let cont = audit.record_paper(
        "2301.99999",
        DbOutcome::Failed { message: "constraint violated".to_string() },
    );
    assert!(!cont);
    assert_eq!(audit.overall_status, InsertionStatus::RolledBack);
    assert!(audit.rollback_performed);
    assert_eq!(audit.error_message, "Paper insertion failed: constraint violated");
    assert_eq!(audit.records[0].status, InsertionStatus::Failed);
}

#[test]
fn audit_commit_failure() {
    let mut audit = AuditEntry::new("c.yaml", "t", "sha");
    audit.record_commit(Some("disk full"));
    assert_eq!(audit.overall_status, InsertionStatus::Failed);
    assert_eq!(audit.error_message, "Failed to commit transaction: disk full");
}

#[test]
fn composed_names() {
    assert_eq!(benchmark_result_identifier("imagenet", "cls", "top1"), "imagenet/cls/top1");
    assert_eq!(submission_benchmark_name("imagenet", "cls"), "imagenet - cls");
    assert_eq!(leaderboard_benchmark_name("Image Classification", "ImageNet"),
        "Image Classification on ImageNet");
}

#[test]
fn scraper_stats_transitions() {
    let mut stats = ScraperStats::default();
    assert!(stats.scrape_step(&RepoEvent::Updated));
    assert!(stats.scrape_step(&RepoEvent::NotFound));
    assert!(stats.scrape_step(&RepoEvent::UrlUnparsable));
    assert!(stats.scrape_step(&RepoEvent::FetchFailed));
    assert!(stats.scrape_step(&RepoEvent::UpdateFailed));
    assert!(!stats.scrape_step(&RepoEvent::RateLimited));
    assert_eq!(stats.repos_processed, 3);
    assert_eq!(stats.repos_updated, 1);
    assert_eq!(stats.repos_not_found, 1);
    assert_eq!(stats.errors, 3);
    assert_eq!(stats.rate_limited, 1);
}

#[test]
fn fetch_status_classes() {
    assert!(matches!(classify_fetch_status(200), FetchClass::Success));
    assert!(matches!(classify_fetch_status(404), FetchClass::NotFound));
    assert!(matches!(classify_fetch_status(403), FetchClass::RateLimited));
    assert!(matches!(classify_fetch_status(429), FetchClass::RateLimited));
    assert!(matches!(classify_fetch_status(500), FetchClass::OtherFailure));
}

#[test]
fn github_url_parsing_via_stats_pipeline() {
    // A slash after `.git` protects the suffix: only trailing `.git` is
    // stripped, so the repository segment keeps it.
    assert_eq!(
        parse_github_url("https://github.com/apache/arrow.git/"),
        Some(("apache".to_string(), "arrow.git".to_string()))
    );
    assert_eq!(
        parse_github_url("git@host/owner/repo"),
        Some(("owner".to_string(), "repo".to_string()))
    );
}

#[test]
fn sota_task_collection() {
    let cards = vec![
        ("Image Classification".to_string(), Some("/web/2025/https://x/sota/ic".to_string())),
        ("  ".to_string(), Some("/x".to_string())),
        ("No Link".to_string(), None),
        ("Absolute".to_string(), Some("https://example.org/t".to_string())),
    ];
    let tasks = collect_tasks(&cards);
    assert_eq!(tasks.len(), 2);
    assert_eq!(tasks[0].name, "Image Classification");
    assert_eq!(tasks[0].url, "https://web.archive.org/web/2025/https://x/sota/ic");
    assert_eq!(tasks[1].url, "https://example.org/t");
}

#[test]
fn sota_dataset_dedup() {
    let mut seen: Vec<String> = Vec::new();
    assert!(should_ingest_dataset("/dataset/imagenet", "ImageNet", &seen));
    note_seen(&mut seen, "ImageNet");
    assert!(!should_ingest_dataset("/dataset/imagenet", "ImageNet", &seen));
    assert!(!should_ingest_dataset("/paper/imagenet", "ImageNet2", &seen));
    assert!(!should_ingest_dataset("/dataset/x", "", &seen));
}

#[test]
fn loader_row_selection_and_stats() {
    let rows = vec![
        RawPaperRow {
            arxiv_id: Some("2301.00001".to_string()),
            title: Some("Kept".to_string()),
            abstract_text: None,
            arxiv_url: None,
            pdf_url: None,
        },
        RawPaperRow {
            arxiv_id: None,
            title: Some("No id".to_string()),
            abstract_text: None,
            arxiv_url: None,
            pdf_url: None,
        },
        RawPaperRow {
            arxiv_id: Some("".to_string()),
            title: Some("Empty id".to_string()),
            abstract_text: None,
            arxiv_url: None,
            pdf_url: None,
        },
        RawPaperRow {
            arxiv_id: Some("2301.00002".to_string()),
            title: None,
            abstract_text: None,
            arxiv_url: None,
            pdf_url: None,
        },
    ];
    let (kept, skipped) = prepare_paper_rows(rows);
    assert_eq!(kept.len(), 1);
    assert_eq!(skipped, 3);
    assert_eq!(kept[0].arxiv_id, "2301.00001");

    let stats = LoaderStats {
        papers_inserted: 12,
        papers_skipped: 3,
        datasets_inserted: 0,
        links_inserted: 7,
    };
    let lines = print_stats(&stats);
    assert_eq!(lines[0], "=== Loading Statistics ===");
    assert_eq!(lines[1], "Papers: 12 inserted, 3 skipped");
    assert_eq!(lines[2], "Datasets: 0 inserted");
    assert_eq!(lines[3], "Links: 7 inserted");
}

#[test]
fn loader_dataset_and_link_selection() {
    let datasets = vec![
        RawDatasetRow { name: Some("ImageNet".to_string()), description: None, homepage_url: None },
        RawDatasetRow { name: Some("".to_string()), description: None, homepage_url: None },
        RawDatasetRow { name: None, description: Some("orphan".to_string()), homepage_url: None },
    ];
    let kept = prepare_dataset_rows(datasets);
    assert_eq!(kept.len(), 1);
    assert_eq!(kept[0].name, "ImageNet");

    let links = vec![
        RawLinkRow {
            arxiv_id: Some("2301.00001".to_string()),
            repo_url: Some("https://github.com/a/b".to_string()),
            framework: Some("pytorch".to_string()),
        },
        RawLinkRow {
            arxiv_id: Some("2301.00002".to_string()),
            repo_url: None,
            framework: None,
        },
        RawLinkRow {
            arxiv_id: None,
            repo_url: Some("https://github.com/c/d".to_string()),
            framework: None,
        },
    ];
    let kept = prepare_link_rows(links);
    assert_eq!(kept.len(), 1);
    assert_eq!(kept[0].repo_url, "https://github.com/a/b");
}

#[test]
fn text_utilities() {
    assert!(is_blank(""));
    assert!(is_blank(" \t\r\n"));
    assert!(!is_blank(" a "));
    assert!(contains_str("research paper catalog", "paper"));
    assert!(!contains_str("research paper catalog", "papers"));
    assert!(contains_str("anything", ""));
    assert_eq!(join_space(&vec!["a".to_string(), "b".to_string(), "c".to_string()]), "a b c");
    assert_eq!(join_space(&vec![]), "");
    assert_eq!(u64_to_string(0), "0");
    assert_eq!(u64_to_string(907), "907");
    assert_eq!(u64_to_string(18446744073709551615), "18446744073709551615");
}

#[test]
fn search_params_query_precedence() {
    let p = params_with_query(Some("primary"), Some("legacy"));
    assert_eq!(p.get_query(), Some("primary"));
    let p = params_with_query(None, Some("legacy"));
    assert_eq!(p.get_query(), Some("legacy"));
    let p = params_with_query(None, None);
    assert_eq!(p.get_query(), None);
}
