//! Submission validation rules.

use backend::dates::Date;
use backend::github::parse_github_url;
use backend::report::{count_valid, github_report_lines, result_block_lines, summary_lines};
use backend::validate::{
    is_submission_file_name, validate_arxiv_id, validate_full_submission, validate_github_url,
    validate_url, BenchmarkResultSubmission, DecimalValue, FullSubmission,
    ImplementationSubmission, IssueSeverity, PaperSubmission, ValidationResult,
};

fn paper(title: &str, arxiv_id: &str) -> PaperSubmission {
    PaperSubmission {
        title: title.to_string(),
        arxiv_id: arxiv_id.to_string(),
        abstract_text: Some("An abstract.".to_string()),
        arxiv_url: Some("https://arxiv.org/abs/2301.12345".to_string()),
        pdf_url: Some("https://arxiv.org/pdf/2301.12345".to_string()),
        published_date: Date::new_checked(2023, 11, 5),
        authors: Some(vec!["Ada Lovelace".to_string()]),
    }
}

fn submission(p: PaperSubmission) -> FullSubmission {
    FullSubmission { paper: p, implementations: None, benchmark_results: None }
}

fn today() -> Date {
    Date::new_checked(2024, 6, 1).unwrap()
}

#[test]
fn arxiv_id_shapes() {
    assert!(validate_arxiv_id("2301.12345").is_ok());
    assert!(validate_arxiv_id("2301.1234").is_ok());
    assert!(validate_arxiv_id("2301.12345v2").is_ok());
    assert!(validate_arxiv_id("2301.12345v12").is_ok());
    assert!(validate_arxiv_id("cs.CV/0601001").is_ok());
    assert!(validate_arxiv_id("hep-th/9901001").is_ok());
    assert!(validate_arxiv_id("math/0211159").is_ok());
    assert!(validate_arxiv_id("301.12345").is_err());
    assert!(validate_arxiv_id("2301.123").is_err());
    assert!(validate_arxiv_id("2301.123456").is_err());
    assert!(validate_arxiv_id("2301.12345v").is_err());
    assert!(validate_arxiv_id("2301-12345").is_err());
    assert!(validate_arxiv_id("cs.CV/060100").is_err());
    assert!(validate_arxiv_id("CS.CV/0601001").is_err());
    assert!(validate_arxiv_id("").is_err());
    let msg = validate_arxiv_id("nope").unwrap_err();
    assert!(msg.contains("Invalid arXiv ID format: 'nope'"));
}

#[test]
fn github_url_shapes() {
    assert!(validate_github_url("https://github.com/owner/repo").is_ok());
    assert!(validate_github_url("see https://github.com/o-w_n.er/re.po for code").is_ok());
    assert_eq!(
        validate_github_url("https://gitlab.com/owner/repo").unwrap_err(),
        "URL must be a github.com URL"
    );
    assert_eq!(
        validate_github_url("http://github.com/owner/repo").unwrap_err(),
        "URL must follow format: https://github.com/owner/repo"
    );
    assert!(validate_github_url("https://github.com/owneronly").is_err());
    assert!(validate_github_url("https://github.com//repo").is_err());
}

#[test]
fn plain_url_scheme() {
    assert!(validate_url("https://example.org/x", "arxiv_url").is_ok());
    assert!(validate_url("http://example.org/x", "pdf_url").is_ok());
    let msg = validate_url("ftp://example.org/x", "pdf_url").unwrap_err();
    assert_eq!(msg, "pdf_url must start with http:// or https://");
}

#[test]
fn parse_repository_urls() {
    assert_eq!(
        parse_github_url("https://github.com/owner/repo"),
        Some(("owner".to_string(), "repo".to_string()))
    );
    assert_eq!(
        parse_github_url("https://github.com/owner/repo.git"),
        Some(("owner".to_string(), "repo".to_string()))
    );
    assert_eq!(
        parse_github_url("https://github.com/owner/repo/"),
        Some(("owner".to_string(), "repo".to_string()))
    );
    assert_eq!(parse_github_url("repo-without-slash"), None);
    assert_eq!(parse_github_url("https://github.com/onlyowner"), None);
}

#[test]
fn valid_submission_passes() {
    let r = validate_full_submission(&submission(paper("A Fine Title", "2301.12345")), "a.yaml", today());
    assert!(r.valid);
    assert!(!r.has_errors());
    assert_eq!(r.file_path, "a.yaml");
}

#[test]
fn title_rules() {
    let r = validate_full_submission(&submission(paper("", "2301.12345")), "t.yaml", today());
    assert!(!r.valid);
    let r = validate_full_submission(&submission(paper("   ", "2301.12345")), "t.yaml", today());
    assert!(!r.valid);
    let r = validate_full_submission(&submission(paper("abcd", "2301.12345")), "t.yaml", today());
    assert!(!r.valid);
    let long = "x".repeat(501);
    let r = validate_full_submission(&submission(paper(&long, "2301.12345")), "t.yaml", today());
    assert!(!r.valid);
}

#[test]
fn future_date_rejected() {
    let mut p = paper("A Fine Title", "2301.12345");
    p.published_date = Date::new_checked(2030, 1, 1);
    let r = validate_full_submission(&submission(p), "f.yaml", today());
    assert!(!r.valid);
}

#[test]
fn bad_nested_records_rejected() {
    let mut s = submission(paper("A Fine Title", "2301.12345"));
    s.implementations = Some(vec![ImplementationSubmission {
        github_url: "https://gitlab.com/x/y".to_string(),
        framework: Some("pytorch".to_string()),
        is_official: true,
        stars: Some(5),
    }]);
    let r = validate_full_submission(&s, "i.yaml", today());
    assert!(!r.valid);

    let mut s = submission(paper("A Fine Title", "2301.12345"));
    s.benchmark_results = Some(vec![BenchmarkResultSubmission {
        dataset_name: "  ".to_string(),
        task: "classification".to_string(),
        metric_name: "accuracy".to_string(),
        metric_value: DecimalValue { mantissa: 987, scale: 1 },
    }]);
    let r = validate_full_submission(&s, "b.yaml", today());
    assert!(!r.valid);
}

#[test]
fn warnings_do_not_invalidate() {
    let mut p = paper("A Fine Title", "2301.12345");
    p.abstract_text = None;
    p.authors = None;
    p.published_date = None;
    let mut s = submission(p);
    s.implementations = Some(vec![ImplementationSubmission {
        github_url: "https://github.com/owner/repo".to_string(),
        framework: Some("mxnet".to_string()),
        is_official: false,
        stars: None,
    }]);
    let r = validate_full_submission(&s, "w.yaml", today());
    assert!(r.valid);
    assert!(!r.has_errors());
    assert!(r.issues.len() >= 3);
    assert!(r.issues.iter().all(|i| i.severity == IssueSeverity::Warning));
}

#[test]
fn manual_result_accumulation() {
    let mut r = ValidationResult::new("m.yaml");
    assert!(!r.has_errors());
    r.add_warning("f", "w", Some("s"));
    assert!(!r.has_errors());
    r.add_error("f", "e", None);
    assert!(r.has_errors());
    assert_eq!(r.issues.len(), 2);
    assert_eq!(r.issues[0].suggestion.as_deref(), Some("s"));
    assert_eq!(r.issues[1].suggestion, None);
}

#[test]
fn submission_file_names() {
    assert!(is_submission_file_name("paper.yaml", "yaml"));
    assert!(is_submission_file_name("paper.yml", "yml"));
    assert!(!is_submission_file_name("paper.yaml", "json"));
    assert!(!is_submission_file_name("example-paper.yaml", "yaml"));
    assert!(!is_submission_file_name("_draft.yaml", "yaml"));
}

#[test]
fn report_lines() {
    let good = validate_full_submission(
        &submission(paper("A Fine Title", "2301.12345")),
        "good.yaml",
        today(),
    );
    let bad = validate_full_submission(&submission(paper("x", "nope")), "bad.yaml", today());
    let results = vec![good, bad];
    assert_eq!(count_valid(&results), 1);

    let gh = github_report_lines(&results);
    assert!(gh.iter().any(|l| l.starts_with("::errorfile=bad.yaml::paper.title:")));

    let sum = summary_lines(&results);
    assert_eq!(sum.len(), 6);
    assert_eq!(sum[1], "Summary: 2 file(s) checked");
    assert_eq!(sum[2], "  Valid: 1");
    assert_eq!(sum[3], "  Invalid: 1");
    assert_eq!(sum[5], "Please fix the errors above and try again.");

    let block = result_block_lines(&results[0]);
    assert_eq!(block[0], "Validating: good.yaml");
    assert_eq!(block[1], "  [VALID] Schema validation passed");
}
