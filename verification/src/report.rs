//! Validation report rendering: the exact lines of the human-readable and
//! workflow-command outputs.  Printing them is the caller's part.

use crate::text;
use crate::text::dec_rep;
use crate::validate::IssueSeverity;
use crate::validate::ValidationIssue;
use crate::validate::ValidationResult;
use vstd::prelude::*;
use vstd::string::StringExecFns;

verus! {

/// How many of the verdicts are valid.
pub open spec fn spec_count_valid(rs: Seq<ValidationResult>) -> int
    decreases rs.len(),
{
    if rs.len() == 0 {
        0
    } else {
        (if rs[0].valid {
            1int
        } else {
            0int
        }) + spec_count_valid(rs.drop_first())
    }
}

proof fn lemma_count_valid_push(rs: Seq<ValidationResult>, r: ValidationResult)
    ensures
        spec_count_valid(rs.push(r)) == spec_count_valid(rs) + (if r.valid {
            1int
        } else {
            0int
        }),
    decreases rs.len(),
{
    if rs.len() == 0 {
        reveal_with_fuel(spec_count_valid, 3);
        assert(rs.push(r)[0] == r);
        assert(rs.push(r).drop_first() =~= Seq::<ValidationResult>::empty());
    } else {
        assert(rs.push(r).drop_first() =~= rs.drop_first().push(r));
        assert(rs.push(r)[0] == rs[0]);
        lemma_count_valid_push(rs.drop_first(), r);
    }
}

proof fn lemma_count_valid_bound(rs: Seq<ValidationResult>)
    ensures
        0 <= spec_count_valid(rs) <= rs.len(),
    decreases rs.len(),
{
    if rs.len() > 0 {
        lemma_count_valid_bound(rs.drop_first());
    }
}

/// Counts the valid verdicts.
pub fn count_valid(results: &Vec<ValidationResult>) -> (r: usize)
    ensures
        r == spec_count_valid(results@),
        r <= results@.len(),
{
    let mut n: usize = 0;
    let mut i: usize = 0;
    proof {
        assert(results@.take(0int) =~= Seq::<ValidationResult>::empty());
    }
    while i < results.len()
        invariant
            0 <= i <= results@.len(),
            n == spec_count_valid(results@.take(i as int)),
            n <= i,
        decreases results@.len() - i,
    {
        proof {
            assert(results@.take(i + 1) =~= results@.take(i as int).push(results@[i as int]));
            lemma_count_valid_push(results@.take(i as int), results@[i as int]);
        }
        if results[i].valid {
            n = n + 1;
        }
        i = i + 1;
    }
    proof {
        assert(results@.take(results@.len() as int) =~= results@);
        lemma_count_valid_bound(results@);
    }
    n
}

/// The workflow-command line of one finding.
pub open spec fn spec_gh_line(path: Seq<char>, issue: ValidationIssue) -> Seq<char> {
    let level = if issue.severity is Error {
        "error"@
    } else {
        "warning"@
    };
    "::"@ + level + "file="@ + path + "::"@ + issue.field@ + ":"@ + issue.message@
}

/// The workflow-command lines of one verdict's findings.
pub open spec fn spec_gh_lines_of(path: Seq<char>, issues: Seq<ValidationIssue>) -> Seq<
    Seq<char>,
>
    decreases issues.len(),
{
    if issues.len() == 0 {
        Seq::empty()
    } else {
        seq![spec_gh_line(path, issues[0])] + spec_gh_lines_of(path, issues.drop_first())
    }
}

/// The workflow-command lines of all verdicts.
pub open spec fn spec_gh_lines(rs: Seq<ValidationResult>) -> Seq<Seq<char>>
    decreases rs.len(),
{
    if rs.len() == 0 {
        Seq::empty()
    } else {
        spec_gh_lines_of(rs[0].file_path@, rs[0].issues@) + spec_gh_lines(rs.drop_first())
    }
}

proof fn lemma_gh_lines_of_push(path: Seq<char>, issues: Seq<ValidationIssue>, x: ValidationIssue)
    ensures
        spec_gh_lines_of(path, issues.push(x)) == spec_gh_lines_of(path, issues) + seq![
            spec_gh_line(path, x),
        ],
    decreases issues.len(),
{
    if issues.len() == 0 {
        reveal_with_fuel(spec_gh_lines_of, 3);
        assert(issues.push(x)[0] == x);
        assert(issues.push(x).drop_first() =~= Seq::<ValidationIssue>::empty());
        assert(spec_gh_lines_of(path, issues) + seq![spec_gh_line(path, x)] =~= seq![
            spec_gh_line(path, x),
        ]);
    } else {
        assert(issues.push(x).drop_first() =~= issues.drop_first().push(x));
        assert(issues.push(x)[0] == issues[0]);
        lemma_gh_lines_of_push(path, issues.drop_first(), x);
        assert(seq![spec_gh_line(path, issues[0])] + (spec_gh_lines_of(path, issues.drop_first())
            + seq![spec_gh_line(path, x)]) =~= (seq![spec_gh_line(path, issues[0])]
            + spec_gh_lines_of(path, issues.drop_first())) + seq![spec_gh_line(path, x)]);
    }
}

proof fn lemma_gh_lines_push(rs: Seq<ValidationResult>, r: ValidationResult)
    ensures
        spec_gh_lines(rs.push(r)) == spec_gh_lines(rs) + spec_gh_lines_of(
            r.file_path@,
            r.issues@,
        ),
    decreases rs.len(),
{
    if rs.len() == 0 {
        reveal_with_fuel(spec_gh_lines, 3);
        assert(rs.push(r)[0] == r);
        assert(rs.push(r).drop_first() =~= Seq::<ValidationResult>::empty());
        assert(spec_gh_lines(rs.push(r)) =~= spec_gh_lines_of(r.file_path@, r.issues@));
        assert(spec_gh_lines(rs) + spec_gh_lines_of(r.file_path@, r.issues@) =~= spec_gh_lines_of(
            r.file_path@,
            r.issues@,
        ));
    } else {
        assert(rs.push(r).drop_first() =~= rs.drop_first().push(r));
        assert(rs.push(r)[0] == rs[0]);
        lemma_gh_lines_push(rs.drop_first(), r);
        assert(spec_gh_lines_of(rs[0].file_path@, rs[0].issues@) + (spec_gh_lines(
            rs.drop_first(),
        ) + spec_gh_lines_of(r.file_path@, r.issues@)) =~= (spec_gh_lines_of(
            rs[0].file_path@,
            rs[0].issues@,
        ) + spec_gh_lines(rs.drop_first())) + spec_gh_lines_of(r.file_path@, r.issues@));
    }
}

/// Renders the findings as workflow commands, one line per finding.
pub fn github_report_lines(results: &Vec<ValidationResult>) -> (r: Vec<String>)
    ensures
        crate::query::strs_view(r@) == spec_gh_lines(results@),
{
    let mut out: Vec<String> = Vec::new();
    let mut i: usize = 0;
    proof {
        assert(results@.take(0int) =~= Seq::<ValidationResult>::empty());
        assert(crate::query::strs_view(out@) =~= Seq::<Seq<char>>::empty());
    }
    while i < results.len()
        invariant
            0 <= i <= results@.len(),
            crate::query::strs_view(out@) == spec_gh_lines(results@.take(i as int)),
        decreases results@.len() - i,
    {
        proof {
            assert(results@.take(i + 1) =~= results@.take(i as int).push(results@[i as int]));
            lemma_gh_lines_push(results@.take(i as int), results@[i as int]);
        }
        let res = &results[i];
        let mut j: usize = 0;
        let ghost done = spec_gh_lines(results@.take(i as int));
        proof {
            assert(res.issues@.take(0int) =~= Seq::<ValidationIssue>::empty());
            assert(done + spec_gh_lines_of(res.file_path@, res.issues@.take(0int)) =~= done);
        }
        while j < res.issues.len()
            invariant
                0 <= j <= res.issues@.len(),
                res == results@[i as int],
                0 <= i < results@.len(),
                crate::query::strs_view(out@) == done + spec_gh_lines_of(
                    res.file_path@,
                    res.issues@.take(j as int),
                ),
            decreases res.issues@.len() - j,
        {
            proof {
                assert(res.issues@.take(j + 1) =~= res.issues@.take(j as int).push(
                    res.issues@[j as int],
                ));
                lemma_gh_lines_of_push(
                    res.file_path@,
                    res.issues@.take(j as int),
                    res.issues@[j as int],
                );
            }
            let issue = &res.issues[j];
            let mut line = String::from_str("::");
            match issue.severity {
                IssueSeverity::Error => line.append("error"),
                IssueSeverity::Warning => line.append("warning"),
            }
            line.append("file=");
            line.append(res.file_path.as_str());
            line.append("::");
            line.append(issue.field.as_str());
            line.append(":");
            line.append(issue.message.as_str());
            let ghost pre = out@;
            out.push(line);
            proof {
                assert(out@.last()@ =~= spec_gh_line(res.file_path@, res.issues@[j as int]));
                assert(crate::query::strs_view(out@) =~= crate::query::strs_view(pre).push(
                    out@.last()@,
                ));
                assert(done + spec_gh_lines_of(res.file_path@, res.issues@.take(j + 1)) =~= (done
                    + spec_gh_lines_of(res.file_path@, res.issues@.take(j as int))).push(
                    spec_gh_line(res.file_path@, res.issues@[j as int]),
                ));
            }
            j = j + 1;
        }
        proof {
            assert(res.issues@.take(res.issues@.len() as int) =~= res.issues@);
        }
        i = i + 1;
    }
    proof {
        assert(results@.take(results@.len() as int) =~= results@);
    }
    out
}

/// The closing summary of the human-readable report: separator, counts,
/// separator, verdict.
pub fn summary_lines(results: &Vec<ValidationResult>) -> (r: Vec<String>)
    ensures
        r@.len() == 6,
        r@[1]@ == "Summary: "@ + dec_rep(results@.len() as int) + " file(s) checked"@,
        r@[2]@ == "  Valid: "@ + dec_rep(spec_count_valid(results@)),
        r@[3]@ == "  Invalid: "@ + dec_rep(results@.len() - spec_count_valid(results@)),
        r@[5]@ == (if spec_count_valid(results@) == results@.len() {
            "All submissions are valid!"@
        } else {
            "Please fix the errors above and try again."@
        }),
{
    let sep = "============================================================";
    let total = results.len();
    let valid = count_valid(results);
    let invalid = total - valid;
    let mut out: Vec<String> = Vec::new();
    out.push(String::from_str(sep));
    let mut l1 = String::from_str("Summary: ");
    l1.append(text::u64_to_string(total as u64).as_str());
    l1.append(" file(s) checked");
    out.push(l1);
    let mut l2 = String::from_str("  Valid: ");
    l2.append(text::u64_to_string(valid as u64).as_str());
    out.push(l2);
    let mut l3 = String::from_str("  Invalid: ");
    l3.append(text::u64_to_string(invalid as u64).as_str());
    out.push(l3);
    out.push(String::from_str(sep));
    if invalid == 0 {
        out.push(String::from_str("All submissions are valid!"));
    } else {
        out.push(String::from_str("Please fix the errors above and try again."));
    }
    proof {
        assert(out@[1]@ =~= "Summary: "@ + dec_rep(results@.len() as int) + " file(s) checked"@);
        assert(out@[2]@ =~= "  Valid: "@ + dec_rep(spec_count_valid(results@)));
        assert(out@[3]@ =~= "  Invalid: "@ + dec_rep(results@.len() - spec_count_valid(
            results@,
        )));
    }
    out
}

/// The severity-tagged line of one finding.
pub open spec fn spec_issue_line(issue: ValidationIssue) -> Seq<char> {
    let tag = if issue.severity is Error {
        "  [ERROR] "@
    } else {
        "  [WARNING] "@
    };
    tag + issue.field@ + ": "@ + issue.message@
}

/// The lines of one finding: its tagged line, plus the indented suggestion
/// when one was given.
pub open spec fn spec_issue_block(issue: ValidationIssue) -> Seq<Seq<char>> {
    match issue.suggestion {
        Some(sug) => seq![spec_issue_line(issue), "          "@ + sug@],
        None => seq![spec_issue_line(issue)],
    }
}

/// The finding lines of one verdict, in order.
pub open spec fn spec_issue_blocks(issues: Seq<ValidationIssue>) -> Seq<Seq<char>>
    decreases issues.len(),
{
    if issues.len() == 0 {
        Seq::empty()
    } else {
        spec_issue_block(issues[0]) + spec_issue_blocks(issues.drop_first())
    }
}

proof fn lemma_issue_blocks_push(issues: Seq<ValidationIssue>, x: ValidationIssue)
    ensures
        spec_issue_blocks(issues.push(x)) == spec_issue_blocks(issues) + spec_issue_block(x),
    decreases issues.len(),
{
    if issues.len() == 0 {
        reveal_with_fuel(spec_issue_blocks, 3);
        assert(issues.push(x)[0] == x);
        assert(issues.push(x).drop_first() =~= Seq::<ValidationIssue>::empty());
        assert(spec_issue_blocks(issues.push(x)) =~= spec_issue_block(x));
        assert(spec_issue_blocks(issues) + spec_issue_block(x) =~= spec_issue_block(x));
    } else {
        assert(issues.push(x).drop_first() =~= issues.drop_first().push(x));
        assert(issues.push(x)[0] == issues[0]);
        lemma_issue_blocks_push(issues.drop_first(), x);
        assert(spec_issue_block(issues[0]) + (spec_issue_blocks(issues.drop_first())
            + spec_issue_block(x)) =~= (spec_issue_block(issues[0]) + spec_issue_blocks(
            issues.drop_first(),
        )) + spec_issue_block(x));
    }
}

/// The lines of one verdict in the human-readable report: a header, the
/// verdict, and one line per finding plus an indented suggestion where one
/// was given.
pub fn result_block_lines(res: &ValidationResult) -> (r: Vec<String>)
    ensures
        crate::query::strs_view(r@) == seq!["Validating: "@ + res.file_path@, (if res.valid {
            "  [VALID] Schema validation passed"@
        } else {
            "  [INVALID] Validation failed"@
        })] + spec_issue_blocks(res.issues@),
{
    let mut out: Vec<String> = Vec::new();
    let mut header = String::from_str("Validating: ");
    header.append(res.file_path.as_str());
    out.push(header);
    if res.valid {
        out.push(String::from_str("  [VALID] Schema validation passed"));
    } else {
        out.push(String::from_str("  [INVALID] Validation failed"));
    }
    let ghost head = seq!["Validating: "@ + res.file_path@, (if res.valid {
        "  [VALID] Schema validation passed"@
    } else {
        "  [INVALID] Validation failed"@
    })];
    let mut j: usize = 0;
    proof {
        assert(res.issues@.take(0int) =~= Seq::<ValidationIssue>::empty());
        assert(crate::query::strs_view(out@) =~= head + spec_issue_blocks(
            res.issues@.take(0int),
        ));
    }
    while j < res.issues.len()
        invariant
            0 <= j <= res.issues@.len(),
            crate::query::strs_view(out@) == head + spec_issue_blocks(res.issues@.take(j as int)),
        decreases res.issues@.len() - j,
    {
        proof {
            assert(res.issues@.take(j + 1) =~= res.issues@.take(j as int).push(
                res.issues@[j as int],
            ));
            lemma_issue_blocks_push(res.issues@.take(j as int), res.issues@[j as int]);
        }
        let issue = &res.issues[j];
        let mut line = match issue.severity {
            IssueSeverity::Error => String::from_str("  [ERROR] "),
            IssueSeverity::Warning => String::from_str("  [WARNING] "),
        };
        line.append(issue.field.as_str());
        line.append(": ");
        line.append(issue.message.as_str());
        let ghost pre1 = out@;
        out.push(line);
        proof {
            assert(out@.last()@ =~= spec_issue_line(res.issues@[j as int]));
            assert(crate::query::strs_view(out@) =~= crate::query::strs_view(pre1).push(
                out@.last()@,
            ));
        }
        match &issue.suggestion {
            Some(sug) => {
                let mut sline = String::from_str("          ");
                sline.append(sug.as_str());
                let ghost pre2 = out@;
                out.push(sline);
                proof {
                    assert(out@.last()@ =~= "          "@ + res.issues@[j as int].suggestion->Some_0@);
                    assert(crate::query::strs_view(out@) =~= crate::query::strs_view(pre2).push(
                        out@.last()@,
                    ));
                    assert(head + spec_issue_blocks(res.issues@.take(j + 1)) =~= (head
                        + spec_issue_blocks(res.issues@.take(j as int))).push(
                        spec_issue_line(res.issues@[j as int]),
                    ).push("          "@ + res.issues@[j as int].suggestion->Some_0@));
                }
            },
            None => {
                proof {
                    assert(head + spec_issue_blocks(res.issues@.take(j + 1)) =~= (head
                        + spec_issue_blocks(res.issues@.take(j as int))).push(
                        spec_issue_line(res.issues@[j as int]),
                    ));
                }
            },
        }
        j = j + 1;
    }
    proof {
        assert(res.issues@.take(res.issues@.len() as int) =~= res.issues@);
    }
    out
}

} // verus!
