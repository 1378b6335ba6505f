//! Submission validation: the YAML submission model as plain values, field
//! validators, and the per-file validation verdict.

use crate::dates::Date;
use crate::text;
use crate::text::contains_seq;
use crate::text::is_blank_seq;
use crate::text::occurs_at;
use vstd::prelude::*;
use vstd::string::StrSliceExecFns;
use vstd::string::StringExecFns;

verus! {

/// A decimal number as plain values: `mantissa * 10^-scale`.
#[derive(Clone, Copy, PartialEq, Eq, Structural, Debug)]
pub struct DecimalValue {
    pub mantissa: i64,
    pub scale: u32,
}

/// Paper submission data parsed from a submission file.
pub struct PaperSubmission {
    pub title: String,
    pub arxiv_id: String,
    pub abstract_text: Option<String>,
    pub arxiv_url: Option<String>,
    pub pdf_url: Option<String>,
    pub published_date: Option<Date>,
    pub authors: Option<Vec<String>>,
}

/// Implementation submission data.
pub struct ImplementationSubmission {
    pub github_url: String,
    pub framework: Option<String>,
    pub is_official: bool,
    pub stars: Option<i32>,
}

/// Benchmark result submission data.
pub struct BenchmarkResultSubmission {
    pub dataset_name: String,
    pub task: String,
    pub metric_name: String,
    pub metric_value: DecimalValue,
}

/// A full submission: one paper with optional implementations and
/// benchmark results.
pub struct FullSubmission {
    pub paper: PaperSubmission,
    pub implementations: Option<Vec<ImplementationSubmission>>,
    pub benchmark_results: Option<Vec<BenchmarkResultSubmission>>,
}

impl FullSubmission {
    /// Well-formedness: a present publication date is a real calendar date.
    pub open spec fn wf(self) -> bool {
        self.paper.published_date matches Some(d) ==> d.valid()
    }
}

/// Severity of a validation finding.
#[derive(Clone, Copy, PartialEq, Eq, Structural, Debug)]
pub enum IssueSeverity {
    Error,
    Warning,
}

/// One validation finding.
pub struct ValidationIssue {
    pub severity: IssueSeverity,
    pub field: String,
    pub message: String,
    pub suggestion: Option<String>,
}

/// The verdict on one submission file.
pub struct ValidationResult {
    pub file_path: String,
    pub valid: bool,
    pub issues: Vec<ValidationIssue>,
}

/// Whether the issue list contains an error (not merely warnings).
pub open spec fn spec_has_error(issues: Seq<ValidationIssue>) -> bool {
    exists|i: int| 0 <= i < issues.len() && (#[trigger] issues[i]).severity is Error
}

/// Whether the issue list contains an error recorded under this field.
pub open spec fn spec_has_error_field(issues: Seq<ValidationIssue>, f: Seq<char>) -> bool {
    exists|i: int|
        0 <= i < issues.len() && (#[trigger] issues[i]).severity is Error && issues[i].field@
            == f
}

impl ValidationResult {
    /// A fresh verdict for a file: not yet valid, no findings.
    pub fn new(file_path: &str) -> (r: ValidationResult)
        ensures
            r.file_path@ == file_path@,
            r.valid == false,
            r.issues@ =~= Seq::<ValidationIssue>::empty(),
    {
        ValidationResult { file_path: file_path.to_owned(), valid: false, issues: Vec::new() }
    }

    /// Records an error finding.
    pub fn add_error(&mut self, field: &str, message: &str, suggestion: Option<&str>)
        ensures
            final(self).file_path == old(self).file_path,
            final(self).valid == old(self).valid,
            final(self).issues@.len() == old(self).issues@.len() + 1,
            final(self).issues@.last().severity is Error,
            final(self).issues@.last().field@ == field@,
            final(self).issues@.last().message@ == message@,
            suggestion matches Some(sg) ==> (final(self).issues@.last().suggestion matches Some(t)
                && t@ == sg@),
            suggestion is None ==> final(self).issues@.last().suggestion is None,
            final(self).issues@.drop_last() == old(self).issues@,
            spec_has_error(final(self).issues@),
            spec_has_error_field(final(self).issues@, field@),
            forall|f: Seq<char>|
                f != field@ ==> spec_has_error_field(final(self).issues@, f)
                    == spec_has_error_field(old(self).issues@, f),
            forall|f: Seq<char>|
                spec_has_error_field(old(self).issues@, f) ==> spec_has_error_field(
                    final(self).issues@,
                    f,
                ),
    {
        let issue = ValidationIssue {
            severity: IssueSeverity::Error,
            field: field.to_owned(),
            message: message.to_owned(),
            suggestion: match suggestion {
                Some(s) => Some(s.to_owned()),
                None => None,
            },
        };
        self.issues.push(issue);
        proof {
            assert(final(self).issues@.drop_last() =~= old(self).issues@);
            assert(final(self).issues@.last().severity is Error);
            let post = final(self).issues@;
            let pre = old(self).issues@;
            assert(spec_has_error_field(post, field@)) by {
                assert(post[post.len() - 1].severity is Error && post[post.len() - 1].field@
                    == field@);
            }
            assert forall|f: Seq<char>| spec_has_error_field(pre, f) implies spec_has_error_field(
                post,
                f,
            ) by {
                let i = choose|i: int|
                    0 <= i < pre.len() && (#[trigger] pre[i]).severity is Error && pre[i].field@
                        == f;
                assert(post[i] == pre[i]);
            }
            assert forall|f: Seq<char>| f != field@ implies spec_has_error_field(post, f)
                == spec_has_error_field(pre, f) by {
                if spec_has_error_field(post, f) {
                    let i = choose|i: int|
                        0 <= i < post.len() && (#[trigger] post[i]).severity is Error
                            && post[i].field@ == f;
                    assert(i < pre.len());
                    assert(pre[i] == post[i]);
                }
            }
        }
    }

    /// Records a warning finding.
    pub fn add_warning(&mut self, field: &str, message: &str, suggestion: Option<&str>)
        ensures
            final(self).file_path == old(self).file_path,
            final(self).valid == old(self).valid,
            final(self).issues@.len() == old(self).issues@.len() + 1,
            final(self).issues@.last().severity is Warning,
            final(self).issues@.last().field@ == field@,
            final(self).issues@.last().message@ == message@,
            suggestion matches Some(sg) ==> (final(self).issues@.last().suggestion matches Some(t)
                && t@ == sg@),
            suggestion is None ==> final(self).issues@.last().suggestion is None,
            final(self).issues@.drop_last() == old(self).issues@,
            spec_has_error(final(self).issues@) == spec_has_error(old(self).issues@),
            forall|f: Seq<char>|
                spec_has_error_field(final(self).issues@, f) == spec_has_error_field(
                    old(self).issues@,
                    f,
                ),
    {
        let issue = ValidationIssue {
            severity: IssueSeverity::Warning,
            field: field.to_owned(),
            message: message.to_owned(),
            suggestion: match suggestion {
                Some(s) => Some(s.to_owned()),
                None => None,
            },
        };
        self.issues.push(issue);
        proof {
            assert(final(self).issues@.drop_last() =~= old(self).issues@);
            let post = final(self).issues@;
            let pre = old(self).issues@;
            if spec_has_error(post) {
                let i = choose|i: int| 0 <= i < post.len() && (#[trigger] post[i]).severity
                    is Error;
                assert(i < pre.len());
                assert(pre[i].severity is Error);
            }
            if spec_has_error(pre) {
                let i = choose|i: int| 0 <= i < pre.len() && (#[trigger] pre[i]).severity
                    is Error;
                assert(post[i].severity is Error);
            }
            assert forall|f: Seq<char>| spec_has_error_field(post, f) == spec_has_error_field(
                pre,
                f,
            ) by {
                if spec_has_error_field(pre, f) {
                    let i = choose|i: int|
                        0 <= i < pre.len() && (#[trigger] pre[i]).severity is Error
                            && pre[i].field@ == f;
                    assert(post[i] == pre[i]);
                }
                if spec_has_error_field(post, f) {
                    let i = choose|i: int|
                        0 <= i < post.len() && (#[trigger] post[i]).severity is Error
                            && post[i].field@ == f;
                    assert(i < pre.len());
                    assert(pre[i] == post[i]);
                }
            }
        }
    }

    /// Whether any finding is an error.
    pub fn has_errors(&self) -> (r: bool)
        ensures
            r == spec_has_error(self.issues@),
    {
        let mut i: usize = 0;
        while i < self.issues.len()
            invariant
                0 <= i <= self.issues@.len(),
                forall|j: int| 0 <= j < i ==> !((#[trigger] self.issues@[j]).severity is Error),
            decreases self.issues@.len() - i,
        {
            match self.issues[i].severity {
                IssueSeverity::Error => {
                    return true;
                },
                IssueSeverity::Warning => {},
            }
            i = i + 1;
        }
        false
    }
}

/// A decimal digit.
pub open spec fn is_digit(c: char) -> bool {
    '0' <= c <= '9'
}

/// A lower-case letter or hyphen, the alphabet of old-style archive
/// categories.
pub open spec fn is_lower_or_hyphen(c: char) -> bool {
    ('a' <= c <= 'z') || c == '-'
}

/// An upper-case letter.
pub open spec fn is_upper(c: char) -> bool {
    'A' <= c <= 'Z'
}

/// A word character of repository paths: letters, digits, underscore, dot
/// or hyphen.
pub open spec fn is_wordish(c: char) -> bool {
    ('a' <= c <= 'z') || ('A' <= c <= 'Z') || ('0' <= c <= '9') || c == '_' || c == '.' || c
        == '-'
}

/// All characters of `s` in `[from, to)` are digits.
pub open spec fn all_digits(s: Seq<char>, from: int, to: int) -> bool {
    forall|k: int| from <= k < to ==> is_digit(#[trigger] s[k])
}

/// The version suffix `v<digits>` fills `s` from position `p` to the end.
pub open spec fn version_suffix_at(s: Seq<char>, p: int) -> bool {
    &&& 0 <= p
    &&& p + 2 <= s.len()
    &&& s[p] == 'v'
    &&& all_digits(s, p + 1, s.len() as int)
}

/// The modern identifier shape `NNNN.NNNN[N][vN..]`: four digits, a dot,
/// four or five digits, optionally `v` and a version number, nothing else.
pub open spec fn spec_arxiv_standard(s: Seq<char>) -> bool {
    &&& s.len() >= 9
    &&& all_digits(s, 0, 4)
    &&& s[4] == '.'
    &&& exists|w: int|
        #![trigger all_digits(s, 5, 5 + w)]
        {
            &&& (w == 4 || w == 5)
            &&& 5 + w <= s.len()
            &&& all_digits(s, 5, 5 + w)
            &&& (s.len() == 5 + w || version_suffix_at(s, 5 + w))
        }
}

/// All characters of `s` in `[from, to)` are lower-case letters or hyphens.
pub open spec fn all_lower_hyphen(s: Seq<char>, from: int, to: int) -> bool {
    forall|k: int| from <= k < to ==> is_lower_or_hyphen(#[trigger] s[k])
}

/// The old identifier shape `category[.XX]/NNNNNNN`: a category of
/// lower-case letters and hyphens, an optional dot plus two capitals, a
/// slash, seven digits.
pub open spec fn spec_arxiv_old(s: Seq<char>) -> bool {
    let p = s.len() - 8;
    &&& s.len() >= 9
    &&& s[p] == '/'
    &&& all_digits(s, p + 1, s.len() as int)
    &&& (all_lower_hyphen(s, 0, p) || {
        &&& p >= 4
        &&& s[p - 3] == '.'
        &&& is_upper(s[p - 2])
        &&& is_upper(s[p - 1])
        &&& all_lower_hyphen(s, 0, p - 3)
    })
}

/// A well-formed archive identifier, either shape.
pub open spec fn spec_valid_arxiv_id(s: Seq<char>) -> bool {
    spec_arxiv_standard(s) || spec_arxiv_old(s)
}

/// Number of consecutive digits of `s` starting at `from`.
fn digit_run(s: &str, slen: usize, from: usize) -> (r: usize)
    requires
        slen == s@.len(),
        from <= slen,
    ensures
        from + r <= slen,
        all_digits(s@, from as int, from + r),
        from + r == slen || !is_digit(s@[from + r]),
{
    let mut i: usize = from;
    while i < slen
        invariant
            from <= i <= slen,
            slen == s@.len(),
            all_digits(s@, from as int, i as int),
        decreases slen - i,
    {
        let c = s.get_char(i);
        if !('0' <= c && c <= '9') {
            return i - from;
        }
        i = i + 1;
    }
    slen - from
}

/// Whether `s[from..to)` holds only lower-case letters and hyphens.
fn check_lower_hyphen(s: &str, slen: usize, from: usize, to: usize) -> (r: bool)
    requires
        slen == s@.len(),
        from <= to <= slen,
    ensures
        r == all_lower_hyphen(s@, from as int, to as int),
{
    let mut i: usize = from;
    while i < to
        invariant
            from <= i <= to <= slen,
            slen == s@.len(),
            all_lower_hyphen(s@, from as int, i as int),
        decreases to - i,
    {
        let c = s.get_char(i);
        if !(('a' <= c && c <= 'z') || c == '-') {
            return false;
        }
        i = i + 1;
    }
    true
}

/// Checks an archive identifier against both accepted shapes.  The message
/// of the error names the expected formats.
pub fn validate_arxiv_id(id: &str) -> (r: Result<(), String>)
    ensures
        r is Ok <==> spec_valid_arxiv_id(id@),
        r matches Err(m) ==> m@ == "Invalid arXiv ID format: '"@ + id@
            + "'. Expected format like '2301.12345', '2301.12345v2', or 'cs.CV/0601001'"@,
{
    if check_arxiv_standard(id) || check_arxiv_old(id) {
        Ok(())
    } else {
        let mut m = String::new();
        m.append("Invalid arXiv ID format: '");
        m.append(id);
        m.append("'. Expected format like '2301.12345', '2301.12345v2', or 'cs.CV/0601001'");
        proof {
            assert(m@ =~= "Invalid arXiv ID format: '"@ + id@
                + "'. Expected format like '2301.12345', '2301.12345v2', or 'cs.CV/0601001'"@);
        }
        Err(m)
    }
}

/// Decides the modern identifier shape.
fn check_arxiv_standard(id: &str) -> (r: bool)
    ensures
        r == spec_arxiv_standard(id@),
{
    let slen: usize = id.unicode_len();
    if slen < 9 {
        return false;
    }
    let head = digit_run(id, slen, 0);
    if head < 4 {
        assert(!is_digit(id@[head as int]));
        return false;
    }
    if id.get_char(4) != '.' {
        return false;
    }
    let w = digit_run(id, slen, 5);
    if w != 4 && w != 5 {
        proof {
            assert forall|v: int|
                #![trigger all_digits(id@, 5, 5 + v)]
                (v == 4 || v == 5) && 5 + v <= id@.len() && all_digits(id@, 5, 5 + v) implies !(id@.len() == 5 + v || version_suffix_at(id@, 5 + v)) by {
                if w < 4 {
                    assert(!is_digit(id@[5 + w as int]));
                    assert(is_digit(id@[5 + w as int]));
                } else {
                    // w >= 6: positions 5+v are digits, not 'v' and not the end
                    assert(is_digit(id@[5 + v]));
                }
            }
        }
        return false;
    }
    if 5 + w == slen {
        return true;
    }
    if id.get_char(5 + w) != 'v' {
        proof {
            assert forall|v: int|
                #![trigger all_digits(id@, 5, 5 + v)]
                (v == 4 || v == 5) && 5 + v <= id@.len() && all_digits(id@, 5, 5 + v) implies !(id@.len() == 5 + v || version_suffix_at(id@, 5 + v)) by {
                if v == w {
                } else if v < w as int {
                    assert(is_digit(id@[5 + v]));
                } else {
                    assert(is_digit(id@[5 + w as int]));
                    assert(!is_digit(id@[5 + w as int]));
                }
            }
        }
        return false;
    }
    if 5 + w + 1 >= slen {
        proof {
            assert forall|v: int|
                #![trigger all_digits(id@, 5, 5 + v)]
                (v == 4 || v == 5) && 5 + v <= id@.len() && all_digits(id@, 5, 5 + v) implies !(id@.len() == 5 + v || version_suffix_at(id@, 5 + v)) by {
                if v != w as int {
                    if v < w as int {
                        assert(is_digit(id@[5 + v]));
                        assert(5 + v < id@.len());
                        if version_suffix_at(id@, 5 + v) {
                            assert(id@[5 + v] == 'v');
                            assert(false);
                        }
                    } else {
                        assert(is_digit(id@[5 + w as int]));
                    }
                }
            }
        }
        return false;
    }
    let tail = digit_run(id, slen, 5 + w + 1);
    let ok = 5 + w + 1 + tail == slen;
    proof {
        if ok {
            assert(version_suffix_at(id@, 5 + w as int));
        } else {
            assert(!is_digit(id@[5 + w + 1 + tail as int]));
            assert forall|v: int|
                #![trigger all_digits(id@, 5, 5 + v)]
                (v == 4 || v == 5) && 5 + v <= id@.len() && all_digits(id@, 5, 5 + v) implies !(id@.len() == 5 + v || version_suffix_at(id@, 5 + v)) by {
                if v == w as int {
                    assert(!is_digit(id@[5 + w + 1 + tail as int]));
                } else if v < w as int {
                    assert(is_digit(id@[5 + v]));
                    assert(5 + v < id@.len());
                    if version_suffix_at(id@, 5 + v) {
                        assert(id@[5 + v] == 'v');
                        assert(false);
                    }
                } else {
                    assert(is_digit(id@[5 + w as int]));
                }
            }
        }
    }
    ok
}

/// Decides the old identifier shape.
fn check_arxiv_old(id: &str) -> (r: bool)
    ensures
        r == spec_arxiv_old(id@),
{
    let slen: usize = id.unicode_len();
    if slen < 9 {
        return false;
    }
    let p = slen - 8;
    if id.get_char(p) != '/' {
        return false;
    }
    let tail = digit_run(id, slen, p + 1);
    if p + 1 + tail != slen {
        assert(!is_digit(id@[p + 1 + tail as int]));
        return false;
    }
    if check_lower_hyphen(id, slen, 0, p) {
        return true;
    }
    if p >= 4 && id.get_char(p - 3) == '.' {
        let c2 = id.get_char(p - 2);
        let c1 = id.get_char(p - 1);
        if ('A' <= c2 && c2 <= 'Z') && ('A' <= c1 && c1 <= 'Z') {
            return check_lower_hyphen(id, slen, 0, p - 3);
        }
    }
    false
}

/// A repository path `owner/name` (word characters, dots and hyphens)
/// stands at position `i + 19`, right after an occurrence of
/// `https://github.com/` at `i`.
pub open spec fn github_match_at(s: Seq<char>, i: int, a: int) -> bool {
    &&& occurs_at(s, "https://github.com/"@, i)
    &&& 1 <= a
    &&& i + 19 + a + 1 < s.len()
    &&& (forall|k: int| i + 19 <= k < i + 19 + a ==> is_wordish(#[trigger] s[k]))
    &&& s[i + 19 + a] == '/'
    &&& is_wordish(s[i + 19 + a + 1])
}

/// The URL contains a well-formed repository reference
/// `https://github.com/owner/name` somewhere.
pub open spec fn spec_github_repo_url(s: Seq<char>) -> bool {
    exists|i: int, a: int| github_match_at(s, i, a)
}

/// Number of consecutive word characters of `s` starting at `from`.
fn wordish_run(s: &str, slen: usize, from: usize) -> (r: usize)
    requires
        slen == s@.len(),
        from <= slen,
    ensures
        from + r <= slen,
        forall|k: int| from <= k < from + r ==> is_wordish(#[trigger] s@[k]),
        from + r == slen || !is_wordish(s@[from + r]),
    decreases slen - from,
{
    let mut i: usize = from;
    while i < slen
        invariant
            from <= i <= slen,
            slen == s@.len(),
            forall|k: int| from <= k < i ==> is_wordish(#[trigger] s@[k]),
        decreases slen - i,
    {
        let c = s.get_char(i);
        if !(('a' <= c && c <= 'z') || ('A' <= c && c <= 'Z') || ('0' <= c && c <= '9') || c
            == '_' || c == '.' || c == '-') {
            return i - from;
        }
        i = i + 1;
    }
    slen - from
}

/// Scans for a repository reference anywhere in the URL.
fn check_github_repo_url(url: &str) -> (r: bool)
    ensures
        r == spec_github_repo_url(url@),
{
    proof {
        reveal_strlit("https://github.com/");
        assert("https://github.com/"@.len() == 19);
    }
    let slen: usize = url.unicode_len();
    if slen < 19 {
        proof {
            assert forall|i: int, a: int| !github_match_at(url@, i, a) by {
                if github_match_at(url@, i, a) {
                    assert(i + 19 <= url@.len());
                }
            }
        }
        return false;
    }
    let last: usize = slen - 19;
    let mut i: usize = 0;
    while i <= last
        invariant
            slen == url@.len(),
            19 <= slen,
            last == slen - 19,
            0 <= i <= last + 1,
            "https://github.com/"@.len() == 19,
            forall|i0: int, a: int| i0 < i ==> !github_match_at(url@, i0, a),
        decreases last + 1 - i,
    {
        proof {
            reveal_strlit("https://github.com/");
        }
        if crate::text::matches_at(url, slen, "https://github.com/", 19, i) {
            let p: usize = i + 19;
            let a = wordish_run(url, slen, p);
            if a >= 1 && p + a < slen && url.get_char(p + a) == '/' && p + a + 1 < slen {
                let c = url.get_char(p + a + 1);
                if ('a' <= c && c <= 'z') || ('A' <= c && c <= 'Z') || ('0' <= c && c <= '9')
                    || c == '_' || c == '.' || c == '-' {
                    proof {
                        assert(github_match_at(url@, i as int, a as int));
                    }
                    return true;
                }
            }
            proof {
                assert forall|a0: int| !github_match_at(url@, i as int, a0) by {
                    if github_match_at(url@, i as int, a0) {
                        if a0 < a as int {
                            assert(is_wordish(url@[i + 19 + a0]));
                            assert(url@[i + 19 + a0] == '/');
                        } else if a0 > a as int {
                            assert(p + a < url@.len());
                            assert(is_wordish(url@[p + a as int]));
                            assert(!is_wordish(url@[p + a as int]));
                        }
                    }
                }
            }
        } else {
            proof {
                assert forall|a0: int| !github_match_at(url@, i as int, a0) by {}
            }
        }
        i = i + 1;
    }
    proof {
        assert forall|i0: int, a: int| !github_match_at(url@, i0, a) by {
            if github_match_at(url@, i0, a) {
                assert(occurs_at(url@, "https://github.com/"@, i0));
                assert(0 <= i0 && i0 + 19 <= url@.len());
                assert(i0 <= last as int);
                assert(i0 < i);
            }
        }
    }
    false
}

/// Checks that a URL names a repository on the code-hosting site: it must
/// mention the host at all, and must contain a full
/// `https://github.com/owner/name` reference.
pub fn validate_github_url(url: &str) -> (r: Result<(), String>)
    ensures
        r is Ok <==> (contains_seq(url@, "github.com"@) && spec_github_repo_url(url@)),
        !contains_seq(url@, "github.com"@) ==> (r matches Err(m) && m@
            == "URL must be a github.com URL"@),
        (contains_seq(url@, "github.com"@) && !spec_github_repo_url(url@)) ==> (r matches Err(m)
            && m@ == "URL must follow format: https://github.com/owner/repo"@),
{
    if !text::contains_str(url, "github.com") {
        return Err(String::from_str("URL must be a github.com URL"));
    }
    if !check_github_repo_url(url) {
        return Err(String::from_str("URL must follow format: https://github.com/owner/repo"));
    }
    Ok(())
}

/// Basic URL check: the value must start with a web scheme.
pub fn validate_url(url: &str, field_name: &str) -> (r: Result<(), String>)
    ensures
        r is Ok <==> (occurs_at(url@, "http://"@, 0) || occurs_at(url@, "https://"@, 0)),
        r matches Err(m) ==> m@ == field_name@ + " must start with http:// or https://"@,
{
    if text::starts_with_str(url, "http://") || text::starts_with_str(url, "https://") {
        Ok(())
    } else {
        let mut m = String::new();
        m.append(field_name);
        m.append(" must start with http:// or https://");
        proof {
            assert(m@ =~= field_name@ + " must start with http:// or https://"@);
        }
        Err(m)
    }
}

/// Title rejection: blank, shorter than five characters, or longer than
/// five hundred.
pub open spec fn spec_title_error(t: Seq<char>) -> bool {
    is_blank_seq(t) || t.len() < 5 || t.len() > 500
}

/// A present URL that does not start with a web scheme.
pub open spec fn spec_scheme_error(u: Option<String>) -> bool {
    u matches Some(s) && !(occurs_at(s@, "http://"@, 0) || occurs_at(s@, "https://"@, 0))
}

/// An implementation whose repository URL is rejected.
pub open spec fn spec_impl_error(imp: ImplementationSubmission) -> bool {
    !(contains_seq(imp.github_url@, "github.com"@) && spec_github_repo_url(imp.github_url@))
}

/// A benchmark result with a blank dataset, task or metric name.
pub open spec fn spec_bench_error(b: BenchmarkResultSubmission) -> bool {
    is_blank_seq(b.dataset_name@) || is_blank_seq(b.task@) || is_blank_seq(b.metric_name@)
}

/// A publication date lying after today.
pub open spec fn spec_future_date_error(p: PaperSubmission, today: Date) -> bool {
    p.published_date matches Some(d) && today.spec_day_number() < d.spec_day_number()
}

/// Some listed implementation is rejected.
pub open spec fn spec_impls_error(v: Option<Vec<ImplementationSubmission>>) -> bool {
    v matches Some(vv) && exists|j: int| 0 <= j < vv@.len() && spec_impl_error(#[trigger] vv@[j])
}

/// Some listed benchmark result is rejected.
pub open spec fn spec_benches_error(v: Option<Vec<BenchmarkResultSubmission>>) -> bool {
    v matches Some(vv) && exists|j: int| 0 <= j < vv@.len() && spec_bench_error(#[trigger] vv@[j])
}

/// Every condition that makes a submission invalid.  Warnings (missing
/// abstract, authors, date or implementations, unknown framework, an
/// archive URL not pointing at the archive host) never affect validity.
pub open spec fn spec_submission_has_errors(sub: FullSubmission, today: Date) -> bool {
    ||| spec_title_error(sub.paper.title@)
    ||| !spec_valid_arxiv_id(sub.paper.arxiv_id@)
    ||| spec_scheme_error(sub.paper.arxiv_url)
    ||| spec_scheme_error(sub.paper.pdf_url)
    ||| spec_future_date_error(sub.paper, today)
    ||| spec_impls_error(sub.implementations)
    ||| spec_benches_error(sub.benchmark_results)
}

/// Validates one parsed submission against the schema rules: title shape,
/// archive identifier, URLs, no future publication date, repository URLs of
/// the implementations, and non-blank benchmark names; recommended but
/// missing fields yield warnings only.  The verdict is valid exactly when
/// no error condition holds.
pub fn validate_full_submission(submission: &FullSubmission, file_path: &str, today: Date) -> (r:
    ValidationResult)
    requires
        submission.wf(),
        today.valid(),
    ensures
        r.file_path@ == file_path@,
        r.valid == !spec_submission_has_errors(*submission, today),
        spec_has_error(r.issues@) == spec_submission_has_errors(*submission, today),
        spec_has_error_field(r.issues@, "paper.title"@) == spec_title_error(
            submission.paper.title@,
        ),
        spec_has_error_field(r.issues@, "paper.arxiv_id"@) == !spec_valid_arxiv_id(
            submission.paper.arxiv_id@,
        ),
{
    proof {
        // The distinct field labels errors are recorded under: an error
        // under one label never stands for a condition of another.
        reveal_strlit("paper.title");
        reveal_strlit("paper.arxiv_id");
        reveal_strlit("paper.arxiv_url");
        reveal_strlit("paper.pdf_url");
        reveal_strlit("paper.published_date");
        reveal_strlit("implementations[");
        reveal_strlit("benchmark_results[");
        assert("paper.title"@.len() == 11);
        assert("paper.arxiv_id"@.len() == 14);
        assert("paper.arxiv_url"@.len() == 15);
        assert("paper.pdf_url"@.len() == 13);
        assert("paper.published_date"@.len() == 20);
        assert("paper.title"@[0] == 'p' && "paper.arxiv_id"@[0] == 'p');
        assert("implementations["@[0] == 'i' && "benchmark_results["@[0] == 'b');
    }
    let mut result = ValidationResult::new(file_path);
    let paper = &submission.paper;
    let tlen = paper.title.as_str().unicode_len();
    if text::is_blank(paper.title.as_str()) {
        result.add_error("paper.title", "Title cannot be empty", None);
    } else if tlen < 5 {
        result.add_error("paper.title", "Title is too short (minimum 5 characters)", None);
    } else if tlen > 500 {
        result.add_error("paper.title", "Title is too long (maximum 500 characters)", None);
    }
    proof {
        assert(spec_has_error(result.issues@) == spec_title_error(paper.title@));
        assert(spec_has_error_field(result.issues@, "paper.title"@) == spec_title_error(
            paper.title@,
        ));
        assert(!spec_has_error_field(result.issues@, "paper.arxiv_id"@));
    }
    let ghost c1 = spec_title_error(paper.title@);
    let ghost ae = !spec_valid_arxiv_id(paper.arxiv_id@);
    match validate_arxiv_id(paper.arxiv_id.as_str()) {
        Err(e) => {
            result.add_error("paper.arxiv_id", e.as_str(), None);
        },
        Ok(()) => {},
    }
    let ghost c2 = c1 || !spec_valid_arxiv_id(paper.arxiv_id@);
    proof {
        assert(spec_has_error(result.issues@) == c2);
        assert(spec_has_error_field(result.issues@, "paper.title"@) == c1);
        assert(spec_has_error_field(result.issues@, "paper.arxiv_id"@) == ae);
    }
    match &paper.arxiv_url {
        Some(url) => {
            match validate_url(url.as_str(), "arxiv_url") {
                Err(e) => {
                    result.add_error("paper.arxiv_url", e.as_str(), None);
                },
                Ok(()) => {
                    if !text::contains_str(url.as_str(), "arxiv.org") {
                        result.add_warning(
                            "paper.arxiv_url",
                            "arxiv_url should point to arxiv.org",
                            None,
                        );
                    }
                },
            }
        },
        None => {},
    }
    let ghost c3 = c2 || spec_scheme_error(paper.arxiv_url);
    proof {
        assert(spec_has_error(result.issues@) == c3);
        assert(spec_has_error_field(result.issues@, "paper.title"@) == c1);
        assert(spec_has_error_field(result.issues@, "paper.arxiv_id"@) == ae);
    }
    match &paper.pdf_url {
        Some(url) => {
            match validate_url(url.as_str(), "pdf_url") {
                Err(e) => {
                    result.add_error("paper.pdf_url", e.as_str(), None);
                },
                Ok(()) => {},
            }
        },
        None => {},
    }
    let ghost c4 = c3 || spec_scheme_error(paper.pdf_url);
    proof {
        assert(spec_has_error(result.issues@) == c4);
        assert(spec_has_error_field(result.issues@, "paper.title"@) == c1);
        assert(spec_has_error_field(result.issues@, "paper.arxiv_id"@) == ae);
    }
    match &paper.published_date {
        Some(d) => {
            if today.day_number() < d.day_number() {
                result.add_error(
                    "paper.published_date",
                    "Published date cannot be in the future",
                    None,
                );
            }
        },
        None => {},
    }
    let ghost c5 = c4 || spec_future_date_error(*paper, today);
    proof {
        assert(spec_has_error(result.issues@) == c5);
        assert(spec_has_error_field(result.issues@, "paper.title"@) == c1);
        assert(spec_has_error_field(result.issues@, "paper.arxiv_id"@) == ae);
    }
    match &submission.implementations {
        Some(impls) => {
            let mut i: usize = 0;
            while i < impls.len()
                invariant
                    0 <= i <= impls@.len(),
                    result.file_path@ == file_path@,
                    result.valid == false,
                    spec_has_error(result.issues@) == (c5 || exists|j: int|
                        0 <= j < i && spec_impl_error(#[trigger] impls@[j])),
                    spec_has_error_field(result.issues@, "paper.title"@) == c1,
                    spec_has_error_field(result.issues@, "paper.arxiv_id"@) == ae,
                decreases impls@.len() - i,
            {
                let idx = text::u64_to_string(i as u64);
                let mut field = String::new();
                field.append("implementations[");
                field.append(idx.as_str());
                field.append("].github_url");
                proof {
                    reveal_strlit("implementations[");
                    reveal_strlit("paper.title");
                    reveal_strlit("paper.arxiv_id");
                    assert(field@[0] == 'i');
                    assert(field@ != "paper.title"@ && field@ != "paper.arxiv_id"@);
                }
                match validate_github_url(impls[i].github_url.as_str()) {
                    Err(e) => {
                        result.add_error(field.as_str(), e.as_str(), None);
                    },
                    Ok(()) => {},
                }
                match &impls[i].framework {
                    Some(fw) => {
                        let known = text::eq_ignore_ascii_case_str(fw.as_str(), "pytorch")
                            || text::eq_ignore_ascii_case_str(fw.as_str(), "tensorflow")
                            || text::eq_ignore_ascii_case_str(fw.as_str(), "jax")
                            || text::eq_ignore_ascii_case_str(fw.as_str(), "keras")
                            || text::eq_ignore_ascii_case_str(fw.as_str(), "sklearn")
                            || text::eq_ignore_ascii_case_str(fw.as_str(), "other");
                        if !known {
                            let mut wfield = String::new();
                            wfield.append("implementations[");
                            wfield.append(idx.as_str());
                            wfield.append("].framework");
                            let mut msg = String::new();
                            msg.append("Unknown framework '");
                            msg.append(fw.as_str());
                            msg.append(
                                "'. Expected one of: pytorch, tensorflow, jax, keras, sklearn, other",
                            );
                            result.add_warning(wfield.as_str(), msg.as_str(), None);
                        }
                    },
                    None => {},
                }
                i = i + 1;
                proof {
                    assert forall|j: int| 0 <= j < i implies (spec_impl_error(
                        #[trigger] impls@[j],
                    ) ==> (spec_has_error(result.issues@))) by {}
                }
            }
            proof {
                assert(spec_has_error(result.issues@) == (c5 || exists|j: int|
                    0 <= j < impls@.len() && spec_impl_error(#[trigger] impls@[j])));
            }
        },
        None => {},
    }
    let ghost c6 = c5 || spec_impls_error(submission.implementations);
    proof {
        assert(spec_has_error(result.issues@) == c6);
    }
    match &submission.benchmark_results {
        Some(results) => {
            let mut i: usize = 0;
            while i < results.len()
                invariant
                    0 <= i <= results@.len(),
                    result.file_path@ == file_path@,
                    result.valid == false,
                    spec_has_error(result.issues@) == (c6 || exists|j: int|
                        0 <= j < i && spec_bench_error(#[trigger] results@[j])),
                    spec_has_error_field(result.issues@, "paper.title"@) == c1,
                    spec_has_error_field(result.issues@, "paper.arxiv_id"@) == ae,
                decreases results@.len() - i,
            {
                let idx = text::u64_to_string(i as u64);
                if text::is_blank(results[i].dataset_name.as_str()) {
                    let mut field = String::new();
                    field.append("benchmark_results[");
                    field.append(idx.as_str());
                    field.append("].dataset_name");
                    proof {
                        reveal_strlit("benchmark_results[");
                        reveal_strlit("paper.title");
                        reveal_strlit("paper.arxiv_id");
                        assert(field@[0] == 'b');
                        assert(field@ != "paper.title"@ && field@ != "paper.arxiv_id"@);
                    }
                    result.add_error(field.as_str(), "Dataset name cannot be empty", None);
                }
                if text::is_blank(results[i].task.as_str()) {
                    let mut field = String::new();
                    field.append("benchmark_results[");
                    field.append(idx.as_str());
                    field.append("].task");
                    proof {
                        reveal_strlit("benchmark_results[");
                        reveal_strlit("paper.title");
                        reveal_strlit("paper.arxiv_id");
                        assert(field@[0] == 'b');
                        assert(field@ != "paper.title"@ && field@ != "paper.arxiv_id"@);
                    }
                    result.add_error(field.as_str(), "Task cannot be empty", None);
                }
                if text::is_blank(results[i].metric_name.as_str()) {
                    let mut field = String::new();
                    field.append("benchmark_results[");
                    field.append(idx.as_str());
                    field.append("].metric_name");
                    proof {
                        reveal_strlit("benchmark_results[");
                        reveal_strlit("paper.title");
                        reveal_strlit("paper.arxiv_id");
                        assert(field@[0] == 'b');
                        assert(field@ != "paper.title"@ && field@ != "paper.arxiv_id"@);
                    }
                    result.add_error(field.as_str(), "Metric name cannot be empty", None);
                }
                i = i + 1;
            }
            proof {
                assert(spec_has_error(result.issues@) == (c6 || exists|j: int|
                    0 <= j < results@.len() && spec_bench_error(#[trigger] results@[j])));
            }
        },
        None => {},
    }
    let ghost c7 = c6 || spec_benches_error(submission.benchmark_results);
    proof {
        assert(spec_has_error(result.issues@) == c7);
    }
    if paper.abstract_text.is_none() {
        result.add_warning(
            "paper.abstract",
            "No abstract provided",
            Some("Consider adding an abstract for better discoverability"),
        );
    }
    let authors_missing: bool = match &paper.authors {
        Some(a) => a.len() == 0,
        None => true,
    };
    if authors_missing {
        result.add_warning("paper.authors", "No authors listed", Some("Consider adding the author list"));
    }
    if paper.published_date.is_none() {
        result.add_warning(
            "paper.published_date",
            "No publication date",
            Some("Add the publication date in YYYY-MM-DD format"),
        );
    }
    let impls_missing: bool = match &submission.implementations {
        Some(v) => v.len() == 0,
        None => true,
    };
    if impls_missing {
        result.add_warning(
            "implementations",
            "No implementations linked",
            Some("Add code implementations when available"),
        );
    }
    proof {
        assert(spec_has_error(result.issues@) == c7);
        assert(c7 == spec_submission_has_errors(*submission, today));
    }
    let he = result.has_errors();
    result.valid = !he;
    result
}

/// The name filter of the submission directory: a `yaml`/`yml` file whose
/// name does not start with `example` or an underscore.  The caller hands
/// in the file name and its lower-cased extension.
pub fn is_submission_file_name(file_name: &str, ext_lower: &str) -> (r: bool)
    ensures
        r == ((ext_lower@ == "yaml"@ || ext_lower@ == "yml"@) && !occurs_at(
            file_name@,
            "example"@,
            0,
        ) && !occurs_at(file_name@, "_"@, 0)),
{
    (text::str_eq(ext_lower, "yaml") || text::str_eq(ext_lower, "yml")) && !text::starts_with_str(
        file_name,
        "example",
    ) && !text::starts_with_str(file_name, "_")
}

} // verus!
