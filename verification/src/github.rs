//! Repository statistics scraping: the URL parsing and per-repository
//! bookkeeping around the HTTP calls, which the caller performs.

use crate::text;
use vstd::prelude::*;
use vstd::string::StrSliceExecFns;

verus! {

/// `s` with every trailing `.git` suffix removed.
pub open spec fn strip_git(s: Seq<char>) -> Seq<char>
    decreases s.len(),
{
    if s.len() >= 4 && s.subrange(s.len() - 4, s.len() as int) == ".git"@ {
        strip_git(s.take(s.len() - 4))
    } else {
        s
    }
}

/// `s` with every trailing slash removed.
pub open spec fn strip_slash(s: Seq<char>) -> Seq<char>
    decreases s.len(),
{
    if s.len() >= 1 && s.last() == '/' {
        strip_slash(s.drop_last())
    } else {
        s
    }
}

/// Position of the last slash of `s`, or -1.
pub open spec fn last_slash(s: Seq<char>) -> int
    decreases s.len(),
{
    if s.len() == 0 {
        -1
    } else if s.last() == '/' {
        s.len() - 1
    } else {
        last_slash(s.drop_last())
    }
}

/// The owner/repository pair read off a repository URL: the last two
/// path segments after trailing `.git` suffixes and slashes are removed;
/// absent when either segment is empty or the would-be owner is the bare
/// host name.
pub open spec fn spec_parse_github_url(s: Seq<char>) -> Option<(Seq<char>, Seq<char>)> {
    let t = strip_slash(strip_git(s));
    let q = last_slash(t);
    if q < 0 {
        None
    } else {
        let rep = t.subrange(q + 1, t.len() as int);
        let p = last_slash(t.take(q));
        let own = t.subrange(p + 1, q);
        if own.len() > 0 && rep.len() > 0 && own != "github.com"@ {
            Some((own, rep))
        } else {
            None
        }
    }
}

/// Extracts the owner and repository name from a repository URL, handling
/// `.git` suffixes and trailing slashes.
pub fn parse_github_url(url: &str) -> (r: Option<(String, String)>)
    ensures
        (match r {
            Some((o, rep)) => Some((o@, rep@)),
            None => None,
        }) == spec_parse_github_url(url@),
{
    let slen: usize = url.unicode_len();
    let mut e: usize = slen;
    proof {
        assert(url@.take(slen as int) =~= url@);
        reveal_strlit(".git");
    }
    while e >= 4 && text::matches_at(url, slen, ".git", 4, e - 4)
        invariant
            0 <= e <= slen,
            slen == url@.len(),
            ".git"@.len() == 4,
            strip_git(url@.take(e as int)) == strip_git(url@),
        decreases e,
    {
        proof {
            let t = url@.take(e as int);
            assert(t.subrange(t.len() - 4, t.len() as int) =~= url@.subrange(
                e - 4,
                e as int,
            ));
            assert(t.take(t.len() - 4) =~= url@.take(e - 4));
        }
        e = e - 4;
    }
    proof {
        let t = url@.take(e as int);
        if t.len() >= 4 {
            assert(t.subrange(t.len() - 4, t.len() as int) =~= url@.subrange(e - 4, e as int));
            if t.subrange(t.len() - 4, t.len() as int) == ".git"@ {
                assert(occurs_at_git(url@, e - 4));
            }
        }
    }
    let ghost gstripped = strip_git(url@);
    while e >= 1 && url.get_char(e - 1) == '/'
        invariant
            0 <= e <= slen,
            slen == url@.len(),
            strip_slash(url@.take(e as int)) == strip_slash(gstripped),
        decreases e,
    {
        proof {
            let t = url@.take(e as int);
            assert(t.last() == url@[e - 1]);
            assert(t.drop_last() =~= url@.take(e - 1));
        }
        e = e - 1;
    }
    let ghost t = strip_slash(gstripped);
    proof {
        let cur = url@.take(e as int);
        if cur.len() >= 1 {
            assert(cur.last() == url@[e - 1]);
        }
        assert(t == cur);
    }
    // `t == url@.take(e)`: find the last slash within it.
    let mut j: usize = e;
    let mut q: Option<usize> = None;
    while j > 0 && q.is_none()
        invariant
            0 <= j <= e <= slen,
            slen == url@.len(),
            t == url@.take(e as int),
            match q {
                Some(v) => v < e && last_slash(t) == v,
                None => last_slash(url@.take(j as int)) == last_slash(t),
            },
        decreases j, (if q is None { 1int } else { 0int }),
    {
        proof {
            let cur = url@.take(j as int);
            assert(cur.last() == url@[j - 1]);
            assert(cur.drop_last() =~= url@.take(j - 1));
        }
        if url.get_char(j - 1) == '/' {
            q = Some(j - 1);
            proof {
                assert(last_slash(url@.take(j as int)) == j - 1);
            }
        } else {
            j = j - 1;
        }
    }
    let qv: usize = match q {
        Some(v) => v,
        None => {
            proof {
                assert(url@.take(0int) =~= Seq::<char>::empty());
                assert(last_slash(t) == -1);
            }
            return None;
        },
    };
    // owner bounds: previous slash within t.take(qv)
    let mut k: usize = qv;
    let mut p: Option<usize> = None;
    proof {
        assert(url@.take(e as int).take(qv as int) =~= url@.take(qv as int));
    }
    while k > 0 && p.is_none()
        invariant
            0 <= k <= qv,
            qv < e <= slen,
            slen == url@.len(),
            t == url@.take(e as int),
            t.take(qv as int) == url@.take(qv as int),
            match p {
                Some(v) => v < qv && last_slash(t.take(qv as int)) == v,
                None => last_slash(url@.take(k as int)) == last_slash(t.take(qv as int)),
            },
        decreases k, (if p is None { 1int } else { 0int }),
    {
        proof {
            let cur = url@.take(k as int);
            assert(cur.last() == url@[k - 1]);
            assert(cur.drop_last() =~= url@.take(k - 1));
        }
        if url.get_char(k - 1) == '/' {
            p = Some(k - 1);
        } else {
            k = k - 1;
        }
    }
    let pstart: usize = match p {
        Some(v) => v + 1,
        None => {
            proof {
                assert(url@.take(0int) =~= Seq::<char>::empty());
            }
            0
        },
    };
    let owner: String = url.substring_char(pstart, qv).to_owned();
    let repo: String = url.substring_char(qv + 1, e).to_owned();
    proof {
        assert(owner@ =~= t.subrange(last_slash(t.take(qv as int)) + 1, qv as int));
        assert(repo@ =~= t.subrange(qv + 1, t.len() as int));
    }
    if owner.as_str().unicode_len() > 0 && repo.as_str().unicode_len() > 0 && !text::str_eq(
        owner.as_str(),
        "github.com",
    ) {
        Some((owner, repo))
    } else {
        None
    }
}

/// The `.git` suffix occurrence fact used by the strip proof.
spec fn occurs_at_git(s: Seq<char>, i: int) -> bool {
    text::occurs_at(s, ".git"@, i)
}

/// Counters of one scraping run.
pub struct ScraperStats {
    pub repos_found: usize,
    pub repos_processed: usize,
    pub repos_updated: usize,
    pub repos_not_found: usize,
    pub rate_limited: usize,
    pub errors: usize,
}

impl Default for ScraperStats {
    /// All counters start at zero.
    fn default() -> (r: ScraperStats)
        ensures
            r.repos_found == 0 && r.repos_processed == 0 && r.repos_updated == 0
                && r.repos_not_found == 0 && r.rate_limited == 0 && r.errors == 0,
    {
        ScraperStats {
            repos_found: 0,
            repos_processed: 0,
            repos_updated: 0,
            repos_not_found: 0,
            rate_limited: 0,
            errors: 0,
        }
    }
}

/// What happened for one repository.
pub enum RepoEvent {
    /// The stored URL did not parse into owner and repository.
    UrlUnparsable,
    /// Statistics were fetched and the store row updated (or a dry run
    /// skipped the write).
    Updated,
    /// Statistics were fetched but the store update failed.
    UpdateFailed,
    /// The remote reported that the repository does not exist.
    NotFound,
    /// The remote rate-limited the run.
    RateLimited,
    /// The fetch failed for another reason.
    FetchFailed,
}

impl ScraperStats {
    /// Folds one repository outcome into the counters and decides whether
    /// the run continues: only rate limiting stops it.
    pub fn scrape_step(&mut self, event: &RepoEvent) -> (cont: bool)
        requires
            old(self).repos_processed < usize::MAX,
            old(self).repos_updated < usize::MAX,
            old(self).repos_not_found < usize::MAX,
            old(self).rate_limited < usize::MAX,
            old(self).errors < usize::MAX,
        ensures
            cont == !(event is RateLimited),
            final(self).repos_found == old(self).repos_found,
            event is UrlUnparsable ==> final(self).errors == old(self).errors + 1
                && final(self).repos_processed == old(self).repos_processed,
            event is Updated ==> final(self).repos_updated == old(self).repos_updated + 1
                && final(self).repos_processed == old(self).repos_processed + 1,
            event is UpdateFailed ==> final(self).errors == old(self).errors + 1
                && final(self).repos_processed == old(self).repos_processed + 1,
            event is NotFound ==> final(self).repos_not_found == old(self).repos_not_found + 1
                && final(self).repos_processed == old(self).repos_processed + 1,
            event is RateLimited ==> final(self).rate_limited == old(self).rate_limited + 1,
            event is FetchFailed ==> final(self).errors == old(self).errors + 1
                && final(self).repos_processed == old(self).repos_processed,
    {
        match event {
            RepoEvent::UrlUnparsable => {
                self.errors = self.errors + 1;
                true
            },
            RepoEvent::Updated => {
                self.repos_updated = self.repos_updated + 1;
                self.repos_processed = self.repos_processed + 1;
                true
            },
            RepoEvent::UpdateFailed => {
                self.errors = self.errors + 1;
                self.repos_processed = self.repos_processed + 1;
                true
            },
            RepoEvent::NotFound => {
                self.repos_not_found = self.repos_not_found + 1;
                self.repos_processed = self.repos_processed + 1;
                true
            },
            RepoEvent::RateLimited => {
                self.rate_limited = self.rate_limited + 1;
                false
            },
            RepoEvent::FetchFailed => {
                self.errors = self.errors + 1;
                true
            },
        }
    }
}

/// How one statistics fetch is classified by its HTTP status code, before
/// any body is read.
pub enum FetchClass {
    Success,
    NotFound,
    RateLimited,
    OtherFailure,
}

/// Classifies an HTTP status code the way the scraping run treats it: 404
/// means the repository is gone, 403 and 429 mean rate limiting, any other
/// non-2xx code is a plain failure.
pub fn classify_fetch_status(status: u16) -> (r: FetchClass)
    ensures
        (r is NotFound <==> status == 404),
        (r is RateLimited <==> (status == 403 || status == 429)),
        (r is Success <==> (200 <= status < 300)),
{
    if status == 404 {
        FetchClass::NotFound
    } else if status == 403 || status == 429 {
        FetchClass::RateLimited
    } else if 200 <= status && status < 300 {
        FetchClass::Success
    } else {
        FetchClass::OtherFailure
    }
}

} // verus!
