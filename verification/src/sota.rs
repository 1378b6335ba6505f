//! Leaderboard scraping: the link selection and naming rules around the
//! page fetches, which the caller performs.

use crate::text;
use crate::text::contains_seq;
use crate::text::is_blank_seq;
use crate::text::occurs_at;
use vstd::prelude::*;
use vstd::string::StringExecFns;

verus! {

/// One leaderboard task: its display name and the page to visit.
pub struct Task {
    pub name: String,
    pub url: String,
}

/// View of one card: trimmed title text and the optional link target.
pub open spec fn card_view(c: (String, Option<String>)) -> (Seq<char>, Option<Seq<char>>) {
    (
        c.0@,
        match c.1 {
            Some(h) => Some(h@),
            None => None,
        },
    )
}

/// The tasks read off the overview page's cards: cards with a blank title
/// or no link are skipped; relative links are made absolute against the
/// archive host.
pub open spec fn spec_tasks(cards: Seq<(Seq<char>, Option<Seq<char>>)>) -> Seq<
    (Seq<char>, Seq<char>),
>
    decreases cards.len(),
{
    if cards.len() == 0 {
        Seq::empty()
    } else {
        let rest = spec_tasks(cards.drop_first());
        let title = cards[0].0;
        match cards[0].1 {
            Some(href) => {
                if is_blank_seq(title) {
                    rest
                } else {
                    let url = if occurs_at(href, "http"@, 0) {
                        href
                    } else {
                        "https://web.archive.org"@ + href
                    };
                    seq![(title, url)] + rest
                }
            },
            None => rest,
        }
    }
}

proof fn lemma_spec_tasks_push(
    cards: Seq<(Seq<char>, Option<Seq<char>>)>,
    c: (Seq<char>, Option<Seq<char>>),
)
    ensures
        spec_tasks(cards.push(c)) == spec_tasks(cards) + spec_tasks(seq![c]),
    decreases cards.len(),
{
    if cards.len() == 0 {
        reveal_with_fuel(spec_tasks, 3);
        assert(cards.push(c) =~= seq![c]);
        assert(spec_tasks(cards) + spec_tasks(seq![c]) =~= spec_tasks(seq![c]));
    } else {
        assert(cards.push(c).drop_first() =~= cards.drop_first().push(c));
        assert(cards.push(c)[0] == cards[0]);
        lemma_spec_tasks_push(cards.drop_first(), c);
        let rest = spec_tasks(cards.drop_first());
        let tail = spec_tasks(seq![c]);
        match cards[0].1 {
            Some(href) => {
                if !is_blank_seq(cards[0].0) {
                    let url = if occurs_at(href, "http"@, 0) {
                        href
                    } else {
                        "https://web.archive.org"@ + href
                    };
                    assert(seq![(cards[0].0, url)] + (rest + tail) =~= (seq![(cards[0].0, url)]
                        + rest) + tail);
                }
            },
            None => {},
        }
    }
}

/// Collects the tasks from the overview page's cards, skipping cards with
/// a blank title or no link, and making relative links absolute against
/// the archive host.
pub fn collect_tasks(cards: &Vec<(String, Option<String>)>) -> (r: Vec<Task>)
    ensures
        r@.map_values(|t: Task| (t.name@, t.url@)) == spec_tasks(
            cards@.map_values(|c: (String, Option<String>)| card_view(c)),
        ),
{
    let ghost cv = cards@.map_values(|c: (String, Option<String>)| card_view(c));
    let mut out: Vec<Task> = Vec::new();
    let mut i: usize = 0;
    proof {
        assert(cv.take(0int) =~= Seq::<(Seq<char>, Option<Seq<char>>)>::empty());
        assert(out@.map_values(|t: Task| (t.name@, t.url@)) =~= Seq::<
            (Seq<char>, Seq<char>),
        >::empty());
    }
    while i < cards.len()
        invariant
            0 <= i <= cards@.len(),
            cv == cards@.map_values(|c: (String, Option<String>)| card_view(c)),
            out@.map_values(|t: Task| (t.name@, t.url@)) == spec_tasks(cv.take(i as int)),
        decreases cards@.len() - i,
    {
        proof {
            assert(cv.take(i + 1) =~= cv.take(i as int).push(cv[i as int]));
            lemma_spec_tasks_push(cv.take(i as int), cv[i as int]);
            reveal_with_fuel(spec_tasks, 2);
        }
        let title: &String = &cards[i].0;
        match &cards[i].1 {
            Some(href) => {
                if !text::is_blank(title.as_str()) {
                    let url: String = if text::starts_with_str(href.as_str(), "http") {
                        href.clone()
                    } else {
                        proof {
                            reveal_strlit("https://web.archive.org");
                        }
                        let mut u = String::from_str("https://web.archive.org");
                        u.append(href.as_str());
                        u
                    };
                    let ghost pre = out@;
                    out.push(Task { name: title.clone(), url });
                    proof {
                        assert(out@.map_values(|t: Task| (t.name@, t.url@)) =~= pre.map_values(
                            |t: Task| (t.name@, t.url@),
                        ).push((out@.last().name@, out@.last().url@)));
                        assert(spec_tasks(seq![cv[i as int]]).len() == 1);
                    }
                }
            },
            None => {},
        }
        i = i + 1;
    }
    proof {
        assert(cv.take(cards@.len() as int) =~= cv);
    }
    out
}

/// Whether a list of strings contains this text.
pub open spec fn spec_seen(seen: Seq<Seq<char>>, x: Seq<char>) -> bool {
    exists|i: int| 0 <= i < seen.len() && seen[i] == x
}

/// Membership scan over the seen-dataset list.
pub fn contains_string(seen: &Vec<String>, x: &str) -> (r: bool)
    ensures
        r == spec_seen(crate::query::strs_view(seen@), x@),
{
    let ghost sv = crate::query::strs_view(seen@);
    let mut i: usize = 0;
    while i < seen.len()
        invariant
            0 <= i <= seen@.len(),
            sv == crate::query::strs_view(seen@),
            forall|j: int| 0 <= j < i ==> sv[j] != x@,
        decreases seen@.len() - i,
    {
        if text::str_eq(seen[i].as_str(), x) {
            assert(sv[i as int] == x@);
            return true;
        }
        i = i + 1;
    }
    false
}

/// Decides whether one page link denotes a dataset to ingest: its target
/// must mention the dataset path, its text must be non-empty, and the text
/// must not have been seen before in this run.
pub fn should_ingest_dataset(href: &str, link_text: &str, seen: &Vec<String>) -> (r: bool)
    ensures
        r == (contains_seq(href@, "/dataset/"@) && link_text@.len() > 0 && !spec_seen(
            crate::query::strs_view(seen@),
            link_text@,
        )),
{
    text::contains_str(href, "/dataset/") && link_text.unicode_len() > 0 && !contains_string(
        seen,
        link_text,
    )
}

/// Remembers a dataset name for deduplication within the run.
pub fn note_seen(seen: &mut Vec<String>, name: &str)
    ensures
        crate::query::strs_view(final(seen)@) == crate::query::strs_view(old(seen)@).push(
            name@,
        ),
{
    seen.push(name.to_owned());
    proof {
        assert(crate::query::strs_view(final(seen)@) =~= crate::query::strs_view(
            old(seen)@,
        ).push(name@));
    }
}

/// The composed name of a leaderboard benchmark: `task on dataset`.
pub fn leaderboard_benchmark_name(task: &str, dataset: &str) -> (r: String)
    ensures
        r@ == task@ + seq![' ', 'o', 'n', ' '] + dataset@,
{
    proof {
        reveal_strlit(" on ");
    }
    let mut s = String::new();
    s.append(task);
    s.append(" on ");
    s.append(dataset);
    proof {
        assert(" on "@ =~= seq![' ', 'o', 'n', ' ']);
        assert(s@ =~= task@ + seq![' ', 'o', 'n', ' '] + dataset@);
    }
    s
}

/// Counters of one leaderboard scraping run.
pub struct ScraperStats {
    pub tasks_found: usize,
    pub tasks_processed: usize,
    pub datasets_inserted: usize,
    pub benchmarks_inserted: usize,
    pub errors: usize,
}

impl Default for ScraperStats {
    /// All counters start at zero.
    fn default() -> (r: ScraperStats)
        ensures
            r.tasks_found == 0 && r.tasks_processed == 0 && r.datasets_inserted == 0
                && r.benchmarks_inserted == 0 && r.errors == 0,
    {
        ScraperStats {
            tasks_found: 0,
            tasks_processed: 0,
            datasets_inserted: 0,
            benchmarks_inserted: 0,
            errors: 0,
        }
    }
}

impl ScraperStats {
    /// Folds the outcome of one dataset-and-benchmark insertion into the
    /// counters.
    pub fn record_insert(&mut self, ok: bool)
        requires
            old(self).datasets_inserted < usize::MAX,
            old(self).benchmarks_inserted < usize::MAX,
            old(self).errors < usize::MAX,
        ensures
            ok ==> final(self).datasets_inserted == old(self).datasets_inserted + 1
                && final(self).benchmarks_inserted == old(self).benchmarks_inserted + 1
                && final(self).errors == old(self).errors,
            !ok ==> final(self).errors == old(self).errors + 1
                && final(self).datasets_inserted == old(self).datasets_inserted
                && final(self).benchmarks_inserted == old(self).benchmarks_inserted,
            final(self).tasks_found == old(self).tasks_found,
            final(self).tasks_processed == old(self).tasks_processed,
    {
        if ok {
            self.datasets_inserted = self.datasets_inserted + 1;
            self.benchmarks_inserted = self.benchmarks_inserted + 1;
        } else {
            self.errors = self.errors + 1;
        }
    }
}

} // verus!
