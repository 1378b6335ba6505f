//! Batch loading: row selection for the bulk inserts, and the loading
//! statistics report.  Reading the column files and writing the store are
//! the caller's part.

use crate::text;
use vstd::prelude::*;
use vstd::string::StringExecFns;

verus! {

/// Counters of one loading run.
pub struct LoaderStats {
    pub papers_inserted: usize,
    pub papers_skipped: usize,
    pub datasets_inserted: usize,
    pub links_inserted: usize,
}

impl Default for LoaderStats {
    /// All counters start at zero.
    fn default() -> (r: LoaderStats)
        ensures
            r.papers_inserted == 0 && r.papers_skipped == 0 && r.datasets_inserted == 0
                && r.links_inserted == 0,
    {
        LoaderStats {
            papers_inserted: 0,
            papers_skipped: 0,
            datasets_inserted: 0,
            links_inserted: 0,
        }
    }
}

/// One raw paper row as read from the archive columns.
pub struct RawPaperRow {
    pub arxiv_id: Option<String>,
    pub title: Option<String>,
    pub abstract_text: Option<String>,
    pub arxiv_url: Option<String>,
    pub pdf_url: Option<String>,
}

/// One paper row ready for insertion.
pub struct PaperInsertRow {
    pub arxiv_id: String,
    pub title: String,
    pub abstract_text: Option<String>,
    pub arxiv_url: Option<String>,
    pub pdf_url: Option<String>,
}

/// A raw row is kept when it has a non-empty identifier and a non-empty
/// title (the store requires both).
pub open spec fn keep_paper_row(r: RawPaperRow) -> bool {
    &&& r.arxiv_id matches Some(a) && a@.len() > 0
    &&& r.title matches Some(t) && t@.len() > 0
}

/// The insert row built from a kept raw row.
pub open spec fn paper_insert_view(r: RawPaperRow) -> (Seq<char>, Seq<char>) {
    (
        match r.arxiv_id {
            Some(a) => a@,
            None => Seq::empty(),
        },
        match r.title {
            Some(t) => t@,
            None => Seq::empty(),
        },
    )
}

/// The kept rows of a batch, in order.
pub open spec fn spec_kept_papers(rows: Seq<RawPaperRow>) -> Seq<(Seq<char>, Seq<char>)>
    decreases rows.len(),
{
    if rows.len() == 0 {
        Seq::empty()
    } else if keep_paper_row(rows[0]) {
        seq![paper_insert_view(rows[0])] + spec_kept_papers(rows.drop_first())
    } else {
        spec_kept_papers(rows.drop_first())
    }
}

proof fn lemma_kept_papers_push(rows: Seq<RawPaperRow>, r: RawPaperRow)
    ensures
        spec_kept_papers(rows.push(r)) == spec_kept_papers(rows) + (if keep_paper_row(r) {
            seq![paper_insert_view(r)]
        } else {
            Seq::<(Seq<char>, Seq<char>)>::empty()
        }),
    decreases rows.len(),
{
    let tail = if keep_paper_row(r) {
        seq![paper_insert_view(r)]
    } else {
        Seq::<(Seq<char>, Seq<char>)>::empty()
    };
    if rows.len() == 0 {
        reveal_with_fuel(spec_kept_papers, 3);
        assert(rows.push(r)[0] == r);
        assert(rows.push(r).drop_first() =~= Seq::<RawPaperRow>::empty());
        assert(spec_kept_papers(rows.push(r)) =~= tail);
        assert(spec_kept_papers(rows) + tail =~= tail);
    } else {
        assert(rows.push(r).drop_first() =~= rows.drop_first().push(r));
        assert(rows.push(r)[0] == rows[0]);
        lemma_kept_papers_push(rows.drop_first(), r);
        if keep_paper_row(rows[0]) {
            assert(seq![paper_insert_view(rows[0])] + (spec_kept_papers(rows.drop_first())
                + tail) =~= (seq![paper_insert_view(rows[0])] + spec_kept_papers(
                rows.drop_first(),
            )) + tail);
        }
    }
}

/// Selects the rows of one batch that can be inserted: rows lacking an
/// identifier or a title are skipped and counted.  The kept rows appear in
/// their original order.
pub fn prepare_paper_rows(rows: Vec<RawPaperRow>) -> (r: (Vec<PaperInsertRow>, usize))
    ensures
        r.0@.map_values(|p: PaperInsertRow| (p.arxiv_id@, p.title@)) == spec_kept_papers(rows@),
        r.0@.len() + r.1 == rows@.len(),
{
    let mut out: Vec<PaperInsertRow> = Vec::new();
    let mut skipped: usize = 0;
    let mut i: usize = 0;
    let total = rows.len();
    let mut rest = rows;
    proof {
        assert(rest@.take(0int) =~= Seq::<RawPaperRow>::empty());
        assert(out@.map_values(|p: PaperInsertRow| (p.arxiv_id@, p.title@)) =~= Seq::<
            (Seq<char>, Seq<char>),
        >::empty());
    }
    while i < total
        invariant
            0 <= i <= total == rest@.len(),
            out@.map_values(|p: PaperInsertRow| (p.arxiv_id@, p.title@)) == spec_kept_papers(
                rest@.take(i as int),
            ),
            out@.len() + skipped == i,
        decreases total - i,
    {
        proof {
            assert(rest@.take(i + 1) =~= rest@.take(i as int).push(rest@[i as int]));
            lemma_kept_papers_push(rest@.take(i as int), rest@[i as int]);
        }
        let keep: bool = {
            let row = &rest[i];
            let id_ok = match &row.arxiv_id {
                Some(a) => a.as_str().unicode_len() > 0,
                None => false,
            };
            let title_ok = match &row.title {
                Some(t) => t.as_str().unicode_len() > 0,
                None => false,
            };
            id_ok && title_ok
        };
        if keep {
            let row = &rest[i];
            let arxiv_id = match &row.arxiv_id {
                Some(a) => a.clone(),
                None => String::new(),
            };
            let title = match &row.title {
                Some(t) => t.clone(),
                None => String::new(),
            };
            let abstract_text = match &row.abstract_text {
                Some(t) => Some(t.clone()),
                None => None,
            };
            let arxiv_url = match &row.arxiv_url {
                Some(t) => Some(t.clone()),
                None => None,
            };
            let pdf_url = match &row.pdf_url {
                Some(t) => Some(t.clone()),
                None => None,
            };
            let ghost pre = out@;
            out.push(PaperInsertRow { arxiv_id, title, abstract_text, arxiv_url, pdf_url });
            proof {
                assert(out@.map_values(|p: PaperInsertRow| (p.arxiv_id@, p.title@))
                    =~= pre.map_values(|p: PaperInsertRow| (p.arxiv_id@, p.title@)).push(
                    paper_insert_view(rest@[i as int]),
                ));
            }
        } else {
            skipped = skipped + 1;
        }
        i = i + 1;
    }
    proof {
        assert(rest@.take(total as int) =~= rest@);
    }
    (out, skipped)
}

/// One raw dataset row as read from the archive columns.
pub struct RawDatasetRow {
    pub name: Option<String>,
    pub description: Option<String>,
    pub homepage_url: Option<String>,
}

/// One dataset row ready for insertion.
pub struct DatasetInsertRow {
    pub name: String,
    pub description: Option<String>,
    pub homepage_url: Option<String>,
}

/// A dataset row is kept when its name is present and non-empty.
pub open spec fn keep_dataset_row(r: RawDatasetRow) -> bool {
    r.name matches Some(n) && n@.len() > 0
}

/// The kept dataset names of a batch, in order.
pub open spec fn spec_kept_datasets(rows: Seq<RawDatasetRow>) -> Seq<Seq<char>>
    decreases rows.len(),
{
    if rows.len() == 0 {
        Seq::empty()
    } else if keep_dataset_row(rows[0]) {
        seq![rows[0].name->Some_0@] + spec_kept_datasets(rows.drop_first())
    } else {
        spec_kept_datasets(rows.drop_first())
    }
}

proof fn lemma_kept_datasets_push(rows: Seq<RawDatasetRow>, r: RawDatasetRow)
    ensures
        spec_kept_datasets(rows.push(r)) == spec_kept_datasets(rows) + (if keep_dataset_row(r) {
            seq![r.name->Some_0@]
        } else {
            Seq::<Seq<char>>::empty()
        }),
    decreases rows.len(),
{
    let tail = if keep_dataset_row(r) {
        seq![r.name->Some_0@]
    } else {
        Seq::<Seq<char>>::empty()
    };
    if rows.len() == 0 {
        reveal_with_fuel(spec_kept_datasets, 3);
        assert(rows.push(r)[0] == r);
        assert(rows.push(r).drop_first() =~= Seq::<RawDatasetRow>::empty());
        assert(spec_kept_datasets(rows.push(r)) =~= tail);
        assert(spec_kept_datasets(rows) + tail =~= tail);
    } else {
        assert(rows.push(r).drop_first() =~= rows.drop_first().push(r));
        assert(rows.push(r)[0] == rows[0]);
        lemma_kept_datasets_push(rows.drop_first(), r);
        if keep_dataset_row(rows[0]) {
            assert(seq![rows[0].name->Some_0@] + (spec_kept_datasets(rows.drop_first()) + tail)
                =~= (seq![rows[0].name->Some_0@] + spec_kept_datasets(rows.drop_first())) + tail);
        }
    }
}

/// Selects the dataset rows of one batch that can be inserted: rows
/// lacking a name are skipped; the kept rows appear in their original
/// order.
pub fn prepare_dataset_rows(rows: Vec<RawDatasetRow>) -> (r: Vec<DatasetInsertRow>)
    ensures
        r@.map_values(|p: DatasetInsertRow| p.name@) == spec_kept_datasets(rows@),
        r@.len() <= rows@.len(),
{
    let mut out: Vec<DatasetInsertRow> = Vec::new();
    let mut i: usize = 0;
    let total = rows.len();
    let rest = rows;
    proof {
        assert(rest@.take(0int) =~= Seq::<RawDatasetRow>::empty());
        assert(out@.map_values(|p: DatasetInsertRow| p.name@) =~= Seq::<Seq<char>>::empty());
    }
    while i < total
        invariant
            0 <= i <= total == rest@.len(),
            out@.map_values(|p: DatasetInsertRow| p.name@) == spec_kept_datasets(
                rest@.take(i as int),
            ),
            out@.len() <= i,
        decreases total - i,
    {
        proof {
            assert(rest@.take(i + 1) =~= rest@.take(i as int).push(rest@[i as int]));
            lemma_kept_datasets_push(rest@.take(i as int), rest@[i as int]);
        }
        let row = &rest[i];
        let keep: bool = match &row.name {
            Some(n) => n.as_str().unicode_len() > 0,
            None => false,
        };
        if keep {
            let name = match &row.name {
                Some(n) => n.clone(),
                None => String::new(),
            };
            let description = match &row.description {
                Some(t) => Some(t.clone()),
                None => None,
            };
            let homepage_url = match &row.homepage_url {
                Some(t) => Some(t.clone()),
                None => None,
            };
            let ghost pre = out@;
            out.push(DatasetInsertRow { name, description, homepage_url });
            proof {
                assert(out@.map_values(|p: DatasetInsertRow| p.name@) =~= pre.map_values(
                    |p: DatasetInsertRow| p.name@,
                ).push(rest@[i as int].name->Some_0@));
            }
        }
        i = i + 1;
    }
    proof {
        assert(rest@.take(total as int) =~= rest@);
    }
    out
}

/// One raw code-link row as read from the archive columns.
pub struct RawLinkRow {
    pub arxiv_id: Option<String>,
    pub repo_url: Option<String>,
    pub framework: Option<String>,
}

/// One code-link row ready for insertion.
pub struct LinkInsertRow {
    pub arxiv_id: String,
    pub repo_url: String,
    pub framework: Option<String>,
}

/// A link row is kept when both the paper identifier and the repository
/// target are present and non-empty.
pub open spec fn keep_link_row(r: RawLinkRow) -> bool {
    &&& r.arxiv_id matches Some(a) && a@.len() > 0
    &&& r.repo_url matches Some(u) && u@.len() > 0
}

/// The kept link pairs of a batch, in order.
pub open spec fn spec_kept_links(rows: Seq<RawLinkRow>) -> Seq<(Seq<char>, Seq<char>)>
    decreases rows.len(),
{
    if rows.len() == 0 {
        Seq::empty()
    } else if keep_link_row(rows[0]) {
        seq![(rows[0].arxiv_id->Some_0@, rows[0].repo_url->Some_0@)] + spec_kept_links(
            rows.drop_first(),
        )
    } else {
        spec_kept_links(rows.drop_first())
    }
}

proof fn lemma_kept_links_push(rows: Seq<RawLinkRow>, r: RawLinkRow)
    ensures
        spec_kept_links(rows.push(r)) == spec_kept_links(rows) + (if keep_link_row(r) {
            seq![(r.arxiv_id->Some_0@, r.repo_url->Some_0@)]
        } else {
            Seq::<(Seq<char>, Seq<char>)>::empty()
        }),
    decreases rows.len(),
{
    let tail = if keep_link_row(r) {
        seq![(r.arxiv_id->Some_0@, r.repo_url->Some_0@)]
    } else {
        Seq::<(Seq<char>, Seq<char>)>::empty()
    };
    if rows.len() == 0 {
        reveal_with_fuel(spec_kept_links, 3);
        assert(rows.push(r)[0] == r);
        assert(rows.push(r).drop_first() =~= Seq::<RawLinkRow>::empty());
        assert(spec_kept_links(rows.push(r)) =~= tail);
        assert(spec_kept_links(rows) + tail =~= tail);
    } else {
        assert(rows.push(r).drop_first() =~= rows.drop_first().push(r));
        assert(rows.push(r)[0] == rows[0]);
        lemma_kept_links_push(rows.drop_first(), r);
        if keep_link_row(rows[0]) {
            let h = seq![(rows[0].arxiv_id->Some_0@, rows[0].repo_url->Some_0@)];
            assert(h + (spec_kept_links(rows.drop_first()) + tail) =~= (h + spec_kept_links(
                rows.drop_first(),
            )) + tail);
        }
    }
}

/// Selects the code-link rows of one batch that can be inserted: rows
/// lacking the identifier or the repository target are skipped; the kept
/// rows appear in their original order.
pub fn prepare_link_rows(rows: Vec<RawLinkRow>) -> (r: Vec<LinkInsertRow>)
    ensures
        r@.map_values(|p: LinkInsertRow| (p.arxiv_id@, p.repo_url@)) == spec_kept_links(rows@),
        r@.len() <= rows@.len(),
{
    let mut out: Vec<LinkInsertRow> = Vec::new();
    let mut i: usize = 0;
    let total = rows.len();
    let rest = rows;
    proof {
        assert(rest@.take(0int) =~= Seq::<RawLinkRow>::empty());
        assert(out@.map_values(|p: LinkInsertRow| (p.arxiv_id@, p.repo_url@)) =~= Seq::<
            (Seq<char>, Seq<char>),
        >::empty());
    }
    while i < total
        invariant
            0 <= i <= total == rest@.len(),
            out@.map_values(|p: LinkInsertRow| (p.arxiv_id@, p.repo_url@)) == spec_kept_links(
                rest@.take(i as int),
            ),
            out@.len() <= i,
        decreases total - i,
    {
        proof {
            assert(rest@.take(i + 1) =~= rest@.take(i as int).push(rest@[i as int]));
            lemma_kept_links_push(rest@.take(i as int), rest@[i as int]);
        }
        let row = &rest[i];
        let a_ok: bool = match &row.arxiv_id {
            Some(a) => a.as_str().unicode_len() > 0,
            None => false,
        };
        let u_ok: bool = match &row.repo_url {
            Some(u) => u.as_str().unicode_len() > 0,
            None => false,
        };
        if a_ok && u_ok {
            let arxiv_id = match &row.arxiv_id {
                Some(a) => a.clone(),
                None => String::new(),
            };
            let repo_url = match &row.repo_url {
                Some(u) => u.clone(),
                None => String::new(),
            };
            let framework = match &row.framework {
                Some(f) => Some(f.clone()),
                None => None,
            };
            let ghost pre = out@;
            out.push(LinkInsertRow { arxiv_id, repo_url, framework });
            proof {
                assert(out@.map_values(|p: LinkInsertRow| (p.arxiv_id@, p.repo_url@))
                    =~= pre.map_values(|p: LinkInsertRow| (p.arxiv_id@, p.repo_url@)).push(
                    (rest@[i as int].arxiv_id->Some_0@, rest@[i as int].repo_url->Some_0@),
                ));
            }
        }
        i = i + 1;
    }
    proof {
        assert(rest@.take(total as int) =~= rest@);
    }
    out
}

/// The loading statistics report, one line per figure.
pub fn print_stats(stats: &LoaderStats) -> (r: Vec<String>)
    ensures
        r@.len() == 4,
        r@[0]@ == "=== Loading Statistics ==="@,
        r@[1]@ == "Papers: "@ + text::dec_rep(stats.papers_inserted as int) + " inserted, "@
            + text::dec_rep(stats.papers_skipped as int) + " skipped"@,
        r@[2]@ == "Datasets: "@ + text::dec_rep(stats.datasets_inserted as int) + " inserted"@,
        r@[3]@ == "Links: "@ + text::dec_rep(stats.links_inserted as int) + " inserted"@,
{
    let mut out: Vec<String> = Vec::new();
    out.push(String::from_str("=== Loading Statistics ==="));
    let mut l1 = String::from_str("Papers: ");
    l1.append(text::u64_to_string(stats.papers_inserted as u64).as_str());
    l1.append(" inserted, ");
    l1.append(text::u64_to_string(stats.papers_skipped as u64).as_str());
    l1.append(" skipped");
    out.push(l1);
    let mut l2 = String::from_str("Datasets: ");
    l2.append(text::u64_to_string(stats.datasets_inserted as u64).as_str());
    l2.append(" inserted");
    out.push(l2);
    let mut l3 = String::from_str("Links: ");
    l3.append(text::u64_to_string(stats.links_inserted as u64).as_str());
    l3.append(" inserted");
    out.push(l3);
    proof {
        assert(out@[1]@ =~= "Papers: "@ + text::dec_rep(stats.papers_inserted as int)
            + " inserted, "@ + text::dec_rep(stats.papers_skipped as int) + " skipped"@);
        assert(out@[2]@ =~= "Datasets: "@ + text::dec_rep(stats.datasets_inserted as int)
            + " inserted"@);
        assert(out@[3]@ =~= "Links: "@ + text::dec_rep(stats.links_inserted as int)
            + " inserted"@);
    }
    out
}

} // verus!
