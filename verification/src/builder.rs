//! The batch index build pipeline.
//!
//! A build streams authoritative records page by page, converts each to a
//! document and appends it through the single writer, committing every
//! `commit_interval` documents so that progress stays durable, and always
//! committing once more at the end.  The state machine below carries the
//! verified bookkeeping; the caller supplies the pages.
//!
//! Re-running a build without `force` appends duplicates for unchanged
//! records by design; callers needing update semantics must force a rebuild,
//! which empties the index first.

use crate::engine;
use crate::engine::DocView;
use crate::engine::PaperWriter;
use crate::error::SearchError;
use crate::index::paper_projection;
use crate::index::Paper;
use crate::index::SearchIndex;
use vstd::arithmetic::div_mod::lemma_fundamental_div_mod_converse;
use vstd::multiset::Multiset;
use vstd::prelude::*;

verus! {

broadcast use vstd::multiset::group_multiset_axioms;

/// Outcome of a finished build run.
pub struct BuildReport {
    /// Documents appended during this run.
    pub indexed: usize,
    /// Commits issued during this run (interim plus the final one).
    pub commits: usize,
}

/// An in-progress build bound to one writer.
pub struct BuildState {
    /// The engine writer this run appends through.
    pub writer: PaperWriter,
    /// Documents between explicit commits.
    pub commit_interval: usize,
    /// Documents appended so far in this run.
    pub indexed: usize,
    /// Interim commits issued so far.
    pub commits: usize,
    /// Documents appended since the last commit.
    pub since: usize,
    /// Content committed in the index when the run began (empty after a
    /// forced reset).
    pub base: Ghost<Multiset<DocView>>,
    /// Projections of every record appended in this run.
    pub added: Ghost<Multiset<DocView>>,
    /// Projections appended since the last commit.
    pub recent: Ghost<Multiset<DocView>>,
    /// Projections committed by this run so far.
    pub flushed: Ghost<Multiset<DocView>>,
}

impl BuildState {
    /// Invariant of a running build: the counters satisfy the commit
    /// schedule and the writer holds exactly the recorded content.
    pub open spec fn wf(self) -> bool {
        &&& 1 <= self.commit_interval
        &&& 0 <= self.since < self.commit_interval
        &&& self.indexed == self.commit_interval * self.commits + self.since
        &&& self.added@ == self.flushed@.add(self.recent@)
        &&& engine::writer_pending(self.writer) == self.recent@
        &&& engine::writer_committed(self.writer) == self.base@.add(self.flushed@)
    }

    /// Opens the writer and begins a run.  With `force`, the index content
    /// is deleted and committed away first, so that no stale document
    /// survives the rebuild; that reset commit is not counted in the run's
    /// commit tally.
    pub fn begin(
        index: &SearchIndex,
        heap_bytes: usize,
        commit_interval: usize,
        force: bool,
    ) -> (r: Result<BuildState, SearchError>)
        requires
            1 <= commit_interval,
        ensures
            r matches Ok(b) ==> {
                &&& b.wf()
                &&& b.indexed == 0
                &&& b.commits == 0
                &&& b.commit_interval == commit_interval
                &&& b.added@ == Multiset::<DocView>::empty()
                &&& (force ==> b.base@ == Multiset::<DocView>::empty())
            },
    {
        let mut writer = match index.writer(heap_bytes) {
            Ok(w) => w,
            Err(e) => {
                return Err(e);
            },
        };
        let ghost mut base = engine::writer_committed(writer);
        if force {
            match engine::writer_clear(&mut writer) {
                Ok(()) => {},
                Err(e) => {
                    return Err(e);
                },
            }
            proof {
                base = Multiset::<DocView>::empty();
            }
        }
        proof {
            assert(Multiset::<DocView>::empty().add(Multiset::<DocView>::empty())
                =~= Multiset::<DocView>::empty());
            assert(base.add(Multiset::<DocView>::empty()) =~= base);
        }
        Ok(
            BuildState {
                writer,
                commit_interval,
                indexed: 0,
                commits: 0,
                since: 0,
                base: Ghost(base),
                added: Ghost(Multiset::empty()),
                recent: Ghost(Multiset::empty()),
                flushed: Ghost(Multiset::empty()),
            },
        )
    }

    /// Converts one record and appends its document, committing when the
    /// interval is reached.  A failure to append or commit is fatal to the
    /// run; what was already committed stays durable.
    pub fn add_record(&mut self, index: &SearchIndex, paper: &Paper) -> (r: Result<
        (),
        SearchError,
    >)
        requires
            old(self).wf(),
            old(self).indexed < usize::MAX,
            index.wf(),
            paper.wf(),
        ensures
            r is Ok ==> {
                &&& final(self).wf()
                &&& final(self).indexed == old(self).indexed + 1
                &&& final(self).commit_interval == old(self).commit_interval
                &&& final(self).base@ == old(self).base@
                &&& final(self).added@ == old(self).added@.insert(paper_projection(*paper))
            },
    {
        let doc = index.paper_to_document(paper);
        proof {
            let n = old(self).indexed as int;
            let k = old(self).commit_interval as int;
            let c = old(self).commits as int;
            let s = old(self).since as int;
            assert(c <= n) by (nonlinear_arith)
                requires
                    n == k * c + s,
                    k >= 1,
                    c >= 0,
                    s >= 0,
            ;
        }
        match engine::writer_add(&mut self.writer, doc) {
            Ok(()) => {},
            Err(e) => {
                return Err(e);
            },
        }
        self.indexed = self.indexed + 1;
        self.since = self.since + 1;
        proof {
            self.recent@ = self.recent@.insert(paper_projection(*paper));
            self.added@ = self.added@.insert(paper_projection(*paper));
        }
        if self.since == self.commit_interval {
            match engine::writer_commit(&mut self.writer) {
                Ok(()) => {},
                Err(e) => {
                    return Err(e);
                },
            }
            self.since = 0;
            self.commits = self.commits + 1;
            proof {
                self.flushed@ = self.flushed@.add(self.recent@);
                self.recent@ = Multiset::empty();
                assert(self.added@ =~= self.flushed@.add(self.recent@));
                assert(engine::writer_committed(self.writer) =~= self.base@.add(self.flushed@));
                let k = self.commit_interval as int;
                let c = self.commits as int;
                assert(k * c == k * (c - 1) + k) by (nonlinear_arith);
            }
        }
        proof {
            assert(self.added@ =~= self.flushed@.add(self.recent@));
        }
        Ok(())
    }

    /// Issues the final commit and closes the run.  On success the index
    /// holds exactly what it held at the start of the run plus one document
    /// per appended record, and the run has issued
    /// `indexed / commit_interval` interim commits plus the final one.
    pub fn finish(&mut self) -> (r: Result<BuildReport, SearchError>)
        requires
            old(self).wf(),
            old(self).indexed < usize::MAX,
        ensures
            r matches Ok(rep) ==> {
                &&& rep.indexed == old(self).indexed
                &&& rep.commits == old(self).indexed as int / old(self).commit_interval as int + 1
                &&& engine::writer_committed(final(self).writer) == old(self).base@.add(
                    old(self).added@,
                )
                &&& engine::writer_pending(final(self).writer) == Multiset::<DocView>::empty()
            },
    {
        proof {
            let n = self.indexed as int;
            let k = self.commit_interval as int;
            let c = self.commits as int;
            let s = self.since as int;
            assert(c <= n) by (nonlinear_arith)
                requires
                    n == k * c + s,
                    k >= 1,
                    c >= 0,
                    s >= 0,
            ;
            lemma_fundamental_div_mod_converse(
                self.indexed as int,
                self.commit_interval as int,
                self.commits as int,
                self.since as int,
            );
        }
        match engine::writer_commit(&mut self.writer) {
            Ok(()) => {},
            Err(e) => {
                return Err(e);
            },
        }
        proof {
            self.flushed@ = self.flushed@.add(self.recent@);
            self.recent@ = Multiset::empty();
            assert(old(self).base@.add(old(self).added@) =~= engine::writer_committed(
                self.writer,
            ));
        }
        let report = BuildReport { indexed: self.indexed, commits: self.commits + 1 };
        self.commits = self.commits + 1;
        Ok(report)
    }
}

} // verus!
