//! The search index handle: opening, creating, document conversion and the
//! reader/writer/snapshot lifecycle.

use crate::dates::Date;
use crate::dates::SECS_PER_DAY;
use crate::engine;
use crate::engine::opt_str_view;
use crate::engine::DocView;
use crate::engine::PaperWriter;
use crate::error::SearchError;
use crate::schema::create_paper_schema;
use crate::schema::paper_fields_spec;
use crate::schema::paper_schema_desc;
use crate::schema::PaperFields;
use crate::text;
use tantivy::schema::Schema;
use tantivy::Index;
use tantivy::IndexReader;
use tantivy::Searcher;
use tantivy::TantivyDocument;
use vstd::prelude::*;

verus! {

/// Widest second range the engine's date representation can hold.
pub const MIN_INDEXABLE_SECS: i64 = -9_200_000_000;

/// See `MIN_INDEXABLE_SECS`.
pub const MAX_INDEXABLE_SECS: i64 = 9_200_000_000;

/// An authoritative paper record, as plain values.  Identifiers are carried
/// as strings; the publication date as a calendar date.
pub struct Paper {
    pub id: String,
    pub title: String,
    pub abstract_text: Option<String>,
    pub arxiv_id: Option<String>,
    pub arxiv_url: Option<String>,
    pub pdf_url: Option<String>,
    pub published_date: Option<Date>,
    pub authors: Option<Vec<String>>,
}

impl Paper {
    /// Well-formedness: a present publication date is a real calendar date.
    pub open spec fn wf(self) -> bool {
        self.published_date matches Some(d) ==> d.valid()
    }
}

/// The seconds value stored for a publication date, when it fits the
/// engine's representable window.
pub open spec fn spec_date_secs(d: Date) -> Option<int> {
    if MIN_INDEXABLE_SECS <= d.spec_day_number() * SECS_PER_DAY <= MAX_INDEXABLE_SECS {
        Some(d.spec_day_number() * SECS_PER_DAY)
    } else {
        None
    }
}

/// The indexed projection of a paper: what the schema stores for it.
pub open spec fn paper_projection(p: Paper) -> DocView {
    DocView {
        id: p.id@,
        title: p.title@,
        abstract_text: opt_str_view(p.abstract_text),
        authors: match p.authors {
            Some(v) => Some(text::join_spaces(v@.map_values(|a: String| a@))),
            None => None,
        },
        external_id: opt_str_view(p.arxiv_id),
        date_secs: match p.published_date {
            Some(d) => spec_date_secs(d),
            None => None,
        },
    }
}

/// Wrapper around the engine index with its schema, fields and a shared
/// reader observing committed generations.
pub struct SearchIndex {
    pub index: Index,
    pub reader: IndexReader,
    pub schema: Schema,
    pub fields: PaperFields,
}

impl SearchIndex {
    /// Well-formedness: the handle's schema value and the schema embedded
    /// in the underlying index are both the paper schema (the one built
    /// from exactly `paper_schema_desc`), and each field handle is the one
    /// that schema assigns to its field.  Every constructor establishes
    /// this; in particular an on-disk index whose embedded schema differs
    /// is refused rather than coerced.
    pub open spec fn wf(self) -> bool {
        &&& engine::schema_id(self.schema) == engine::schema_of(paper_schema_desc())
        &&& engine::index_schema_id(self.index) == engine::schema_of(paper_schema_desc())
        &&& paper_fields_spec(self.fields)
    }

    /// Opens an existing index from disk, refusing it when the embedded
    /// schema differs from the running definition.
    pub fn open(path: &str) -> (r: Result<SearchIndex, SearchError>)
        ensures
            r matches Ok(si) ==> si.wf(),
    {
        let (schema, fields) = create_paper_schema();
        let index = match engine::open_index(path) {
            Ok(i) => i,
            Err(e) => {
                return Err(e);
            },
        };
        match SearchIndex::vet_paper_schema(&index, &schema) {
            Ok(()) => {},
            Err(e) => {
                return Err(e);
            },
        }
        let reader = match engine::make_reader(&index) {
            Ok(r) => r,
            Err(e) => {
                return Err(e);
            },
        };
        Ok(SearchIndex { index, reader, schema, fields })
    }

    /// Creates a new index at the given path, embedding the paper schema;
    /// the directory must already exist.
    pub fn create(path: &str) -> (r: Result<SearchIndex, SearchError>)
        ensures
            r matches Ok(si) ==> si.wf(),
    {
        let (schema, fields) = create_paper_schema();
        let index = match engine::create_index(path, &schema) {
            Ok(i) => i,
            Err(e) => {
                return Err(e);
            },
        };
        let reader = match engine::make_reader(&index) {
            Ok(r) => r,
            Err(e) => {
                return Err(e);
            },
        };
        Ok(SearchIndex { index, reader, schema, fields })
    }

    /// Creates a fresh index held in memory, embedding the paper schema;
    /// used by tests and ephemeral deployments.
    pub fn create_in_ram() -> (r: Result<SearchIndex, SearchError>)
        ensures
            r matches Ok(si) ==> si.wf(),
    {
        let (schema, fields) = create_paper_schema();
        let index = engine::create_index_in_ram(&schema);
        let reader = match engine::make_reader(&index) {
            Ok(r) => r,
            Err(e) => {
                return Err(e);
            },
        };
        Ok(SearchIndex { index, reader, schema, fields })
    }

    /// Opens an existing index, or creates one when none is present.
    pub fn open_or_create(path: &str) -> (r: Result<SearchIndex, SearchError>)
        ensures
            r matches Ok(si) ==> si.wf(),
    {
        match SearchIndex::open(path) {
            Ok(s) => Ok(s),
            Err(e) => {
                if e.is_index_missing() {
                    SearchIndex::create(path)
                } else {
                    Err(e)
                }
            },
        }
    }

    /// The startup vetting of an opened index: accepted exactly when its
    /// embedded schema is the paper schema, and a refusal is always the
    /// fatal `SchemaMismatch` (never a silent coercion).
    fn vet_paper_schema(index: &Index, schema: &Schema) -> (r: Result<(), SearchError>)
        requires
            engine::schema_id(*schema) == engine::schema_of(paper_schema_desc()),
        ensures
            r is Ok <==> engine::index_schema_id(*index) == engine::schema_of(
                paper_schema_desc(),
            ),
            r matches Err(e) ==> e is SchemaMismatch,
    {
        let on_disk = engine::index_schema(index);
        if engine::schema_eq(&on_disk, schema) {
            Ok(())
        } else {
            Err(SearchError::SchemaMismatch)
        }
    }

    /// An immutable snapshot of the committed generations; queries of one
    /// request all run against one snapshot.
    pub fn snapshot(&self) -> Searcher {
        engine::reader_searcher(&self.reader)
    }

    /// Makes later snapshots observe the newest committed generation.
    pub fn reload(&self) -> Result<(), SearchError> {
        engine::reader_reload(&self.reader)
    }

    /// The single writer for this index, with the given heap budget in
    /// bytes.  A fresh writer has nothing pending.
    pub fn writer(&self, heap_bytes: usize) -> (r: Result<PaperWriter, SearchError>)
        ensures
            r matches Ok(w) ==> engine::writer_pending(w)
                == vstd::multiset::Multiset::<DocView>::empty(),
    {
        engine::make_writer(&self.index, heap_bytes)
    }

    /// Converts a paper record into the document that will be indexed: the
    /// projection keeps the identifier and searchable text, flattens the
    /// author list into one space-joined field, and stores the publication
    /// date as that day's first second when it fits the engine's window.
    pub fn paper_to_document(&self, paper: &Paper) -> (d: TantivyDocument)
        requires
            self.wf(),
            paper.wf(),
        ensures
            engine::doc_view(d) == paper_projection(*paper),
    {
        let authors_joined: Option<String> = match &paper.authors {
            Some(v) => Some(text::join_space(v)),
            None => None,
        };
        let date_secs: Option<i64> = match &paper.published_date {
            Some(d) => {
                let s = d.day_start_secs();
                if MIN_INDEXABLE_SECS <= s && s <= MAX_INDEXABLE_SECS {
                    Some(s)
                } else {
                    None
                }
            },
            None => None,
        };
        engine::build_paper_doc(
            &self.fields,
            paper.id.as_str(),
            paper.title.as_str(),
            &paper.abstract_text,
            &authors_joined,
            &paper.arxiv_id,
            &date_secs,
        )
    }
}

} // verus!
