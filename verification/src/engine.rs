//! Trusted surface over the tantivy search engine.
//!
//! Everything in this module is the boundary between the verified core and
//! tantivy: type declarations for the engine's opaque handles, uninterpreted
//! names for what those handles contain, and one thin wrapper per engine call
//! whose contract states what tantivy's source shows.  Nothing else in the
//! crate touches tantivy directly.

use crate::error::SearchError;
use std::ops::Bound;
use tantivy::collector::TopDocs;
use tantivy::query::BooleanQuery;
use tantivy::query::Occur;
use tantivy::query::QueryParser;
use tantivy::query::RangeQuery;
use tantivy::schema::Field;
use tantivy::schema::Schema;
use tantivy::schema::SchemaBuilder;
use tantivy::DateTime;
use tantivy::DocAddress;
use tantivy::Index;
use tantivy::IndexReader;
use tantivy::IndexWriter;
use tantivy::Searcher;
use tantivy::TantivyDocument;
use tantivy::Term;
use vstd::multiset::Multiset;
use vstd::prelude::*;

verus! {

#[verifier::external_type_specification]
#[verifier::external_body]
pub struct ExIndex(Index);

#[verifier::external_type_specification]
#[verifier::external_body]
pub struct ExIndexReader(IndexReader);

#[verifier::external_type_specification]
#[verifier::external_body]
pub struct ExSearcher(Searcher);

#[verifier::external_type_specification]
#[verifier::external_body]
pub struct ExSchema(Schema);

#[verifier::external_type_specification]
#[verifier::external_body]
pub struct ExSchemaBuilder(SchemaBuilder);

#[verifier::external_type_specification]
#[verifier::external_body]
pub struct ExField(Field);

#[verifier::external_type_specification]
#[verifier::external_body]
pub struct ExTantivyDocument(TantivyDocument);

#[verifier::external_type_specification]
pub struct ExDocAddress(DocAddress);

#[verifier::external_type_specification]
#[verifier::external_body]
pub struct ExRangeQuery(RangeQuery);

/// The single index writer, held behind an opaque struct because the
/// engine's writer type is generic over an engine trait that cannot be
/// declared here.  Verus sees this struct only through the named contents
/// `writer_committed` and `writer_pending` and the wrappers below.
#[verifier::external_body]
pub struct PaperWriter {
    inner: IndexWriter<TantivyDocument>,
}

/// The plain-value content of one indexed document: the projection of an
/// authoritative record that the schema stores.
pub ghost struct DocView {
    pub id: Seq<char>,
    pub title: Seq<char>,
    pub abstract_text: Option<Seq<char>>,
    pub authors: Option<Seq<char>>,
    pub external_id: Option<Seq<char>>,
    pub date_secs: Option<int>,
}

/// View of an optional owned string.
pub open spec fn opt_str_view(o: Option<String>) -> Option<Seq<char>> {
    match o {
        Some(s) => Some(s@),
        None => None,
    }
}

/// View of an optional second count.
pub open spec fn opt_secs_view(o: Option<i64>) -> Option<int> {
    match o {
        Some(s) => Some(s as int),
        None => None,
    }
}

/// First `n` elements of `s`, or all of `s` when it is shorter.
pub open spec fn seq_prefix<A>(s: Seq<A>, n: int) -> Seq<A> {
    if n <= s.len() {
        s.take(n)
    } else {
        s
    }
}

/// Names the content of a document value: what tantivy will index and store
/// for it under the paper schema.  Pinned by the ensures of
/// `build_paper_doc`, whose requires fixes the canonical field handles, so
/// the pinned view is a function of the document value alone.
pub uninterp spec fn doc_view(d: TantivyDocument) -> DocView;

/// Kind tag of an exact-match (raw tokenizer), stored text field.
pub const FIELD_EXACT: u64 = 0;

/// Kind tag of a stemmed, stored full-text field.
pub const FIELD_STEMMED: u64 = 1;

/// Kind tag of an indexed, stored, columnar date field.
pub const FIELD_DATE: u64 = 2;

/// Names the fields registered so far in a schema builder, in registration
/// order, each as its name with the kind tag of the options it was added
/// with.
pub uninterp spec fn builder_desc(b: SchemaBuilder) -> Seq<(Seq<char>, int)>;

/// Some registered field carries this name.
pub open spec fn desc_has_name(d: Seq<(Seq<char>, int)>, n: Seq<char>) -> bool {
    exists|i: int| 0 <= i < d.len() && (#[trigger] d[i]).0 == n
}

/// Names the handle a builder in the given state assigns to the next field
/// of this name and kind: the engine numbers fields in registration order,
/// so the handle is a function of the state and the addition.
pub uninterp spec fn builder_handle(d: Seq<(Seq<char>, int)>, name: Seq<char>, kind: int) -> Field;

/// Names the identity of the schema built from a field sequence: building
/// twice from equal sequences yields schemas that compare equal.
pub uninterp spec fn schema_of(d: Seq<(Seq<char>, int)>) -> int;

/// Names a schema value's identity: two schemas compare equal exactly when
/// their identities coincide (the engine's derived equality is an
/// equivalence over the full field list, so such an identity exists).
pub uninterp spec fn schema_id(s: Schema) -> int;

/// Names the identity of the schema embedded in an index (the one stored
/// in its metadata, which every reader and writer of the index uses).
pub uninterp spec fn index_schema_id(i: Index) -> int;

/// Handles of the six indexed fields of a paper document.
pub struct PaperFields {
    pub id: Field,
    pub title: Field,
    pub abstract_field: Field,
    pub authors: Field,
    pub arxiv_id: Field,
    pub published_date: Field,
}

/// The paper schema's field sequence: names and kinds in registration
/// order.  This is the single definition that the schema builder, the
/// document builder and every schema-identity statement refer to.
pub open spec fn paper_schema_desc() -> Seq<(Seq<char>, int)> {
    seq![
        ("id"@, FIELD_EXACT as int),
        ("title"@, FIELD_STEMMED as int),
        ("abstract"@, FIELD_STEMMED as int),
        ("authors"@, FIELD_STEMMED as int),
        ("arxiv_id"@, FIELD_EXACT as int),
        ("published_date"@, FIELD_DATE as int),
    ]
}

/// Each handle is the one the paper schema assigns to its field: the field
/// of this name and kind registered after exactly the preceding fields.
pub open spec fn paper_fields_spec(f: PaperFields) -> bool {
    let d = paper_schema_desc();
    &&& f.id == builder_handle(d.take(0), "id"@, FIELD_EXACT as int)
    &&& f.title == builder_handle(d.take(1), "title"@, FIELD_STEMMED as int)
    &&& f.abstract_field == builder_handle(d.take(2), "abstract"@, FIELD_STEMMED as int)
    &&& f.authors == builder_handle(d.take(3), "authors"@, FIELD_STEMMED as int)
    &&& f.arxiv_id == builder_handle(d.take(4), "arxiv_id"@, FIELD_EXACT as int)
    &&& f.published_date == builder_handle(d.take(5), "published_date"@, FIELD_DATE as int)
}

/// Names the documents committed (durable and visible to a fresh reader) in
/// the index that a writer is bound to.
pub uninterp spec fn writer_committed(w: PaperWriter) -> Multiset<DocView>;

/// Names the documents added through a writer since its last commit.
pub uninterp spec fn writer_pending(w: PaperWriter) -> Multiset<DocView>;

/// Names the full relevance-ranked hit list of a query against one searcher
/// snapshot: all matching documents ordered by descending score, ties broken
/// by ascending document address (tantivy documents this tie-break), with the
/// optional inclusive date-second bounds applied as a mandatory filter.
pub uninterp spec fn ranked_hits(
    s: Searcher,
    q: Seq<char>,
    from_secs: Option<int>,
    to_secs: Option<int>,
) -> Seq<DocAddress>;

/// Names whether the free-text query text parses under the snapshot's
/// query grammar (the parser over the title, abstract and authors fields
/// with the snapshot's tokenizers): parse success is a function of the
/// snapshot and the text alone.
pub uninterp spec fn parse_ok(s: Searcher, q: Seq<char>) -> bool;

/// Names the field handle that a snapshot's schema resolves for a field
/// name.
pub uninterp spec fn search_field(s: Searcher, name: Seq<char>) -> Field;

/// Names what a date range query was built from: the field it filters and
/// the inclusive `[lo, hi]` window in seconds.
pub uninterp spec fn range_spec(r: RangeQuery) -> (Field, int, int);

/// The lower bound a request's optional date filter applies.
pub open spec fn flt_lo(filter: Option<RangeQuery>) -> Option<int> {
    match filter {
        None => None,
        Some(rq) => Some(range_spec(rq).1),
    }
}

/// The upper bound a request's optional date filter applies.
pub open spec fn flt_hi(filter: Option<RangeQuery>) -> Option<int> {
    match filter {
        None => None,
        Some(rq) => Some(range_spec(rq).2),
    }
}

/// Names the stored `id` field value of the document at an address of a
/// searcher snapshot.
pub uninterp spec fn doc_id_at(s: Searcher, a: DocAddress) -> Option<Seq<char>>;

/// Names the first stored publication-date value (in seconds) of the
/// document at an address of a searcher snapshot.
pub uninterp spec fn doc_date_at(s: Searcher, a: DocAddress) -> Option<int>;

/// Names the set of publication-date values (in seconds) the document at an
/// address carries.  The range filter admits a document when any of these
/// lies in the window; with this crate's schema the date field is both
/// stored and columnar, so the set covers the stored values too.
pub uninterp spec fn doc_date_values(s: Searcher, a: DocAddress) -> Set<int>;

/// Names the addresses that denote a document of a snapshot: the document
/// store may be read only at such an address (one taken from a search
/// against the same snapshot), anything else is outside the engine's
/// interface.
pub uninterp spec fn addr_in(s: Searcher, a: DocAddress) -> bool;

/// The document at `a` carries some date value within `[lo, hi]`: what a
/// date range filter certifies of each admitted document.
pub open spec fn some_date_in(s: Searcher, a: DocAddress, lo: int, hi: int) -> bool {
    exists|ds: int| doc_date_values(s, a).contains(ds) && lo <= ds <= hi
}

/// Relies on `Schema::builder`: a builder that starts with no fields.
#[verifier::external_body]
pub(crate) fn new_schema_builder() -> (b: SchemaBuilder)
    ensures
        builder_desc(b) == Seq::<(Seq<char>, int)>::empty(),
{
    Schema::builder()
}

/// Relies on `SchemaBuilder::add_text_field` with `STRING | STORED`: an
/// exact-match (raw tokenizer), stored text field.  Panics only on a
/// duplicate field name, which the precondition rules out.
#[verifier::external_body]
pub(crate) fn add_exact_field(b: &mut SchemaBuilder, name: &str) -> (f: Field)
    requires
        !desc_has_name(builder_desc(*old(b)), name@),
    ensures
        builder_desc(*final(b)) == builder_desc(*old(b)).push((name@, FIELD_EXACT as int)),
        f == builder_handle(builder_desc(*old(b)), name@, FIELD_EXACT as int),
{
    b.add_text_field(name, tantivy::schema::STRING | tantivy::schema::STORED)
}

/// Relies on `SchemaBuilder::add_text_field` with indexing options naming the
/// built-in `en_stem` tokenizer (simple tokenization, 40-byte long-token
/// filter, lower-casing, English stemming) with frequencies and positions,
/// plus storage.  Panics only on a duplicate field name.
#[verifier::external_body]
pub(crate) fn add_stemmed_field(b: &mut SchemaBuilder, name: &str) -> (f: Field)
    requires
        !desc_has_name(builder_desc(*old(b)), name@),
    ensures
        builder_desc(*final(b)) == builder_desc(*old(b)).push((name@, FIELD_STEMMED as int)),
        f == builder_handle(builder_desc(*old(b)), name@, FIELD_STEMMED as int),
{
    let indexing = tantivy::schema::TextFieldIndexing::default().set_tokenizer("en_stem")
        .set_index_option(tantivy::schema::IndexRecordOption::WithFreqsAndPositions);
    let options = tantivy::schema::TextOptions::default().set_indexing_options(indexing)
        .set_stored();
    b.add_text_field(name, options)
}

/// Relies on `SchemaBuilder::add_date_field` with `INDEXED | STORED | FAST`:
/// a date field with columnar access for range filtering and sorting.
/// Panics only on a duplicate field name.
#[verifier::external_body]
pub(crate) fn add_date_field(b: &mut SchemaBuilder, name: &str) -> (f: Field)
    requires
        !desc_has_name(builder_desc(*old(b)), name@),
    ensures
        builder_desc(*final(b)) == builder_desc(*old(b)).push((name@, FIELD_DATE as int)),
        f == builder_handle(builder_desc(*old(b)), name@, FIELD_DATE as int),
{
    let options = tantivy::schema::DateOptions::default().set_indexed().set_stored().set_fast();
    b.add_date_field(name, options)
}

/// Relies on `SchemaBuilder::build`: the built schema's identity is fixed
/// by the registered field sequence.
#[verifier::external_body]
pub(crate) fn finish_schema(b: SchemaBuilder) -> (r: Schema)
    ensures
        schema_id(r) == schema_of(builder_desc(b)),
{
    b.build()
}

/// Relies on `Index::open_in_dir`: opens an existing on-disk index.  A
/// missing directory or missing index metadata maps to `IndexMissing`; any
/// other failure is a backend error.
#[verifier::external_body]
pub(crate) fn open_index(path: &str) -> Result<Index, SearchError> {
    match Index::open_in_dir(path) {
        Ok(i) => Ok(i),
        Err(tantivy::TantivyError::OpenDirectoryError(_)) => Err(SearchError::IndexMissing),
        Err(tantivy::TantivyError::OpenReadError(
            tantivy::directory::error::OpenReadError::FileDoesNotExist(_),
        )) => Err(SearchError::IndexMissing),
        Err(e) => Err(SearchError::Backend(e.to_string())),
    }
}

/// Relies on `Index::create_in_dir`: creates a new on-disk index in an
/// existing directory, embedding the given schema.  When a valid index
/// already lives at the path, the engine refuses to overwrite it and the
/// refusal surfaces as the error (never statable here, since it depends on
/// what is on disk).
#[verifier::external_body]
pub(crate) fn create_index(path: &str, schema: &Schema) -> (r: Result<Index, SearchError>)
    ensures
        r matches Ok(i) ==> index_schema_id(i) == schema_id(*schema),
{
    Index::create_in_dir(path, schema.clone()).map_err(|e| SearchError::Backend(e.to_string()))
}

/// Relies on `Index::create_in_ram`: creates a fresh index held in anonymous
/// memory, embedding the given schema; used by tests and ephemeral
/// deployments.
#[verifier::external_body]
pub(crate) fn create_index_in_ram(schema: &Schema) -> (r: Index)
    ensures
        index_schema_id(r) == schema_id(*schema),
{
    Index::create_in_ram(schema.clone())
}

/// Relies on `Index::schema`: a copy of the schema embedded in the
/// (possibly on-disk) index.
#[verifier::external_body]
pub(crate) fn index_schema(i: &Index) -> (r: Schema)
    ensures
        schema_id(r) == index_schema_id(*i),
{
    i.schema()
}

/// Relies on the derived `PartialEq` of `tantivy::schema::Schema`, which
/// compares the full field list with options: schemas compare equal
/// exactly when their identities coincide.
#[verifier::external_body]
pub(crate) fn schema_eq(a: &Schema, b: &Schema) -> (r: bool)
    ensures
        r == (schema_id(*a) == schema_id(*b)),
{
    a == b
}

/// Relies on `Index::reader`: a reader with the default reload policy, which
/// picks up new commits after a bounded delay.
#[verifier::external_body]
pub(crate) fn make_reader(i: &Index) -> Result<IndexReader, SearchError> {
    i.reader().map_err(|e| SearchError::Backend(e.to_string()))
}

/// Relies on `IndexReader::searcher`: an immutable snapshot of the committed
/// generations at this moment.
#[verifier::external_body]
pub(crate) fn reader_searcher(r: &IndexReader) -> Searcher {
    r.searcher()
}

/// Relies on `IndexReader::reload`: makes later `searcher()` calls observe
/// the newest committed generation.
#[verifier::external_body]
pub(crate) fn reader_reload(r: &IndexReader) -> Result<(), SearchError> {
    r.reload().map_err(|e| SearchError::Backend(e.to_string()))
}

/// Relies on `Index::writer`: the single writer for the index, bound to the
/// given memory budget; fails fast (directory lock) if another writer is
/// open.  A fresh writer has added nothing since the last commit.
#[verifier::external_body]
pub(crate) fn make_writer(i: &Index, heap_bytes: usize) -> (r: Result<PaperWriter, SearchError>)
    ensures
        r matches Ok(w) ==> writer_pending(w) == Multiset::<DocView>::empty(),
{
    match i.writer(heap_bytes) {
        Ok(inner) => Ok(PaperWriter { inner }),
        Err(e) => Err(SearchError::Backend(e.to_string())),
    }
}

/// Relies on `IndexWriter::add_document`: stages one more document; flushing
/// to segments is automatic, visibility waits for a commit.
#[verifier::external_body]
pub(crate) fn writer_add(w: &mut PaperWriter, d: TantivyDocument) -> (r: Result<
    (),
    SearchError,
>)
    ensures
        r is Ok ==> writer_pending(*final(w)) == writer_pending(*old(w)).insert(doc_view(d))
            && writer_committed(*final(w)) == writer_committed(*old(w)),
{
    w.inner.add_document(d).map(|_opstamp| ()).map_err(|e| SearchError::Backend(e.to_string()))
}

/// Relies on `IndexWriter::commit`: makes every document added so far durable
/// and visible to readers that (re)load after the commit.
#[verifier::external_body]
pub(crate) fn writer_commit(w: &mut PaperWriter) -> (r: Result<(), SearchError>)
    ensures
        r is Ok ==> writer_committed(*final(w)) == writer_committed(*old(w)).add(writer_pending(*old(w)))
            && writer_pending(*final(w)) == Multiset::<DocView>::empty(),
{
    w.inner.commit().map(|_opstamp| ()).map_err(|e| SearchError::Backend(e.to_string()))
}

/// Relies on `IndexWriter::delete_all_documents` followed by
/// `IndexWriter::commit`: stages deletion of every document up to this
/// point and commits it, the force-rebuild reset.  The precondition asks
/// that nothing has been staged through this writer yet: a document still
/// in the indexing pipeline is not covered by the deletion's opstamp, so
/// only a pending-free writer is guaranteed an observably empty index.
#[verifier::external_body]
pub(crate) fn writer_clear(w: &mut PaperWriter) -> (r: Result<(), SearchError>)
    requires
        writer_pending(*old(w)) == Multiset::<DocView>::empty(),
    ensures
        r is Ok ==> writer_committed(*final(w)) == Multiset::<DocView>::empty() && writer_pending(
            *final(w),
        ) == Multiset::<DocView>::empty(),
{
    w.inner.delete_all_documents().map_err(|e| SearchError::Backend(e.to_string()))?;
    w.inner.commit().map(|_opstamp| ()).map_err(|e| SearchError::Backend(e.to_string()))
}

/// Relies on `TantivyDocument::new`, `add_text` and `add_date`: builds the
/// document holding exactly the given projection under the paper schema's
/// six canonical field handles (required, so that the named content below
/// is a function of the document value alone).  The date is converted with
/// `DateTime::from_timestamp_secs`, whose nanosecond representation
/// requires the bound on `date_secs`.
#[verifier::external_body]
pub(crate) fn build_paper_doc(
    fields: &PaperFields,
    id: &str,
    title: &str,
    abstract_text: &Option<String>,
    authors_joined: &Option<String>,
    external_id: &Option<String>,
    date_secs: &Option<i64>,
) -> (d: TantivyDocument)
    requires
        paper_fields_spec(*fields),
        date_secs matches Some(s) ==> -9_200_000_000 <= *s <= 9_200_000_000,
    ensures
        doc_view(d) == (DocView {
            id: id@,
            title: title@,
            abstract_text: opt_str_view(*abstract_text),
            authors: opt_str_view(*authors_joined),
            external_id: opt_str_view(*external_id),
            date_secs: opt_secs_view(*date_secs),
        }),
{
    let mut d = TantivyDocument::new();
    d.add_text(fields.id, id);
    d.add_text(fields.title, title);
    if let Some(t) = abstract_text { d.add_text(fields.abstract_field, t); }
    if let Some(t) = authors_joined { d.add_text(fields.authors, t); }
    if let Some(t) = external_id { d.add_text(fields.arxiv_id, t); }
    if let Some(v) = date_secs { d.add_date(fields.published_date, DateTime::from_timestamp_secs(*v)); }
    d
}

/// Relies on `Index::schema` and `Schema::get_field`: resolves one of the
/// schema's field handles by name.
#[verifier::external_body]
pub(crate) fn get_search_field(s: &Searcher, name: &str) -> (r: Result<Field, SearchError>)
    ensures
        r matches Ok(f) ==> f == search_field(*s, name@),
        r matches Err(e) ==> e is Backend,
{
    s.index().schema().get_field(name).map_err(|e| SearchError::Backend(e.to_string()))
}

/// Relies on `Term::from_field_date_for_search` and `RangeQuery::new`: an
/// inclusive `[lo, hi]` window on the given date field, truncated to the
/// engine's indexed second precision (our bounds are whole seconds already).
/// The bounds keep `DateTime`'s nanosecond representation in range.
#[verifier::external_body]
pub(crate) fn date_range(f: Field, lo_secs: i64, hi_secs: i64) -> (r: RangeQuery)
    requires
        -9_200_000_000 <= lo_secs <= 9_200_000_000,
        -9_200_000_000 <= hi_secs <= 9_200_000_000,
    ensures
        range_spec(r) == (f, lo_secs as int, hi_secs as int),
{
    let lo = Bound::Included(Term::from_field_date_for_search(f, DateTime::from_timestamp_secs(lo_secs)));
    let hi = Bound::Included(Term::from_field_date_for_search(f, DateTime::from_timestamp_secs(hi_secs)));
    RangeQuery::new(lo, hi)
}

/// Relies on `QueryParser::for_index` over the given title, abstract and
/// authors fields, `QueryParser::parse_query`, `BooleanQuery::new` (both
/// parts mandatory when a date filter is given), `Searcher::search` and
/// `TopDocs::with_limit(..).order_by_score()`: the top `k` hits of the
/// query, best first.  `TopDocs` documents a deterministic total order
/// (score descending, address ascending on ties), so the result is the
/// length-`k` prefix of the snapshot's full ranked hit list.  Every
/// returned address denotes a document of this snapshot.  With a filter,
/// the `BooleanQuery` is the intersection of the text query and the range
/// query, so the filtered hit list holds exactly the text hits that carry
/// some date value within the window (each hit therefore carries one).  A
/// malformed query is the `Parse` error, returned exactly when the text
/// does not parse.
#[verifier::external_body]
pub(crate) fn ranked_search_with(
    s: &Searcher,
    t: Field,
    a: Field,
    u: Field,
    q: &str,
    filter: Option<RangeQuery>,
    k: usize,
) -> (r: Result<Vec<DocAddress>, SearchError>)
    requires
        1 <= k,
        t == search_field(*s, "title"@),
        a == search_field(*s, "abstract"@),
        u == search_field(*s, "authors"@),
        filter matches Some(rq) ==> range_spec(rq).0 == search_field(*s, "published_date"@),
    ensures
        crate::error::is_parse_err(r) <==> !parse_ok(*s, q@),
        r matches Ok(v) ==> v@ == seq_prefix(
            ranked_hits(*s, q@, flt_lo(filter), flt_hi(filter)),
            k as int,
        ),
        r matches Ok(v) ==> forall|j: int| 0 <= j < v@.len() ==> addr_in(*s, #[trigger] v@[j]),
        r matches Ok(v) ==> (filter matches Some(rq) ==> forall|j: int|
            0 <= j < v@.len() ==> some_date_in(
                *s,
                #[trigger] v@[j],
                range_spec(rq).1,
                range_spec(rq).2,
            )),
        r is Ok ==> (filter matches Some(rq) ==> forall|a2: DocAddress|
            #![trigger ranked_hits(*s, q@, Some(range_spec(rq).1), Some(range_spec(rq).2)).contains(a2)]
            ranked_hits(*s, q@, Some(range_spec(rq).1), Some(range_spec(rq).2)).contains(a2)
                <==> (ranked_hits(*s, q@, None, None).contains(a2) && some_date_in(
                *s,
                a2,
                range_spec(rq).1,
                range_spec(rq).2,
            ))),
{
    let parser = QueryParser::for_index(s.index(), vec![t, a, u]);
    let tq = parser.parse_query(q).map_err(|e| SearchError::Parse(e.to_string()))?;
    let query: Box<dyn tantivy::query::Query> = match filter {
        None => tq,
        Some(rq) => Box::new(BooleanQuery::new(vec![(Occur::Must, tq), (Occur::Must, Box::new(rq))])),
    };
    let hits = s.search(&query, &TopDocs::with_limit(k).order_by_score()).map_err(|e| SearchError::Backend(e.to_string()))?;
    Ok(hits.into_iter().map(|h| h.1).collect())
}

/// Relies on `QueryParser::for_index` and `QueryParser::parse_query` over
/// the same canonical fields as `ranked_search_with`: validates the query
/// text without searching, so a request that skips retrieval still reports
/// a malformed query as the client-facing error.
#[verifier::external_body]
pub(crate) fn check_query(s: &Searcher, t: Field, a: Field, u: Field, q: &str) -> (r: Result<
    (),
    SearchError,
>)
    requires
        t == search_field(*s, "title"@),
        a == search_field(*s, "abstract"@),
        u == search_field(*s, "authors"@),
    ensures
        r is Ok <==> parse_ok(*s, q@),
        r matches Err(e) ==> e is Parse,
{
    let parser = QueryParser::for_index(s.index(), vec![t, a, u]);
    parser.parse_query(q).map(|_q| ()).map_err(|e| SearchError::Parse(e.to_string()))
}

/// Relies on `Searcher::doc` and `TantivyDocument::get_first` with
/// `Value::as_str`: the stored `id` of the document at this address, `None`
/// when the document stores none.  A doc-store read failure is an error, not
/// a missing value.  `Searcher::doc` indexes the snapshot's segment list by
/// the address's segment ordinal, so only addresses of this snapshot are
/// admitted.
#[verifier::external_body]
pub(crate) fn stored_id(s: &Searcher, a: DocAddress) -> (r: Result<Option<String>, SearchError>)
    requires
        addr_in(*s, a),
    ensures
        r matches Ok(v) ==> opt_str_view(v) == doc_id_at(*s, a),
        r matches Err(e) ==> e is Backend,
{
    let schema = s.index().schema();
    let f = schema.get_field("id").map_err(|e| SearchError::Backend(e.to_string()))?;
    let doc: TantivyDocument = s.doc(a).map_err(|e| SearchError::Backend(e.to_string()))?;
    Ok(doc.get_first(f).and_then(|v| tantivy::schema::Value::as_str(&v)).map(|t| t.to_string()))
}

/// Relies on `Searcher::doc`, `TantivyDocument::get_first`,
/// `Value::as_datetime` and `DateTime::into_timestamp_secs`: the first
/// stored publication-date value of the document at this address in
/// seconds, which is one of the document's date values.  The second count
/// of any `DateTime` fits the stated bounds because tantivy stores
/// nanoseconds in an `i64`.  Only addresses of this snapshot are admitted,
/// as for `stored_id`.
#[verifier::external_body]
pub(crate) fn stored_date(s: &Searcher, a: DocAddress) -> (r: Result<Option<i64>, SearchError>)
    requires
        addr_in(*s, a),
    ensures
        r matches Ok(v) ==> opt_secs_view(v) == doc_date_at(*s, a),
        r matches Ok(v) ==> (v matches Some(d0) ==> doc_date_values(*s, a).contains(d0 as int)),
        r matches Ok(v) && v matches Some(ds) ==> -9_300_000_000 <= ds <= 9_300_000_000,
        r matches Err(e) ==> e is Backend,
{
    let schema = s.index().schema();
    let f = schema.get_field("published_date").map_err(|e| SearchError::Backend(e.to_string()))?;
    let doc: TantivyDocument = s.doc(a).map_err(|e| SearchError::Backend(e.to_string()))?;
    Ok(
        doc.get_first(f).and_then(|v| tantivy::schema::Value::as_datetime(&v)).map(
            |dt| dt.into_timestamp_secs(),
        ),
    )
}

} // verus!
