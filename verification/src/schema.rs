//! The paper index schema: the single source of truth for field names and
//! analysis settings, identical at build time and query time.

use crate::engine;
use crate::engine::builder_desc;
use crate::engine::desc_has_name;
use crate::engine::schema_id;
use crate::engine::schema_of;
pub use crate::engine::paper_fields_spec;
pub use crate::engine::paper_schema_desc;
pub use crate::engine::PaperFields;
use tantivy::schema::Schema;
use vstd::prelude::*;

verus! {

/// Builds the paper schema: a stored exact-match `id`, stemmed full-text
/// `title`, `abstract` and `authors`, an exact-match `arxiv_id` that must
/// not be stemmed, and a stored, indexed, columnar `published_date` for
/// range filtering and recency sorting.  The returned schema is the one
/// built from exactly `paper_schema_desc`, and each returned handle is the
/// one the schema assigns to its field.
pub fn create_paper_schema() -> (r: (Schema, PaperFields))
    ensures
        schema_id(r.0) == schema_of(paper_schema_desc()),
        paper_fields_spec(r.1),
{
    proof {
        // The six field names are pairwise distinct, which the builder
        // wrappers require (a duplicate name would make the engine panic).
        reveal_strlit("id");
        reveal_strlit("title");
        reveal_strlit("abstract");
        reveal_strlit("authors");
        reveal_strlit("arxiv_id");
        reveal_strlit("published_date");
        assert("id"@.len() == 2);
        assert("title"@.len() == 5);
        assert("abstract"@.len() == 8);
        assert("authors"@.len() == 7);
        assert("arxiv_id"@.len() == 8);
        assert("published_date"@.len() == 14);
        assert("abstract"@[1] == 'b' && "arxiv_id"@[1] == 'r');
    }
    let ghost d = paper_schema_desc();
    let mut builder = engine::new_schema_builder();
    proof {
        assert(builder_desc(builder) =~= d.take(0));
        lemma_no_name(d.take(0), "id"@);
    }
    let id = engine::add_exact_field(&mut builder, "id");
    proof {
        assert(builder_desc(builder) =~= d.take(1));
        lemma_no_name(d.take(1), "title"@);
    }
    let title = engine::add_stemmed_field(&mut builder, "title");
    proof {
        assert(builder_desc(builder) =~= d.take(2));
        lemma_no_name(d.take(2), "abstract"@);
    }
    let abstract_field = engine::add_stemmed_field(&mut builder, "abstract");
    proof {
        assert(builder_desc(builder) =~= d.take(3));
        lemma_no_name(d.take(3), "authors"@);
    }
    let authors = engine::add_stemmed_field(&mut builder, "authors");
    proof {
        assert(builder_desc(builder) =~= d.take(4));
        lemma_no_name(d.take(4), "arxiv_id"@);
    }
    let arxiv_id = engine::add_exact_field(&mut builder, "arxiv_id");
    proof {
        assert(builder_desc(builder) =~= d.take(5));
        lemma_no_name(d.take(5), "published_date"@);
    }
    let published_date = engine::add_date_field(&mut builder, "published_date");
    proof {
        assert(builder_desc(builder) =~= d);
    }
    let schema = engine::finish_schema(builder);
    let fields = PaperFields { id, title, abstract_field, authors, arxiv_id, published_date };
    (schema, fields)
}

/// No prefix of the paper field sequence repeats a name that is yet to
/// come: the callers hand in a name different from every entry of `d`.
proof fn lemma_no_name(d: Seq<(Seq<char>, int)>, n: Seq<char>)
    requires
        forall|i: int| 0 <= i < d.len() ==> (#[trigger] d[i]).0 != n,
    ensures
        !desc_has_name(d, n),
{
}

} // verus!
