//! Full-text search core for a research-paper catalog.
//!
//! The library covers the document schema, the index build pipeline, the
//! query/ranking/filtering engine, facet aggregation, and the hydration step
//! that reconciles search hits with authoritative records, together with the
//! submission validation and audit logic around the catalog.  Persistence and
//! ranking are delegated to the tantivy search engine through a small trusted
//! surface; everything above that surface is verified.
//!
//! Requested page offsets are carried through unchanged (negative values
//! read as zero).  The ranked collector is sized `offset + limit` plus a
//! fixed over-fetch, so the caller of `search_papers` must keep that sum
//! within the machine's word, as its precondition states.

pub mod error;
pub mod text;
pub mod dates;
pub mod engine;
pub mod schema;
pub mod index;
pub mod builder;
pub mod query;
pub mod hydrate;
pub mod api;
pub mod validate;
pub mod submit;
pub mod github;
pub mod sota;
pub mod loader;
pub mod report;
