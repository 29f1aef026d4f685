//! A searchable recipe collection: the facts a recipe is indexed by, the
//! facet counters filled while a query runs, the request protocol of the
//! single index worker, and the file-change events that keep it current.
//!
//! The index engine itself is driven from outside the library; what it is
//! asked to store and delete is decided here, and `document` states what its
//! table of documents holds after each request.
pub mod document;
pub mod facets;
pub mod import;
pub mod markdown;
pub mod recipe;
pub mod search;
pub mod templates;
pub mod text;
pub mod watch;
