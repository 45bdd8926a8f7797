//! A rule-driven quality-assurance engine for localized text: ordered,
//! pattern-based checks grouped into profiles, applied to batches of text
//! records in a reporting (find) mode and a rewriting (replace) mode, with
//! a reusable snippet library and structured-document persistence for both.
pub mod engine;
pub mod laws;
pub mod library_doc;
pub mod model;
pub mod profile_doc;
pub mod rex;
pub mod tags;
pub mod text;

pub use text::escape_xml;
