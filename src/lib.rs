//! Book loading and render dispatch: the configuration scanner, chapter
//! ingestion, the option store and the format registry.
pub mod text;
pub mod error;
pub mod directive;
pub mod yaml;
pub mod options;
pub mod token;
pub mod book;
pub mod ingest;
pub mod templates;
pub mod laws;
