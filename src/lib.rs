//! Flight-record import: turns CSV rows into search documents, routes them to
//! per-month indices and batches them for bulk indexing.

pub mod batch;
pub mod config;
pub mod document;
pub mod error;
pub mod filename;
pub mod loader;
pub mod lookup;
pub mod paths;
pub mod progress;
pub mod row;
pub mod text;
pub mod transform;
