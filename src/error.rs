//! Why an import stops.

use vstd::prelude::*;

verus! {

/// The ways an import fails.
#[derive(Debug, PartialEq, Eq)]
pub enum ImportError {
    /// The configuration names no endpoint.
    MissingEndpoint,
    /// A zip archive holds no entry ending in `.csv`.
    NoCsvEntry,
    /// A configuration or lookup path exists in none of the places searched.
    PathNotFound,
    /// A data file exists in none of the places searched.
    FileNotFound,
    /// A line of a bulk request could not be written as JSON.
    Serialization,
    /// The store rejected documents of a bulk request; holds the first few
    /// item errors it reported.
    BulkIndexing { index: String, item_errors: Vec<String> },
}

} // verus!
