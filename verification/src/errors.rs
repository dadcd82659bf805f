//! The closed error taxonomy of the library: every failure of a query is
//! returned as one of these variants, none is retried or swallowed.

use vstd::prelude::*;

verus! {

/// Everything that can go wrong between finalizing a query and handing back
/// a table.
#[derive(Debug)]
pub enum TushareError {
    /// The server returned zero data rows after reshaping. Column types
    /// cannot be inferred from an empty row set, so this is an error.
    EmptyError,
    /// The server's body carried an explicit non-zero status code; code and
    /// message are passed through verbatim.
    RequestError { code: String, msg: String },
    /// An expected JSON node (`data/fields`, `data/items`, or an entry
    /// within either, named by path) is missing or of the wrong shape.
    DataError(String),
    /// Transport-level failure: the endpoint could not be reached or
    /// answered with a non-success HTTP status.
    NetworkError { cause: String },
    /// The response body, or a reshaped row, is not valid JSON.
    JsonError(serde_json::Error),
    /// The reshaped rows could not be converted into a typed table.
    PolarsError(polars::prelude::PolarsError),
}

} // verus!
