//! The client handle: token storage and builder factory.

use vstd::prelude::*;
use crate::builder::{QueryBuilder, fresh_model, params_wf};

verus! {

/// A handle for the remote data API: holds the access token and the fixed
/// endpoint URL, and acts as a factory for query builders.
pub struct Tushare {
    /// Access token, sent inside every request body.
    pub token: String,
    /// Base URL of the remote API server.
    pub api_endpoint: String,
}

impl Tushare {
    /// Creates a handle with the given token and the fixed endpoint URL.
    /// The token format is not validated here; the server checks it.
    pub fn new(token: String) -> (r: Tushare)
        ensures
            r.token@ == token@,
            r.api_endpoint@ == "http://api.tushare.pro"@,
    {
        Tushare { token, api_endpoint: "http://api.tushare.pro".to_owned() }
    }

    /// Spawns a fresh builder for the named API: no parameters and no field
    /// restriction yet, sharing this handle's token and endpoint.
    pub fn querybuilder<'a>(&'a self, api_name: String) -> (r: QueryBuilder<'a>)
        ensures
            r.model() == fresh_model(self.token@, api_name@),
            r.endpoint_spec() == self.api_endpoint@,
            params_wf(r.model()),
    {
        QueryBuilder::new(self, api_name)
    }
}

} // verus!
