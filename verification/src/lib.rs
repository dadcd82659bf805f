//! Client library for a remote financial-data web API.
//!
//! A [`Tushare`] handle holds the access token and the fixed endpoint URL and
//! spawns query builders. A `QueryBuilder` accumulates an API name, optional
//! parameters and an optional field list, serializes them into a JSON request
//! envelope, and turns the server's columnar JSON response (`fields` +
//! row-major `items`) into a row-oriented table.

#![allow(unused_imports)]
use vstd::prelude::*;

pub mod builder;
pub mod dict;
pub mod errors;
pub mod ext;
pub mod jsontext;
pub mod response;
pub mod tushare;

pub use crate::builder::{QueryBuilder, RequestEnvelope};
pub use crate::dict::Dict;
pub use crate::errors::TushareError;
pub use crate::tushare::Tushare;
