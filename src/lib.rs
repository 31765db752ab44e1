//! Verified core of a trading-data viewer: the deal record and its strict
//! schema, the deal query library, parameter validation, the insight registry
//! and the single and batch insight executors.

pub mod error;
pub mod text;
pub mod deal;
pub mod schema;
pub mod query;
pub mod json;
pub mod params;
pub mod validator;
pub mod model;
pub mod insights;
pub mod registry;
pub mod executor;
pub mod import;
pub mod cache_dir;
pub mod validation;
pub mod asset;
