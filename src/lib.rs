//! Credential and access-control engine of a multi-tenant file store: portable SQL
//! fragment construction, client and session token handling, asset authorization
//! and folder listing, and the storage decisions that follow authorization.

pub mod access;
pub mod errors;
pub mod query;
pub mod routes;
pub mod session;
pub mod storage;
pub mod text;
pub mod token;

pub use errors::AppError;
pub use query::{BackendName, SqlxFilters, SqlxSetters, SqlxValues, ToQuery};
