//! An in-memory result cache for keyed queries.
//!
//! A query is a value that identifies a unit of work together with the type of
//! its result. Each query type gets its own [`client::Client`], which tracks a
//! lifecycle [`state::State`] per query value: data may be absent, in flight,
//! valid, or explicitly marked stale. Concurrent fetches of the same query
//! share a single in-flight [`request::Request`] handle, so the underlying
//! computation runs at most once per transition into the loading state.

pub mod cache;
pub mod cached;
pub mod client;
pub mod laws;
pub mod query;
pub mod request;
pub mod state;

pub use cache::Cache;
pub use cache::FetchPlan;
pub use cached::Cached;
pub use client::Client;
pub use query::Query;
pub use request::Request;
pub use state::State;
