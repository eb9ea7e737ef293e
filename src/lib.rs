//! Paginated, bounded-concurrency search over a vehicle stock locator.
//!
//! The library holds the decisions of a search: which pages to request,
//! how each upstream answer is classified, how pages merge into one keyed
//! collection, and how many fetches may be in flight at once. Performing
//! the requests is left to the caller.
pub mod config;
pub mod plan;
pub mod fetch;
pub mod aggregate;
pub mod dto;
pub mod request;
pub mod vehicle;
