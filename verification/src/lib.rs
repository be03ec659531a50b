//! Routing, caching and fetch coordination for a static site provider that
//! serves branches of git repositories under per-repository host names.
pub mod config;
pub mod error;
pub mod fetching;
pub mod meta;
pub mod repo;
pub mod request;
pub mod sync;
pub mod text;
