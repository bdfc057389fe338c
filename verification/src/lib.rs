//! Links gathered from the bookmarks and the history of several browsers,
//! kept in one cache and found again by fuzzy search.

pub mod arc;
pub mod cache;
pub mod cache_builder;
pub mod chrome;
pub mod ddl;
pub mod error;
pub mod firefox;
pub mod json;
pub mod link;
pub mod order;
pub mod parse;
pub mod paths;
pub mod rows;
pub mod search;
pub mod sqlite;
pub mod text;

pub use cache::Cache;
pub use cache_builder::CacheBuilder;
pub use error::Error;
pub use link::{Link, Timestamp};
