//! Basic document search contracts, an in-memory index and an HTTP adapter.

pub mod document;
pub mod http;
pub mod index;
pub mod memory;
pub mod query;

pub use document::{SearchDocument, SearchError};
pub use http::{
    HttpSearchAdapter, HttpSearchConfig, MockSearchHttpPoster, MockSearchRequest, SearchHttpMethod,
    SearchHttpPoster, SearchHttpResponse,
};
pub use index::{version, DocumentIndex};
pub use memory::MemorySearchAdapter;
pub use query::{SearchHit, SearchQuery};
