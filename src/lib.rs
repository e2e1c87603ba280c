//! A local memory service: documents with embedding vectors, ranked
//! retrieval by similarity score, and the dispatch of tool requests.
//!
//! - [`ranking`]: order-preserving keys for float32 scores and stable top-k.
//! - [`store`]: the document collection and its search.
//! - [`protocol`]: what to do for each request.
//! - [`catalog`]: the tool catalog and server descriptor.
//! - [`changes`]: which file-change events are passed on for re-indexing.

pub mod ranking;
pub mod store;
pub mod protocol;
pub mod catalog;
pub mod changes;
