//! Results of a query: what a stream of batches is turned into.

pub mod by_batch;
pub mod query_processor;
