//! Adapter selection, cache keying and write-back decisions for a text
//! extraction pipeline.
pub mod adapters;
pub mod cache_key;
pub mod caching;
pub mod preproc;
