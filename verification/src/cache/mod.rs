//! Caches for decoded audio and downloaded files, and the load-strategy choice.

pub mod disk;
pub mod http_stream;
pub mod memory;
pub mod probe;
pub mod strategy;
pub mod manager;

pub use manager::{CacheManager, CacheStats};
