//! The crawler's configuration.
use vstd::prelude::*;

verus! {

/// What a crawl is configured with.
#[derive(Debug, Clone)]
pub struct CrawlerConfig {
    /// The user agent sent with requests.
    pub user_agent: String,
    /// The deepest link level to follow; not consulted by the engine.
    pub max_depth: u32,
    /// Number of workers.
    pub max_threads: u32,
    /// Request timeout, in seconds.
    pub timeout: u64,
}

} // verus!
