//! Errors of the crawler.
use vstd::prelude::*;

verus! {

/// What can go wrong while validating, fetching or recording a URL.
#[derive(Debug, Clone)]
pub enum CrawlerError {
    /// The scheme is neither `http` nor `https`.
    InvalidScheme,
    /// The host is not a valid hostname.
    InvalidDomain,
    /// The path holds characters outside the allowed set.
    InvalidPath,
    /// A query parameter is not a valid key-value pair.
    InvalidQueryParameter,
    /// The fragment holds characters outside the allowed set.
    InvalidFragment,
    /// The text could not be parsed as a URL.
    UrlParseError,
    /// The request failed in transport (DNS, connect, timeout); the message says how.
    HyperError(String),
    /// The server answered with a status outside 2xx.
    HttpError(u16),
    /// Persisting a record failed; the message says how.
    IoError(String),
    /// A holder of the frontier's exclusive section failed while holding it.
    MutexPoisonError,
    /// A holder of the visited set failed while reading it.
    RwLockReadPoisonError,
    /// A holder of the visited set failed while writing it.
    RwLockWritePoisonError,
    /// Any other failure.
    Other(String),
    /// No token was available; the value is the suggested wait in seconds.
    RateLimitError(u64),
    /// No token was available.
    NoTokenAvailable,
}

impl CrawlerError {
    /// Whether this error means that shared crawl state can no longer be trusted.
    pub fn is_fatal(&self) -> (r: bool)
        ensures
            r == (self is MutexPoisonError || self is RwLockReadPoisonError
                || self is RwLockWritePoisonError),
    {
        match self {
            CrawlerError::MutexPoisonError => true,
            CrawlerError::RwLockReadPoisonError => true,
            CrawlerError::RwLockWritePoisonError => true,
            _ => false,
        }
    }
}

} // verus!
