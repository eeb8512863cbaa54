//! A unit of crawl work.
use vstd::prelude::*;

verus! {

/// A unit of crawl work, identified by the absolute URL it concerns.
#[derive(Debug, Clone)]
pub enum Task {
    /// Fetch this URL and follow its links.
    CrawlUrl(String),
}

impl Task {
    /// The URL that the task concerns.
    pub open spec fn url_view(&self) -> Seq<char> {
        match self {
            Task::CrawlUrl(u) => u@,
        }
    }

    /// A task that crawls `url`.
    pub fn new(url: String) -> (r: Self)
        ensures
            r.url_view() == url@,
    {
        Task::CrawlUrl(url)
    }

    /// The URL that the task concerns.
    pub fn url(&self) -> (r: &String)
        ensures
            r@ == self.url_view(),
    {
        match self {
            Task::CrawlUrl(u) => u,
        }
    }

    /// Gives up the task and returns its URL.
    pub fn into_url(self) -> (r: String)
        ensures
            r@ == self.url_view(),
    {
        match self {
            Task::CrawlUrl(u) => u,
        }
    }
}

} // verus!
