//! The decisions of the crawl loop: which URL to dispatch next, what a finished job
//! records, and when the crawl is complete.
//!
//! Fetching and link extraction happen in jobs run by the caller's workers; each job
//! reports its outcome back through [`CrawlEngine::complete`].
use vstd::prelude::*;

use crate::error::CrawlerError;
use crate::fetch::{is_definitive, outcome_is_definitive};
use crate::state::{string_views, SharedState, StateView};

verus! {

/// The URLs of `links` that are not in `visited`, in order, duplicates kept.
pub open spec fn unvisited_of(visited: Seq<Seq<char>>, links: Seq<Seq<char>>) -> Seq<Seq<char>>
    decreases links.len(),
{
    if links.len() == 0 {
        Seq::empty()
    } else {
        let p = unvisited_of(visited, links.drop_last());
        if visited.contains(links.last()) {
            p
        } else {
            p.push(links.last())
        }
    }
}

/// The state after taking URLs off the front of the frontier until one that has not
/// been visited comes off, and that URL; `None` if the frontier runs out first.
pub open spec fn next_unvisited(s: StateView) -> (StateView, Option<Seq<char>>)
    decreases s.urls.len(),
{
    if s.urls.len() == 0 {
        (s, None)
    } else if s.is_visited(s.urls[0]) {
        next_unvisited(s.without_front())
    } else {
        (s.without_front(), Some(s.urls[0]))
    }
}

/// The state after a job on `url` finished with `outcome` and found `links`: the
/// URL is recorded as visited if the outcome is definitive, and on success every
/// link not yet visited is appended to the frontier.
pub open spec fn after_job(
    s: StateView,
    url: Seq<char>,
    outcome: Result<(String, u16, Option<String>), CrawlerError>,
    links: Seq<Seq<char>>,
) -> StateView {
    let s1 = if is_definitive(outcome) {
        s.with_visited(url)
    } else {
        s
    };
    if outcome is Ok {
        s1.with_urls(unvisited_of(s1.visited, links))
    } else {
        s1
    }
}

/// A URL recorded as visited is never dispatched again: taking the next unvisited URL
/// off the frontier never yields it, and leaves the visited set as it was.
pub proof fn lemma_visited_never_dispatched(s: StateView, u: Seq<char>)
    requires
        s.is_visited(u),
    ensures
        next_unvisited(s).1 != Some(u),
        next_unvisited(s).0.visited == s.visited,
    decreases s.urls.len(),
{
    if s.urls.len() > 0 && s.is_visited(s.urls[0]) {
        lemma_visited_never_dispatched(s.without_front(), u);
    }
}

/// The abstract engine: the crawl state and the number of jobs dispatched and not
/// yet complete.
pub ghost struct EngineView {
    pub state: StateView,
    pub in_flight: nat,
}

/// The crawl loop's bookkeeping.
#[derive(Debug)]
pub struct CrawlEngine {
    state: SharedState,
    in_flight: usize,
}

impl View for CrawlEngine {
    type V = EngineView;

    closed spec fn view(&self) -> EngineView {
        EngineView { state: self.state@, in_flight: self.in_flight as nat }
    }
}

impl CrawlEngine {
    /// An engine with an empty frontier, nothing visited and no job out.
    pub fn new() -> (r: Self)
        ensures
            r@.state.urls == Seq::<Seq<char>>::empty(),
            r@.state.visited == Seq::<Seq<char>>::empty(),
            r@.state.wf(),
            r@.in_flight == 0,
    {
        CrawlEngine { state: SharedState::new(), in_flight: 0 }
    }

    /// The crawl state.
    pub fn state(&self) -> (r: &SharedState)
        ensures
            r@ == self@.state,
    {
        &self.state
    }

    /// Jobs dispatched and not yet complete.
    pub fn in_flight(&self) -> (r: usize)
        ensures
            r == self@.in_flight,
    {
        self.in_flight
    }

    /// Appends a seed URL to the frontier.
    pub fn submit_seed(&mut self, url: String)
        ensures
            final(self)@ == (EngineView { state: old(self)@.state.with_url(url@), ..old(self)@ }),
    {
        let _ = self.state.add_url(url);
    }

    /// Takes URLs off the frontier until one that has not been visited comes off, and
    /// counts a job out for it; `None` when the frontier runs out first.
    pub fn dispatch_next(&mut self) -> (r: Option<String>)
        requires
            old(self)@.in_flight < usize::MAX,
        ensures
            final(self)@.state == next_unvisited(old(self)@.state).0,
            r is Some <==> next_unvisited(old(self)@.state).1 is Some,
            r is Some ==> r->0@ == next_unvisited(old(self)@.state).1->0,
            r is Some ==> !old(self)@.state.is_visited(r->0@),
            final(self)@.state.visited == old(self)@.state.visited,
            final(self)@.in_flight == old(self)@.in_flight + if r is Some {
                1int
            } else {
                0
            },
    {
        loop
            invariant
                self.in_flight == old(self).in_flight,
                old(self).in_flight < usize::MAX,
                next_unvisited(self@.state) == next_unvisited(old(self)@.state),
                self@.state.visited == old(self)@.state.visited,
            decreases self@.state.urls.len(),
        {
            match self.state.pop_url() {
                None => {
                    return None;
                },
                Some(u) => {
                    match self.state.is_visited(u.as_str()) {
                        Ok(true) => {},
                        _ => {
                            self.in_flight = self.in_flight + 1;
                            return Some(u);
                        },
                    }
                },
            }
        }
    }

    /// Records the end of a job on `url` that finished with `outcome` and found
    /// `links`; see [`after_job`].
    pub fn complete(
        &mut self,
        url: String,
        outcome: &Result<(String, u16, Option<String>), CrawlerError>,
        links: Vec<String>,
    )
        requires
            old(self)@.in_flight > 0,
            old(self)@.state.wf(),
        ensures
            final(self)@.state == after_job(old(self)@.state, url@, *outcome, string_views(links@)),
            final(self)@.state.wf(),
            final(self)@.in_flight == old(self)@.in_flight - 1,
    {
        self.record_outcome(url, outcome);
        self.finish_job(outcome, links);
    }

    /// Records `url` as visited if the fetch `outcome` is definitive. A job calls this
    /// as soon as the outcome is known, before it extracts links, so that the URL
    /// cannot be dispatched again meanwhile.
    pub fn record_outcome(
        &mut self,
        url: String,
        outcome: &Result<(String, u16, Option<String>), CrawlerError>,
    )
        requires
            old(self)@.state.wf(),
        ensures
            final(self)@.state == if is_definitive(*outcome) {
                old(self)@.state.with_visited(url@)
            } else {
                old(self)@.state
            },
            final(self)@.state.wf(),
            final(self)@.in_flight == old(self)@.in_flight,
    {
        if outcome_is_definitive(outcome) {
            let _ = self.state.add_visited(url);
        }
    }

    /// Ends a job whose fetch finished with `outcome` and whose page held `links`: on
    /// success every link not yet visited is appended to the frontier, in order.
    pub fn finish_job(
        &mut self,
        outcome: &Result<(String, u16, Option<String>), CrawlerError>,
        links: Vec<String>,
    )
        requires
            old(self)@.in_flight > 0,
        ensures
            final(self)@.state == if outcome is Ok {
                old(self)@.state.with_urls(
                    unvisited_of(old(self)@.state.visited, string_views(links@)),
                )
            } else {
                old(self)@.state
            },
            final(self)@.in_flight == old(self)@.in_flight - 1,
    {
        if outcome.is_ok() {
            self.enqueue_unvisited(links);
        }
        self.in_flight = self.in_flight - 1;
    }

    /// Appends each of `links` that has not been visited to the frontier, in order.
    fn enqueue_unvisited(&mut self, links: Vec<String>)
        ensures
            final(self)@ == (EngineView {
                state: old(self)@.state.with_urls(
                    unvisited_of(old(self)@.state.visited, string_views(links@)),
                ),
                ..old(self)@
            }),
    {
        let ghost vs = string_views(links@);
        let mut i: usize = 0;
        while i < links.len()
            invariant
                0 <= i <= links.len(),
                vs == string_views(links@),
                self@ == (EngineView {
                    state: old(self)@.state.with_urls(
                        unvisited_of(old(self)@.state.visited, vs.take(i as int)),
                    ),
                    ..old(self)@
                }),
            decreases links.len() - i,
        {
            let ghost before = self@.state;
            proof {
                assert(vs.take(i + 1).drop_last() =~= vs.take(i as int));
                assert(vs.take(i + 1).last() == links@[i as int]@);
            }
            match self.state.is_visited(links[i].as_str()) {
                Ok(true) => {},
                _ => {
                    let _ = self.state.add_url(links[i].clone());
                    proof {
                        assert(self@.state.urls =~= before.urls.push(links@[i as int]@));
                    }
                },
            }
            proof {
                assert(self@.state.urls =~= old(self)@.state.urls + unvisited_of(
                    old(self)@.state.visited,
                    vs.take(i + 1),
                ));
            }
            i = i + 1;
        }
        proof {
            assert(vs.take(i as int) =~= vs);
        }
    }

    /// Whether the crawl is complete: the frontier is empty and no job is out.
    pub fn is_done(&self) -> (r: bool)
        ensures
            r == (self@.state.urls.len() == 0 && self@.in_flight == 0),
    {
        self.state.pending() == 0 && self.in_flight == 0
    }
}

} // verus!
