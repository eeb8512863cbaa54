//! The crawl's shared state: the frontier, a FIFO queue of pending URLs, and the
//! visited set, which only grows.
//!
//! The operations here take `&mut self` for mutation; a caller that shares the state
//! between workers puts it behind one exclusive section, which keeps the FIFO order
//! of concurrent pushes.
use vstd::prelude::*;

use std::collections::VecDeque;
use std::sync::Arc;

use crate::error::CrawlerError;
use crate::task::Task;

verus! {

/// The abstract crawl state.
pub ghost struct StateView {
    /// Pending URLs, oldest first.
    pub urls: Seq<Seq<char>>,
    /// Visited URLs in the order of their first insertion, each once.
    pub visited: Seq<Seq<char>>,
}

/// One operation on the crawl state.
pub ghost enum StateOp {
    /// Append a URL to the frontier.
    AddUrl(Seq<char>),
    /// Append a batch of URLs to the frontier, in order.
    AddUrls(Seq<Seq<char>>),
    /// Record a URL as visited.
    AddVisited(Seq<char>),
    /// Take the oldest URL off the frontier.
    PopUrl,
}

impl StateOp {
    /// Whether the operation leaves the frontier's existing entries in place.
    pub open spec fn keeps_frontier(self) -> bool {
        !(self is PopUrl)
    }
}

impl StateView {
    /// The visited URLs are held once each.
    pub open spec fn wf(self) -> bool {
        self.visited.no_duplicates()
    }

    /// Whether `u` has been recorded as visited.
    pub open spec fn is_visited(self, u: Seq<char>) -> bool {
        self.visited.contains(u)
    }

    /// The state with `u` appended to the frontier.
    pub open spec fn with_url(self, u: Seq<char>) -> StateView {
        StateView { urls: self.urls.push(u), ..self }
    }

    /// The state with `us` appended to the frontier, in order.
    pub open spec fn with_urls(self, us: Seq<Seq<char>>) -> StateView {
        StateView { urls: self.urls + us, ..self }
    }

    /// The state with `u` recorded as visited.
    pub open spec fn with_visited(self, u: Seq<char>) -> StateView {
        if self.visited.contains(u) {
            self
        } else {
            StateView { visited: self.visited.push(u), ..self }
        }
    }

    /// The state with the oldest pending URL taken off, if there is one.
    pub open spec fn without_front(self) -> StateView {
        if self.urls.len() == 0 {
            self
        } else {
            StateView { urls: self.urls.drop_first(), ..self }
        }
    }

    /// The state after `op`.
    pub open spec fn apply(self, op: StateOp) -> StateView {
        match op {
            StateOp::AddUrl(u) => self.with_url(u),
            StateOp::AddUrls(us) => self.with_urls(us),
            StateOp::AddVisited(u) => self.with_visited(u),
            StateOp::PopUrl => self.without_front(),
        }
    }

    /// The state after each of `ops` in turn.
    pub open spec fn apply_all(self, ops: Seq<StateOp>) -> StateView
        decreases ops.len(),
    {
        if ops.len() == 0 {
            self
        } else {
            self.apply(ops[0]).apply_all(ops.drop_first())
        }
    }
}

/// The views of a sequence of strings.
pub open spec fn string_views(v: Seq<String>) -> Seq<Seq<char>> {
    v.map_values(|s: String| s@)
}

/// The URLs of a sequence of tasks.
pub open spec fn task_urls(v: Seq<Task>) -> Seq<Seq<char>> {
    v.map_values(|t: Task| t.url_view())
}

/// The frontier of pending URLs and the set of visited ones.
#[derive(Debug)]
pub struct SharedState {
    urls: VecDeque<Task>,
    visited: Vec<String>,
}

impl View for SharedState {
    type V = StateView;

    closed spec fn view(&self) -> StateView {
        StateView { urls: task_urls(self.urls@), visited: string_views(self.visited@) }
    }
}

impl SharedState {
    /// An empty frontier and an empty visited set.
    pub fn new() -> (r: Self)
        ensures
            r@.urls == Seq::<Seq<char>>::empty(),
            r@.visited == Seq::<Seq<char>>::empty(),
            r@.wf(),
    {
        let r = SharedState { urls: VecDeque::new(), visited: Vec::new() };
        proof {
            assert(r@.urls =~= Seq::<Seq<char>>::empty());
            assert(r@.visited =~= Seq::<Seq<char>>::empty());
        }
        r
    }

    /// Another handle to the same state, for readers that share it.
    pub fn get_handle(self: &Arc<Self>) -> (r: Arc<Self>)
        ensures
            (*r)@ == (**self)@,
    {
        Arc::clone(self)
    }

    /// Appends `url` to the frontier.
    pub fn add_url(&mut self, url: String) -> (r: Result<(), CrawlerError>)
        ensures
            final(self)@ == old(self)@.with_url(url@),
            r is Ok,
    {
        let ghost u = url@;
        self.urls.push_back(Task::CrawlUrl(url));
        proof {
            assert(self@.urls =~= old(self)@.urls.push(u));
        }
        Ok(())
    }

    /// Appends each of `urls` to the frontier, in order.
    pub fn add_urls(&mut self, urls: Vec<String>) -> (r: Result<(), CrawlerError>)
        ensures
            final(self)@ == old(self)@.with_urls(string_views(urls@)),
            r is Ok,
    {
        let mut i: usize = 0;
        while i < urls.len()
            invariant
                0 <= i <= urls.len(),
                self@ == old(self)@.with_urls(string_views(urls@).take(i as int)),
            decreases urls.len() - i,
        {
            let ghost before = self@;
            self.urls.push_back(Task::CrawlUrl(urls[i].clone()));
            proof {
                assert(string_views(urls@).take(i + 1) =~= string_views(urls@).take(i as int).push(
                    urls@[i as int]@,
                ));
                assert(self@.urls =~= before.urls.push(urls@[i as int]@));
            }
            i = i + 1;
        }
        proof {
            assert(string_views(urls@).take(i as int) =~= string_views(urls@));
        }
        Ok(())
    }

    /// Takes the oldest URL off the frontier; `None` when it is empty.
    pub fn pop_url(&mut self) -> (r: Option<String>)
        ensures
            final(self)@ == old(self)@.without_front(),
            old(self)@.urls.len() == 0 ==> r is None,
            old(self)@.urls.len() > 0 ==> r is Some && r->0@ == old(self)@.urls[0],
    {
        match self.urls.pop_front() {
            Some(t) => {
                proof {
                    assert(self@.urls =~= old(self)@.urls.drop_first());
                }
                Some(t.into_url())
            },
            None => None,
        }
    }

    /// Number of pending URLs.
    pub fn pending(&self) -> (r: usize)
        ensures
            r == self@.urls.len(),
    {
        self.urls.len()
    }

    /// Records `url` as visited.
    pub fn add_visited(&mut self, url: String) -> (r: Result<(), CrawlerError>)
        requires
            old(self)@.wf(),
        ensures
            final(self)@ == old(self)@.with_visited(url@),
            final(self)@.wf(),
            r is Ok,
    {
        if !self.contains_visited(&url) {
            let ghost u = url@;
            self.visited.push(url);
            proof {
                assert(self@.visited =~= old(self)@.visited.push(u));
            }
        }
        Ok(())
    }

    /// Whether `url` has been recorded as visited.
    fn contains_visited(&self, url: &String) -> (r: bool)
        ensures
            r == self@.visited.contains(url@),
    {
        let mut i: usize = 0;
        while i < self.visited.len()
            invariant
                0 <= i <= self.visited.len(),
                forall|j: int| 0 <= j < i ==> self@.visited[j] != url@,
            decreases self.visited.len() - i,
        {
            if self.visited[i] == *url {
                proof {
                    assert(self@.visited[i as int] == url@);
                }
                return true;
            }
            i = i + 1;
        }
        false
    }

    /// Whether `url` has been recorded as visited.
    pub fn is_visited(&self, url: &str) -> (r: Result<bool, CrawlerError>)
        ensures
            r == Ok::<bool, CrawlerError>(self@.is_visited(url@)),
    {
        let u = url.to_owned();
        Ok(self.contains_visited(&u))
    }

    /// The visited URLs, each once, in the order in which they were first recorded.
    pub fn get_visited(&self) -> (r: Result<Vec<String>, CrawlerError>)
        ensures
            r is Ok,
            string_views(r->Ok_0@) == self@.visited,
    {
        let mut out: Vec<String> = Vec::new();
        let mut i: usize = 0;
        while i < self.visited.len()
            invariant
                0 <= i <= self.visited.len(),
                string_views(out@) == self@.visited.take(i as int),
            decreases self.visited.len() - i,
        {
            let ghost before = out@;
            let v = self.visited[i].clone();
            out.push(v);
            proof {
                assert(out@ == before.push(v));
                assert(v@ == self@.visited[i as int]);
                assert(string_views(out@) =~= string_views(before).push(v@));
                assert(string_views(out@) =~= self@.visited.take(i + 1));
            }
            i = i + 1;
        }
        proof {
            assert(self@.visited.take(i as int) =~= self@.visited);
        }
        Ok(out)
    }

    /// The pending URLs, oldest first.
    pub fn get_urls(&self) -> (r: Result<Vec<String>, CrawlerError>)
        ensures
            r is Ok,
            string_views(r->Ok_0@) == self@.urls,
    {
        let mut out: Vec<String> = Vec::new();
        let mut i: usize = 0;
        while i < self.urls.len()
            invariant
                0 <= i <= self.urls.len(),
                string_views(out@) == self@.urls.take(i as int),
            decreases self.urls.len() - i,
        {
            let ghost before = out@;
            let u = self.urls[i].url().clone();
            out.push(u);
            proof {
                assert(out@ == before.push(u));
                assert(u@ == self@.urls[i as int]);
                assert(string_views(out@) =~= string_views(before).push(u@));
                assert(string_views(out@) =~= self@.urls.take(i + 1));
            }
            i = i + 1;
        }
        proof {
            assert(self@.urls.take(i as int) =~= self@.urls);
        }
        Ok(out)
    }
}

/// Whether `url` has been recorded as visited in `state`.
pub fn is_url_processed(state: &SharedState, url: &str) -> (r: bool)
    ensures
        r == state@.is_visited(url@),
{
    match state.is_visited(url) {
        Ok(b) => b,
        Err(_) => false,
    }
}

/// Records `url` as visited in `state`.
pub fn mark_url_processed(state: &mut SharedState, url: String)
    requires
        old(state)@.wf(),
    ensures
        final(state)@ == old(state)@.with_visited(url@),
        final(state)@.wf(),
{
    let _ = state.add_visited(url);
}

/// Operations that take nothing off the frontier keep its entries, in place, as a prefix.
pub proof fn lemma_frontier_prefix_kept(s: StateView, ops: Seq<StateOp>)
    requires
        forall|i: int| 0 <= i < ops.len() ==> (#[trigger] ops[i]).keeps_frontier(),
    ensures
        s.apply_all(ops).urls.len() >= s.urls.len(),
        s.apply_all(ops).urls.take(s.urls.len() as int) == s.urls,
    decreases ops.len(),
{
    if ops.len() > 0 {
        let s1 = s.apply(ops[0]);
        assert(ops[0].keeps_frontier());
        assert(s1.urls.len() >= s.urls.len());
        assert(s1.urls.take(s.urls.len() as int) =~= s.urls);
        assert forall|i: int| 0 <= i < ops.drop_first().len() implies (
        #[trigger] ops.drop_first()[i]).keeps_frontier() by {
            assert(ops.drop_first()[i] == ops[i + 1]);
        }
        lemma_frontier_prefix_kept(s1, ops.drop_first());
        let t = s.apply_all(ops).urls;
        assert(t.take(s.urls.len() as int) =~= t.take(s1.urls.len() as int).take(
            s.urls.len() as int,
        ));
    } else {
        assert(s.urls.take(s.urls.len() as int) =~= s.urls);
    }
}

/// Once a URL has been recorded as visited, it stays visited whatever operations follow.
pub proof fn lemma_visited_stays_visited(s: StateView, u: Seq<char>, ops: Seq<StateOp>)
    ensures
        s.with_visited(u).apply_all(ops).is_visited(u),
{
    if !s.visited.contains(u) {
        assert(s.with_visited(u).visited[s.visited.len() as int] == u);
    }
    lemma_visited_kept(s.with_visited(u), u, ops);
}

/// A visited URL stays visited through any operations.
proof fn lemma_visited_kept(s: StateView, u: Seq<char>, ops: Seq<StateOp>)
    requires
        s.is_visited(u),
    ensures
        s.apply_all(ops).is_visited(u),
    decreases ops.len(),
{
    if ops.len() > 0 {
        let s1 = s.apply(ops[0]);
        if let StateOp::AddVisited(w) = ops[0] {
            if !s.visited.contains(w) {
                let i = choose|i: int| 0 <= i < s.visited.len() && s.visited[i] == u;
                assert(s1.visited[i] == u);
            }
        }
        assert(s1.is_visited(u));
        lemma_visited_kept(s1, u, ops.drop_first());
    }
}

/// A URL added to the frontier is found there by any later read, so long as nothing
/// has been taken off the frontier in between.
pub proof fn lemma_added_url_listed(s: StateView, u: Seq<char>, ops: Seq<StateOp>)
    requires
        forall|i: int| 0 <= i < ops.len() ==> (#[trigger] ops[i]).keeps_frontier(),
    ensures
        s.with_url(u).apply_all(ops).urls.contains(u),
{
    let s1 = s.with_url(u);
    lemma_frontier_prefix_kept(s1, ops);
    let t = s1.apply_all(ops).urls;
    let k = s.urls.len() as int;
    assert(t.take(s1.urls.len() as int)[k] == u);
    assert(t[k] == u);
}

/// Two URLs added one after the other by one caller stand in the frontier in that
/// order, whatever other additions come between and after them, so long as nothing
/// has been taken off the frontier.
pub proof fn lemma_adds_keep_order(
    s: StateView,
    a: Seq<char>,
    between: Seq<StateOp>,
    b: Seq<char>,
    after: Seq<StateOp>,
)
    requires
        forall|i: int| 0 <= i < between.len() ==> (#[trigger] between[i]).keeps_frontier(),
        forall|i: int| 0 <= i < after.len() ==> (#[trigger] after[i]).keeps_frontier(),
    ensures
        ({
            let t = s.with_url(a).apply_all(between).with_url(b).apply_all(after).urls;
            exists|i: int, j: int| 0 <= i < j < t.len() && t[i] == a && t[j] == b
        }),
{
    let s1 = s.with_url(a);
    lemma_frontier_prefix_kept(s1, between);
    let s2 = s1.apply_all(between).with_url(b);
    lemma_frontier_prefix_kept(s2, after);
    let t = s2.apply_all(after).urls;
    let i = s.urls.len() as int;
    let j = s1.apply_all(between).urls.len() as int;
    assert(s2.urls[i] == s1.apply_all(between).urls[i]);
    assert(s1.apply_all(between).urls.take(s1.urls.len() as int)[i] == a);
    assert(t.take(s2.urls.len() as int)[i] == a);
    assert(t.take(s2.urls.len() as int)[j] == b);
    assert(t[i] == a && t[j] == b);
}

} // verus!
