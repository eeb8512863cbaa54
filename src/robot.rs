//! Parsing of robots.txt files into per-agent allow and disallow rules.
//!
//! The parser reads the text line by line. Blank lines and lines starting with `#`
//! are skipped, as are lines without a `:`. Otherwise the text before the first `:`,
//! trimmed and lowercased, names the directive, and the trimmed text after it is
//! its value. `user-agent` makes the value the current agent and gives it an entry;
//! `allow` and `disallow` add the value to the current agent's rules, if it has an
//! entry. Other directives are ignored.
use vstd::prelude::*;

use crate::text::{
    chars_of, find_char, index_of, lemma_index_of_bounds, string_of, trim, trim_bounds,
};

verus! {

/// The rules for one user agent.
pub ghost struct AgentView {
    pub agent: Seq<char>,
    pub allow: Seq<Seq<char>>,
    pub disallow: Seq<Seq<char>>,
}

/// The state of a parse: the agents seen so far, in order of first mention, and the
/// agent that rules apply to now.
pub ghost struct ParseView {
    pub agents: Seq<AgentView>,
    pub current: Seq<char>,
}

/// The result of `str::to_lowercase` on a string: it depends on the characters alone.
pub uninterp spec fn lower_of(s: Seq<char>) -> Seq<char>;

/// Relies on `str::to_lowercase`: the lowercase form of `s`, by Unicode's rules.
#[verifier::external_body]
fn lowercase(s: &str) -> (r: String)
    ensures
        r@ == lower_of(s@),
{
    s.to_lowercase()
}

/// The index of the entry for `a` among `agents`, or -1 if it has none.
pub open spec fn agent_index(agents: Seq<AgentView>, a: Seq<char>) -> int
    decreases agents.len(),
{
    if agents.len() == 0 {
        -1
    } else if agents.last().agent == a {
        agents.len() - 1
    } else {
        agent_index(agents.drop_last(), a)
    }
}

/// `agent_index` gives -1 or the index of an entry for `a`.
pub broadcast proof fn lemma_agent_index_bounds(agents: Seq<AgentView>, a: Seq<char>)
    ensures
        -1 <= #[trigger] agent_index(agents, a) < agents.len(),
        agent_index(agents, a) >= 0 ==> agents[agent_index(agents, a)].agent == a,
    decreases agents.len(),
{
    if agents.len() > 0 {
        lemma_agent_index_bounds(agents.drop_last(), a);
    }
}

/// `agents` with an empty entry for `a` appended, unless it has one.
pub open spec fn with_agent(agents: Seq<AgentView>, a: Seq<char>) -> Seq<AgentView> {
    if agent_index(agents, a) >= 0 {
        agents
    } else {
        agents.push(AgentView { agent: a, allow: Seq::empty(), disallow: Seq::empty() })
    }
}

/// `agents` with `path` added to the allow rules (or the disallow rules) of `a`, if
/// `a` has an entry.
pub open spec fn with_rule(agents: Seq<AgentView>, a: Seq<char>, path: Seq<char>, allow: bool) -> Seq<
    AgentView,
> {
    let i = agent_index(agents, a);
    if i < 0 {
        agents
    } else if allow {
        agents.update(i, AgentView { allow: agents[i].allow.push(path), ..agents[i] })
    } else {
        agents.update(i, AgentView { disallow: agents[i].disallow.push(path), ..agents[i] })
    }
}

/// The parse after a directive whose lowercased name is `key` and whose value is `value`.
pub open spec fn directive(p: ParseView, key: Seq<char>, value: Seq<char>) -> ParseView {
    if key == "user-agent"@ {
        ParseView { agents: with_agent(p.agents, value), current: value }
    } else if key == "allow"@ {
        ParseView { agents: with_rule(p.agents, p.current, value, true), ..p }
    } else if key == "disallow"@ {
        ParseView { agents: with_rule(p.agents, p.current, value, false), ..p }
    } else {
        p
    }
}

/// The parse after one line.
pub open spec fn line_step(p: ParseView, line: Seq<char>) -> ParseView {
    let t = trim(line);
    if t.len() == 0 || t[0] == '#' {
        p
    } else {
        let i = index_of(t, ':');
        if i < 0 {
            p
        } else {
            directive(p, lower_of(trim(t.take(i))), trim(t.skip(i + 1)))
        }
    }
}

/// The parse after each line of `s` in turn; lines end at `\n`.
pub open spec fn parse_from(p: ParseView, s: Seq<char>) -> ParseView
    decreases s.len(),
    via parse_from_decreases
{
    if s.len() == 0 {
        p
    } else {
        let i = index_of(s, '\n');
        if i < 0 {
            line_step(p, s)
        } else {
            parse_from(line_step(p, s.take(i)), s.skip(i + 1))
        }
    }
}

#[via_fn]
proof fn parse_from_decreases(p: ParseView, s: Seq<char>) {
    lemma_index_of_bounds(s, '\n');
}

/// The state before the first line: no agents, and rules going to an agent named
/// `default` until a `user-agent` line names one.
pub open spec fn initial_parse() -> ParseView {
    ParseView { agents: Seq::empty(), current: "default"@ }
}

/// The agents' rules in a robots.txt text.
pub open spec fn robots_agents(content: Seq<char>) -> Seq<AgentView> {
    parse_from(initial_parse(), content).agents
}

/// The rules for one user agent.
#[derive(Debug, Clone)]
pub struct AgentRules {
    agent: String,
    allow: Vec<String>,
    disallow: Vec<String>,
}

/// The views of a sequence of strings.
pub open spec fn views_of(v: Seq<String>) -> Seq<Seq<char>> {
    v.map_values(|s: String| s@)
}

impl View for AgentRules {
    type V = AgentView;

    closed spec fn view(&self) -> AgentView {
        AgentView { agent: self.agent@, allow: views_of(self.allow@), disallow: views_of(self.disallow@) }
    }
}

impl AgentRules {
    /// The agent's name.
    pub fn agent(&self) -> (r: &String)
        ensures
            r@ == self@.agent,
    {
        &self.agent
    }

    /// Paths that the agent may fetch, in the order given.
    pub fn allow(&self) -> (r: &Vec<String>)
        ensures
            views_of(r@) == self@.allow,
    {
        &self.allow
    }

    /// Paths that the agent may not fetch, in the order given.
    pub fn disallow(&self) -> (r: &Vec<String>)
        ensures
            views_of(r@) == self@.disallow,
    {
        &self.disallow
    }
}

/// The views of a sequence of agent rules.
pub open spec fn agent_views(v: Seq<AgentRules>) -> Seq<AgentView> {
    v.map_values(|a: AgentRules| a@)
}

/// The rules of a robots.txt file, per user agent.
#[derive(Debug, Clone)]
pub struct RobotsTxtRules {
    agents: Vec<AgentRules>,
    default_allow: bool,
}

impl RobotsTxtRules {
    /// The agents' rules, in order of first mention.
    pub closed spec fn agents_view(&self) -> Seq<AgentView> {
        agent_views(self.agents@)
    }

    /// Whether paths that no rule covers may be fetched.
    pub closed spec fn default_allow_view(&self) -> bool {
        self.default_allow
    }

    /// Number of agents with an entry.
    pub fn agent_count(&self) -> (r: usize)
        ensures
            r == self.agents_view().len(),
    {
        self.agents.len()
    }

    /// Whether paths that no rule covers may be fetched.
    pub fn default_allow(&self) -> (r: bool)
        ensures
            r == self.default_allow_view(),
    {
        self.default_allow
    }

    /// The rules for `agent`, if it has an entry.
    pub fn rules_for(&self, agent: &str) -> (r: Option<&AgentRules>)
        ensures
            agent_index(self.agents_view(), agent@) < 0 ==> r is None,
            agent_index(self.agents_view(), agent@) >= 0 ==> r is Some && r->0@ == self.agents_view()[agent_index(
                self.agents_view(),
                agent@,
            )],
    {
        broadcast use lemma_agent_index_bounds;

        let a = agent.to_owned();
        match agent_position(&self.agents, &a) {
            Some(i) => Some(&self.agents[i]),
            None => None,
        }
    }
}

/// The position of the entry for `a` in `agents`, searching from the end.
fn agent_position(agents: &Vec<AgentRules>, a: &String) -> (r: Option<usize>)
    ensures
        agent_index(agent_views(agents@), a@) < 0 ==> r is None,
        agent_index(agent_views(agents@), a@) >= 0 ==> r is Some && r->0 == agent_index(
            agent_views(agents@),
            a@,
        ),
{
    broadcast use lemma_agent_index_bounds;

    let ghost vs = agent_views(agents@);
    let mut i = agents.len();
    proof {
        assert(vs.take(i as int) =~= vs);
    }
    while i > 0
        invariant
            i <= agents.len(),
            vs == agent_views(agents@),
            agent_index(vs, a@) == agent_index(vs.take(i as int), a@),
        decreases i,
    {
        proof {
            assert(vs.take(i as int).drop_last() =~= vs.take(i - 1));
        }
        if agents[i - 1].agent == *a {
            return Some(i - 1);
        }
        i = i - 1;
    }
    proof {
        assert(vs.take(0) =~= Seq::<AgentView>::empty());
    }
    None
}

/// A robots.txt parse in progress.
#[derive(Debug)]
pub struct RobotsParser {
    agents: Vec<AgentRules>,
    current: String,
}

impl View for RobotsParser {
    type V = ParseView;

    closed spec fn view(&self) -> ParseView {
        ParseView { agents: agent_views(self.agents@), current: self.current@ }
    }
}

impl RobotsParser {
    /// A parse before the first line.
    pub fn new() -> (r: Self)
        ensures
            r@ == initial_parse(),
    {
        let r = RobotsParser { agents: Vec::new(), current: "default".to_owned() };
        proof {
            assert(r@.agents =~= Seq::<AgentView>::empty());
        }
        r
    }

    /// Applies a directive whose name, already lowercased, is `key`, and whose value
    /// is `value`.
    pub fn apply_directive(&mut self, key: &str, value: String)
        ensures
            final(self)@ == directive(old(self)@, key@, value@),
    {
        proof {
            reveal_strlit("user-agent");
            reveal_strlit("allow");
            reveal_strlit("disallow");
        }
        let k = key.to_owned();
        if k == "user-agent".to_owned() {
            match agent_position(&self.agents, &value) {
                Some(_) => {},
                None => {
                    let ghost before = agent_views(self.agents@);
                    let entry = AgentRules {
                        agent: value.clone(),
                        allow: Vec::new(),
                        disallow: Vec::new(),
                    };
                    proof {
                        assert(views_of(entry.allow@) =~= Seq::<Seq<char>>::empty());
                        assert(views_of(entry.disallow@) =~= Seq::<Seq<char>>::empty());
                    }
                    self.agents.push(entry);
                    proof {
                        assert(agent_views(self.agents@) =~= before.push(entry@));
                    }
                },
            }
            self.current = value;
        } else if k == "allow".to_owned() {
            self.add_rule(value, true);
        } else if k == "disallow".to_owned() {
            self.add_rule(value, false);
        }
    }

    /// Adds `path` to the allow rules (or disallow rules) of the current agent, if it
    /// has an entry.
    fn add_rule(&mut self, path: String, allow: bool)
        ensures
            final(self)@ == (ParseView {
                agents: with_rule(old(self)@.agents, old(self)@.current, path@, allow),
                ..old(self)@
            }),
    {
        broadcast use lemma_agent_index_bounds;

        match agent_position(&self.agents, &self.current) {
            None => {},
            Some(i) => {
                let ghost before = agent_views(self.agents@);
                let ghost p = path@;
                let mut entry = self.agents.remove(i);
                if allow {
                    let ghost rs = entry.allow@;
                    entry.allow.push(path);
                    proof {
                        assert(views_of(entry.allow@) =~= views_of(rs).push(p));
                    }
                } else {
                    let ghost rs = entry.disallow@;
                    entry.disallow.push(path);
                    proof {
                        assert(views_of(entry.disallow@) =~= views_of(rs).push(p));
                    }
                }
                self.agents.insert(i, entry);
                proof {
                    assert(agent_views(self.agents@) =~= before.update(i as int, entry@));
                }
            },
        }
    }

    /// Applies one line, held in `lo..hi` of `v`.
    pub fn feed_line(&mut self, v: &Vec<char>, lo: usize, hi: usize)
        requires
            lo <= hi <= v.len(),
        ensures
            final(self)@ == line_step(old(self)@, v@.subrange(lo as int, hi as int)),
    {
        let ghost line = v@.subrange(lo as int, hi as int);
        let (a, b) = trim_bounds(v, lo, hi);
        let ghost t = v@.subrange(a as int, b as int);
        if a == b || v[a] == '#' {
            return ;
        }
        let c = find_char(v, a, b, ':');
        if c == b {
            return ;
        }
        proof {
            assert(t.take(c - a) =~= v@.subrange(a as int, c as int));
            assert(t.skip(c - a + 1) =~= v@.subrange(c + 1, b as int));
        }
        let (ka, kb) = trim_bounds(v, a, c);
        let (va, vb) = trim_bounds(v, c + 1, b);
        let key = lowercase(string_of(v, ka, kb).as_str());
        let value = string_of(v, va, vb);
        self.apply_directive(key.as_str(), value);
    }

    /// The rules gathered so far.
    pub fn finish(self) -> (r: RobotsTxtRules)
        ensures
            r.agents_view() == self@.agents,
            r.default_allow_view(),
    {
        RobotsTxtRules { agents: self.agents, default_allow: true }
    }
}

/// Parses a robots.txt text into per-agent rules; paths that no rule covers are allowed.
pub fn parse_robots_txt(content: &str) -> (r: RobotsTxtRules)
    ensures
        r.agents_view() == robots_agents(content@),
        r.default_allow_view(),
{
    let v = chars_of(content);
    let mut p = RobotsParser::new();
    let mut pos: usize = 0;
    proof {
        assert(v@.skip(0) =~= v@);
    }
    while pos < v.len()
        invariant
            pos <= v.len(),
            v@ == content@,
            parse_from(p@, v@.skip(pos as int)) == parse_from(initial_parse(), content@),
        decreases v.len() - pos,
    {
        let ghost rest = v@.skip(pos as int);
        let nl = find_char(&v, pos, v.len(), '\n');
        proof {
            assert(rest =~= v@.subrange(pos as int, v.len() as int));
        }
        p.feed_line(&v, pos, nl);
        if nl == v.len() {
            proof {
                assert(rest =~= v@.subrange(pos as int, nl as int));
                assert(v@.skip(v.len() as int) =~= Seq::<char>::empty());
            }
            pos = v.len();
        } else {
            proof {
                assert(rest.take(nl - pos) =~= v@.subrange(pos as int, nl as int));
                assert(rest.skip(nl - pos + 1) =~= v@.skip(nl + 1));
            }
            pos = nl + 1;
        }
    }
    proof {
        assert(v@.skip(pos as int) =~= Seq::<char>::empty());
    }
    p.finish()
}

/// One rule of a robots.txt file.
#[derive(Debug, Clone)]
pub enum RuleType {
    Allow,
    Disallow,
}

/// One rule of a robots.txt file, for one agent.
#[derive(Debug, Clone)]
pub struct Rule {
    pub user_agent: String,
    pub path: String,
    pub rule_type: RuleType,
}

/// A robots.txt file as a flat list of rules, with its crawl delay if it gives one.
#[derive(Debug, Clone)]
pub struct RobotsTxt {
    pub rules: Vec<Rule>,
    pub crawl_delay: Option<u64>,
}

} // verus!
