//! Absolute URLs as the library reads them: the components that the validator and
//! the link extractor look at, held as plain strings. Parsing and resolution are
//! done by the `url` crate.
use vstd::prelude::*;

verus! {

#[verifier::external_type_specification]
#[verifier::external_body]
pub struct ExUrl(url::Url);

/// The components of an absolute URL.
pub ghost struct UrlView {
    /// The whole URL, as the `url` crate serialises it.
    pub serialization: Seq<char>,
    pub scheme: Seq<char>,
    pub host: Option<Seq<char>>,
    /// The port, absent when it is the scheme's default.
    pub port: Option<u16>,
    pub path: Seq<char>,
    pub query: Option<Seq<char>>,
    pub fragment: Option<Seq<char>>,
}

/// The result of `url::Url::parse` on a text: it depends on the text alone.
pub uninterp spec fn url_parsed(s: Seq<char>) -> Option<UrlView>;

/// The result of `url::Url::join` of a reference onto a base URL, given by its
/// serialisation: it depends on the two texts alone.
pub uninterp spec fn url_joined(base: Seq<char>, reference: Seq<char>) -> Option<UrlView>;

/// The result of `url::Url::set_fragment(None)` on a URL, given by its serialisation.
pub uninterp spec fn url_unfragmented(s: Seq<char>) -> UrlView;

/// A parsed absolute URL.
#[derive(Debug)]
pub struct ParsedUrl {
    serialization: String,
    scheme: String,
    host: Option<String>,
    port: Option<u16>,
    path: String,
    query: Option<String>,
    fragment: Option<String>,
    raw: url::Url,
}

/// The view of an optional string.
pub open spec fn opt_view(s: Option<String>) -> Option<Seq<char>> {
    match s {
        Some(t) => Some(t@),
        None => None,
    }
}

impl View for ParsedUrl {
    type V = UrlView;

    closed spec fn view(&self) -> UrlView {
        UrlView {
            serialization: self.serialization@,
            scheme: self.scheme@,
            host: opt_view(self.host),
            port: self.port,
            path: self.path@,
            query: opt_view(self.query),
            fragment: opt_view(self.fragment),
        }
    }
}

/// Relies on `url::Url::parse`: parses `s` as an absolute URL, or fails.
#[verifier::external_body]
pub(crate) fn parse_url(s: &str) -> (r: Option<ParsedUrl>)
    ensures
        r is Some <==> url_parsed(s@) is Some,
        r is Some ==> r->0@ == url_parsed(s@)->0,
{
    url::Url::parse(s).ok().map(|u| ParsedUrl {
        serialization: u.as_str().to_string(),
        scheme: u.scheme().to_string(),
        host: u.host_str().map(|h| h.to_string()),
        port: u.port(),
        path: u.path().to_string(),
        query: u.query().map(|q| q.to_string()),
        fragment: u.fragment().map(|f| f.to_string()),
        raw: u,
    })
}

/// Relies on `url::Url::join`: resolves `reference` against `base`, or fails.
#[verifier::external_body]
pub(crate) fn join_url(base: &ParsedUrl, reference: &str) -> (r: Option<ParsedUrl>)
    ensures
        r is Some <==> url_joined(base@.serialization, reference@) is Some,
        r is Some ==> r->0@ == url_joined(base@.serialization, reference@)->0,
{
    base.raw.join(reference).ok().map(|u| ParsedUrl {
        serialization: u.as_str().to_string(),
        scheme: u.scheme().to_string(),
        host: u.host_str().map(|h| h.to_string()),
        port: u.port(),
        path: u.path().to_string(),
        query: u.query().map(|q| q.to_string()),
        fragment: u.fragment().map(|f| f.to_string()),
        raw: u,
    })
}

/// Relies on `url::Url::set_fragment`: the URL without its fragment.
#[verifier::external_body]
pub(crate) fn drop_fragment(u: &ParsedUrl) -> (r: ParsedUrl)
    ensures
        r@ == url_unfragmented(u@.serialization),
        r@.fragment is None,
{
    let mut v = u.raw.clone();
    v.set_fragment(None);
    ParsedUrl {
        serialization: v.as_str().to_string(),
        scheme: v.scheme().to_string(),
        host: v.host_str().map(|h| h.to_string()),
        port: v.port(),
        path: v.path().to_string(),
        query: v.query().map(|q| q.to_string()),
        fragment: v.fragment().map(|f| f.to_string()),
        raw: v,
    }
}

impl ParsedUrl {
    /// The whole URL as text.
    pub fn as_str(&self) -> (r: &str)
        ensures
            r@ == self@.serialization,
    {
        self.serialization.as_str()
    }

    /// The scheme, such as `http`.
    pub fn scheme(&self) -> (r: &str)
        ensures
            r@ == self@.scheme,
    {
        self.scheme.as_str()
    }

    /// The host, if the URL has one.
    pub fn host_str(&self) -> (r: Option<&str>)
        ensures
            r is Some <==> self@.host is Some,
            r is Some ==> r->0@ == self@.host->0,
    {
        match &self.host {
            Some(h) => Some(h.as_str()),
            None => None,
        }
    }

    /// The port, absent when it is the scheme's default.
    pub fn port(&self) -> (r: Option<u16>)
        ensures
            r == self@.port,
    {
        self.port
    }

    /// The path.
    pub fn path(&self) -> (r: &str)
        ensures
            r@ == self@.path,
    {
        self.path.as_str()
    }

    /// The query, without its `?`.
    pub fn query(&self) -> (r: Option<&str>)
        ensures
            r is Some <==> self@.query is Some,
            r is Some ==> r->0@ == self@.query->0,
    {
        match &self.query {
            Some(q) => Some(q.as_str()),
            None => None,
        }
    }

    /// The fragment, without its `#`.
    pub fn fragment(&self) -> (r: Option<&str>)
        ensures
            r is Some <==> self@.fragment is Some,
            r is Some ==> r->0@ == self@.fragment->0,
    {
        match &self.fragment {
            Some(f) => Some(f.as_str()),
            None => None,
        }
    }

    /// The whole URL as an owned string.
    pub fn to_text(&self) -> (r: String)
        ensures
            r@ == self@.serialization,
    {
        self.serialization.clone()
    }
}

} // verus!
