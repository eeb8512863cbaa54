//! Link extraction from fetched pages and resolution of references against a base URL.
//!
//! Every `<a>` element's `href` is read from the page. A reference that parses as
//! an absolute URL is kept if its scheme is `http` or `https` and it is valid; any
//! other reference is resolved against the page's URL and kept if the result is
//! valid. Links come out in document order, duplicates included.
use vstd::prelude::*;

use crate::error::CrawlerError;
use crate::state::string_views;
use crate::validator::{is_valid_url_view, UrlValidator};
use crate::weburl::{join_url, parse_url, url_joined, url_parsed, ParsedUrl, UrlView};

verus! {

/// The `href` attribute of each `<a>` element of an HTML text, in document order,
/// as the `select` crate finds them; `None` for an element without one.
pub uninterp spec fn anchor_hrefs(html: Seq<char>) -> Seq<Option<Seq<char>>>;

/// The text of the first `<title>` element of an HTML text, as the `select` crate
/// finds it.
pub uninterp spec fn title_text(html: Seq<char>) -> Option<Seq<char>>;

/// Relies on `select::document::Document::from`, `find(Name("a"))` and
/// `Node::attr("href")`: the `href` of each anchor.
#[verifier::external_body]
fn hrefs_of(html: &str) -> (r: Vec<Option<String>>)
    ensures
        r@.map_values(|h: Option<String>| crate::weburl::opt_view(h)) == anchor_hrefs(html@),
{
    select::document::Document::from(html)
        .find(select::predicate::Name("a"))
        .map(|n| n.attr("href").map(|h| h.to_string()))
        .collect()
}

/// Relies on `select::document::Document::from`, `find(Name("title"))` and
/// `Node::text`: the text of the first title.
#[verifier::external_body]
fn title_of(html: &str) -> (r: Option<String>)
    ensures
        crate::weburl::opt_view(r) == title_text(html@),
{
    select::document::Document::from(html)
        .find(select::predicate::Name("title"))
        .next()
        .map(|n| n.text())
}

/// Whether the scheme is `http` or `https`.
pub open spec fn is_web_scheme(s: Seq<char>) -> bool {
    s == "http"@ || s == "https"@
}

/// The link that the reference `href` on a page at `base` yields, if any.
pub open spec fn link_of(base: UrlView, href: Seq<char>) -> Option<Seq<char>> {
    match url_parsed(href) {
        Some(u) => if is_web_scheme(u.scheme) && is_valid_url_view(u) {
            Some(u.serialization)
        } else {
            None
        },
        None => match url_joined(base.serialization, href) {
            Some(j) => if is_valid_url_view(j) {
                Some(j.serialization)
            } else {
                None
            },
            None => None,
        },
    }
}

/// The links that the anchors' references `hrefs` on a page at `base` yield, in order.
pub open spec fn links_of(base: UrlView, hrefs: Seq<Option<Seq<char>>>) -> Seq<Seq<char>>
    decreases hrefs.len(),
{
    if hrefs.len() == 0 {
        Seq::empty()
    } else {
        let p = links_of(base, hrefs.drop_last());
        match hrefs.last() {
            Some(h) => match link_of(base, h) {
                Some(l) => p.push(l),
                None => p,
            },
            None => p,
        }
    }
}

/// The link that the reference `href` on a page at `base` yields, if any.
pub fn link_from_href(validator: &UrlValidator, base: &ParsedUrl, href: &str) -> (r: Option<String>)
    ensures
        r is Some <==> link_of(base@, href@) is Some,
        r is Some ==> r->0@ == link_of(base@, href@)->0,
{
    proof {
        reveal_strlit("http");
        reveal_strlit("https");
    }
    match parse_url(href) {
        Some(u) => {
            let scheme = u.scheme().to_owned();
            if (scheme == "http".to_owned() || scheme == "https".to_owned()) && validator.is_valid(
                &u,
            ) {
                Some(u.to_text())
            } else {
                None
            }
        },
        None => match join_url(base, href) {
            Some(j) => if validator.is_valid(&j) {
                Some(j.to_text())
            } else {
                None
            },
            None => None,
        },
    }
}

/// The links that the anchors' references `hrefs` on a page at `base` yield, in order.
pub fn links_from_hrefs(hrefs: &Vec<Option<String>>, base: &ParsedUrl) -> (r: Vec<String>)
    ensures
        string_views(r@) == links_of(
            base@,
            hrefs@.map_values(|h: Option<String>| crate::weburl::opt_view(h)),
        ),
{
    let ghost hs = hrefs@.map_values(|h: Option<String>| crate::weburl::opt_view(h));
    let validator = UrlValidator::new();
    let mut out: Vec<String> = Vec::new();
    let mut i: usize = 0;
    while i < hrefs.len()
        invariant
            0 <= i <= hrefs.len(),
            hs == hrefs@.map_values(|h: Option<String>| crate::weburl::opt_view(h)),
            string_views(out@) == links_of(base@, hs.take(i as int)),
        decreases hrefs.len() - i,
    {
        proof {
            assert(hs.take(i + 1).drop_last() =~= hs.take(i as int));
            assert(hs.take(i + 1).last() == crate::weburl::opt_view(hrefs@[i as int]));
        }
        match &hrefs[i] {
            Some(h) => {
                match link_from_href(&validator, base, h.as_str()) {
                    Some(l) => {
                        let ghost before = out@;
                        out.push(l);
                        proof {
                            assert(string_views(out@) =~= string_views(before).push(l@));
                        }
                    },
                    None => {},
                }
            },
            None => {},
        }
        i = i + 1;
    }
    proof {
        assert(hs.take(i as int) =~= hs);
    }
    out
}

/// The links of the page `html` fetched from `base_url`; fails when `base_url` does
/// not parse.
pub fn parse_html_links(html: &str, base_url: &str) -> (r: Result<Vec<String>, CrawlerError>)
    ensures
        url_parsed(base_url@) is None ==> r == Err::<Vec<String>, CrawlerError>(
            CrawlerError::UrlParseError,
        ),
        url_parsed(base_url@) is Some ==> r is Ok && string_views(r->Ok_0@) == links_of(
            url_parsed(base_url@)->0,
            anchor_hrefs(html@),
        ),
{
    let hrefs = hrefs_of(html);
    match parse_url(base_url) {
        Some(base) => Ok(links_from_hrefs(&hrefs, &base)),
        None => Err(CrawlerError::UrlParseError),
    }
}

/// The text of the page's first `<title>` element, if it has one.
pub fn extract_title(html: &str) -> (r: Option<String>)
    ensures
        crate::weburl::opt_view(r) == title_text(html@),
{
    title_of(html)
}

/// The URL that `relative_url` names on a page at `base_url`: the reference itself if
/// it parses as an absolute URL, else the reference resolved against the base.
pub open spec fn resolved(base: UrlView, relative: Seq<char>) -> Option<UrlView> {
    match url_parsed(relative) {
        Some(u) => Some(u),
        None => url_joined(base.serialization, relative),
    }
}

/// Resolves `relative_url` on a page at `base_url` and validates the result; fails
/// when the base does not parse, the reference does not resolve, or the result is
/// not valid.
pub fn normalize_url(base_url: &str, relative_url: &str) -> (r: Result<ParsedUrl, CrawlerError>)
    ensures
        ({
            let ok = match url_parsed(base_url@) {
                Some(b) => match resolved(b, relative_url@) {
                    Some(u) => is_valid_url_view(u),
                    None => false,
                },
                None => false,
            };
            &&& ok ==> r is Ok && r->Ok_0@ == resolved(
                url_parsed(base_url@)->0,
                relative_url@,
            )->0
            &&& !ok ==> r == Err::<ParsedUrl, CrawlerError>(CrawlerError::UrlParseError)
        }),
{
    let base = match parse_url(base_url) {
        Some(b) => b,
        None => {
            return Err(CrawlerError::UrlParseError);
        },
    };
    let normalized = match parse_url(relative_url) {
        Some(u) => u,
        None => match join_url(&base, relative_url) {
            Some(j) => j,
            None => {
                return Err(CrawlerError::UrlParseError);
            },
        },
    };
    let validator = UrlValidator::new();
    if validator.is_valid(&normalized) {
        Ok(normalized)
    } else {
        Err(CrawlerError::UrlParseError)
    }
}

} // verus!
