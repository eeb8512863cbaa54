//! Small URL helpers.
use vstd::prelude::*;

use crate::error::CrawlerError;
use crate::text::{chars_of, string_of};
use crate::weburl::{parse_url, url_parsed};

verus! {

/// Whether `url` parses and either has a host and the `http` scheme, or has the
/// `https` scheme.
pub fn is_valid_url(url: &str) -> (r: bool)
    ensures
        r == match url_parsed(url@) {
            Some(u) => (u.host is Some && u.scheme == "http"@) || u.scheme == "https"@,
            None => false,
        },
{
    proof {
        reveal_strlit("http");
        reveal_strlit("https");
    }
    match parse_url(url) {
        Some(u) => {
            let scheme = u.scheme().to_owned();
            (u.host_str().is_some() && scheme == "http".to_owned()) || scheme == "https".to_owned()
        },
        None => false,
    }
}

/// `relative_url` itself if it parses as an absolute URL, else the two texts joined.
pub fn normalize_url(base_url: &str, relative_url: &str) -> (r: String)
    ensures
        url_parsed(relative_url@) is Some ==> r@ == relative_url@,
        url_parsed(relative_url@) is None ==> r@ == base_url@ + relative_url@,
{
    if parse_url(relative_url).is_some() {
        relative_url.to_owned()
    } else {
        let mut v = chars_of(base_url);
        let mut tail = chars_of(relative_url);
        v.append(&mut tail);
        string_of(&v, 0, v.len())
    }
}

/// The host of `url`, if it has one; fails when `url` does not parse.
pub fn extract_domain(url: &str) -> (r: Result<Option<String>, CrawlerError>)
    ensures
        url_parsed(url@) is None ==> r == Err::<Option<String>, CrawlerError>(
            CrawlerError::UrlParseError,
        ),
        url_parsed(url@) is Some ==> r is Ok && crate::weburl::opt_view(r->Ok_0) == url_parsed(
            url@,
        )->0.host,
{
    match parse_url(url) {
        Some(u) => match u.host_str() {
            Some(h) => Ok(Some(h.to_owned())),
            None => Ok(None),
        },
        None => Err(CrawlerError::UrlParseError),
    }
}

} // verus!
