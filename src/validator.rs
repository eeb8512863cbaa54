//! Syntactic validation of URLs before they are admitted to the frontier.
//!
//! A URL is valid when it is at most 2048 bytes long, its scheme is `http` or
//! `https`, its host converts to an ASCII hostname of the accepted shape, it names no
//! default port, and its path, query parameters and fragment use only the allowed
//! characters.
use vstd::prelude::*;

use crate::error::CrawlerError;
use crate::text::{chars_of, find_char, index_of, lemma_index_of_bounds};
use crate::weburl::{drop_fragment, parse_url, url_parsed, url_unfragmented, ParsedUrl, UrlView};

verus! {

/// Longest URL, in bytes, that is accepted.
pub const MAX_URL_LENGTH: usize = 2048;

/// The result of `idna::domain_to_ascii` on a host name: it depends on the name alone.
pub uninterp spec fn idna_ascii(s: Seq<char>) -> Option<Seq<char>>;

/// Relies on `idna::domain_to_ascii`: the ASCII form of a domain name, or `None`
/// when the name cannot be converted.
#[verifier::external_body]
fn domain_to_ascii(s: &str) -> (r: Option<String>)
    ensures
        r is Some <==> idna_ascii(s@) is Some,
        r is Some ==> r->0@ == idna_ascii(s@)->0,
{
    idna::domain_to_ascii(s).ok()
}

/// The result of `char::is_alphanumeric`: Unicode's `Alphabetic` or `Numeric` property.
pub uninterp spec fn alphanumeric(c: char) -> bool;

/// Relies on `char::is_alphanumeric`.
#[verifier::external_body]
fn is_alphanumeric(c: char) -> (r: bool)
    ensures
        r == alphanumeric(c),
{
    c.is_alphanumeric()
}

/// The classes of characters that parts of a URL are checked against.
#[derive(Debug, Clone, Copy, PartialEq, Eq)]
pub enum CharClass {
    /// ASCII letters.
    Alpha,
    /// ASCII letters, digits and `-`.
    Label,
    /// ASCII letters, digits and `/._%-`.
    Path,
    /// ASCII letters, digits and `._~-`.
    QueryKey,
    /// ASCII letters, digits and `._~%-`.
    QueryValue,
    /// ASCII letters, digits and `._%~-`.
    Fragment,
}

/// Whether `c` is an ASCII letter.
pub open spec fn is_ascii_alpha(c: char) -> bool {
    ('a' as u32 <= c as u32 <= 'z' as u32) || ('A' as u32 <= c as u32 <= 'Z' as u32)
}

/// Whether `c` is an ASCII letter or digit.
pub open spec fn is_ascii_alnum(c: char) -> bool {
    is_ascii_alpha(c) || ('0' as u32 <= c as u32 <= '9' as u32)
}

/// Whether `c` belongs to class `k`.
pub open spec fn in_class(c: char, k: CharClass) -> bool {
    match k {
        CharClass::Alpha => is_ascii_alpha(c),
        CharClass::Label => is_ascii_alnum(c) || c == '-',
        CharClass::Path => is_ascii_alnum(c) || c == '/' || c == '.' || c == '_' || c == '%' || c
            == '-',
        CharClass::QueryKey => is_ascii_alnum(c) || c == '.' || c == '_' || c == '~' || c == '-',
        CharClass::QueryValue => is_ascii_alnum(c) || c == '.' || c == '_' || c == '~' || c == '%'
            || c == '-',
        CharClass::Fragment => is_ascii_alnum(c) || c == '.' || c == '_' || c == '%' || c == '~'
            || c == '-',
    }
}

/// Whether every character of `s` belongs to class `k`.
pub open spec fn all_in_class(s: Seq<char>, k: CharClass) -> bool {
    forall|i: int| 0 <= i < s.len() ==> in_class(#[trigger] s[i], k)
}

/// Whether `c` belongs to class `k`.
pub fn char_in_class(c: char, k: CharClass) -> (r: bool)
    ensures
        r == in_class(c, k),
{
    let u = c as u32;
    let alpha = ('a' as u32 <= u && u <= 'z' as u32) || ('A' as u32 <= u && u <= 'Z' as u32);
    let alnum = alpha || ('0' as u32 <= u && u <= '9' as u32);
    match k {
        CharClass::Alpha => alpha,
        CharClass::Label => alnum || c == '-',
        CharClass::Path => alnum || c == '/' || c == '.' || c == '_' || c == '%' || c == '-',
        CharClass::QueryKey => alnum || c == '.' || c == '_' || c == '~' || c == '-',
        CharClass::QueryValue => alnum || c == '.' || c == '_' || c == '~' || c == '%' || c == '-',
        CharClass::Fragment => alnum || c == '.' || c == '_' || c == '%' || c == '~' || c == '-',
    }
}

/// Whether every character of `v` in `lo..hi` belongs to class `k`.
pub fn range_in_class(v: &Vec<char>, lo: usize, hi: usize, k: CharClass) -> (r: bool)
    requires
        lo <= hi <= v.len(),
    ensures
        r == all_in_class(v@.subrange(lo as int, hi as int), k),
{
    let mut i = lo;
    while i < hi
        invariant
            lo <= i <= hi <= v.len(),
            all_in_class(v@.subrange(lo as int, i as int), k),
        decreases hi - i,
    {
        if !char_in_class(v[i], k) {
            proof {
                assert(v@.subrange(lo as int, hi as int)[i - lo] == v@[i as int]);
            }
            return false;
        }
        proof {
            assert forall|j: int| 0 <= j < i + 1 - lo implies in_class(
                #[trigger] v@.subrange(lo as int, i + 1)[j],
                k,
            ) by {
                if j < i - lo {
                    assert(v@.subrange(lo as int, i as int)[j] == v@.subrange(lo as int, i + 1)[j]);
                }
            }
        }
        i = i + 1;
    }
    true
}

/// Whether `s` is a hostname of the accepted shape: a first label of 1 to 63 ASCII
/// letters, digits and hyphens that starts and ends with a letter or digit, followed
/// by one or more labels of two or more ASCII letters, each after a dot.
pub open spec fn is_hostname(s: Seq<char>) -> bool {
    let i = index_of(s, '.');
    &&& 1 <= i <= 63
    &&& all_in_class(s.take(i), CharClass::Label)
    &&& is_ascii_alnum(s[0])
    &&& is_ascii_alnum(s[i - 1])
    &&& forall|k: int| i <= k < s.len() ==> (#[trigger] s[k] == '.' || is_ascii_alpha(s[k]))
    &&& forall|k: int|
        i <= k < s.len() && #[trigger] s[k] == '.' ==> k + 2 < s.len() && is_ascii_alpha(s[k + 1])
            && is_ascii_alpha(s[k + 2])
}

/// Whether one query parameter is a key of allowed characters, optionally followed
/// by `=` and a value of allowed characters.
pub open spec fn is_query_param(p: Seq<char>) -> bool {
    let e = index_of(p, '=');
    if e < 0 {
        p.len() >= 1 && all_in_class(p, CharClass::QueryKey)
    } else {
        e >= 1 && all_in_class(p.take(e), CharClass::QueryKey) && all_in_class(
            p.skip(e + 1),
            CharClass::QueryValue,
        )
    }
}

/// Whether every `&`-separated parameter of the query `q` is valid.
pub open spec fn is_query(q: Seq<char>) -> bool
    decreases q.len(),
    via query_decreases
{
    let j = index_of(q, '&');
    if j < 0 {
        is_query_param(q)
    } else {
        is_query_param(q.take(j)) && is_query(q.skip(j + 1))
    }
}

#[via_fn]
proof fn query_decreases(q: Seq<char>) {
    lemma_index_of_bounds(q, '&');
}

/// Whether the scheme and port name an explicit default port.
pub open spec fn is_default_port(scheme: Seq<char>, port: Option<u16>) -> bool {
    match port {
        Some(p) => (scheme == "http"@ && p == 80) || (scheme == "https"@ && p == 443),
        None => false,
    }
}

/// Whether the URL `u`, whose host converts to the ASCII form `ascii`, is valid. Its
/// length is counted in bytes, as `str::len` reports it.
pub open spec fn url_valid(u: UrlView, ascii: Option<Seq<char>>) -> bool {
    &&& vstd::utf8::encode_utf8(u.serialization).len() as usize <= MAX_URL_LENGTH
    &&& (u.scheme == "http"@ || u.scheme == "https"@)
    &&& ascii is Some
    &&& is_hostname(ascii->0)
    &&& !is_default_port(u.scheme, u.port)
    &&& u.path.len() > 0 && u.path[0] == '/' && all_in_class(u.path, CharClass::Path)
    &&& (u.query is Some ==> is_query(u.query->0))
    &&& (u.fragment is Some ==> all_in_class(u.fragment->0, CharClass::Fragment))
}

/// The host of `u`, or the empty text when it has none.
pub open spec fn host_or_empty(u: UrlView) -> Seq<char> {
    match u.host {
        Some(h) => h,
        None => Seq::empty(),
    }
}

/// Whether `u` is valid, its host converted by `idna::domain_to_ascii`.
pub open spec fn is_valid_url_view(u: UrlView) -> bool {
    url_valid(u, idna_ascii(host_or_empty(u)))
}

/// Whether `p` passes the screen for relative paths: not empty, not starting with
/// `/`, and made only of alphanumeric characters and `-_.~/`.
pub open spec fn is_valid_path_text(p: Seq<char>) -> bool {
    &&& p.len() > 0
    &&& p[0] != '/'
    &&& forall|i: int|
        0 <= i < p.len() ==> alphanumeric(#[trigger] p[i]) || p[i] == '-' || p[i] == '_' || p[i]
            == '.' || p[i] == '~' || p[i] == '/'
}

/// Checks URLs and relative paths against the crawler's rules.
#[derive(Debug, Clone, Copy)]
pub struct UrlValidator {}

impl UrlValidator {
    /// A validator.
    pub fn new() -> (r: Self) {
        UrlValidator {  }
    }

    /// Whether `url` is valid; its host is converted to ASCII first.
    pub fn is_valid(&self, url: &ParsedUrl) -> (r: bool)
        ensures
            r == is_valid_url_view(url@),
    {
        let host = match url.host_str() {
            Some(h) => h.to_owned(),
            None => String::new(),
        };
        proof {
            assert(host@ == host_or_empty(url@));
        }
        let ascii = domain_to_ascii(host.as_str());
        match ascii {
            Some(a) => self.is_valid_with_host(url, Some(a.as_str())),
            None => self.is_valid_with_host(url, None),
        }
    }

    /// Whether `url` is valid, given the ASCII form of its host (`None` when the host
    /// could not be converted).
    pub fn is_valid_with_host(&self, url: &ParsedUrl, ascii: Option<&str>) -> (r: bool)
        ensures
            r == url_valid(
                url@,
                match ascii {
                    Some(a) => Some(a@),
                    None => None,
                },
            ),
    {
        proof {
            reveal_strlit("http");
            reveal_strlit("https");
        }
        if url.as_str().len() > MAX_URL_LENGTH {
            return false;
        }
        let scheme = url.scheme().to_owned();
        let http = "http".to_owned();
        let https = "https".to_owned();
        if !(scheme == http || scheme == https) {
            return false;
        }
        let a = match ascii {
            Some(a) => a,
            None => {
                return false;
            },
        };
        if !is_hostname_text(a) {
            return false;
        }
        if let Some(p) = url.port() {
            if (scheme == http && p == 80) || (scheme == https && p == 443) {
                return false;
            }
        }
        let path = chars_of(url.path());
        proof {
            assert(path@.subrange(0, path.len() as int) =~= path@);
        }
        if path.len() == 0 || path[0] != '/' || !range_in_class(
            &path,
            0,
            path.len(),
            CharClass::Path,
        ) {
            return false;
        }
        if let Some(q) = url.query() {
            if !is_query_text(q) {
                return false;
            }
        }
        if let Some(f) = url.fragment() {
            let fv = chars_of(f);
            proof {
                assert(fv@.subrange(0, fv.len() as int) =~= fv@);
            }
            if !range_in_class(&fv, 0, fv.len(), CharClass::Fragment) {
                return false;
            }
        }
        proof {
            let u = url@;
            assert(u.scheme == "http"@ || u.scheme == "https"@);
            assert(!is_default_port(u.scheme, u.port));
            assert(u.path.len() > 0 && u.path[0] == '/' && all_in_class(u.path, CharClass::Path));
            assert(u.query is Some ==> is_query(u.query->0));
            assert(u.fragment is Some ==> all_in_class(u.fragment->0, CharClass::Fragment));
        }
        true
    }

    /// Parses `url` and removes its fragment.
    pub fn remove_url_fragment(&self, url: &str) -> (r: Result<ParsedUrl, CrawlerError>)
        ensures
            url_parsed(url@) is None ==> r == Err::<ParsedUrl, CrawlerError>(
                CrawlerError::UrlParseError,
            ),
            url_parsed(url@) is Some ==> r is Ok && r->Ok_0@ == url_unfragmented(
                url_parsed(url@)->0.serialization,
            ),
    {
        match parse_url(url) {
            Some(u) => Ok(drop_fragment(&u)),
            None => Err(CrawlerError::UrlParseError),
        }
    }

    /// Whether `path` passes the screen for relative paths.
    pub fn is_valid_path(&self, path: &str) -> (r: bool)
        ensures
            r == is_valid_path_text(path@),
    {
        let v = chars_of(path);
        if v.len() == 0 || v[0] == '/' {
            return false;
        }
        let mut i: usize = 0;
        while i < v.len()
            invariant
                0 <= i <= v.len(),
                v@ == path@,
                forall|j: int|
                    0 <= j < i ==> alphanumeric(#[trigger] v@[j]) || v@[j] == '-' || v@[j] == '_'
                        || v@[j] == '.' || v@[j] == '~' || v@[j] == '/',
            decreases v.len() - i,
        {
            let c = v[i];
            if !(is_alphanumeric(c) || c == '-' || c == '_' || c == '.' || c == '~' || c == '/') {
                return false;
            }
            i = i + 1;
        }
        true
    }
}

/// Whether `s` is a hostname of the accepted shape; see [`is_hostname`].
pub fn is_hostname_text(s: &str) -> (r: bool)
    ensures
        r == is_hostname(s@),
{
    let v = chars_of(s);
    let n = v.len();
    let i = find_char(&v, 0, n, '.');
    proof {
        assert(v@.subrange(0, n as int) =~= v@);
        lemma_index_of_bounds(v@, '.');
    }
    if i == n || i < 1 || i > 63 {
        return false;
    }
    proof {
        assert(v@.subrange(0, i as int) =~= v@.take(i as int));
    }
    if !range_in_class(&v, 0, i, CharClass::Label) || !char_in_class(v[0], CharClass::Label)
        || v[0] == '-' || v[i - 1] == '-' {
        return false;
    }
    let mut k = i;
    while k < n
        invariant
            i <= k <= n,
            n == v.len(),
            v@ == s@,
            i as int == index_of(s@, '.'),
            1 <= i <= 63,
            all_in_class(s@.take(i as int), CharClass::Label),
            is_ascii_alnum(s@[0]),
            is_ascii_alnum(s@[i - 1]),
            forall|j: int| i <= j < k ==> (#[trigger] v@[j] == '.' || is_ascii_alpha(v@[j])),
            forall|j: int|
                i <= j < k && #[trigger] v@[j] == '.' ==> j + 2 < n && is_ascii_alpha(v@[j + 1])
                    && is_ascii_alpha(v@[j + 2]),
        decreases n - k,
    {
        let c = v[k];
        if c == '.' {
            if n - k <= 2 || !char_in_class(v[k + 1], CharClass::Alpha) || !char_in_class(
                v[k + 2],
                CharClass::Alpha,
            ) {
                proof {
                    assert(v@[k as int] == '.');
                }
                return false;
            }
        } else if !char_in_class(c, CharClass::Alpha) {
            proof {
                assert(!(v@[k as int] == '.' || is_ascii_alpha(v@[k as int])));
            }
            return false;
        }
        k = k + 1;
    }
    true
}

/// Whether one query parameter is valid; see [`is_query_param`].
fn is_query_param_range(v: &Vec<char>, lo: usize, hi: usize) -> (r: bool)
    requires
        lo <= hi <= v.len(),
    ensures
        r == is_query_param(v@.subrange(lo as int, hi as int)),
{
    let ghost p = v@.subrange(lo as int, hi as int);
    let e = find_char(v, lo, hi, '=');
    if e == hi {
        hi > lo && range_in_class(v, lo, hi, CharClass::QueryKey)
    } else {
        proof {
            assert(p.take(e - lo) =~= v@.subrange(lo as int, e as int));
            assert(p.skip(e - lo + 1) =~= v@.subrange(e + 1, hi as int));
        }
        e > lo && range_in_class(v, lo, e, CharClass::QueryKey) && range_in_class(
            v,
            e + 1,
            hi,
            CharClass::QueryValue,
        )
    }
}

/// Whether every `&`-separated parameter of the query `q` is valid; see [`is_query`].
pub fn is_query_text(q: &str) -> (r: bool)
    ensures
        r == is_query(q@),
{
    let v = chars_of(q);
    let n = v.len();
    let mut pos: usize = 0;
    proof {
        assert(v@.subrange(0, n as int) =~= v@);
    }
    loop
        invariant
            pos <= n,
            n == v.len(),
            v@ == q@,
            is_query(q@) == is_query(v@.subrange(pos as int, n as int)),
        decreases n - pos,
    {
        let ghost rest = v@.subrange(pos as int, n as int);
        let amp = find_char(&v, pos, n, '&');
        if amp == n {
            return is_query_param_range(&v, pos, n);
        }
        proof {
            assert(rest.take(amp - pos) =~= v@.subrange(pos as int, amp as int));
            assert(rest.skip(amp - pos + 1) =~= v@.subrange(amp + 1, n as int));
        }
        if !is_query_param_range(&v, pos, amp) {
            return false;
        }
        pos = amp + 1;
    }
}

} // verus!
