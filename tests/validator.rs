use crawler::utils::{extract_domain, is_valid_url, normalize_url};
use crawler::validator::{is_hostname_text, is_query_text, UrlValidator};
use crawler::weburl::ParsedUrl;

fn parsed(s: &str) -> ParsedUrl {
    crawler::parser::normalize_url(s, s)
        .ok()
        .unwrap_or_else(|| panic!("not a valid url: {}", s))
}

fn is_valid(s: &str) -> bool {
    crawler::parser::normalize_url("http://example.com/", s).is_ok()
}

#[test]
fn test_is_valid() {
    let validator = UrlValidator::new();
    let valid_url = parsed("https://webflow.com/made-in-webflow/links");
    assert!(validator.is_valid(&valid_url));
    assert!(!is_valid("ftp://example.com"));
}

#[test]
fn test_is_valid_2() {
    let validator = UrlValidator::new();
    let valid_url = parsed("https://example.com");
    assert!(validator.is_valid(&valid_url));
    assert!(!is_valid("invalid://example"));
}

#[test]
fn test_valid_domain() {
    assert!(is_valid("http://example.com"));
    assert!(is_valid("http://sub.example.com"));
    assert!(is_valid("http://example.co.uk"));
    assert!(!is_valid("http://example"));
    assert!(!is_valid("http://.com"));
    assert!(is_valid("https://example.com/path?a=1&b=2"));
}

#[test]
fn test_remove_url_fragment() {
    let validator = UrlValidator::new();
    let cleaned_url = validator
        .remove_url_fragment("http://example.com/page#section2")
        .unwrap();
    assert_eq!(cleaned_url.as_str(), "http://example.com/page");
    assert_eq!(cleaned_url.fragment(), None);
    assert!(validator.remove_url_fragment("no scheme").is_err());
}

#[test]
fn rejects_bad_components() {
    assert!(is_valid("http://example.com/a b"));
    assert!(!is_valid("http://example.com/a!b"));
    assert!(!is_valid("http://example.com/?=v"));
    assert!(!is_valid("http://example.com/?a=1&"));
    assert!(!is_valid("http://example.com/#frag/ment"));
    assert!(is_valid("http://example.com/#frag-ment"));
    assert!(is_valid("http://example.com:8080/"));
    assert!(!is_valid(&format!("http://example.com/{}", "a".repeat(2100))));
}

#[test]
fn internationalised_hosts_are_converted() {
    assert!(is_valid("http://bücher.example/"));
}

#[test]
fn hostname_shapes() {
    assert!(is_hostname_text("example.com"));
    assert!(is_hostname_text("a-b.example.org"));
    assert!(!is_hostname_text("-ab.com"));
    assert!(!is_hostname_text("ab-.com"));
    assert!(!is_hostname_text("example.c"));
    assert!(!is_hostname_text("example..com"));
    assert!(!is_hostname_text("example.com."));
    assert!(!is_hostname_text("ex.co1"));
    assert!(!is_hostname_text(&format!("{}.com", "a".repeat(64))));
    assert!(is_hostname_text(&format!("{}.com", "a".repeat(63))));
}

#[test]
fn query_shapes() {
    assert!(is_query_text("a=1&b=2"));
    assert!(is_query_text("flag"));
    assert!(is_query_text("k=%20v"));
    assert!(!is_query_text(""));
    assert!(!is_query_text("a=1=2"));
    assert!(!is_query_text("k%=v"));
}

#[test]
fn relative_path_screen() {
    let validator = UrlValidator::new();
    assert!(validator.is_valid_path("docs/page.html"));
    assert!(validator.is_valid_path("über/straße"));
    assert!(!validator.is_valid_path(""));
    assert!(!validator.is_valid_path("/abs"));
    assert!(!validator.is_valid_path("http://x.test/"));
    assert!(!validator.is_valid_path("a b"));
    assert!(!validator.is_valid_path("a?b"));
}

#[test]
fn test_is_valid_url() {
    assert!(is_valid_url("http://example.com"));
    assert!(is_valid_url("https://example.com"));
    assert!(!is_valid_url("ftp://example.com"));
    assert!(!is_valid_url("example.com"));
}

#[test]
fn mod_test_normalize_url() {
    assert_eq!(
        normalize_url("http://example.com", "/path"),
        "http://example.com/path"
    );
    assert_eq!(
        normalize_url("http://example.com", "http://example.com/path"),
        "http://example.com/path"
    );
}

#[test]
fn test_extract_domain() {
    assert_eq!(
        extract_domain("http://example.com").unwrap(),
        Some("example.com".to_string())
    );
    assert_eq!(
        extract_domain("https://example.com").unwrap(),
        Some("example.com".to_string())
    );
    assert_eq!(
        extract_domain("ftp://example.com").unwrap(),
        Some("example.com".to_string())
    );
    assert_eq!(extract_domain("example.com").ok(), None);
}

#[test]
fn accessors_report_components() {
    let u = parsed("https://example.com:8443/p/q?x=1#top");
    assert_eq!(u.scheme(), "https");
    assert_eq!(u.host_str(), Some("example.com"));
    assert_eq!(u.port(), Some(8443));
    assert_eq!(u.path(), "/p/q");
    assert_eq!(u.query(), Some("x=1"));
    assert_eq!(u.fragment(), Some("top"));
    assert_eq!(u.to_text(), "https://example.com:8443/p/q?x=1#top".to_string());
}
