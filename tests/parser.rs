use crawler::parser::{extract_title, normalize_url, parse_html_links};

#[test]
fn test_parse_html_links() {
    let html = r#"
            <html>
                <body>
                    <a href="https://example.com">Example</a>
                    <a href="/about">About</a>
                </body>
            </html>
        "#;
    let base_url = "https://example.com";
    let expected = vec!["https://example.com/", "https://example.com/about"];
    assert_eq!(parse_html_links(html, base_url).unwrap(), expected);
}

#[test]
fn test_extract_links() {
    let html = r#"
                <html>
                    <body>
                        <a href="https://example.com/absolute">Absolute URL</a>
                        <a href="/relative">Relative URL</a>
                        <a href="//example.com/page">Relative URL</a>
                        <a href="mailto:test@example.com">Mailto Link</a>
                        <a href="invalid-url">Invalid URL</a>
                    </body>
                </html>
            "#;

    let base_url = "http://test.com/extract";
    let expected_urls = vec![
        "https://example.com/absolute",
        "http://test.com/relative",
        "http://example.com/page",
        "http://test.com/invalid-url",
    ];

    let actual_urls = parse_html_links(html, base_url).unwrap();
    assert_eq!(actual_urls, expected_urls);

    let html_with_fragment = r#"<a href="/#fragment/">Fragment</a>"#;
    assert!(parse_html_links(html_with_fragment, base_url)
        .unwrap()
        .is_empty());
}

#[test]
fn parser_test_normalize_url() {
    let base_url = "http://test.com/normalize";
    let relative_url = "/relative";
    assert_eq!(
        normalize_url(base_url, relative_url).unwrap().as_str(),
        "http://test.com/relative"
    );
}

#[test]
fn test_normalize_url_with_scheme() {
    let base_url = "http://test.com/normalize";
    let relative_url = "https://example.com/absolute";
    assert_eq!(
        normalize_url(base_url, relative_url).unwrap().as_str(),
        "https://example.com/absolute"
    );
}

#[test]
fn test_normalize_url_with_query() {
    let base_url = "http://test.com/normalize";
    let relative_url = "/relative?query=param";
    assert_eq!(
        normalize_url(base_url, relative_url).unwrap().as_str(),
        "http://test.com/relative?query=param"
    );
}

#[test]
fn test_normalize_url_with_fragment() {
    let base_url = "http://example.com/some/path/";
    let relative_url = "../example.html";
    assert_eq!(
        normalize_url(base_url, relative_url).unwrap().as_str(),
        "http://example.com/some/example.html"
    );
}

fn test_normalizer(base_url: &str, relative_url: &str, expected: Option<&str>) {
    let normalized = normalize_url(base_url, relative_url);
    match expected {
        Some(expected) => {
            assert_eq!(normalized.as_ref().map(|s| s.as_str()).ok(), Some(expected))
        }
        None => assert!(normalized.is_err()),
    }
}

#[test]
fn test_url_normalizer() {
    test_normalizer(
        "http://example.com/current/page.html",
        "example.html",
        Some("http://example.com/current/example.html"),
    );
    test_normalizer(
        "http://example.com/current/",
        "../example.html",
        Some("http://example.com/example.html"),
    );
    test_normalizer("http://example.com/", "/page", Some("http://example.com/page"));
    test_normalizer(
        "http://example.com/",
        "http://example.com/absolute",
        Some("http://example.com/absolute"),
    );
    test_normalizer(
        "http://example.com/",
        "//example.com/protocol-relative",
        Some("http://example.com/protocol-relative"),
    );
    test_normalizer("http://example.com/", "./relative", Some("http://example.com/relative"));
    test_normalizer("http://example.com/current/", "../parent", Some("http://example.com/parent"));
    test_normalizer(
        "http://example.com/current/",
        "../../parent",
        Some("http://example.com/parent"),
    );
    test_normalizer(
        "http://example.com/current/",
        "../../../parent",
        Some("http://example.com/parent"),
    );
    test_normalizer(
        "http://example.com/current/",
        "http://example.com/absolute",
        Some("http://example.com/absolute"),
    );
    test_normalizer("http://example.com/current/", "invalid://invalid", None);
}

#[test]
fn normalize_fails_on_unparsable_base() {
    assert!(normalize_url("not a url", "https://example.com/").is_err());
}

#[test]
fn links_fail_on_unparsable_base() {
    assert!(parse_html_links("<a href=\"/a\">a</a>", "relative/base").is_err());
}

#[test]
fn anchors_without_href_are_skipped() {
    let html = "<a name=\"top\">Top</a><a href=\"ftp://example.com/f\">f</a><a href=\"page\">p</a>";
    assert_eq!(
        parse_html_links(html, "http://example.com/dir/").unwrap(),
        vec!["http://example.com/dir/page".to_string()]
    );
}

#[test]
fn title_is_extracted() {
    assert_eq!(
        extract_title("<html><head><title>Hello</title></head></html>"),
        Some("Hello".to_string())
    );
    assert_eq!(extract_title("<html><body>none</body></html>"), None);
}
