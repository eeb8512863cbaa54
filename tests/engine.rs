use crawler::engine::CrawlEngine;
use crawler::error::CrawlerError;
use crawler::fetch::classify_response;
use crawler::parser::parse_html_links;

#[test]
fn crawl_of_two_pages_completes() {
    let mut engine = CrawlEngine::new();
    engine.submit_seed("http://x.test/".to_string());

    let first = engine.dispatch_next().unwrap();
    assert_eq!(first, "http://x.test/");
    let body = "<html><body><a href=\"/a\">A</a></body></html>";
    let outcome = classify_response(200, body.to_string(), Some("text/html".to_string()));
    let links = parse_html_links(body, &first).unwrap();
    assert_eq!(links, vec!["http://x.test/a".to_string()]);
    engine.complete(first, &outcome, links);
    assert!(!engine.is_done());

    let second = engine.dispatch_next().unwrap();
    assert_eq!(second, "http://x.test/a");
    let body = "<html><body>no links here</body></html>";
    let outcome = classify_response(200, body.to_string(), None);
    let links = parse_html_links(body, &second).unwrap();
    assert!(links.is_empty());
    engine.complete(second, &outcome, links);

    assert_eq!(engine.dispatch_next(), None);
    assert!(engine.is_done());
    let mut visited = engine.state().get_visited().unwrap();
    visited.sort();
    assert_eq!(
        visited,
        vec!["http://x.test/".to_string(), "http://x.test/a".to_string()]
    );
    assert!(engine.state().get_urls().unwrap().is_empty());
}

#[test]
fn visited_urls_are_skipped_at_dispatch() {
    let mut engine = CrawlEngine::new();
    engine.submit_seed("http://x.test/".to_string());
    engine.submit_seed("http://x.test/".to_string());
    let u = engine.dispatch_next().unwrap();
    engine.complete(u, &Err(CrawlerError::HttpError(404)), vec![]);
    assert_eq!(engine.dispatch_next(), None);
    assert!(engine.is_done());
}

#[test]
fn rate_limited_job_is_not_marked_visited() {
    let mut engine = CrawlEngine::new();
    engine.submit_seed("http://x.test/".to_string());
    let u = engine.dispatch_next().unwrap();
    assert_eq!(engine.in_flight(), 1);
    engine.complete(u, &Err(CrawlerError::RateLimitError(1)), vec![]);
    assert_eq!(engine.in_flight(), 0);
    assert!(!engine.state().is_visited("http://x.test/").unwrap());
}

#[test]
fn only_unvisited_links_are_enqueued() {
    let mut engine = CrawlEngine::new();
    engine.submit_seed("http://x.test/".to_string());
    let u = engine.dispatch_next().unwrap();
    let outcome = Ok((String::new(), 200, None));
    engine.complete(
        u,
        &outcome,
        vec![
            "http://x.test/".to_string(),
            "http://x.test/b".to_string(),
            "http://x.test/b".to_string(),
        ],
    );
    assert_eq!(
        engine.state().get_urls().unwrap(),
        vec!["http://x.test/b".to_string(), "http://x.test/b".to_string()]
    );
}
