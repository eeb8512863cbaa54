use crawler::error::CrawlerError;
use crawler::fetch::{classify_response, next_attempt, outcome_is_definitive, RetryAction, MAX_RETRIES};

#[test]
fn classifies_success_with_content_type() {
    let r = classify_response(200, "<html>...".to_string(), Some("text/html".to_string()));
    match r {
        Ok((body, status, ct)) => {
            assert_eq!(body, "<html>...");
            assert_eq!(status, 200);
            assert_eq!(ct, Some("text/html".to_string()));
        }
        Err(e) => panic!("unexpected {:?}", e),
    }
}

#[test]
fn classifies_not_found_as_http_error() {
    let r = classify_response(404, "missing".to_string(), Some("text/html".to_string()));
    assert!(matches!(r, Err(CrawlerError::HttpError(404))));
}

#[test]
fn classifies_status_edges() {
    assert!(classify_response(299, String::new(), None).is_ok());
    assert!(matches!(
        classify_response(199, String::new(), None),
        Err(CrawlerError::HttpError(199))
    ));
    assert!(matches!(
        classify_response(300, String::new(), None),
        Err(CrawlerError::HttpError(300))
    ));
}

#[test]
fn backoff_grows_linearly() {
    for retries in 0..MAX_RETRIES {
        match next_attempt(retries, Err(CrawlerError::RateLimitError(2))) {
            RetryAction::Sleep(secs) => assert_eq!(secs, 2 * (retries as u64 + 1)),
            other => panic!("unexpected {:?}", other),
        }
    }
}

#[test]
fn gives_up_after_retry_budget() {
    match next_attempt(5, Err(CrawlerError::RateLimitError(3))) {
        RetryAction::GiveUp(CrawlerError::RateLimitError(3)) => {}
        other => panic!("unexpected {:?}", other),
    }
    assert!(matches!(next_attempt(0, Ok(())), RetryAction::Proceed));
    assert!(matches!(
        next_attempt(0, Err(CrawlerError::NoTokenAvailable)),
        RetryAction::GiveUp(CrawlerError::NoTokenAvailable)
    ));
    match next_attempt(4, Err(CrawlerError::RateLimitError(u64::MAX))) {
        RetryAction::Sleep(secs) => assert_eq!(secs, u64::MAX),
        other => panic!("unexpected {:?}", other),
    }
}

#[test]
fn definitive_outcomes() {
    assert!(outcome_is_definitive(&Ok((String::new(), 200, None))));
    assert!(outcome_is_definitive(&Err(CrawlerError::HttpError(500))));
    assert!(outcome_is_definitive(&Err(CrawlerError::HyperError("timeout".to_string()))));
    assert!(!outcome_is_definitive(&Err(CrawlerError::RateLimitError(1))));
}

#[test]
fn only_poisoned_locks_are_fatal() {
    assert!(CrawlerError::MutexPoisonError.is_fatal());
    assert!(CrawlerError::RwLockReadPoisonError.is_fatal());
    assert!(CrawlerError::RwLockWritePoisonError.is_fatal());
    assert!(!CrawlerError::HttpError(404).is_fatal());
    assert!(!CrawlerError::IoError("disk".to_string()).is_fatal());
}
