use iaretis::filter::Filter;
use iaretis::handler::{
    blocked_answers, classify_cause, decide_query, failure_response_code, is_slow_query,
    query_domain, BlockedAnswer, QueryDecision, UpstreamError, RCODE_SERV_FAIL, RECORD_TYPE_A,
    RECORD_TYPE_AAAA,
};

#[test]
fn blocked_answer_records() {
    assert_eq!(blocked_answers(RECORD_TYPE_A), vec![BlockedAnswer::UnspecifiedV4]);
    assert_eq!(blocked_answers(RECORD_TYPE_AAAA), vec![BlockedAnswer::UnspecifiedV6]);
    assert_eq!(blocked_answers(1), vec![BlockedAnswer::UnspecifiedV4]);
    assert_eq!(blocked_answers(28), vec![BlockedAnswer::UnspecifiedV6]);
    assert!(blocked_answers(15).is_empty());
    assert!(blocked_answers(16).is_empty());
}

#[test]
fn query_domain_strips_trailing_dots() {
    assert_eq!(query_domain("example.com."), "example.com");
    assert_eq!(query_domain("example.com"), "example.com");
    assert_eq!(query_domain("."), "");
    assert_eq!(query_domain("a..b.."), "a..b");
}

#[test]
fn decide_blocks_or_forwards() {
    let f = Filter::new(vec!["doubleclick.net".to_string()]);
    match decide_query(&f, "ads.DoubleClick.net.", RECORD_TYPE_A) {
        QueryDecision::Block { answers } => assert_eq!(answers, vec![BlockedAnswer::UnspecifiedV4]),
        QueryDecision::Forward => panic!("expected block"),
    }
    match decide_query(&f, "doubleclick.net.", 65) {
        QueryDecision::Block { answers } => assert!(answers.is_empty()),
        QueryDecision::Forward => panic!("expected block"),
    }
    assert!(matches!(decide_query(&f, "example.org.", RECORD_TYPE_AAAA), QueryDecision::Forward));
}

#[test]
fn upstream_failure_codes() {
    assert_eq!(failure_response_code(UpstreamError::NoRecords { response_code: 3 }), 3);
    assert_eq!(failure_response_code(UpstreamError::NoRecords { response_code: 0 }), 0);
    assert_eq!(failure_response_code(UpstreamError::Timeout), RCODE_SERV_FAIL);
    assert_eq!(failure_response_code(UpstreamError::Other), 2);
}

#[test]
fn failure_causes() {
    assert_eq!(classify_cause(UpstreamError::Timeout), "timeout");
    assert_eq!(classify_cause(UpstreamError::Tls), "tls");
    assert_eq!(classify_cause(UpstreamError::Io), "connection");
    assert_eq!(classify_cause(UpstreamError::NoConnections), "connection");
    assert_eq!(classify_cause(UpstreamError::Busy), "connection");
    assert_eq!(classify_cause(UpstreamError::Other), "other");
}

#[test]
fn slow_query_threshold() {
    assert!(!is_slow_query(0));
    assert!(!is_slow_query(200));
    assert!(is_slow_query(201));
}
