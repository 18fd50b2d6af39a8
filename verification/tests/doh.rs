use iaretis::doh::{
    bad_request_response, dns_parameter, extract_from_query_param, plan_response, route_request,
    upstream_response, BodyCollector, DohResponse, ExtractError, HttpMethod, QuerySource,
    MAX_DNS_MESSAGE_SIZE, STATUS_BAD_GATEWAY, STATUS_BAD_REQUEST, STATUS_METHOD_NOT_ALLOWED,
    STATUS_NOT_FOUND, STATUS_OK,
};

#[test]
fn route_checks_path_before_method() {
    let r = route_request("/other", "/dns-query", HttpMethod::Other).unwrap_err();
    assert_eq!(r.status, STATUS_NOT_FOUND);
    assert!(r.body.is_empty());
    let r = route_request("/dns-query/x", "/dns-query", HttpMethod::Get).unwrap_err();
    assert_eq!(r.status, 404);
    let r = route_request("/dns-query", "/dns-query", HttpMethod::Other).unwrap_err();
    assert_eq!(r.status, STATUS_METHOD_NOT_ALLOWED);
    assert_eq!(r.status, 405);
}

#[test]
fn route_get_and_post() {
    assert_eq!(route_request("/dns-query/t0k", "/dns-query/t0k", HttpMethod::Get).unwrap(), QuerySource::QueryString);
    assert_eq!(route_request("/dns-query", "/dns-query", HttpMethod::Post).unwrap(), QuerySource::Body);
}

#[test]
fn dns_parameter_first_match() {
    assert_eq!(dns_parameter("dns=abc"), Some("abc"));
    assert_eq!(dns_parameter("ct=x&dns=AAAB&dns=zz"), Some("AAAB"));
    assert_eq!(dns_parameter("xdns=a&y=b"), None);
    assert_eq!(dns_parameter(""), None);
    assert_eq!(dns_parameter("dns="), Some(""));
    assert_eq!(dns_parameter("a&&dns=q&"), Some("q"));
    assert_eq!(dns_parameter("DNS=q"), None);
}

#[test]
fn extract_query_errors() {
    assert_eq!(extract_from_query_param(None), Err(ExtractError::MissingQueryString));
    assert_eq!(extract_from_query_param(Some("ct=1")), Err(ExtractError::MissingDnsParameter));
    assert_eq!(extract_from_query_param(Some("dns=aGVsbG8=")), Err(ExtractError::InvalidBase64));
    assert_eq!(extract_from_query_param(Some("dns=a*b")), Err(ExtractError::InvalidBase64));
}

#[test]
fn extract_query_decodes_base64url() {
    assert_eq!(extract_from_query_param(Some("dns=aGVsbG8")).unwrap(), b"hello".to_vec());
    assert_eq!(extract_from_query_param(Some("x=1&dns=-_8")).unwrap(), vec![0xfb, 0xff]);
    // A DNS query for example.com, type A (RFC 8484 example).
    let q = "dns=AAABAAABAAAAAAAAB2V4YW1wbGUDY29tAAABAAE";
    let bytes = extract_from_query_param(Some(q)).unwrap();
    assert_eq!(bytes.len(), 29);
    assert_eq!(&bytes[12..20], b"\x07example");
    assert_eq!(extract_from_query_param(Some("dns=")).unwrap(), Vec::<u8>::new());
}

#[test]
fn body_collector_limit() {
    let mut c = BodyCollector::new();
    assert_eq!(c.accept_chunk(&[1, 2, 3]), Ok(()));
    let big = vec![0u8; MAX_DNS_MESSAGE_SIZE - 3];
    assert_eq!(c.accept_chunk(&big), Ok(()));
    assert_eq!(c.accept_chunk(&[9]), Err(ExtractError::BodyTooLarge));
    let body = c.finish();
    assert_eq!(body.len(), 8192);
    assert_eq!(&body[..3], &[1, 2, 3]);
}

#[test]
fn body_collector_rejects_oversized_first_chunk() {
    let mut c = BodyCollector::new();
    let big = vec![7u8; 8193];
    assert_eq!(c.accept_chunk(&big), Err(ExtractError::BodyTooLarge));
    assert_eq!(c.accept_chunk(&[]), Ok(()));
    assert!(c.finish().is_empty());
}

#[test]
fn responses() {
    let r = bad_request_response(ExtractError::BodyRead);
    assert_eq!(r.status, STATUS_BAD_REQUEST);
    assert!(r.body.is_empty());
    let r = upstream_response(Some(vec![1, 2]));
    assert_eq!(r.status, STATUS_OK);
    assert_eq!(r.body, vec![1, 2]);
    let r = upstream_response(None);
    assert_eq!(r.status, STATUS_BAD_GATEWAY);
    assert!(r.body.is_empty());
}

#[test]
fn response_plans() {
    let p = plan_response(&DohResponse { status: 200, body: vec![1, 2, 3] });
    assert_eq!(p.status, 200);
    assert_eq!(p.content_type.as_deref(), Some("application/dns-message"));
    assert_eq!(p.content_length, Some(3));
    assert!(!p.end_stream_with_headers);
    assert!(p.send_body);
    let p = plan_response(&DohResponse { status: 404, body: vec![] });
    assert_eq!(p.content_type, None);
    assert_eq!(p.content_length, None);
    assert!(p.end_stream_with_headers);
    assert!(!p.send_body);
    let p = plan_response(&DohResponse { status: 200, body: vec![] });
    assert_eq!(p.content_length, Some(0));
    assert!(p.end_stream_with_headers);
}
