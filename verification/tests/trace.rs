use helios_execution::trace::{
    get_header, header_names, set_header, set_headers, AttemptResponse, AttemptSpanMiddleware,
    TraceContextLayer, TraceInjectLayer, TraceInjectMiddleware,
};
use http::header::{HeaderMap, HeaderValue};

fn fields(list: &[(&str, &str)]) -> Vec<(String, String)> {
    list.iter().map(|(k, v)| (k.to_string(), v.to_string())).collect()
}

#[test]
fn header_is_read_back_in_any_case() {
    let mut headers: HeaderMap<HeaderValue> = HeaderMap::new();
    set_header(&mut headers, "TraceParent", "00-4bf9-00f0-01");
    assert_eq!(get_header(&headers, "traceparent"), Some("00-4bf9-00f0-01"));
    assert_eq!(get_header(&headers, "TRACEPARENT"), Some("00-4bf9-00f0-01"));
    assert_eq!(get_header(&headers, "tracestate"), None);
    assert_eq!(headers.get("traceparent").unwrap().to_str().unwrap(), "00-4bf9-00f0-01");
}

#[test]
fn later_value_replaces_the_earlier_ones() {
    let mut headers: HeaderMap<HeaderValue> = HeaderMap::new();
    headers.append("a", HeaderValue::from_static("1"));
    headers.append("a", HeaderValue::from_static("2"));
    set_header(&mut headers, "A", "3");
    assert_eq!(headers.get_all("a").iter().count(), 1);
    assert_eq!(get_header(&headers, "a"), Some("3"));
}

#[test]
fn what_is_no_header_is_passed_over() {
    let mut headers: HeaderMap<HeaderValue> = HeaderMap::new();
    set_header(&mut headers, "bad name", "x");
    set_header(&mut headers, "", "x");
    set_header(&mut headers, "good", "line\nbreak");
    assert!(headers.is_empty());
}

#[test]
fn unreadable_value_is_not_handed_out() {
    let mut headers: HeaderMap<HeaderValue> = HeaderMap::new();
    headers.insert("a", HeaderValue::from_bytes(&[0xff]).unwrap());
    assert_eq!(get_header(&headers, "a"), None);
    set_header(&mut headers, "b", "\u{e9}");
    assert_eq!(headers.len(), 2);
    assert_eq!(get_header(&headers, "b"), None);
}

#[test]
fn names_are_listed_once() {
    let mut headers: HeaderMap<HeaderValue> = HeaderMap::new();
    headers.append("b", HeaderValue::from_static("1"));
    headers.append("b", HeaderValue::from_static("2"));
    headers.append("a", HeaderValue::from_static("3"));
    let mut names = header_names(&headers);
    names.sort();
    assert_eq!(names, vec!["a", "b"]);
}

#[test]
fn trace_is_put_on_requests_that_have_one() {
    let service = TraceInjectLayer.layer(5u8);
    assert_eq!(service.inner, 5);
    assert!(service.headers_for(&fields(&[])).is_none());
    assert!(service.headers_for(&fields(&[("bad name", "x")])).is_none());
    let headers = service.headers_for(&fields(&[("traceparent", "t"), ("tracestate", "s")]));
    let headers = headers.unwrap();
    assert_eq!(headers.len(), 2);
    assert_eq!(get_header(&headers, "traceparent"), Some("t"));
    assert_eq!(get_header(&headers, "tracestate"), Some("s"));
}

#[test]
fn injection_leaves_other_headers_alone() {
    let mut headers: HeaderMap<HeaderValue> = HeaderMap::new();
    headers.insert("accept", HeaderValue::from_static("*/*"));
    TraceInjectMiddleware.inject(&mut headers, &fields(&[("traceparent", "t")]));
    assert_eq!(get_header(&headers, "accept"), Some("*/*"));
    assert_eq!(get_header(&headers, "traceparent"), Some("t"));
    set_headers(&mut headers, &fields(&[("traceparent", "u"), ("x", "y")]));
    assert_eq!(get_header(&headers, "traceparent"), Some("u"));
    assert_eq!(headers.len(), 3);
    assert_eq!(TraceContextLayer.layer("inner").inner, "inner");
}

#[test]
fn attempts_have_kinds() {
    let spans = AttemptSpanMiddleware;
    assert_eq!(spans.kind("HEAD", "/eth/v1/proof/getExecutionHint"), "keepalive");
    assert_eq!(spans.kind("POST", "/eth/v1/proof/getExecutionHint"), "hint");
    assert_eq!(spans.kind("GET", "/eth/v1/proof/account/0x1"), "proof");
    assert_eq!(spans.kind("GET", "/eth/v1/chainId"), "other");
    let answered = AttemptResponse { status: 503, peer: Some("10.0.0.1:80".to_string()) };
    let record = spans.record(Ok(answered));
    assert_eq!(record.outcome, "response");
    assert_eq!(record.status, Some(503));
    assert_eq!(record.peer.as_deref(), Some("10.0.0.1:80"));
    let record = spans.record(Err("timeout".to_string()));
    assert_eq!(record.outcome, "error: timeout");
    assert_eq!((record.status, record.peer), (None, None));
}
