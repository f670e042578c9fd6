use conformance_harness::assertions::{
    assert_response, list_pairs, lower_headers, match_headers, AssertionError, LoweredHeader,
};
use conformance_harness::config::{Response as Expected, ResponseHeader};
use conformance_harness::http::Response;

fn pairs(list: &[(&str, &str)]) -> Vec<(String, String)> {
    list.iter().map(|(k, v)| (k.to_string(), v.to_string())).collect()
}

fn expected(status: u16, headers: Vec<ResponseHeader>, body: Option<&str>) -> Expected {
    Expected { status, headers, body: body.map(|b| b.to_owned()) }
}

fn header(name: &str, value: Option<&str>, optional: bool) -> ResponseHeader {
    ResponseHeader { name: name.to_owned(), value: value.map(|v| v.to_owned()), optional }
}

#[test]
fn status_is_compared_first() {
    let e = expected(200, vec![], None);
    let a = Response::full(404, pairs(&[("x-extra", "1")]), "not found");
    match assert_response(&e, &a) {
        Err(AssertionError::Status { actual, expected, body }) => {
            assert_eq!(actual, 404);
            assert_eq!(expected, 200);
            assert_eq!(body, "not found");
        }
        _ => panic!("expected a status failure"),
    }
    let message = assert_response(&e, &a).unwrap_err().message();
    assert_eq!(message, "actual status 404 != expected status 200 - body: not found");
}

#[test]
fn named_header_matches_and_extra_header_is_unexpected() {
    let e = expected(200, vec![header("content-type", Some("text/plain"), false)], None);
    let a = Response::full(
        200,
        pairs(&[("Content-Type", "text/plain"), ("X-Extra", "1")]),
        Vec::<u8>::new(),
    );
    match assert_response(&e, &a) {
        Err(AssertionError::UnexpectedHeaders { headers }) => {
            assert_eq!(headers, pairs(&[("x-extra", "1")]));
        }
        _ => panic!("expected unexpected headers"),
    }
    let message = assert_response(&e, &a).unwrap_err().message();
    assert_eq!(message, "unexpected headers: {\"x-extra\": \"1\"}");
}

#[test]
fn optional_header_may_be_absent() {
    let e = expected(200, vec![header("etag", None, true)], None);
    let a = Response::new(200);
    assert!(assert_response(&e, &a).is_ok());
}

#[test]
fn optional_header_may_be_present() {
    let e = expected(200, vec![header("etag", None, true)], None);
    let a = Response::full(200, pairs(&[("ETag", "abc")]), "");
    assert!(assert_response(&e, &a).is_ok());
}

#[test]
fn required_header_must_be_present() {
    let e = expected(200, vec![header("Content-Length", None, false)], None);
    let a = Response::new(200);
    match assert_response(&e, &a) {
        Err(AssertionError::HeaderNotFound { name }) => assert_eq!(name, "Content-Length"),
        _ => panic!("expected a missing header"),
    }
    assert_eq!(
        assert_response(&e, &a).unwrap_err().message(),
        "expected header 'Content-Length' not found in response"
    );
}

#[test]
fn header_values_are_compared_in_lowercase() {
    let e = expected(200, vec![header("Content-Type", Some("TEXT/Plain"), false)], None);
    let a = Response::full(200, pairs(&[("content-type", "text/PLAIN")]), "");
    assert!(assert_response(&e, &a).is_ok());
}

#[test]
fn header_value_must_match() {
    let e = expected(200, vec![header("Content-Type", Some("text/plain"), false)], None);
    let a = Response::full(200, pairs(&[("content-type", "Text/HTML")]), "");
    match assert_response(&e, &a) {
        Err(AssertionError::HeaderValue { name, actual, expected }) => {
            assert_eq!(name, "Content-Type");
            assert_eq!(actual, "text/html");
            assert_eq!(expected, "text/plain");
        }
        _ => panic!("expected a value failure"),
    }
    assert_eq!(
        assert_response(&e, &a).unwrap_err().message(),
        "header 'Content-Type' has unexpected value 'text/html' != 'text/plain'"
    );
}

#[test]
fn body_is_compared_before_the_headers() {
    let e = expected(200, vec![], Some("hello"));
    let a = Response::full(200, pairs(&[("x", "y")]), "hello\nworld");
    match assert_response(&e, &a) {
        Err(AssertionError::Body { actual, expected }) => {
            assert_eq!(actual, "hello\nworld");
            assert_eq!(expected, "hello");
        }
        _ => panic!("expected a body failure"),
    }
    assert_eq!(
        assert_response(&e, &a).unwrap_err().message(),
        "actual body != expected body\nactual: hello\n  world\nexpected: hello"
    );
}

#[test]
fn missing_expected_body_means_an_empty_body() {
    let e = expected(200, vec![], None);
    assert!(assert_response(&e, &Response::new(200)).is_ok());
    let a = Response::new_with_body(200, "x");
    assert!(matches!(assert_response(&e, &a), Err(AssertionError::Body { .. })));
}

#[test]
fn body_that_is_no_utf8_is_never_the_expected_one() {
    let e = expected(200, vec![], Some("<invalid utf-8>"));
    let a = Response::new_with_body(200, vec![0xffu8]);
    match assert_response(&e, &a) {
        Err(AssertionError::Body { actual, expected }) => {
            assert_eq!(actual, "<invalid utf-8>");
            assert_eq!(expected, "<invalid utf-8>");
        }
        _ => panic!("expected a body failure"),
    }
    let text = Response::new_with_body(200, "<invalid utf-8>");
    assert!(assert_response(&e, &text).is_ok());
    let e = expected(200, vec![], None);
    assert!(matches!(assert_response(&e, &a), Err(AssertionError::Body { .. })));
}

#[test]
fn body_that_is_no_utf8_is_named_so() {
    let a = Response::new_with_body(200, vec![0xffu8, 0xfe]);
    let e = expected(201, vec![], None);
    match assert_response(&e, &a) {
        Err(AssertionError::Status { body, .. }) => assert_eq!(body, "<invalid utf-8>"),
        _ => panic!("expected a status failure"),
    }
}

#[test]
fn expected_header_is_consumed_once() {
    let e = expected(
        200,
        vec![header("a", None, false), header("A", None, false)],
        None,
    );
    let a = Response::full(200, pairs(&[("a", "1")]), "");
    match assert_response(&e, &a) {
        Err(AssertionError::HeaderNotFound { name }) => assert_eq!(name, "A"),
        _ => panic!("expected a missing header"),
    }
}

#[test]
fn headers_in_lowercase_keep_the_later_value() {
    let lowered = lower_headers(&pairs(&[("A", "One"), ("b", "Two"), ("a", "THREE")]));
    assert_eq!(lowered, pairs(&[("a", "three"), ("b", "two")]));
}

#[test]
fn lowered_headers_are_matched() {
    let e = vec![
        LoweredHeader {
            name: "Content-Type".to_owned(),
            lowered_name: "content-type".to_owned(),
            lowered_value: Some("text/plain".to_owned()),
            optional: false,
        },
        LoweredHeader {
            name: "ETag".to_owned(),
            lowered_name: "etag".to_owned(),
            lowered_value: None,
            optional: true,
        },
    ];
    assert!(match_headers(&e, pairs(&[("content-type", "text/plain")])).is_ok());
    assert!(match_headers(&e, pairs(&[("etag", "x"), ("content-type", "text/plain")])).is_ok());
    assert!(matches!(
        match_headers(&e, pairs(&[])),
        Err(AssertionError::HeaderNotFound { .. })
    ));
    assert!(matches!(
        match_headers(&e, pairs(&[("content-type", "text/plain"), ("x", "1"), ("y", "2")])),
        Err(AssertionError::UnexpectedHeaders { .. })
    ));
    assert!(match_headers(&vec![], pairs(&[])).is_ok());
}

#[test]
fn pairs_are_listed_as_a_map() {
    assert_eq!(list_pairs(&pairs(&[])), "{}");
    assert_eq!(list_pairs(&pairs(&[("a", "1")])), "{a: 1}");
    assert_eq!(list_pairs(&pairs(&[("a", "1"), ("b", "2")])), "{a: 1, b: 2}");
}
