use conformance_harness::http::{find_header, set_header, IntoChunks, Method, Request, Response};

fn pairs(list: &[(&str, &str)]) -> Vec<(String, String)> {
    list.iter().map(|(k, v)| (k.to_string(), v.to_string())).collect()
}

#[test]
fn new_request_has_no_headers_and_no_body() {
    let r = Request::new(Method::Get, "/path");
    assert!(matches!(r.method, Method::Get));
    assert_eq!(r.path, "/path");
    assert!(r.headers.is_empty());
    assert!(r.body.is_none());
}

#[test]
fn full_request_keeps_its_parts() {
    let headers = [("accept", "*/*")];
    let r = Request::full(Method::Post, "/p", &headers, Some("body".to_owned()));
    assert!(matches!(r.method, Method::Post));
    assert_eq!(r.path, "/p");
    assert_eq!(r.headers, &headers);
    assert_eq!(r.body.as_deref(), Some("body"));
}

#[test]
fn new_response_is_empty() {
    let r = Response::new(204);
    assert_eq!(r.status(), 204);
    assert!(r.headers().is_empty());
    assert!(r.chunks().is_empty());
    assert!(r.body().is_empty());
    assert_eq!(r.text().unwrap(), "");
}

#[test]
fn body_is_the_chunks_joined() {
    let r = Response::new_with_body(200, vec![b"hel".to_vec(), vec![], b"lo".to_vec()]);
    assert_eq!(r.chunks().len(), 3);
    assert_eq!(r.body(), b"hello".to_vec());
    assert_eq!(r.text().unwrap(), "hello");
}

#[test]
fn body_that_is_no_utf8_has_no_text() {
    let r = Response::new_with_body(200, vec![0xc3u8]);
    assert!(r.text().is_err());
    assert_eq!(r.body(), vec![0xc3u8]);
}

#[test]
fn full_response_keeps_one_header_per_name() {
    let r = Response::full(
        200,
        pairs(&[("a", "1"), ("b", "2"), ("a", "3"), ("A", "4")]),
        "x",
    );
    assert_eq!(r.status(), 200);
    assert_eq!(r.headers(), &pairs(&[("a", "3"), ("b", "2"), ("A", "4")]));
    assert_eq!(r.body(), b"x".to_vec());
}

#[test]
fn chunks_of_bodies() {
    assert_eq!("añ".into_chunks(), vec!["añ".as_bytes().to_vec()]);
    assert_eq!("añ".to_owned().into_chunks(), vec!["añ".as_bytes().to_vec()]);
    assert_eq!(vec![1u8, 2].into_chunks(), vec![vec![1u8, 2]]);
    assert_eq!(vec![vec![1u8], vec![2u8]].into_chunks(), vec![vec![1u8], vec![2u8]]);
}

#[test]
fn headers_are_found_and_set() {
    let mut h = pairs(&[("a", "1"), ("b", "2")]);
    assert_eq!(find_header(&h, "b"), 1);
    assert_eq!(find_header(&h, "c"), 2);
    set_header(&mut h, "b".to_owned(), "3".to_owned());
    set_header(&mut h, "c".to_owned(), "4".to_owned());
    assert_eq!(h, pairs(&[("a", "1"), ("b", "3"), ("c", "4")]));
}
