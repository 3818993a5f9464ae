use netpup::errors::HttpCode;
use netpup::request::{find_sep, split_once, Headers, HttpRequest, Methods};

fn lines(v: &[&str]) -> Vec<String> {
    v.iter().map(|s| s.to_string()).collect()
}

#[test]
fn methods_by_name() {
    assert_eq!(Methods::from_str("GET"), Ok(Methods::GET));
    assert_eq!(Methods::from_str("get"), Ok(Methods::GET));
    assert_eq!(Methods::from_str("Post"), Ok(Methods::POST));
    assert_eq!(Methods::from_str("PUT"), Err(()));
    assert_eq!(Methods::from_str(""), Err(()));
    assert_eq!(Methods::from_str("GET "), Err(()));
    assert_eq!(Methods::from_str("po\u{17f}t"), Ok(Methods::POST));
    assert_eq!(Methods::from_str("POST"), Ok(Methods::POST));
    assert_eq!(Methods::from_upper("GET"), Ok(Methods::GET));
    assert_eq!(Methods::from_upper("POST"), Ok(Methods::POST));
    assert_eq!(Methods::from_upper("get"), Err(()));
    assert_eq!(Methods::GET.label(), "GET");
    assert_eq!(Methods::POST.label(), "POST");
}

#[test]
fn several_methods_by_name() {
    assert_eq!(Methods::from_str_mult(vec!["get", "POST"]), Ok(vec![Methods::GET, Methods::POST]));
    assert_eq!(Methods::from_str_mult(vec![]), Ok(vec![]));
    assert_eq!(Methods::from_str_mult(vec!["get", "nope", "post"]), Err(()));
}

#[test]
fn header_line_splits_at_first_separator() {
    assert_eq!(split_once("Host: example.org").unwrap(), ("Host", "example.org"));
    assert_eq!(split_once("A: b: c").unwrap(), ("A", "b: c"));
    assert_eq!(split_once(": x").unwrap(), ("", "x"));
    assert_eq!(split_once("K: ").unwrap(), ("K", ""));
    assert_eq!(split_once("Ключ: значение").unwrap(), ("Ключ", "значение"));
    let chars: Vec<char> = "a:b: c".chars().collect();
    assert_eq!(find_sep(&chars), Some(3));
}

#[test]
fn header_line_without_separator_is_a_bad_request() {
    for bad in ["Host:example.org", "Host", "", ":", "a:"] {
        let e = split_once(bad).unwrap_err();
        assert_eq!(e.erc, HttpCode::BadRequest);
        assert_eq!(e.details, "No details provided");
    }
}

#[test]
fn header_table_stores_and_replaces() {
    let mut h = Headers::new();
    assert_eq!(h.len(), 0);
    assert_eq!(h.get("A"), None);
    h.insert("A".to_string(), "1".to_string());
    h.insert("B".to_string(), "2".to_string());
    h.insert("A".to_string(), "3".to_string());
    assert_eq!(h.len(), 2);
    assert_eq!(h.get("A"), Some("3".to_string()));
    assert_eq!(h.get("B"), Some("2".to_string()));
    assert_eq!(h.get("a"), None);
    assert!(h.contains_key("B"));
    assert!(!h.contains_key("C"));
    assert_eq!(h.find("B"), Some(1));
    assert_eq!(h.entry(0), ("A".to_string(), "3".to_string()));
    assert_eq!(h.entry(1), ("B".to_string(), "2".to_string()));
    let copy = h.duplicate();
    assert_eq!(copy.entries, h.entries);
}

#[test]
fn headers_from_lines() {
    let h = HttpRequest::mk_headers(lines(&["Host: a", "Accept: */*", "Host: b"])).unwrap();
    assert_eq!(
        h.entries,
        vec![("Host".to_string(), "b".to_string()), ("Accept".to_string(), "*/*".to_string())]
    );
    let h = HttpRequest::mk_headers(vec![]).unwrap();
    assert_eq!(h.len(), 0);
    let e = HttpRequest::mk_headers(lines(&["Host: a", "broken"])).unwrap_err();
    assert_eq!(e.erc, HttpCode::BadRequest);
}

#[test]
fn request_from_lines() {
    let req =
        HttpRequest::from_raw(lines(&["get /index.html HTTP/1.1", "Host: example.org", "X: y"]))
            .unwrap();
    assert_eq!(req.method, Methods::GET);
    assert_eq!(req.path, "/index.html");
    assert_eq!(req.protocol_v, "HTTP/1.1");
    assert_eq!(req.host, Some("example.org".to_string()));
    assert_eq!(req.headers.get("X"), Some("y".to_string()));
    assert_eq!(req.headers.len(), 2);
    assert!(req.body.is_empty());
    assert_eq!(req.format(), "GET /index.html (example.org)");
}

#[test]
fn request_without_host() {
    let req = HttpRequest::from_raw(lines(&["POST /submit HTTP/1.0"])).unwrap();
    assert_eq!(req.method, Methods::POST);
    assert_eq!(req.host, None);
    assert_eq!(req.format(), "POST /submit (None)");
}

#[test]
fn request_line_with_empty_word_still_has_three() {
    let req = HttpRequest::from_raw(lines(&["GET  HTTP/1.1"])).unwrap();
    assert_eq!(req.path, "");
    assert_eq!(req.protocol_v, "HTTP/1.1");
}

#[test]
fn malformed_request_line_is_a_bad_request() {
    for bad in [
        vec![],
        vec![""],
        vec!["GET"],
        vec!["GET /"],
        vec!["GET / HTTP/1.1 extra"],
        vec!["GET /  HTTP/1.1"],
        vec!["FETCH / HTTP/1.1"],
        vec!["GET / HTTP/1.1", "no separator"],
    ] {
        let e = HttpRequest::from_raw(lines(&bad)).unwrap_err();
        assert_eq!(e.erc, HttpCode::BadRequest);
        assert_eq!(e.details, "No details provided");
    }
}

#[test]
fn header_split_agrees_with_the_standard_library() {
    for s in ["Host: a", "a: b: c", ": ", "::  x", "none", "", "ключ: значение: ещё", "a:b: c: d"] {
        let mut parts = s.splitn(2, ": ");
        let first = parts.next();
        let second = parts.next();
        match split_once(s) {
            Ok((name, value)) => {
                assert_eq!(Some(name), first);
                assert_eq!(Some(value), second);
            },
            Err(_) => assert!(second.is_none()),
        }
    }
}
