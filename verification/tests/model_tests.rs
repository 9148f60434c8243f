use shadowproxy::model::{HttpMethod, HttpVersion, ParseFailure, RequestData};

#[test]
fn methods_are_named_by_their_tokens() {
    let all = [
        (HttpMethod::GET, "GET"),
        (HttpMethod::POST, "POST"),
        (HttpMethod::PUT, "PUT"),
        (HttpMethod::DELETE, "DELETE"),
        (HttpMethod::OPTIONS, "OPTIONS"),
        (HttpMethod::CONNECT, "CONNECT"),
        (HttpMethod::TRACE, "TRACE"),
    ];
    for (m, t) in all {
        assert_eq!(m.as_str(), t);
        assert_eq!(HttpMethod::from_str(t).unwrap(), m);
    }
}

#[test]
fn an_unknown_method_is_an_error_that_names_it() {
    match HttpMethod::from_str("FETCH") {
        Err(ParseFailure::UnknownMethod(t)) => assert_eq!(t, "FETCH"),
        other => panic!("{:?}", other),
    }
    assert!(matches!(HttpMethod::from_str("get"), Err(ParseFailure::UnknownMethod(_))));
    assert!(matches!(HttpMethod::from_str("Invalid"), Err(ParseFailure::UnknownMethod(_))));
    assert!(matches!(HttpMethod::from_str(""), Err(ParseFailure::UnknownMethod(_))));
    assert_eq!(
        HttpMethod::from_str("FETCH").unwrap_err().message(),
        "Unsupported HTTP method: FETCH"
    );
}

#[test]
fn versions_are_named_by_their_tokens() {
    assert_eq!(HttpVersion::from_str("HTTP/0.9").unwrap(), HttpVersion::Http0_9);
    assert_eq!(HttpVersion::from_str("HTTP/1.1").unwrap(), HttpVersion::Http1_1);
    assert_eq!(HttpVersion::from_str("HTTP/2.0").unwrap(), HttpVersion::Http2_0);
    assert_eq!(HttpVersion::from_str("HTTP/3.0").unwrap(), HttpVersion::Http3_0);
    match HttpVersion::from_str("HTTP/1.0") {
        Err(ParseFailure::UnknownVersion(t)) => assert_eq!(t, "HTTP/1.0"),
        other => panic!("{:?}", other),
    }
    assert_eq!(HttpVersion::Http2_0.as_str(), "HTTP/2.0");
    assert_eq!(HttpVersion::Unknown.as_str(), "");
}

#[test]
fn the_scheme_follows_the_version() {
    assert_eq!(HttpVersion::Http0_9.scheme_str(), "http");
    assert_eq!(HttpVersion::Http1_1.scheme_str(), "http");
    assert_eq!(HttpVersion::Http2_0.scheme_str(), "https");
    assert_eq!(HttpVersion::Http3_0.scheme_str(), "https");
    assert_eq!(HttpVersion::Unknown.scheme_str(), "http");
}

#[test]
fn new_empty_and_clone() {
    let request = RequestData::new(
        String::from("HTTP Request"),
        String::from("HTTP/1.1"),
        String::from("GET"),
        String::from("https://example.com"),
        String::from("Content-Type: application/json"),
        String::from(""),
    );
    assert_eq!(request.url, "https://example.com");
    let copy = request.clone();
    assert_eq!(request.request_type, copy.request_type);
    assert_eq!(request.http_version, copy.http_version);
    assert_eq!(request.method, copy.method);
    assert_eq!(request.url, copy.url);
    assert_eq!(request.headers, copy.headers);
    assert_eq!(request.body, copy.body);
    let empty = RequestData::empty();
    assert_eq!(empty.request_type, "");
    assert_eq!(empty.http_version, "");
    assert_eq!(empty.method, "");
    assert_eq!(empty.url, "");
    assert_eq!(empty.headers, "");
    assert_eq!(empty.body, "");
}

#[test]
fn the_message_of_each_parse_failure() {
    assert_eq!(ParseFailure::MissingRequestLine.message(), "Missing request line");
    assert_eq!(ParseFailure::MissingHostLine.message(), "No host line");
    assert_eq!(ParseFailure::MalformedHostLine.message(), "Malformed host line");
    assert_eq!(ParseFailure::MissingTarget.message(), "Missing URL");
    assert_eq!(ParseFailure::MissingVersion.message(), "Missing HTTP version");
    assert_eq!(
        ParseFailure::UnknownVersion(String::from("HTTP/9")).message(),
        "Unsupported HTTP version: HTTP/9"
    );
}
