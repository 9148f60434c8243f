use shadowproxy::fields::HeaderFields;
use shadowproxy::headers::json_str_to_hashmap;
use shadowproxy::model::{ParseFailure, RequestData};
use shadowproxy::permissive::{fields_from_lines, shown_fields_of};
use shadowproxy::urls::UrlParts;

fn request(method: &str, url: &str, version: &str, headers: &str, body: &str) -> RequestData {
    RequestData::new(
        String::from("HTTP Request"),
        String::from(version),
        String::from(method),
        String::from(url),
        String::from(headers),
        String::from(body),
    )
}

#[test]
fn serialization_shows_path_query_and_fragment() {
    let d = request("GET", "https://example.com/a?b=c#d", "HTTP/1.1", "{'X-Test':'1'}", "");
    let text = d.to_string();
    assert_eq!(text.lines().next(), Some("GET /a?b=c#d HTTP/1.1"));
    assert_eq!(text, "GET /a?b=c#d HTTP/1.1\nHost: example.com\nX-Test: 1\n\n");
}

#[test]
fn reparsing_recovers_method_path_query_and_fragment() {
    let d = request("GET", "https://example.com/a?b=c#d", "HTTP/1.1", "{'X-Test':'1'}", "");
    let back = RequestData::from_str(d.to_string().as_str()).unwrap();
    assert_eq!(back.method, "GET");
    assert_eq!(back.url, "https://example.com/a?b=c#d");
    assert_eq!(back.http_version, "HTTP/1.1");
    assert_eq!(back.headers, "X-Test: 1");
    assert_eq!(back.body, "");
    assert_eq!(back.request_type, "HTTP Request");
}

#[test]
fn the_query_is_left_out_where_there_is_none() {
    let d = request("POST", "http://h.example/p", "HTTP/2.0", "{}", "x=1");
    assert_eq!(d.to_string(), "POST /p HTTP/2.0\nHost: h.example\n\nx=1\n");
    let d = request("GET", "http://h.example/p?", "HTTP/1.1", "{}", "");
    assert_eq!(d.to_string(), "GET /p? HTTP/1.1\nHost: h.example\n\n");
    let d = request("GET", "http://h.example/p#f", "HTTP/1.1", "{}", "");
    assert_eq!(d.to_string(), "GET /p#f HTTP/1.1\nHost: h.example\n\n");
    let d = request("GET", "http://h.example", "HTTP/1.1", "{}", "");
    assert_eq!(d.to_string(), "GET / HTTP/1.1\nHost: h.example\n\n");
}

#[test]
fn the_port_is_not_part_of_the_host_and_ipv6_keeps_its_brackets() {
    let d = request("GET", "http://h.example:8080/p", "HTTP/1.1", "{}", "");
    assert_eq!(d.to_string(), "GET /p HTTP/1.1\nHost: h.example\n\n");
    let d = request("GET", "http://[::1]:8080/p", "HTTP/1.1", "{}", "");
    assert_eq!(d.to_string(), "GET /p HTTP/1.1\nHost: [::1]\n\n");
    let d = request("GET", "http://EXAMPLE.com/A%20b?q=%41", "HTTP/1.1", "{}", "");
    assert_eq!(d.to_string(), "GET /A%20b?q=%41 HTTP/1.1\nHost: example.com\n\n");
}

#[test]
fn a_url_without_host_shows_none() {
    let d = request("GET", "mailto:someone@example.com", "HTTP/1.1", "{}", "");
    assert_eq!(d.to_string(), "GET someone@example.com HTTP/1.1\nHost: (none)\n\n");
}

#[test]
fn a_url_that_cannot_be_parsed_is_shown_as_one_line() {
    let d = request("GET", "/relative/only", "HTTP/1.1", "{'a': 'b'}", "body");
    assert_eq!(d.to_string(), "Invalid URL: /relative/only\n");
    assert_eq!(RequestData::empty().to_string(), "Invalid URL: \n");
}

#[test]
fn a_blob_that_cannot_be_read_is_shown_line_by_line() {
    let d = request(
        "GET",
        "https://example.com/",
        "HTTP/1.1",
        "X-Test: 1\nAccept:*/*\nno colon here\nX-Test:2",
        "",
    );
    assert_eq!(
        d.to_string(),
        "GET / HTTP/1.1\nHost: example.com\nX-Test: 2\nAccept: */*\n\n"
    );
    let d = request("GET", "https://example.com/", "HTTP/1.1", "", "");
    assert_eq!(d.to_string(), "GET / HTTP/1.1\nHost: example.com\n\n");
}

#[test]
fn fields_from_lines_cut_at_the_first_colon() {
    let f = fields_from_lines("a: b: c\r\nd:\n:e\nf");
    assert_eq!(f.len(), 3);
    assert_eq!(f.get("a"), Some(" b: c"));
    assert_eq!(f.get("d"), Some(""));
    assert_eq!(f.get(""), Some("e"));
    let g = shown_fields_of(json_str_to_hashmap("k:v"), "k:v");
    assert_eq!(g.get("k"), Some("v"));
    let h = shown_fields_of(json_str_to_hashmap("{'k':'v'}"), "{'k':'v'}");
    assert_eq!(h.len(), 1);
    assert_eq!(h.get("k"), Some("v"));
}

#[test]
fn to_string_with_takes_what_it_is_given() {
    let d = request("PUT", "ignored", "HTTP/1.1", "ignored", "b");
    let parts = Some(UrlParts {
        path: String::from("/x"),
        query: Some(String::from("q")),
        fragment: None,
        host: None,
    });
    let mut f = HeaderFields::new();
    f.insert(String::from("K"), String::from("V"));
    assert_eq!(d.to_string_with(&parts, &f), "PUT /x?q HTTP/1.1\nHost: (none)\nK: V\n\nb\n");
    assert_eq!(d.to_string_with(&None, &f), "Invalid URL: ignored\n");
}

#[test]
fn permissive_reading() {
    let text = "\n  POST /submit?x=1 HTTP/1.1\r\nHost:  example.com:8443 \r\n  A: 1  \r\nB:2\n\nline one\n\nline two\n\n";
    let d = RequestData::from_str(text).unwrap();
    assert_eq!(d.request_type, "HTTP Request");
    assert_eq!(d.method, "POST");
    assert_eq!(d.http_version, "HTTP/1.1");
    assert_eq!(d.url, "https://example.com:8443/submit?x=1");
    assert_eq!(d.headers, "A: 1\nB:2");
    assert_eq!(d.body, "line one\n\nline two");
}

#[test]
fn the_second_line_is_the_host_line_whatever_its_name() {
    let d = RequestData::from_str("GET / HTTP/1.1\nX-Other: value\nHost: ignored").unwrap();
    assert_eq!(d.url, "https://value/");
    assert_eq!(d.headers, "Host: ignored");
    let d = RequestData::from_str("GET /p HTTP/1.1 extra\nHost:h").unwrap();
    assert_eq!(d.url, "https://h/p");
    assert_eq!(d.http_version, "HTTP/1.1");
    assert_eq!(d.headers, "");
}

#[test]
fn permissive_reading_names_what_is_missing() {
    assert!(matches!(RequestData::from_str(""), Err(ParseFailure::MissingRequestLine)));
    assert!(matches!(RequestData::from_str(" \n\t "), Err(ParseFailure::MissingRequestLine)));
    assert!(matches!(RequestData::from_str("GET / HTTP/1.1"), Err(ParseFailure::MissingHostLine)));
    assert!(matches!(
        RequestData::from_str("GET / HTTP/1.1\n\nHost: x"),
        Err(ParseFailure::MissingHostLine)
    ));
    assert!(matches!(
        RequestData::from_str("GET / HTTP/1.1\nHost example.com"),
        Err(ParseFailure::MalformedHostLine)
    ));
    assert!(matches!(RequestData::from_str("GET\nHost: x"), Err(ParseFailure::MissingTarget)));
    assert!(matches!(RequestData::from_str("GET /\nHost: x"), Err(ParseFailure::MissingVersion)));
    assert!(matches!(RequestData::from_str("GET\nno colon"), Err(ParseFailure::MalformedHostLine)));
}
