use shadowproxy::decode::{BodyError, Codec, DecodeError};
use shadowproxy::dispatch::{
    body_text_shown, outcome_text, plan, plan_as_captured, plan_replay, Context, Exchange,
    PlanError, ResultSlots,
};
use shadowproxy::headers::{FormatError, HeaderError};
use shadowproxy::model::{ParseFailure, RequestData, RequestDataProper};
use std::io::Write;

fn request(method: &str, url: &str, version: &str, headers: &str, body: &str) -> RequestData {
    RequestData::new(
        String::from("HTTP Request"),
        String::from(version),
        String::from(method),
        String::from(url),
        String::from(headers),
        String::from(body),
    )
}

#[test]
fn a_captured_request_is_sent_as_it_stands() {
    let d = request(
        "PATCH",
        "https://example.com/a?b=c",
        "HTTP/1.1",
        "{'X-Test': '1', 'If-None-Match': 'x', 'Bad Name': 'y'}",
        "payload",
    );
    let out = plan_as_captured(&d).unwrap();
    assert_eq!(out.method, "PATCH");
    assert_eq!(out.url, "https://example.com/a?b=c");
    assert_eq!(out.body.as_deref(), Some("payload"));
    let headers = out.headers.unwrap();
    assert_eq!(headers.len(), 1);
    assert_eq!(headers.get("x-test").unwrap().as_bytes(), b"1");
}

#[test]
fn nothing_is_attached_where_body_and_blob_are_empty() {
    let d = request("GET", "https://example.com/", "HTTP/1.1", "", "");
    let out = plan_as_captured(&d).unwrap();
    assert!(out.body.is_none());
    assert!(out.headers.is_none());
    let d = request("GET", "https://example.com/", "HTTP/1.1", "{}", "");
    assert!(plan_as_captured(&d).unwrap().headers.unwrap().is_empty());
}

#[test]
fn a_blob_that_cannot_be_read_sends_nothing() {
    let d = request("GET", "https://example.com/", "HTTP/1.1", "X: y", "");
    assert!(matches!(plan_as_captured(&d), Err(HeaderError::Format(FormatError::Syntax))));
}

#[test]
fn the_editor_sends_what_its_text_reads_as() {
    let d = request(
        "POST",
        "https://example.com/a?b=c#d",
        "HTTP/2.0",
        "{'X-Test': '1', 'if-modified-since': 'x'}",
        "payload",
    );
    let out = plan_replay(&d).unwrap();
    assert_eq!(out.method, "POST");
    assert_eq!(out.url, "https://example.com/a?b=c#d");
    assert_eq!(out.body.as_deref(), Some("payload"));
    let headers = out.headers.unwrap();
    assert_eq!(headers.len(), 1);
    assert_eq!(headers.get("x-test").unwrap().as_bytes(), b"1");
}

#[test]
fn text_that_does_not_read_strictly_sends_nothing() {
    let d = request("FETCH", "https://example.com/", "HTTP/1.1", "{}", "");
    match plan_replay(&d) {
        Err(PlanError::Parse(ParseFailure::UnknownMethod(t))) => assert_eq!(t, "FETCH"),
        other => panic!("{:?}", other),
    }
    assert_eq!(plan_replay(&d).unwrap_err().message(), "Unsupported HTTP method: FETCH");
    let d = request("GET", "not a url", "HTTP/1.1", "{}", "");
    match plan_replay(&d) {
        Err(PlanError::Parse(ParseFailure::UnknownMethod(t))) => assert_eq!(t, "Invalid"),
        other => panic!("{:?}", other),
    }
}

#[test]
fn a_canonical_request_is_sent_with_its_fields() {
    let q = RequestDataProper::from_str("DELETE /x HTTP/3.0\nHost: h.example\nA: 1").unwrap();
    let out = plan(&q).unwrap();
    assert_eq!(out.method, "DELETE");
    assert_eq!(out.url, "https://h.example/x");
    assert!(out.body.is_none());
    assert_eq!(out.headers.unwrap().get("a").unwrap().as_bytes(), b"1");
    let q = RequestDataProper::from_str("GET /x HTTP/1.1\nHost: h.example").unwrap();
    assert!(plan(&q).unwrap().headers.is_none());
}

#[test]
fn what_is_shown_when_the_exchange_is_over() {
    assert_eq!(
        outcome_text(&Exchange::Failed),
        "Failed to send request, check your internet connection OR network Setting."
    );
    let mut e = flate2::write::GzEncoder::new(Vec::new(), flate2::Compression::default());
    e.write_all("grüße".as_bytes()).unwrap();
    let packed = e.finish().unwrap();
    let answered = Exchange::Answered { encoding: Some(String::from("gzip")), body: packed };
    assert_eq!(outcome_text(&answered), "grüße");
    let plain = Exchange::Answered { encoding: None, body: b"plain".to_vec() };
    assert_eq!(outcome_text(&plain), "plain");
    let broken = Exchange::Answered { encoding: Some(String::from("gzip")), body: b"x".to_vec() };
    assert_eq!(outcome_text(&broken), "Failed to decompress gzip data");
    let not_text = Exchange::Answered { encoding: None, body: vec![0xff] };
    assert_eq!(outcome_text(&not_text), "Wrong sequence of UTF-8 bytes.");
}

#[test]
fn each_failure_has_its_own_line() {
    assert_eq!(body_text_shown(Ok(String::from("t"))), "t");
    assert_eq!(body_text_shown(Err(BodyError::InvalidText)), "Wrong sequence of UTF-8 bytes.");
    assert_eq!(
        body_text_shown(Err(BodyError::Decode(DecodeError { codec: Codec::Gzip }))),
        "Failed to decompress gzip data"
    );
    assert_eq!(
        body_text_shown(Err(BodyError::Decode(DecodeError { codec: Codec::Deflate }))),
        "Failed to decompress deflate data"
    );
    assert_eq!(
        body_text_shown(Err(BodyError::Decode(DecodeError { codec: Codec::Brotli }))),
        "Failed to decompress brotli data"
    );
}

#[test]
fn two_dispatches_write_each_to_their_own_slot() {
    let mut slots = ResultSlots::new();
    assert_eq!(slots.read(Context::Proxy), "");
    assert_eq!(slots.read(Context::Repeater), "");
    let first = outcome_text(&Exchange::Answered { encoding: None, body: b"first".to_vec() });
    let second = outcome_text(&Exchange::Failed);
    slots.write(Context::Proxy, first);
    slots.write(Context::Repeater, second);
    assert_eq!(slots.read(Context::Proxy), "first");
    assert_eq!(
        slots.read(Context::Repeater),
        "Failed to send request, check your internet connection OR network Setting."
    );
    slots.write(Context::Proxy, String::from("x"));
    assert_eq!(slots.read(Context::Proxy), "x");
    assert_eq!(
        slots.read(Context::Repeater),
        "Failed to send request, check your internet connection OR network Setting."
    );
}

#[test]
fn recording_an_exchange_writes_its_text_to_the_slot_of_its_context() {
    let mut slots = ResultSlots::new();
    slots.write(Context::Proxy, String::from("kept"));
    slots.record(Context::Repeater, &Exchange::Answered { encoding: None, body: b"ok".to_vec() });
    assert_eq!(slots.read(Context::Repeater), "ok");
    assert_eq!(slots.read(Context::Proxy), "kept");
    slots.record(Context::Proxy, &Exchange::Failed);
    assert_eq!(
        slots.read(Context::Proxy),
        "Failed to send request, check your internet connection OR network Setting."
    );
    assert_eq!(slots.read(Context::Repeater), "ok");
}

fn blob_of(count: usize) -> String {
    let mut blob = String::from("{");
    let mut i = 0;
    while i < count {
        if i > 0 {
            blob.push(',');
        }
        blob.push_str(&format!("'h{}':'v'", i));
        i += 1;
    }
    blob.push('}');
    blob
}

#[test]
fn a_wire_map_that_is_full_sends_nothing_as_captured() {
    let d = request("GET", "https://example.com/", "HTTP/1.1", &blob_of(24577), "");
    assert!(matches!(plan_as_captured(&d), Err(HeaderError::Full)));
}

#[test]
fn a_wire_map_that_is_full_sends_nothing_from_the_editor() {
    let d = request("GET", "https://example.com/", "HTTP/1.1", &blob_of(24577), "");
    match plan_replay(&d) {
        Err(e) => {
            assert!(matches!(e, PlanError::Headers(HeaderError::Full)));
            assert_eq!(e.message(), "Too many headers");
        }
        Ok(out) => panic!("{:?}", out.url),
    }
}
