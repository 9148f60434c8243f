use shadowproxy::fields::HeaderFields;
use shadowproxy::headers::{
    goes_out_on_wire, headers_from_object, is_conditional_header, json_str_to_hashmap, json_to_header_map,
    materialize, normalize_header_blob, settle_stored, validate_header, FormatError, HeaderError,
    IntoHeaderMap, ValidationError,
};
use shadowproxy::wire::Stored;
use shadowproxy::json::JsonObject;

fn fields(pairs: &[(&str, &str)]) -> HeaderFields {
    let mut f = HeaderFields::new();
    for (k, v) in pairs {
        f.insert(String::from(*k), String::from(*v));
    }
    f
}

fn value<'a>(map: &'a reqwest::header::HeaderMap, name: &str) -> Option<&'a [u8]> {
    map.get(name).map(|v| v.as_bytes())
}

#[test]
fn normalize_escapes_double_quotes_then_swaps_single_quotes() {
    assert_eq!(normalize_header_blob("{'X-Foo': 'bar'}"), "{\"X-Foo\": \"bar\"}");
    assert_eq!(normalize_header_blob("{'a': 'say \"hi\"'}"), "{\"a\": \"say \\\"hi\\\"\"}");
    assert_eq!(normalize_header_blob(""), "");
    assert_eq!(normalize_header_blob("plain"), "plain");
    let blob = "{'k': 'it''s \"x\"'}";
    assert_eq!(normalize_header_blob(blob), blob.replace("\"", "\\\"").replace("'", "\""));
}

#[test]
fn a_blob_gives_its_fields() {
    let h = json_str_to_hashmap("{'X-Foo': 'bar'}").unwrap();
    assert_eq!(h.len(), 1);
    assert_eq!(h.get("X-Foo"), Some("bar"));
    assert_eq!(h.get("x-foo"), None);
    assert!(h.contains_key("X-Foo"));
}

#[test]
fn a_quoted_value_keeps_its_quotes() {
    let h = json_str_to_hashmap("{'ETag': '\"abc\"'}").unwrap();
    assert_eq!(h.get("ETag"), Some("\"abc\""));
}

#[test]
fn fields_come_in_the_order_of_the_parser_and_a_repeated_name_once() {
    let h = json_str_to_hashmap("{'b': '1', 'a': '2', 'b': '3'}").unwrap();
    assert_eq!(h.len(), 2);
    assert_eq!(h.name_at(0), "a");
    assert_eq!(h.value_at(0), "2");
    assert_eq!(h.name_at(1), "b");
    assert_eq!(h.value_at(1), "3");
}

#[test]
fn a_value_that_is_no_string_is_an_error_that_names_the_key() {
    match json_str_to_hashmap("{'a': 'x', 'n': 1, 'z': 2}") {
        Err(FormatError::NotAString(name)) => assert_eq!(name, "n"),
        other => panic!("{:?}", other),
    }
    assert_eq!(
        json_str_to_hashmap("{'n': null}").unwrap_err().message(),
        "Header value is not a string: n"
    );
}

#[test]
fn a_document_that_is_no_object_is_an_error() {
    assert!(matches!(json_str_to_hashmap("['a']"), Err(FormatError::NotAnObject)));
    assert!(matches!(json_str_to_hashmap("'a'"), Err(FormatError::NotAnObject)));
    assert!(matches!(json_str_to_hashmap("3"), Err(FormatError::NotAnObject)));
}

#[test]
fn text_that_is_no_json_is_an_error() {
    assert!(matches!(json_str_to_hashmap(""), Err(FormatError::Syntax)));
    assert!(matches!(json_str_to_hashmap("X-Foo: bar"), Err(FormatError::Syntax)));
    assert!(matches!(json_str_to_hashmap("{'a': 'b'"), Err(FormatError::Syntax)));
    assert!(matches!(json_str_to_hashmap("{\"a\": \"b\"}"), Err(FormatError::Syntax)));
    assert!(matches!(json_str_to_hashmap("{'a': 'b'} x"), Err(FormatError::Syntax)));
}

#[test]
fn an_empty_object_gives_no_fields() {
    let h = json_str_to_hashmap("{}").unwrap();
    assert!(h.is_empty());
    let map = json_to_header_map("{}").unwrap();
    assert!(map.is_empty());
}

#[test]
fn headers_from_object_takes_members_in_order() {
    let mut object = JsonObject::new();
    object.push_text(String::from("A"), String::from("1"));
    object.push_text(String::from("B"), String::from("2"));
    object.push_text(String::from("A"), String::from("3"));
    let h = headers_from_object(&object).unwrap();
    assert_eq!(h.len(), 2);
    assert_eq!(h.name_at(0), "A");
    assert_eq!(h.value_at(0), "3");
    assert_eq!(h.get("B"), Some("2"));
    object.push_other(String::from("C"));
    object.push_other(String::from("D"));
    match headers_from_object(&object) {
        Err(FormatError::NotAString(name)) => assert_eq!(name, "C"),
        other => panic!("{:?}", other),
    }
}

#[test]
fn a_conditional_header_stays_in_the_fields_and_does_not_go_out() {
    let blob = "{'X-Foo': 'bar', 'If-None-Match': 'abc', 'IF-MODIFIED-SINCE': 'then'}";
    let h = json_str_to_hashmap(blob).unwrap();
    assert_eq!(h.get("If-None-Match"), Some("abc"));
    assert_eq!(h.get("IF-MODIFIED-SINCE"), Some("then"));
    let map = json_to_header_map(blob).unwrap();
    assert_eq!(map.len(), 1);
    assert!(map.get("if-none-match").is_none());
    assert!(map.get("if-modified-since").is_none());
    assert_eq!(value(&map, "x-foo"), Some(&b"bar"[..]));
}

#[test]
fn conditional_names_in_any_case() {
    assert!(is_conditional_header("if-none-match"));
    assert!(is_conditional_header("If-None-Match"));
    assert!(is_conditional_header("  IF-MODIFIED-SINCE\t"));
    assert!(!is_conditional_header("if-match"));
    assert!(!is_conditional_header("if-none-match2"));
    assert!(!is_conditional_header(""));
}

#[test]
fn a_bad_header_is_dropped_and_the_others_go() {
    let f = fields(&[
        ("Good", "1"),
        ("Bad Name", "2"),
        ("Bad-Value", "a\nb"),
        ("", "empty"),
        ("Also-Good", "3"),
        ("Del", "a\u{7f}"),
        ("Ünï", "x"),
    ]);
    let map = materialize(&f).unwrap();
    assert_eq!(map.len(), 2);
    assert_eq!(value(&map, "good"), Some(&b"1"[..]));
    assert_eq!(value(&map, "also-good"), Some(&b"3"[..]));
}

#[test]
fn names_go_out_in_lower_case_and_a_later_field_wins() {
    let f = fields(&[("X-A", "1"), ("x-a", "2"), ("X-B", "3")]);
    let map = materialize(&f).unwrap();
    assert_eq!(map.len(), 2);
    assert_eq!(value(&map, "x-a"), Some(&b"2"[..]));
    assert_eq!(value(&map, "x-b"), Some(&b"3"[..]));
    let names: Vec<&str> = map.keys().map(|k| k.as_str()).collect();
    assert!(names.contains(&"x-a"));
    assert!(names.contains(&"x-b"));
}

#[test]
fn the_characters_that_a_name_can_be_made_of() {
    let mut n: u32 = 0;
    while n < 0x100 {
        let c = char::from_u32(n).unwrap();
        let name: String = [c].iter().collect();
        let ok = matches!(n, 33..=39 | 42 | 43 | 45 | 46 | 48..=57 | 65..=90 | 94..=122 | 124 | 126);
        let map = materialize(&fields(&[(name.as_str(), "v")])).unwrap();
        assert_eq!(map.len() == 1, ok, "char {}", n);
        assert_eq!(reqwest::header::HeaderName::from_bytes(name.as_bytes()).is_ok(), ok);
        n += 1;
    }
}

#[test]
fn the_characters_that_a_value_can_be_made_of() {
    let mut n: u32 = 0;
    while n < 0x100 {
        let c = char::from_u32(n).unwrap();
        let v: String = ['a', c].iter().collect();
        let ok = n == 9 || (n >= 32 && n != 127);
        let map = materialize(&fields(&[("k", v.as_str())])).unwrap();
        assert_eq!(map.len() == 1, ok, "char {}", n);
        if ok {
            assert_eq!(value(&map, "k"), Some(v.as_bytes()));
        }
        n += 1;
    }
    let map = materialize(&fields(&[("k", "日本語\u{2028}")])).unwrap();
    assert_eq!(value(&map, "k"), Some("日本語\u{2028}".as_bytes()));
}

#[test]
fn a_name_has_at_most_65535_characters() {
    let long: String = std::iter::repeat('a').take(65535).collect();
    let map = materialize(&fields(&[(long.as_str(), "v")])).unwrap();
    assert_eq!(map.len(), 1);
    let too_long: String = std::iter::repeat('a').take(65536).collect();
    let map = materialize(&fields(&[(too_long.as_str(), "v")])).unwrap();
    assert_eq!(map.len(), 0);
    let sixty_five: String = std::iter::repeat('B').take(65).collect();
    let map = materialize(&fields(&[(sixty_five.as_str(), "v")])).unwrap();
    assert_eq!(value(&map, &sixty_five.to_lowercase()), Some(&b"v"[..]));
    let bad: String = std::iter::repeat('a').take(70).chain(" ".chars()).collect();
    let map = materialize(&fields(&[(bad.as_str(), "v")])).unwrap();
    assert_eq!(map.len(), 0);
}

#[test]
fn a_standard_name_is_kept_like_any_other() {
    let f = fields(&[("Content-Type", "text/plain"), ("HOST", "example.com")]);
    let map = f.parse().unwrap();
    assert_eq!(value(&map, "content-type"), Some(&b"text/plain"[..]));
    assert_eq!(value(&map, "host"), Some(&b"example.com"[..]));
}

#[test]
fn a_map_that_is_full_is_the_one_failure() {
    let mut f = HeaderFields::new();
    let mut i = 0;
    while i < 24577 {
        f.insert(format!("h{}", i), String::from("v"));
        i += 1;
    }
    let e = materialize(&f).unwrap_err();
    assert!(matches!(e, HeaderError::Full));
    assert_eq!(e.message(), "Too many headers");
}

#[test]
fn a_malformed_blob_gives_a_format_error() {
    assert!(matches!(
        json_to_header_map("nonsense"),
        Err(HeaderError::Format(FormatError::Syntax))
    ));
    assert!(matches!(
        json_to_header_map("{'a': 1}"),
        Err(HeaderError::Format(FormatError::NotAString(_)))
    ));
}

#[test]
fn insert_sets_in_place_or_at_the_end() {
    let mut f = fields(&[("a", "1"), ("b", "2")]);
    f.insert(String::from("a"), String::from("3"));
    f.insert(String::from("c"), String::from("4"));
    f.insert(String::from("A"), String::from("5"));
    assert_eq!(f.len(), 4);
    assert_eq!(f.name_at(0), "a");
    assert_eq!(f.value_at(0), "3");
    assert_eq!(f.name_at(2), "c");
    assert_eq!(f.name_at(3), "A");
    assert_eq!(f.get("zz"), None);
    let g = f.clone();
    assert_eq!(g.len(), 4);
    assert_eq!(g.get("c"), Some("4"));
    f.names_are_distinct();
}

#[test]
fn which_fields_go_out() {
    assert!(goes_out_on_wire("X-Foo", "bar"));
    assert!(goes_out_on_wire("x\"y", ""));
    assert!(!goes_out_on_wire("If-None-Match", "bar"));
    assert!(!goes_out_on_wire("X Foo", "bar"));
    assert!(!goes_out_on_wire("X-Foo", "b\rar"));
    assert!(!goes_out_on_wire("", "bar"));
}

#[test]
fn what_follows_from_each_outcome_of_storing() {
    assert!(matches!(settle_stored(Stored::Kept), Ok(None)));
    assert!(matches!(settle_stored(Stored::BadName), Ok(Some(ValidationError::Name))));
    assert!(matches!(settle_stored(Stored::BadValue), Ok(Some(ValidationError::Value))));
    assert!(matches!(settle_stored(Stored::Full), Err(HeaderError::Full)));
}

#[test]
fn what_is_wrong_with_a_field() {
    assert_eq!(validate_header("X-Foo", "bar"), Ok(()));
    assert_eq!(validate_header("If-None-Match", "x"), Ok(()));
    assert_eq!(validate_header("X Foo", "bar"), Err(ValidationError::Name));
    assert_eq!(validate_header("", "bar"), Err(ValidationError::Name));
    assert_eq!(validate_header("X:", "bar"), Err(ValidationError::Name));
    assert_eq!(validate_header("X-Foo", "a\nb"), Err(ValidationError::Value));
    assert_eq!(validate_header("X-Foo", "\u{0}"), Err(ValidationError::Value));
    assert_eq!(validate_header("X Foo", "a\nb"), Err(ValidationError::Name));
    assert_eq!(validate_header("X-Foo", "\ttab"), Ok(()));
}

#[test]
fn no_other_character_turns_a_name_into_a_conditional_one() {
    let mut n: u32 = 0;
    while n <= 0x10ffff {
        if let Some(c) = char::from_u32(n) {
            if !c.is_ascii() && (c.is_uppercase() || c.is_whitespace() || n < 0x3000) {
                for name in [format!("{}f-none-match", c), format!("if-modified-sinc{}", c)] {
                    let lowered = name.trim().to_lowercase();
                    let conditional = lowered == "if-modified-since" || lowered == "if-none-match";
                    assert_eq!(is_conditional_header(&name), conditional, "char {:x}", n);
                }
            }
        }
        n += 1;
    }
    assert!(is_conditional_header("\u{3000}If-None-Match\u{a0}"));
}

#[test]
fn a_conditional_header_beside_another_leaves_the_other_alone() {
    let h = json_to_header_map("{'if-none-match': 'abc', 'X-Foo': 'bar'}").unwrap();
    assert_eq!(h.len(), 1);
    assert_eq!(h.get("x-foo").unwrap(), "bar");
    assert!(h.get("if-none-match").is_none());
}

#[test]
fn fields_that_the_wire_accepts_all_go_out_but_the_conditional_ones() {
    let blob = "{'Accept': '*/*', 'If-Modified-Since': 'then', 'X-A': 'a b', 'x-b': ''}";
    let m = json_str_to_hashmap(blob).unwrap();
    let h = json_to_header_map(blob).unwrap();
    assert_eq!(h.len(), 3);
    let mut i = 0;
    while i < m.len() {
        let name = m.name_at(i).to_lowercase();
        if name == "if-modified-since" || name == "if-none-match" {
            assert!(h.get(name.as_str()).is_none());
        } else {
            assert_eq!(h.get(name.as_str()).unwrap().as_bytes(), m.value_at(i).as_bytes());
        }
        i += 1;
    }
}

#[test]
fn a_blob_with_one_bad_name_gives_the_rest() {
    let h = json_to_header_map("{'Bad Name': 'x', 'X-Ok': '1'}").unwrap();
    assert_eq!(h.len(), 1);
    assert_eq!(h.get("x-ok").unwrap(), "1");
}

#[test]
fn fields_with_one_bad_name_and_one_bad_value_give_the_one_good_header() {
    let m = fields(&[("X-Ok", "1"), ("Bad Name", "x"), ("X-V", "a\nb")]);
    let h = m.parse().unwrap();
    assert_eq!(h.len(), 1);
    assert_eq!(h.get("x-ok").unwrap(), "1");
}

#[test]
fn fields_with_both_conditional_names_give_the_other_alone() {
    let m = fields(&[("If-None-Match", "abc"), ("If-Modified-Since", "x"), ("X-Foo", "bar")]);
    let h = m.parse().unwrap();
    assert_eq!(h.len(), 1);
    assert_eq!(h.get("x-foo").unwrap(), "bar");
    assert!(h.get("if-none-match").is_none());
    assert!(h.get("if-modified-since").is_none());
}

#[test]
fn a_map_with_room_takes_every_field() {
    let mut f = HeaderFields::new();
    let mut i = 0;
    while i < 6553 {
        f.insert(format!("h{}", i), String::from("v"));
        i += 1;
    }
    assert_eq!(materialize(&f).unwrap().len(), 6553);
    while i < 24576 {
        f.insert(format!("h{}", i), String::from("v"));
        i += 1;
    }
    assert_eq!(materialize(&f).unwrap().len(), 24576);
}
