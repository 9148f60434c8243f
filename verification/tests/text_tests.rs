use shadowproxy::text::{
    chars_of, is_blank, joined, lines_of, same, single, split_first, str_eq, string_of, to_lower,
    trimmed, pair,
};

fn v(s: &str) -> Vec<char> {
    chars_of(s)
}

fn s(v: &Vec<char>) -> String {
    string_of(v)
}

#[test]
fn chars_and_string_round_trip() {
    let text = "héllo\n\tworld \u{3000}";
    assert_eq!(string_of(&chars_of(text)), text);
    assert_eq!(chars_of("ab"), vec!['a', 'b']);
    assert_eq!(chars_of(""), Vec::<char>::new());
}

#[test]
fn trim_takes_unicode_white_space_off_both_ends() {
    assert_eq!(s(&trimmed(&v("  a b \t\r\n"))), "a b");
    assert_eq!(s(&trimmed(&v("\u{a0}\u{2003}x\u{3000}\u{85}"))), "x");
    assert_eq!(s(&trimmed(&v(" \n "))), "");
    assert_eq!(s(&trimmed(&v(""))), "");
    assert_eq!(s(&trimmed(&v("\u{200b}x"))), "\u{200b}x");
}

#[test]
fn trim_agrees_with_std_on_every_single_char() {
    let mut n: u32 = 0;
    while n <= 0x10ffff {
        if let Some(c) = char::from_u32(n) {
            if c.is_whitespace() || n < 0x3100 {
                let text: String = [c, 'x', c].iter().collect();
                assert_eq!(s(&trimmed(&v(&text))), text.trim(), "char {:x}", n);
            } else {
                assert!(!is_blank(&vec![c]), "char {:x}", n);
            }
        }
        n += 1;
    }
}

#[test]
fn lines_split_at_line_feeds() {
    let got: Vec<String> = lines_of(&v("a\r\nb\n\nc\r")).iter().map(s).collect();
    let want: Vec<String> = "a\r\nb\n\nc\r".lines().map(String::from).collect();
    assert_eq!(got, want);
    assert_eq!(got, vec!["a", "b", "", "c\r"]);
    assert_eq!(lines_of(&v("")).len(), 0);
    let one: Vec<String> = lines_of(&v("x\n")).iter().map(s).collect();
    assert_eq!(one, vec!["x"]);
    let two: Vec<String> = lines_of(&v("\n\r\n")).iter().map(s).collect();
    assert_eq!(two, vec!["", ""]);
}

#[test]
fn split_first_cuts_at_the_first_occurrence() {
    let (a, b) = split_first(&v("k: v: w"), &pair(':', ' ')).unwrap();
    assert_eq!(s(&a), "k");
    assert_eq!(s(&b), "v: w");
    assert!(split_first(&v("k:v"), &pair(':', ' ')).is_none());
    let (a, b) = split_first(&v(":x"), &single(':')).unwrap();
    assert_eq!(s(&a), "");
    assert_eq!(s(&b), "x");
    let (a, b) = split_first(&v("abc"), &v("")).unwrap();
    assert_eq!(s(&a), "");
    assert_eq!(s(&b), "abc");
}

#[test]
fn join_puts_the_separator_between() {
    let parts = vec![v("a"), v(""), v("c")];
    assert_eq!(s(&joined(&parts, &single('\n'))), "a\n\nc");
    assert_eq!(s(&joined(&vec![v("a")], &single('\n'))), "a");
    assert_eq!(s(&joined(&Vec::new(), &single('\n'))), "");
}

#[test]
fn lower_case_is_ascii_only() {
    assert_eq!(s(&to_lower(&v("If-None-MATCH Ä[@`Z"))), "if-none-match Ä[@`z");
}

#[test]
fn blank_and_equality() {
    assert!(is_blank(&v(" \t\u{a0}")));
    assert!(is_blank(&v("")));
    assert!(!is_blank(&v(" . ")));
    assert!(same(&v("gzip"), "gzip"));
    assert!(!same(&v("gzip"), "gzi"));
    assert!(str_eq("a", "a"));
    assert!(!str_eq("a", "A"));
}
