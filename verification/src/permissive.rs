//! The permissive reading and writing of request text, as the editor
//! shows it.
//!
//! The text is a request line, a `Host` line, header lines, an empty line
//! and the body. Reading does not check the header lines: they become the
//! header blob as they stand. Writing never fails: a URL or a header blob
//! that cannot be parsed is shown as well as it can be.

use vstd::prelude::*;
use crate::fields::{put, Fields, HeaderFields};
use crate::headers::{fields_of_blob, json_str_to_hashmap, FormatError, FormatFault};
use crate::model::{ParseFailure, ParseFault, RequestData, RequestDataView};
use crate::strict::gap;
use crate::text::{
    after_word,
    append,
    chars_of,
    find,
    first_word,
    join,
    joined,
    lemma_views_push,
    lines,
    lines_of,
    newline,
    pair,
    single,
    slice_of,
    split_first,
    string_of,
    trim,
    trimmed,
    views,
    word_from,
};
use crate::urls::{split_url, url_parts, UrlParts, UrlPartsView};

verus! {

/// What stands before the first empty line of `t`; all of `t` where it
/// holds none.
pub open spec fn head_block(t: Seq<char>) -> Seq<char> {
    match find(t, gap()) {
        Some(i) => t.take(i),
        None => t,
    }
}

/// What stands behind the first empty line of `t`; nothing where it holds
/// none.
pub open spec fn body_block(t: Seq<char>) -> Seq<char> {
    match find(t, gap()) {
        Some(i) => t.skip(i + 2),
        None => Seq::empty(),
    }
}

/// Each line of `ls` without the white space at its ends.
pub open spec fn trimmed_lines(ls: Seq<Seq<char>>) -> Seq<Seq<char>> {
    Seq::new(ls.len(), |i: int| trim(ls[i]))
}

/// The colon.
pub open spec fn colon() -> Seq<char> {
    seq![':']
}

/// What the permissive reading of `s` gives.
///
/// The text is taken without the white space at its ends. Its first line
/// holds method, request target and version, in this order and parted by
/// white space. Its second line is taken to be the `Host` line, whatever
/// its name: the host is what follows its first colon. The other lines up
/// to the first empty line are the header blob, the rest is the body.
pub open spec fn parse_permissive(s: Seq<char>) -> Result<RequestDataView, ParseFault> {
    let t = trim(s);
    let ls = lines(head_block(t));
    if ls.len() == 0 {
        Err(ParseFault::MissingRequestLine)
    } else if ls.len() == 1 {
        Err(ParseFault::MissingHostLine)
    } else {
        match find(ls[1], colon()) {
            None => Err(ParseFault::MalformedHostLine),
            Some(c) => {
                let method = first_word(ls[0]);
                let rest = after_word(ls[0]);
                let target = first_word(rest);
                let version = first_word(after_word(rest));
                if target.len() == 0 {
                    Err(ParseFault::MissingTarget)
                } else if version.len() == 0 {
                    Err(ParseFault::MissingVersion)
                } else {
                    Ok(
                        RequestDataView {
                            request_type: "HTTP Request"@,
                            http_version: version,
                            method: method,
                            url: "https://"@ + trim(ls[1].skip(c + 1)) + target,
                            headers: join(trimmed_lines(ls.skip(2)), newline()),
                            body: trim(body_block(t)),
                        },
                    )
                }
            },
        }
    }
}

/// The lines `ls[2..]`, each without the white space at its ends.
fn header_lines(ls: &Vec<Vec<char>>) -> (r: Vec<Vec<char>>)
    requires
        ls.len() >= 2,
    ensures
        views(r@) == trimmed_lines(views(ls@).skip(2)),
{
    let mut out: Vec<Vec<char>> = Vec::new();
    let mut i: usize = 2;
    let ghost want = trimmed_lines(views(ls@).skip(2));
    assert(views(out@) =~= want.take(0));
    while i < ls.len()
        invariant
            2 <= i <= ls.len(),
            want == trimmed_lines(views(ls@).skip(2)),
            views(out@) == want.take(i - 2),
        decreases ls.len() - i,
    {
        let line = trimmed(&ls[i]);
        proof {
            lemma_views_push(out@, line);
            assert(want[i - 2] == trim(views(ls@).skip(2)[i - 2]));
            assert(want.take(i - 2).push(line@) =~= want.take(i - 1));
        }
        out.push(line);
        i += 1;
    }
    assert(want.take(ls.len() - 2) =~= want);
    out
}

impl RequestData {
    /// Reads request text permissively.
    pub fn from_str(raw: &str) -> (r: Result<RequestData, ParseFailure>)
        ensures
            match r {
                Ok(d) => parse_permissive(raw@) == Ok::<RequestDataView, ParseFault>(d@),
                Err(e) => parse_permissive(raw@) == Err::<RequestDataView, ParseFault>(e@),
            },
    {
        let t = trimmed(&chars_of(raw));
        let gap2 = pair('\n', '\n');
        let (head, body) = match split_first(&t, &gap2) {
            Some((a, b)) => (a, b),
            None => (slice_of(&t, 0, t.len()), Vec::new()),
        };
        assert(head@ =~= head_block(t@));
        assert(body@ =~= body_block(t@));
        let ls = lines_of(&head);
        if ls.len() == 0 {
            return Err(ParseFailure::MissingRequestLine);
        }
        if ls.len() == 1 {
            return Err(ParseFailure::MissingHostLine);
        }
        assert(views(ls@)[0] == ls@[0]@);
        assert(views(ls@)[1] == ls@[1]@);
        let host = match split_first(&ls[1], &single(':')) {
            None => {
                return Err(ParseFailure::MalformedHostLine);
            },
            Some((_, value)) => trimmed(&value),
        };
        let line = &ls[0];
        assert(line@.skip(0) =~= line@);
        let (method, at_target) = word_from(line, 0);
        let (target, at_version) = word_from(line, at_target);
        let (version, _) = word_from(line, at_version);
        if target.len() == 0 {
            return Err(ParseFailure::MissingTarget);
        }
        if version.len() == 0 {
            return Err(ParseFailure::MissingVersion);
        }
        let mut url = chars_of("https://");
        append(&mut url, &host);
        append(&mut url, &target);
        let headers = joined(&header_lines(&ls), &single('\n'));
        let body = trimmed(&body);
        Ok(
            RequestData {
                request_type: string_of(&chars_of("HTTP Request")),
                http_version: string_of(&version),
                method: string_of(&method),
                url: string_of(&url),
                headers: string_of(&headers),
                body: string_of(&body),
            },
        )
    }
}

/// The fields that a blob gives line by line: each line that holds a
/// colon sets the field named by what is before its first colon to what is
/// behind it. A line without a colon gives nothing.
pub open spec fn fields_by_line(ls: Seq<Seq<char>>) -> Fields
    decreases ls.len(),
{
    if ls.len() == 0 {
        Seq::empty()
    } else {
        let before = fields_by_line(ls.drop_last());
        match find(ls.last(), colon()) {
            None => before,
            Some(i) => put(before, ls.last().take(i), ls.last().skip(i + 1)),
        }
    }
}

/// The fields shown for a header blob: `read` where the blob could be
/// read, else what its lines give.
pub open spec fn shown_fields_from(read: Result<Fields, FormatFault>, blob: Seq<char>) -> Fields {
    match read {
        Ok(fields) => fields,
        Err(_) => fields_by_line(lines(blob)),
    }
}

/// The fields shown for the header blob `blob`.
pub open spec fn shown_fields(blob: Seq<char>) -> Fields {
    shown_fields_from(fields_of_blob(blob), blob)
}

/// One line for each field: name, colon, space, value, line feed.
pub open spec fn field_lines(fields: Fields) -> Seq<char>
    decreases fields.len(),
{
    if fields.len() == 0 {
        Seq::empty()
    } else {
        field_lines(fields.drop_last()) + fields.last().0 + ": "@ + fields.last().1 + newline()
    }
}

/// The request target as it is shown: the path, then `?` and the query
/// where there is one, then `#` and the fragment where there is one.
pub open spec fn shown_target(parts: UrlPartsView) -> Seq<char> {
    parts.path + (match parts.query {
        Some(q) => "?"@ + q,
        None => Seq::empty(),
    }) + (match parts.fragment {
        Some(f) => "#"@ + f,
        None => Seq::empty(),
    })
}

/// The host as it is shown: `(none)` where the URL has none.
pub open spec fn shown_host(parts: UrlPartsView) -> Seq<char> {
    match parts.host {
        Some(h) => h,
        None => "(none)"@,
    }
}

/// The host line: `Host: ` and the host as it is shown.
pub open spec fn host_line(parts: UrlPartsView) -> Seq<char> {
    "Host: "@ + shown_host(parts)
}

/// The body as it is shown: with a line feed behind it where it is not
/// empty.
pub open spec fn shown_body(body: Seq<char>) -> Seq<char> {
    if body.len() > 0 {
        body + newline()
    } else {
        Seq::empty()
    }
}

/// The text shown for the request `d`, where `parts` is what the URL
/// parser made of its URL and `fields` are the fields shown for its
/// headers.
///
/// With a URL that could not be parsed the text is one line that says so.
/// Else it is the request line, the host line, the field lines, an empty
/// line, and the body with a line feed where there is a body.
pub open spec fn shown_with(d: RequestDataView, parts: Option<UrlPartsView>, fields: Fields) -> Seq<
    char,
> {
    match parts {
        None => "Invalid URL: "@ + d.url + newline(),
        Some(p) => d.method + " "@ + shown_target(p) + " "@ + d.http_version + newline()
            + host_line(p) + newline() + field_lines(fields) + newline() + shown_body(d.body),
    }
}

/// The text shown for the request `d`.
pub open spec fn shown(d: RequestDataView) -> Seq<char> {
    shown_with(d, url_parts(d.url), shown_fields(d.headers))
}

/// Puts the characters of `s` at the end of `out`.
fn append_str(out: &mut Vec<char>, s: &str)
    ensures
        final(out)@ == old(out)@ + s@,
{
    let v = chars_of(s);
    append(out, &v);
}

/// The fields that the lines of `blob` give.
pub fn fields_from_lines(blob: &str) -> (r: HeaderFields)
    ensures
        r@ == fields_by_line(lines(blob@)),
{
    let ls = lines_of(&chars_of(blob));
    let mark = single(':');
    let mut fields = HeaderFields::new();
    let mut i: usize = 0;
    assert(views(ls@).take(0) =~= Seq::<Seq<char>>::empty());
    while i < ls.len()
        invariant
            i <= ls.len(),
            mark@ == colon(),
            fields@ == fields_by_line(views(ls@).take(i as int)),
        decreases ls.len() - i,
    {
        proof {
            let next = views(ls@).take(i + 1);
            assert(next.drop_last() =~= views(ls@).take(i as int));
            assert(next.last() == ls@[i as int]@);
        }
        match split_first(&ls[i], &mark) {
            Some((name, value)) => {
                fields.insert(string_of(&name), string_of(&value));
            },
            None => {},
        }
        i += 1;
    }
    assert(views(ls@).take(ls.len() as int) =~= views(ls@));
    fields
}

/// The fields shown for a header blob: `read` where the blob could be
/// read, else what the lines of the blob give, so that a blob that is no
/// pseudo-JSON can still be shown and edited.
pub fn shown_fields_of(read: Result<HeaderFields, FormatError>, blob: &str) -> (r: HeaderFields)
    ensures
        ({
            let given = match read {
                Ok(h) => Ok(h@),
                Err(e) => Err(e@),
            };
            r@ == shown_fields_from(given, blob@)
        }),
{
    match read {
        Ok(fields) => fields,
        Err(_) => fields_from_lines(blob),
    }
}

/// The text of the field lines.
fn write_fields(out: &mut Vec<char>, fields: &HeaderFields)
    ensures
        final(out)@ == old(out)@ + field_lines(fields@),
{
    let mut i: usize = 0;
    assert(fields@.take(0) =~= Fields::empty());
    assert(out@ + Seq::<char>::empty() =~= out@);
    while i < fields.len()
        invariant
            i <= fields@.len(),
            out@ == old(out)@ + field_lines(fields@.take(i as int)),
        decreases fields@.len() - i,
    {
        proof {
            let next = fields@.take(i + 1);
            assert(next.drop_last() =~= fields@.take(i as int));
            assert(next.last() == fields@[i as int]);
        }
        let ghost before = out@;
        append_str(out, fields.name_at(i));
        append_str(out, ": ");
        append_str(out, fields.value_at(i));
        out.push('\n');
        proof {
            let f = fields@[i as int];
            assert(out@ =~= before + f.0 + ": "@ + f.1 + newline());
            assert(old(out)@ + (field_lines(fields@.take(i as int)) + f.0 + ": "@ + f.1
                + newline()) =~= before + f.0 + ": "@ + f.1 + newline());
        }
        i += 1;
    }
    assert(fields@.take(fields@.len() as int) =~= fields@);
}

impl RequestData {
    /// The text shown for the request, given what the URL parser made of
    /// its URL and the fields shown for its headers.
    pub fn to_string_with(&self, parts: &Option<UrlParts>, fields: &HeaderFields) -> (r: String)
        ensures
            r@ == shown_with(
                self@,
                match *parts {
                    Some(p) => Some(p@),
                    None => None,
                },
                fields@,
            ),
    {
        let mut out: Vec<char> = Vec::new();
        match parts {
            None => {
                append_str(&mut out, "Invalid URL: ");
                append_str(&mut out, self.url.as_str());
                out.push('\n');
                assert(out@ =~= "Invalid URL: "@ + self@.url + newline());
            },
            Some(p) => {
                append_str(&mut out, self.method.as_str());
                append_str(&mut out, " ");
                append_str(&mut out, p.path.as_str());
                match &p.query {
                    Some(q) => {
                        append_str(&mut out, "?");
                        append_str(&mut out, q.as_str());
                    },
                    None => {},
                }
                match &p.fragment {
                    Some(f) => {
                        append_str(&mut out, "#");
                        append_str(&mut out, f.as_str());
                    },
                    None => {},
                }
                assert(out@ =~= self@.method + " "@ + shown_target(p@));
                append_str(&mut out, " ");
                append_str(&mut out, self.http_version.as_str());
                out.push('\n');
                append_str(&mut out, "Host: ");
                match &p.host {
                    Some(h) => {
                        append_str(&mut out, h.as_str());
                    },
                    None => {
                        append_str(&mut out, "(none)");
                    },
                }
                out.push('\n');
                let ghost top = self@.method + " "@ + shown_target(p@) + " "@ + self@.http_version
                    + newline() + host_line(p@) + newline();
                assert(out@ =~= top);
                write_fields(&mut out, fields);
                out.push('\n');
                if !self.body.as_str().is_empty() {
                    append_str(&mut out, self.body.as_str());
                    out.push('\n');
                }
                assert(out@ =~= shown_with(self@, Some(p@), fields@));
            },
        }
        string_of(&out)
    }

    /// The text shown for the request.
    pub fn to_string(&self) -> (r: String)
        ensures
            r@ == shown(self@),
    {
        let parts = match split_url(self.url.as_str()) {
            Ok(p) => Some(p),
            Err(_) => None,
        };
        let fields = shown_fields_of(
            json_str_to_hashmap(self.headers.as_str()),
            self.headers.as_str(),
        );
        self.to_string_with(&parts, &fields)
    }
}

} // verus!
