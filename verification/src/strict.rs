//! The strict reading of request text, which yields a request that can be
//! sent: a method and a version of the known ones and a list of header
//! fields.
//!
//! Blank lines are passed over wherever they stand. The first line that
//! is left is the request line. Each later line that holds a colon and a
//! space is a header field; the field named `Host`, in any case, gives the
//! host. The body is what stands between the first and the second empty
//! line of the text.

use vstd::prelude::*;
use crate::fields::{put, Fields, HeaderFields};
use crate::model::{
    HttpMethod,
    HttpVersion,
    ParseFailure,
    ParseFault,
    RequestDataProper,
    RequestDataProperView,
};
use crate::text::{
    after_word,
    append,
    chars_of,
    find,
    first_word,
    is_blank,
    lines,
    lines_of,
    pair,
    same_chars,
    same_ignoring_case,
    split_first,
    string_of,
    strip_both,
    strip_end,
    strip_start,
    to_lower,
    trim,
    trimmed,
    views,
    word_from,
    Class,
};

verus! {

/// The lines of `ls` that hold more than white space, in order.
pub open spec fn solid(ls: Seq<Seq<char>>) -> Seq<Seq<char>>
    decreases ls.len(),
{
    if ls.len() == 0 {
        Seq::empty()
    } else if trim(ls.last()).len() == 0 {
        solid(ls.drop_last())
    } else {
        solid(ls.drop_last()).push(ls.last())
    }
}

/// What stands between a field's name and its value.
pub open spec fn field_mark() -> Seq<char> {
    seq![':', ' ']
}

/// An empty line: two line feeds in a row.
pub open spec fn gap() -> Seq<char> {
    seq!['\n', '\n']
}

/// The name of the field that gives the host.
pub open spec fn host_name() -> Seq<char> {
    seq!['h', 'o', 's', 't']
}

/// What the header lines of a request give: the host and the other fields.
pub struct Head {
    pub host: Seq<char>,
    pub fields: Fields,
}

/// The head that the lines `ls` give, read from first to last. A line
/// without a colon and a space gives nothing. A `Host` line sets the host,
/// any other sets the field of its name; a later line wins.
pub open spec fn head_of(ls: Seq<Seq<char>>) -> Head
    decreases ls.len(),
{
    if ls.len() == 0 {
        Head { host: Seq::empty(), fields: Seq::empty() }
    } else {
        let before = head_of(ls.drop_last());
        let line = ls.last();
        match find(line, field_mark()) {
            None => before,
            Some(i) => {
                let name = line.take(i);
                let value = line.skip(i + 2);
                if same_ignoring_case(name, host_name()) {
                    Head { host: value, fields: before.fields }
                } else {
                    Head { host: before.host, fields: put(before.fields, name, value) }
                }
            },
        }
    }
}

/// What stands between the first and the second empty line of `s`, without
/// the white space at its ends. Empty where `s` holds no empty line.
pub open spec fn strict_body(s: Seq<char>) -> Seq<char> {
    match find(s, gap()) {
        None => Seq::empty(),
        Some(i) => {
            let rest = s.skip(i + 2);
            match find(rest, gap()) {
                None => trim(rest),
                Some(j) => trim(rest.take(j)),
            }
        },
    }
}

/// `s` without the slashes at its two ends.
pub open spec fn unslashed(s: Seq<char>) -> Seq<char> {
    strip_end(strip_start(s, Class::Slash), Class::Slash)
}

/// The URL to which a request goes: the scheme that the version asks for,
/// `://`, the host, one slash, and the target; host and target without
/// the slashes at their ends, the host also without white space there.
pub open spec fn strict_url(version: HttpVersion, host: Seq<char>, target: Seq<char>) -> Seq<
    char,
> {
    version.scheme() + seq![':', '/', '/'] + unslashed(trim(host)) + seq!['/'] + unslashed(
        target,
    )
}

/// What the strict reading of `s` gives.
///
/// The request line is never without a method: it is a line that is not
/// blank, so it has a first word.
pub open spec fn parse_strict(s: Seq<char>) -> Result<RequestDataProperView, ParseFault> {
    let ls = solid(lines(s));
    if ls.len() == 0 {
        Err(ParseFault::MissingRequestLine)
    } else {
        let method = first_word(ls[0]);
        let rest = after_word(ls[0]);
        let target = first_word(rest);
        let version = first_word(after_word(rest));
        if HttpMethod::named_by(method) is None {
            Err(ParseFault::UnknownMethod(method))
        } else if target.len() == 0 {
            Err(ParseFault::MissingTarget)
        } else if version.len() == 0 {
            Err(ParseFault::MissingVersion)
        } else if HttpVersion::named_by(version) is None {
            Err(ParseFault::UnknownVersion(version))
        } else {
            let v = HttpVersion::named_by(version).unwrap();
            let head = head_of(ls.skip(1));
            Ok(
                RequestDataProperView {
                    http_version: v,
                    method: HttpMethod::named_by(method).unwrap(),
                    url: strict_url(v, head.host, target),
                    headers: head.fields,
                    body: strict_body(s),
                },
            )
        }
    }
}

/// The lines of `ls` that hold more than white space.
fn solid_lines(ls: Vec<Vec<char>>) -> (r: Vec<Vec<char>>)
    ensures
        views(r@) == solid(views(ls@)),
{
    let mut out: Vec<Vec<char>> = Vec::new();
    let mut i: usize = 0;
    assert(views(ls@).take(0) =~= Seq::<Seq<char>>::empty());
    assert(views(out@) =~= Seq::<Seq<char>>::empty());
    while i < ls.len()
        invariant
            i <= ls.len(),
            views(out@) == solid(views(ls@).take(i as int)),
        decreases ls.len() - i,
    {
        proof {
            let next = views(ls@).take(i + 1);
            assert(next.drop_last() =~= views(ls@).take(i as int));
            assert(next.last() == ls@[i as int]@);
        }
        if !is_blank(&ls[i]) {
            let line = ls[i].clone();
            proof {
                assert(line@ == ls@[i as int]@);
                crate::text::lemma_views_push(out@, line);
            }
            out.push(line);
        }
        i += 1;
    }
    assert(views(ls@).take(ls.len() as int) =~= views(ls@));
    out
}

/// Reads the header lines `ls[from..]` into `fields`; returns the host.
fn read_head(ls: &Vec<Vec<char>>, fields: &mut HeaderFields) -> (host: Vec<char>)
    requires
        ls.len() >= 1,
        old(fields)@ == Fields::empty(),
    ensures
        host@ == head_of(views(ls@).skip(1)).host,
        final(fields)@ == head_of(views(ls@).skip(1)).fields,
{
    let mark = pair(':', ' ');
    let host_lit = chars_of("host");
    proof {
        reveal_strlit("host");
        assert(host_lit@ =~= host_name());
    }
    let mut host: Vec<char> = Vec::new();
    let mut i: usize = 1;
    let ghost all = views(ls@).skip(1);
    assert(all.take(0) =~= Seq::<Seq<char>>::empty());
    while i < ls.len()
        invariant
            1 <= i <= ls.len(),
            all == views(ls@).skip(1),
            mark@ == field_mark(),
            host_lit@ == host_name(),
            host@ == head_of(all.take(i - 1)).host,
            fields@ == head_of(all.take(i - 1)).fields,
        decreases ls.len() - i,
    {
        proof {
            let next = all.take(i as int);
            assert(next.drop_last() =~= all.take(i - 1));
            assert(next.last() == ls@[i as int]@);
        }
        match split_first(&ls[i], &mark) {
            Some((name, value)) => {
                let folded = to_lower(&name);
                proof {
                    assert(crate::text::lower(host_name()) =~= host_name());
                }
                if same_chars(&folded, &host_lit) {
                    host = value;
                } else {
                    fields.insert(string_of(&name), string_of(&value));
                }
            },
            None => {},
        }
        i += 1;
    }
    assert(all.take(ls.len() - 1) =~= all);
    host
}

/// The body that the strict reading finds in `v`.
fn read_strict_body(v: &Vec<char>) -> (r: Vec<char>)
    ensures
        r@ == strict_body(v@),
{
    let gap2 = pair('\n', '\n');
    match split_first(v, &gap2) {
        None => Vec::new(),
        Some((_, rest)) => match split_first(&rest, &gap2) {
            None => trimmed(&rest),
            Some((block, _)) => trimmed(&block),
        },
    }
}

/// The URL made of the version's scheme, `host` and `target`.
fn build_strict_url(version: HttpVersion, host: &Vec<char>, target: &Vec<char>) -> (r: Vec<char>)
    ensures
        r@ == strict_url(version, host@, target@),
{
    let mut out = chars_of(version.scheme_str());
    let sep = chars_of("://");
    proof {
        reveal_strlit("://");
        assert(sep@ =~= seq![':', '/', '/']);
    }
    append(&mut out, &sep);
    let h = strip_both(&trimmed(host), Class::Slash);
    append(&mut out, &h);
    out.push('/');
    let t = strip_both(target, Class::Slash);
    append(&mut out, &t);
    assert(out@ =~= strict_url(version, host@, target@));
    out
}

impl RequestDataProper {
    /// Reads request text strictly. A method or a version that is not of
    /// the known ones is an error that names the token: nothing is put in
    /// its place.
    pub fn from_str(s: &str) -> (r: Result<RequestDataProper, ParseFailure>)
        ensures
            match r {
                Ok(q) => parse_strict(s@) == Ok::<RequestDataProperView, ParseFault>(q@),
                Err(e) => parse_strict(s@) == Err::<RequestDataProperView, ParseFault>(e@),
            },
    {
        let v = chars_of(s);
        let ls = solid_lines(lines_of(&v));
        if ls.len() == 0 {
            return Err(ParseFailure::MissingRequestLine);
        }
        assert(views(ls@)[0] == ls@[0]@);
        let line = &ls[0];
        assert(line@.skip(0) =~= line@);
        let (method_word, at_target) = word_from(line, 0);
        let (target, at_version) = word_from(line, at_target);
        let (version_word, _) = word_from(line, at_version);
        let method = match HttpMethod::from_chars(&method_word) {
            Ok(m) => m,
            Err(e) => {
                return Err(e);
            },
        };
        if target.len() == 0 {
            return Err(ParseFailure::MissingTarget);
        }
        if version_word.len() == 0 {
            return Err(ParseFailure::MissingVersion);
        }
        let version = match HttpVersion::from_chars(&version_word) {
            Ok(x) => x,
            Err(e) => {
                return Err(e);
            },
        };
        let mut headers = HeaderFields::new();
        let host = read_head(&ls, &mut headers);
        let url = build_strict_url(version, &host, &target);
        let body = read_strict_body(&v);
        Ok(
            RequestDataProper {
                http_version: version,
                method,
                url: string_of(&url),
                headers,
                body: string_of(&body),
            },
        )
    }
}

} // verus!
