//! What is shown for a request reads back strictly as that request.

use vstd::prelude::*;
use crate::fields::{distinct_keys, put, Fields};
use crate::model::{
    lemma_tokens_name,
    HttpMethod,
    HttpVersion,
    ParseFault,
    RequestDataProperView,
};
use crate::model::RequestDataView;
use crate::named::{is_key_index, lemma_key_index};
use crate::permissive::{field_lines, shown_body, shown_host, shown_target, shown_with};
use crate::urls::UrlPartsView;
use crate::strict::{field_mark, gap, head_of, host_name, parse_strict, solid, strict_body, strict_url, Head};
use crate::text::{
    after_word,
    find,
    first_at,
    first_word,
    is_run,
    is_space,
    is_tail_run,
    lemma_find,
    lemma_find_some,
    lemma_run,
    lemma_tail_run,
    lines,
    lower,
    newline,
    occurs_at,
    same_ignoring_case,
    strip_cr,
    strip_start,
    trim,
    Class,
};

verus! {

/// `s` holds neither a line feed nor a carriage return.
pub open spec fn one_line(s: Seq<char>) -> bool {
    forall|i: int| 0 <= i < s.len() ==> #[trigger] s[i] != '\n' && s[i] != '\r'
}

/// `s` is not empty and holds no white space.
pub open spec fn is_word(s: Seq<char>) -> bool {
    &&& s.len() > 0
    &&& forall|i: int| 0 <= i < s.len() ==> !is_space(#[trigger] s[i])
}

/// Where `a` holds no line feed, the first line feed of `a`, a line feed
/// and `rest` is the one behind `a`.
pub proof fn lemma_first_newline(a: Seq<char>, rest: Seq<char>)
    requires
        forall|i: int| 0 <= i < a.len() ==> #[trigger] a[i] != '\n',
    ensures
        find(a + newline() + rest, newline()) == Some(a.len() as int),
{
    let s = a + newline() + rest;
    let n = a.len() as int;
    assert(s.subrange(n, n + 1) =~= newline());
    assert forall|j: int| 0 <= j < n implies !occurs_at(s, newline(), j) by {
        if occurs_at(s, newline(), j) {
            assert(s.subrange(j, j + 1)[0] == '\n');
            assert(s[j] == a[j]);
        }
    }
    assert(first_at(s, newline(), n));
    lemma_find_some(s, newline(), n);
}

/// The lines of a text that starts with a line: that line, then the lines
/// of the rest.
pub proof fn lemma_lines_cons(a: Seq<char>, rest: Seq<char>)
    requires
        forall|i: int| 0 <= i < a.len() ==> #[trigger] a[i] != '\n',
    ensures
        lines(a + newline() + rest) == seq![strip_cr(a)] + lines(rest),
{
    let s = a + newline() + rest;
    lemma_first_newline(a, rest);
    assert(s.take(a.len() as int) =~= a);
    assert(s.skip(a.len() as int + 1) =~= rest);
}

/// A line that holds a character which is no white space is not blank.
pub proof fn lemma_not_blank(l: Seq<char>, i: int)
    requires
        0 <= i < l.len(),
        !is_space(l[i]),
    ensures
        trim(l).len() > 0,
{
    let a = crate::text::run_len(l, Class::Space) as int;
    lemma_run(l, Class::Space, a);
    assert(a <= i) by {
        if a > i {
            assert(Class::Space.has(l[i]));
        }
    }
    let t = strip_start(l, Class::Space);
    let b = crate::text::tail_run_len(t, Class::Space) as int;
    lemma_tail_run(t, Class::Space, b);
    if b == t.len() {
        assert(Class::Space.has(t[i - a]));
        assert(t[i - a] == l[i]);
    }
}

/// The lines that hold more than white space, of two lists in a row.
pub proof fn lemma_solid_add(xs: Seq<Seq<char>>, ys: Seq<Seq<char>>)
    ensures
        solid(xs + ys) == solid(xs) + solid(ys),
    decreases ys.len(),
{
    if ys.len() == 0 {
        assert(xs + ys =~= xs);
        assert(solid(xs) + solid(ys) =~= solid(xs));
    } else {
        assert((xs + ys).drop_last() =~= xs + ys.drop_last());
        assert((xs + ys).last() == ys.last());
        lemma_solid_add(xs, ys.drop_last());
        if trim(ys.last()).len() == 0 {
        } else {
            assert(solid(xs + ys) =~= solid(xs) + solid(ys));
        }
    }
}

/// A list of lines that all hold more than white space is left whole.
pub proof fn lemma_solid_all(xs: Seq<Seq<char>>)
    requires
        forall|i: int| 0 <= i < xs.len() ==> trim(#[trigger] xs[i]).len() > 0,
    ensures
        solid(xs) == xs,
    decreases xs.len(),
{
    if xs.len() > 0 {
        lemma_solid_all(xs.drop_last());
        assert(xs.drop_last().push(xs.last()) =~= xs);
    }
}

/// The line that shows a field: name, colon, space, value.
pub open spec fn field_line(f: (Seq<char>, Seq<char>)) -> Seq<char> {
    f.0 + ": "@ + f.1
}

/// The lines that show `fields`, one for each.
pub open spec fn lines_of_fields(fields: Fields) -> Seq<Seq<char>> {
    Seq::new(fields.len(), |i: int| field_line(fields[i]))
}

/// A field that a line can show and that reads back as itself: name and
/// value hold no line break, the name holds no colon followed by a space,
/// and the name is not `Host` in any case.
pub open spec fn tidy_field(f: (Seq<char>, Seq<char>)) -> bool {
    &&& one_line(f.0)
    &&& one_line(f.1)
    &&& find(f.0, field_mark()) is None
    &&& !same_ignoring_case(f.0, host_name())
}

/// Fields with distinct names, each of them tidy.
pub open spec fn tidy(fields: Fields) -> bool {
    &&& distinct_keys(fields)
    &&& forall|i: int| 0 <= i < fields.len() ==> tidy_field(#[trigger] fields[i])
}

/// The line of a tidy field holds no line break, is not blank, and has
/// its first colon and space right behind the name.
pub proof fn lemma_field_line(f: (Seq<char>, Seq<char>))
    requires
        tidy_field(f),
    ensures
        one_line(field_line(f)),
        strip_cr(field_line(f)) == field_line(f),
        trim(field_line(f)).len() > 0,
        find(field_line(f), field_mark()) == Some(f.0.len() as int),
        field_line(f).take(f.0.len() as int) == f.0,
        field_line(f).skip(f.0.len() as int + 2) == f.1,
{
    reveal_strlit(": ");
    let l = field_line(f);
    let n = f.0.len() as int;
    assert(": "@ =~= field_mark());
    assert(l.len() == n + 2 + f.1.len());
    assert forall|i: int| 0 <= i < l.len() implies #[trigger] l[i] != '\n' && l[i] != '\r' by {
        if i < n {
            assert(l[i] == f.0[i]);
        } else if i >= n + 2 {
            assert(l[i] == f.1[i - n - 2]);
        }
    }
    assert(l[n] == ':');
    lemma_not_blank(l, n);
    assert(l.subrange(n, n + 2) =~= field_mark());
    lemma_find(f.0, field_mark());
    assert forall|j: int| 0 <= j < n implies !occurs_at(l, field_mark(), j) by {
        if occurs_at(l, field_mark(), j) {
            let w = l.subrange(j, j + 2);
            assert(w[0] == ':' && w[1] == ' ');
            if j + 1 < n {
                assert(f.0.subrange(j, j + 2) =~= w);
                assert(occurs_at(f.0, field_mark(), j));
            } else {
                assert(l[j + 1] == ':');
            }
        }
    }
    assert(first_at(l, field_mark(), n));
    lemma_find_some(l, field_mark(), n);
    assert(l.take(n) =~= f.0);
    assert(l.skip(n + 2) =~= f.1);
}

/// The lines of the field lines of tidy fields, followed by `tail`: one
/// line for each field, then the lines of `tail`.
pub proof fn lemma_lines_of_field_lines(fields: Fields, tail: Seq<char>)
    requires
        forall|i: int| 0 <= i < fields.len() ==> tidy_field(#[trigger] fields[i]),
    ensures
        lines(field_lines(fields) + tail) == lines_of_fields(fields) + lines(tail),
    decreases fields.len(),
{
    if fields.len() == 0 {
        assert(field_lines(fields) + tail =~= tail);
        assert(lines_of_fields(fields) + lines(tail) =~= lines(tail));
    } else {
        let init = fields.drop_last();
        let f = fields.last();
        let l = field_line(f);
        lemma_field_line(f);
        let next = l + newline() + tail;
        assert(field_lines(fields) + tail =~= field_lines(init) + next);
        assert forall|i: int| 0 <= i < init.len() implies tidy_field(#[trigger] init[i]) by {
            assert(init[i] == fields[i]);
        }
        lemma_lines_of_field_lines(init, next);
        lemma_lines_cons(l, tail);
        assert(lines_of_fields(init) + (seq![l] + lines(tail)) =~= lines_of_fields(fields) + lines(
            tail,
        ));
    }
}

/// The line that gives the host.
pub open spec fn host_line_of(host: Seq<char>) -> Seq<char> {
    "Host: "@ + host
}

/// The host line holds no line break, is not blank, and gives the host.
pub proof fn lemma_host_line(host: Seq<char>)
    requires
        one_line(host),
    ensures
        one_line(host_line_of(host)),
        strip_cr(host_line_of(host)) == host_line_of(host),
        trim(host_line_of(host)).len() > 0,
        head_of(seq![host_line_of(host)]) == (Head { host: host, fields: Seq::empty() }),
{
    reveal_strlit("Host: ");
    let l = host_line_of(host);
    assert(l.len() == 6 + host.len());
    assert forall|i: int| 0 <= i < l.len() implies #[trigger] l[i] != '\n' && l[i] != '\r' by {
        if i >= 6 {
            assert(l[i] == host[i - 6]);
        }
    }
    assert(l[0] == 'H');
    lemma_not_blank(l, 0);
    assert(l.subrange(4, 6) =~= field_mark());
    assert forall|j: int| 0 <= j < 4 implies !occurs_at(l, field_mark(), j) by {
        if occurs_at(l, field_mark(), j) {
            assert(l.subrange(j, j + 2)[0] == ':');
        }
    }
    assert(first_at(l, field_mark(), 4));
    lemma_find_some(l, field_mark(), 4);
    assert(lower(l.take(4)) =~= host_name());
    assert(lower(host_name()) =~= host_name());
    assert(l.skip(6) =~= host);
    let one = seq![l];
    assert(one.drop_last() =~= Seq::<Seq<char>>::empty());
    assert(one.last() == l);
    assert(head_of(one.drop_last()) == (Head { host: Seq::empty(), fields: Seq::empty() }));
    assert(same_ignoring_case(l.take(4), host_name()));
}

/// The head that the host line and the lines of tidy fields give: the
/// host and the fields.
pub proof fn lemma_head_of_fields(host: Seq<char>, fields: Fields)
    requires
        one_line(host),
        tidy(fields),
    ensures
        head_of(seq![host_line_of(host)] + lines_of_fields(fields)) == (Head {
            host: host,
            fields: fields,
        }),
    decreases fields.len(),
{
    let all = seq![host_line_of(host)] + lines_of_fields(fields);
    if fields.len() == 0 {
        lemma_host_line(host);
        assert(all =~= seq![host_line_of(host)]);
        assert(fields =~= Seq::empty());
    } else {
        let init = fields.drop_last();
        let f = fields.last();
        assert forall|i: int| 0 <= i < init.len() implies tidy_field(#[trigger] init[i]) by {
            assert(init[i] == fields[i]);
        }
        assert(distinct_keys(init)) by {
            assert forall|i: int, j: int| 0 <= i < j < init.len() implies (#[trigger] init[i]).0
                != (#[trigger] init[j]).0 by {
                assert(init[i] == fields[i] && init[j] == fields[j]);
            }
        }
        lemma_head_of_fields(host, init);
        lemma_field_line(f);
        assert(all.drop_last() =~= seq![host_line_of(host)] + lines_of_fields(init));
        assert(all.last() == field_line(f));
        assert(is_key_index(init, f.0, init.len() as int)) by {
            assert forall|j: int| 0 <= j < init.len() implies (#[trigger] init[j]).0 != f.0 by {
                assert(init[j] == fields[j]);
                assert(fields[fields.len() - 1] == f);
            }
        }
        lemma_key_index(init, f.0, init.len() as int);
        assert(put(init, f.0, f.1) =~= fields);
    }
}

/// Where `s` has white space up to `a`, then no white space up to `b`,
/// and white space or its end at `b`, its first word is what stands from
/// `a` to `b`.
pub proof fn lemma_word(s: Seq<char>, a: int, b: int)
    requires
        0 <= a < b <= s.len(),
        forall|i: int| 0 <= i < a ==> is_space(#[trigger] s[i]),
        forall|i: int| a <= i < b ==> !is_space(#[trigger] s[i]),
        b < s.len() ==> is_space(s[b]),
    ensures
        first_word(s) == s.subrange(a, b),
        after_word(s) == s.skip(b),
{
    assert(is_run(s, Class::Space, a));
    lemma_run(s, Class::Space, a);
    let t = strip_start(s, Class::Space);
    assert(t =~= s.skip(a));
    assert forall|i: int| 0 <= i < b - a implies Class::Word.has(#[trigger] t[i]) by {
        assert(t[i] == s[a + i]);
    }
    if b - a < t.len() {
        assert(t[b - a] == s[b]);
    }
    assert(is_run(t, Class::Word, b - a));
    lemma_run(t, Class::Word, b - a);
    assert(t.take(b - a) =~= s.subrange(a, b));
    assert(t.skip(b - a) =~= s.skip(b));
}

/// The request line: method, target and version with a space between
/// each two.
pub open spec fn request_line_of(method: Seq<char>, target: Seq<char>, version: Seq<char>) -> Seq<
    char,
> {
    method + " "@ + target + " "@ + version
}

/// A request line made of three words holds no line break, is not blank,
/// and its first three words are the three it was made of.
pub proof fn lemma_request_line(method: Seq<char>, target: Seq<char>, version: Seq<char>)
    requires
        is_word(method),
        is_word(target),
        is_word(version),
    ensures
        ({
            let r = request_line_of(method, target, version);
            &&& forall|i: int| 0 <= i < r.len() ==> #[trigger] r[i] != '\n'
            &&& strip_cr(r) == r
            &&& trim(r).len() > 0
            &&& first_word(r) == method
            &&& first_word(after_word(r)) == target
            &&& first_word(after_word(after_word(r))) == version
        }),
{
    reveal_strlit(" ");
    let r = request_line_of(method, target, version);
    let m = method.len() as int;
    let t = target.len() as int;
    let v = version.len() as int;
    assert(r.len() == m + 1 + t + 1 + v);
    assert forall|i: int| 0 <= i < m implies #[trigger] r[i] == method[i] by {}
    assert(r[m] == ' ');
    assert forall|i: int| m + 1 <= i < m + 1 + t implies #[trigger] r[i] == target[i - m - 1] by {}
    assert(r[m + 1 + t] == ' ');
    assert forall|i: int| m + t + 2 <= i < r.len() implies #[trigger] r[i] == version[i - m - t
        - 2] by {}
    assert(is_space(' '));
    assert(is_space('\n') && is_space('\r'));
    assert forall|i: int| 0 <= i < r.len() implies #[trigger] r[i] != '\n' && r[i] != '\r' by {
        if i < m {
            assert(!is_space(method[i]));
        } else if m + 1 <= i < m + 1 + t {
            assert(!is_space(target[i - m - 1]));
        } else if i >= m + t + 2 {
            assert(!is_space(version[i - m - t - 2]));
        }
    }
    assert(!is_space(r[0])) by {
        assert(!is_space(method[0]));
    }
    lemma_not_blank(r, 0);
    assert forall|i: int| 0 <= i < m implies !is_space(#[trigger] r[i]) by {
        assert(!is_space(method[i]));
    }
    lemma_word(r, 0, m);
    assert(r.subrange(0, m) =~= method);
    let r1 = r.skip(m);
    assert(r1[0] == r[m]);
    assert forall|i: int| 1 <= i < 1 + t implies !is_space(#[trigger] r1[i]) by {
        assert(r1[i] == r[m + i]);
        assert(!is_space(target[i - 1]));
    }
    assert(r1[1 + t] == r[m + 1 + t]);
    assert forall|i: int| 0 <= i < 1 implies is_space(#[trigger] r1[i]) by {}
    lemma_word(r1, 1, 1 + t);
    assert(r1.subrange(1, 1 + t) =~= target);
    let r2 = r1.skip(1 + t);
    assert(r2[0] == r[m + 1 + t]);
    assert forall|i: int| 1 <= i < 1 + v implies !is_space(#[trigger] r2[i]) by {
        assert(r2[i] == r[m + 1 + t + i]);
        assert(!is_space(version[i - 1]));
    }
    assert forall|i: int| 0 <= i < 1 implies is_space(#[trigger] r2[i]) by {}
    assert(r2.len() == 1 + v);
    lemma_word(r2, 1, 1 + v);
    assert(r2.subrange(1, 1 + v) =~= version);
}

/// The token of a method is a word, and so is the token of a version but
/// `Unknown`.
pub proof fn lemma_tokens_are_words(m: HttpMethod, v: HttpVersion)
    ensures
        is_word(m.token()),
        v != HttpVersion::Unknown ==> is_word(v.token()),
{
    let t = m.token();
    assert forall|i: int| 0 <= i < t.len() implies !is_space(#[trigger] t[i]) by {
        match m {
            HttpMethod::GET => {},
            HttpMethod::POST => {},
            HttpMethod::PUT => {},
            HttpMethod::DELETE => {},
            HttpMethod::OPTIONS => {},
            HttpMethod::CONNECT => {},
            HttpMethod::TRACE => {},
        }
    }
    let u = v.token();
    assert forall|i: int| 0 <= i < u.len() implies !is_space(#[trigger] u[i]) by {
        match v {
            HttpVersion::Http0_9 => {},
            HttpVersion::Http1_1 => {},
            HttpVersion::Http2_0 => {},
            HttpVersion::Http3_0 => {},
            HttpVersion::Unknown => {},
        }
    }
}

/// Every line feed of `s` stands behind a character that is no line
/// feed: `s` holds no empty line and does not start with a line feed.
pub open spec fn spaced(s: Seq<char>) -> bool {
    forall|i: int| 0 <= i < s.len() && #[trigger] s[i] == '\n' ==> i > 0 && s[i - 1] != '\n'
}

/// Two spaced texts in a row are spaced.
pub proof fn lemma_spaced_add(x: Seq<char>, y: Seq<char>)
    requires
        spaced(x),
        spaced(y),
    ensures
        spaced(x + y),
{
    let s = x + y;
    assert forall|i: int| 0 <= i < s.len() && #[trigger] s[i] == '\n' implies i > 0 && s[i - 1]
        != '\n' by {
        if i < x.len() {
            assert(s[i] == x[i]);
        } else {
            assert(s[i] == y[i - x.len()]);
            if i - x.len() > 0 {
                assert(s[i - 1] == y[i - x.len() - 1]);
            }
        }
    }
}

/// A line that is not empty, with its line feed, is spaced.
pub proof fn lemma_spaced_line(l: Seq<char>)
    requires
        l.len() > 0,
        forall|i: int| 0 <= i < l.len() ==> #[trigger] l[i] != '\n',
    ensures
        spaced(l + newline()),
{
    let s = l + newline();
    assert forall|i: int| 0 <= i < s.len() && #[trigger] s[i] == '\n' implies i > 0 && s[i - 1]
        != '\n' by {
        if i < l.len() {
            assert(s[i] == l[i]);
        } else {
            assert(s[i - 1] == l[i - 1]);
        }
    }
}

/// The field lines of tidy fields are spaced and, unless there are none,
/// end with a line feed.
pub proof fn lemma_spaced_fields(fields: Fields)
    requires
        forall|i: int| 0 <= i < fields.len() ==> tidy_field(#[trigger] fields[i]),
    ensures
        spaced(field_lines(fields)),
        field_lines(fields).len() > 0 ==> field_lines(fields).last() == '\n',
    decreases fields.len(),
{
    if fields.len() > 0 {
        let init = fields.drop_last();
        let f = fields.last();
        assert forall|i: int| 0 <= i < init.len() implies tidy_field(#[trigger] init[i]) by {
            assert(init[i] == fields[i]);
        }
        lemma_spaced_fields(init);
        lemma_field_line(f);
        let l = field_line(f);
        assert(l.len() > 0) by {
            reveal_strlit(": ");
        }
        lemma_spaced_line(l);
        lemma_spaced_add(field_lines(init), l + newline());
        assert(field_lines(fields) =~= field_lines(init) + (l + newline()));
    }
}

/// Behind a text that is spaced and ends with a line feed, a line feed
/// makes the first empty line.
pub proof fn lemma_first_gap(head: Seq<char>, rest: Seq<char>)
    requires
        spaced(head),
        head.len() > 0,
        head.last() == '\n',
    ensures
        find(head + newline() + rest, gap()) == Some(head.len() - 1),
        (head + newline() + rest).skip(head.len() - 1 + 2) == rest,
{
    let s = head + newline() + rest;
    let n = head.len() - 1;
    assert(s[n] == head[n]);
    assert(s.subrange(n, n + 2) =~= gap());
    assert forall|j: int| 0 <= j < n implies !occurs_at(s, gap(), j) by {
        if occurs_at(s, gap(), j) {
            let w = s.subrange(j, j + 2);
            assert(w[0] == '\n' && w[1] == '\n');
            assert(s[j] == head[j] && s[j + 1] == head[j + 1]);
        }
    }
    assert(first_at(s, gap(), n));
    lemma_find_some(s, gap(), n);
    assert(s.skip(n + 2) =~= rest);
}

/// A line feed at the end of a text is trimmed away.
pub proof fn lemma_trim_newline(s: Seq<char>)
    ensures
        trim(s + newline()) == trim(s),
{
    let k = Class::Space;
    let x = s + newline();
    let a = crate::text::run_len(s, k) as int;
    lemma_run(s, k, a);
    assert(is_space('\n'));
    if a == s.len() {
        assert forall|i: int| 0 <= i < x.len() implies k.has(#[trigger] x[i]) by {
            if i < s.len() {
                assert(x[i] == s[i]);
            }
        }
        assert(is_run(x, k, x.len() as int));
        lemma_run(x, k, x.len() as int);
        assert(strip_start(x, k) =~= Seq::<char>::empty());
        assert(strip_start(s, k) =~= Seq::<char>::empty());
    } else {
        assert forall|i: int| 0 <= i < a implies k.has(#[trigger] x[i]) by {
            assert(x[i] == s[i]);
        }
        assert(x[a] == s[a]);
        assert(is_run(x, k, a));
        lemma_run(x, k, a);
        let t = strip_start(s, k);
        let u = strip_start(x, k);
        assert(u =~= t + newline());
        let b = crate::text::tail_run_len(t, k) as int;
        lemma_tail_run(t, k, b);
        assert forall|i: int| u.len() - (b + 1) <= i < u.len() implies k.has(#[trigger] u[i]) by {
            if i < t.len() {
                assert(u[i] == t[i]);
            }
        }
        if b + 1 < u.len() {
            assert(u[u.len() - (b + 1) - 1] == t[t.len() - b - 1]);
        }
        assert(is_tail_run(u, k, b + 1));
        lemma_tail_run(u, k, b + 1);
        assert(u.take(u.len() - (b + 1)) =~= t.take(t.len() - b));
    }
}

/// Lines without a colon and a space, and the blank ones among them taken
/// out, add nothing to a head.
pub proof fn lemma_head_ignores_solid(xs: Seq<Seq<char>>, ys: Seq<Seq<char>>)
    requires
        forall|i: int| 0 <= i < ys.len() ==> find(#[trigger] ys[i], field_mark()) is None,
    ensures
        head_of(xs + solid(ys)) == head_of(xs),
    decreases ys.len(),
{
    if ys.len() == 0 {
        assert(xs + solid(ys) =~= xs);
    } else {
        let init = ys.drop_last();
        assert forall|i: int| 0 <= i < init.len() implies find(
            #[trigger] init[i],
            field_mark(),
        ) is None by {
            assert(init[i] == ys[i]);
        }
        lemma_head_ignores_solid(xs, init);
        if trim(ys.last()).len() == 0 {
        } else {
            let all = xs + solid(ys);
            assert(all.drop_last() =~= xs + solid(init));
            assert(all.last() == ys.last());
            assert(ys[ys.len() - 1] == ys.last());
        }
    }
}

/// A rest that adds neither a second empty line nor a header field: it
/// holds no empty line, and none of its lines holds a colon followed by a
/// space.
pub open spec fn quiet(rest: Seq<char>) -> bool {
    &&& find(rest, gap()) is None
    &&& forall|i: int|
        0 <= i < lines(rest).len() ==> find(#[trigger] lines(rest)[i], field_mark()) is None
}

/// The text of a request: request line, host line, field lines, an empty
/// line and the rest.
pub open spec fn request_text(
    method: Seq<char>,
    target: Seq<char>,
    version: Seq<char>,
    host: Seq<char>,
    fields: Fields,
    rest: Seq<char>,
) -> Seq<char> {
    request_line_of(method, target, version) + newline() + host_line_of(host) + newline()
        + field_lines(fields) + newline() + rest
}

/// The lines of the text of a request that are not blank: the request
/// line, the host line, one line for each field, and those of the rest.
pub proof fn lemma_text_lines(
    method: Seq<char>,
    target: Seq<char>,
    version: Seq<char>,
    host: Seq<char>,
    fields: Fields,
    rest: Seq<char>,
)
    requires
        is_word(method),
        is_word(target),
        is_word(version),
        one_line(host),
        tidy(fields),
    ensures
        solid(lines(request_text(method, target, version, host, fields, rest))) == seq![
            request_line_of(method, target, version),
        ] + (seq![host_line_of(host)] + lines_of_fields(fields)) + solid(lines(rest)),
{
    let r = request_line_of(method, target, version);
    let h = host_line_of(host);
    let fl = field_lines(fields);
    let text = request_text(method, target, version, host, fields, rest);
    lemma_request_line(method, target, version);
    lemma_host_line(host);
    let t1 = h + newline() + fl + newline() + rest;
    assert(text =~= r + newline() + t1);
    lemma_lines_cons(r, t1);
    let t2 = fl + (newline() + rest);
    assert(t1 =~= h + newline() + t2);
    lemma_lines_cons(h, t2);
    lemma_lines_of_field_lines(fields, newline() + rest);
    let e = Seq::<char>::empty();
    assert(newline() + rest =~= e + newline() + rest);
    lemma_lines_cons(e, rest);
    let lf = lines_of_fields(fields);
    let top = seq![r] + (seq![h] + lf);
    let tail = seq![e] + lines(rest);
    assert(lines(text) =~= top + tail);
    lemma_solid_add(top, tail);
    assert forall|i: int| 0 <= i < top.len() implies trim(#[trigger] top[i]).len() > 0 by {
        if i >= 2 {
            assert(top[i] == field_line(fields[i - 2]));
            lemma_field_line(fields[i - 2]);
        }
    }
    lemma_solid_all(top);
    lemma_solid_add(seq![e], lines(rest));
    lemma_solid_of_empty_line();
    assert(solid(tail) =~= solid(lines(rest)));
}

/// An empty line is blank.
proof fn lemma_solid_of_empty_line()
    ensures
        solid(seq![Seq::<char>::empty()]) == Seq::<Seq<char>>::empty(),
{
    let e = Seq::<char>::empty();
    lemma_tail_run(strip_start(e, Class::Space), Class::Space, 0);
    assert(seq![e].drop_last() =~= Seq::<Seq<char>>::empty());
    assert(solid(seq![e].drop_last()) =~= Seq::<Seq<char>>::empty());
}

/// The body that the strict reading finds in the text of a request whose
/// rest holds no empty line: the rest, without the white space at its
/// ends.
pub proof fn lemma_text_body(
    method: Seq<char>,
    target: Seq<char>,
    version: Seq<char>,
    host: Seq<char>,
    fields: Fields,
    rest: Seq<char>,
)
    requires
        is_word(method),
        is_word(target),
        is_word(version),
        one_line(host),
        tidy(fields),
        find(rest, gap()) is None,
    ensures
        strict_body(request_text(method, target, version, host, fields, rest)) == trim(rest),
{
    let r = request_line_of(method, target, version);
    let h = host_line_of(host);
    let fl = field_lines(fields);
    let text = request_text(method, target, version, host, fields, rest);
    lemma_request_line(method, target, version);
    lemma_host_line(host);
    let head = r + newline() + (h + newline()) + fl;
    lemma_spaced_line(r);
    assert(h.len() > 0) by {
        reveal_strlit("Host: ");
    }
    lemma_spaced_line(h);
    lemma_spaced_fields(fields);
    lemma_spaced_add(r + newline(), h + newline());
    lemma_spaced_add(r + newline() + (h + newline()), fl);
    assert(head.last() == '\n') by {
        if fl.len() > 0 {
            assert(head.last() == fl.last());
        } else {
            assert(head =~= r + newline() + (h + newline()));
        }
    }
    assert(text =~= head + newline() + rest);
    lemma_first_gap(head, rest);
}

/// The text of a request reads strictly as that request.
///
/// Where the method and the version are of the known ones, the target is a
/// word, the host holds no line break, the fields are tidy and the rest is
/// quiet, the strict reading of the text gives the method and the version,
/// the URL made of the version's scheme, the host and the target, the
/// fields as they are, and as the body the rest without the white space at
/// its ends.
pub proof fn lemma_text_reads_back(
    m: HttpMethod,
    target: Seq<char>,
    v: HttpVersion,
    host: Seq<char>,
    fields: Fields,
    rest: Seq<char>,
)
    requires
        v != HttpVersion::Unknown,
        is_word(target),
        one_line(host),
        tidy(fields),
        quiet(rest),
    ensures
        parse_strict(request_text(m.token(), target, v.token(), host, fields, rest)) == Ok::<
            RequestDataProperView,
            ParseFault,
        >(
            RequestDataProperView {
                http_version: v,
                method: m,
                url: strict_url(v, host, target),
                headers: fields,
                body: trim(rest),
            },
        ),
{
    let r = request_line_of(m.token(), target, v.token());
    let top = seq![host_line_of(host)] + lines_of_fields(fields);
    let text = request_text(m.token(), target, v.token(), host, fields, rest);
    lemma_tokens_are_words(m, v);
    lemma_tokens_name(m, v);
    lemma_request_line(m.token(), target, v.token());
    lemma_text_lines(m.token(), target, v.token(), host, fields, rest);
    lemma_text_body(m.token(), target, v.token(), host, fields, rest);
    let ls = solid(lines(text));
    assert(ls[0] == r);
    assert(ls.skip(1) =~= top + solid(lines(rest)));
    lemma_head_ignores_solid(top, lines(rest));
    lemma_head_of_fields(host, fields);
}

/// What is shown for a request reads back strictly as that request.
///
/// Let the request have a method and a version of the known ones, and let
/// its URL have parsed into `parts`. Where the target shown is a word, the
/// host shown holds no line break, the fields shown are tidy and the body
/// shown is quiet, the strict reading of the text shown gives the same
/// method and version, the URL made of the version's scheme, the host and
/// the target, the same fields, and the body without the white space at
/// its ends.
pub proof fn lemma_shown_reads_back(
    d: RequestDataView,
    parts: UrlPartsView,
    fields: Fields,
    m: HttpMethod,
    v: HttpVersion,
)
    requires
        d.method == m.token(),
        d.http_version == v.token(),
        v != HttpVersion::Unknown,
        is_word(shown_target(parts)),
        one_line(shown_host(parts)),
        tidy(fields),
        quiet(shown_body(d.body)),
    ensures
        parse_strict(shown_with(d, Some(parts), fields)) == Ok::<
            RequestDataProperView,
            ParseFault,
        >(
            RequestDataProperView {
                http_version: v,
                method: m,
                url: strict_url(v, shown_host(parts), shown_target(parts)),
                headers: fields,
                body: trim(d.body),
            },
        ),
{
    let text = shown_with(d, Some(parts), fields);
    assert(text =~= request_text(
        m.token(),
        shown_target(parts),
        v.token(),
        shown_host(parts),
        fields,
        shown_body(d.body),
    ));
    lemma_text_reads_back(m, shown_target(parts), v, shown_host(parts), fields, shown_body(d.body));
    if d.body.len() > 0 {
        lemma_trim_newline(d.body);
    } else {
        assert(d.body =~= Seq::<char>::empty());
    }
}

/// A text whose first word is no known method does not read strictly: the
/// error names the word. So does a text whose method is known and whose
/// version is not.
pub proof fn lemma_unknown_token_is_named(
    method: Seq<char>,
    target: Seq<char>,
    version: Seq<char>,
    rest: Seq<char>,
)
    requires
        is_word(method),
        is_word(target),
        is_word(version),
    ensures
        HttpMethod::named_by(method) is None ==> parse_strict(
            request_line_of(method, target, version) + newline() + rest,
        ) == Err::<RequestDataProperView, ParseFault>(ParseFault::UnknownMethod(method)),
        HttpMethod::named_by(method) is Some && HttpVersion::named_by(version) is None
            ==> parse_strict(request_line_of(method, target, version) + newline() + rest) == Err::<
            RequestDataProperView,
            ParseFault,
        >(ParseFault::UnknownVersion(version)),
{
    let r = request_line_of(method, target, version);
    lemma_request_line(method, target, version);
    lemma_lines_cons(r, rest);
    let ls = lines(r + newline() + rest);
    assert(ls =~= seq![r] + lines(rest));
    lemma_solid_add(seq![r], lines(rest));
    assert(solid(seq![r]) =~= seq![r]) by {
        assert(seq![r].drop_last() =~= Seq::<Seq<char>>::empty());
        assert(solid(seq![r].drop_last()) =~= Seq::<Seq<char>>::empty());
    }
    assert(solid(ls)[0] == r);
}

} // verus!
