//! Character-level text primitives: conversion between strings and
//! character vectors, whitespace, trimming, searching and splitting.
//!
//! Every function is specified over `Seq<char>`, the view of a string.

use vstd::prelude::*;

verus! {

/// `String::push` appends one character.
pub assume_specification[ String::push ](s: &mut String, c: char)
    ensures
        final(s)@ == old(s)@.push(c),
;

/// The characters of `s`, in order.
pub fn chars_of(s: &str) -> (v: Vec<char>)
    ensures
        v@ == s@,
{
    let mut v: Vec<char> = Vec::new();
    for c in it: s.chars()
        invariant
            v@ == it.seq().take(it.index() as int),
            it.seq() == s@,
    {
        v.push(c);
    }
    v
}

/// The string that holds the characters of `v`, in order.
pub fn string_of(v: &Vec<char>) -> (s: String)
    ensures
        s@ == v@,
{
    let mut s = String::new();
    let mut i: usize = 0;
    while i < v.len()
        invariant
            i <= v.len(),
            s@ == v@.take(i as int),
        decreases v.len() - i,
    {
        s.push(v[i]);
        i += 1;
        assert(v@.take(i as int) =~= v@.take(i as int - 1).push(v@[i as int - 1]));
    }
    assert(v@.take(v.len() as int) =~= v@);
    s
}

/// The characters that Unicode gives the property White_Space.
pub open spec fn is_space(c: char) -> bool {
    let n = c as u32;
    ||| 9 <= n <= 13
    ||| n == 0x20
    ||| n == 0x85
    ||| n == 0xA0
    ||| n == 0x1680
    ||| 0x2000 <= n <= 0x200A
    ||| n == 0x2028
    ||| n == 0x2029
    ||| n == 0x202F
    ||| n == 0x205F
    ||| n == 0x3000
}

/// A class of characters: what a run of characters is made of.
#[derive(Debug, Clone, Copy, PartialEq, Eq, Structural)]
pub enum Class {
    /// White space.
    Space,
    /// Anything but white space.
    Word,
    /// The slash `/`.
    Slash,
}

impl Class {
    /// Whether `c` belongs to the class.
    pub open spec fn has(self, c: char) -> bool {
        match self {
            Class::Space => is_space(c),
            Class::Word => !is_space(c),
            Class::Slash => c == '/',
        }
    }

    /// Whether `c` belongs to the class.
    pub fn holds(self, c: char) -> (r: bool)
        ensures
            r == self.has(c),
    {
        let n: u32 = c as u32;
        let space = (9 <= n && n <= 13) || n == 0x20 || n == 0x85 || n == 0xA0 || n == 0x1680 || (
        0x2000 <= n && n <= 0x200A) || n == 0x2028 || n == 0x2029 || n == 0x202F || n == 0x205F
            || n == 0x3000;
        match self {
            Class::Space => space,
            Class::Word => !space,
            Class::Slash => c == '/',
        }
    }
}

/// How many characters at the start of `s` belong to `k`.
pub open spec fn run_len(s: Seq<char>, k: Class) -> nat
    decreases s.len(),
{
    if s.len() > 0 && k.has(s[0]) {
        1 + run_len(s.drop_first(), k)
    } else {
        0
    }
}

/// How many characters at the end of `s` belong to `k`.
pub open spec fn tail_run_len(s: Seq<char>, k: Class) -> nat
    decreases s.len(),
{
    if s.len() > 0 && k.has(s.last()) {
        1 + tail_run_len(s.drop_last(), k)
    } else {
        0
    }
}

/// `n` is the length of the run of `k` at the start of `s`.
pub open spec fn is_run(s: Seq<char>, k: Class, n: int) -> bool {
    &&& 0 <= n <= s.len()
    &&& forall|i: int| 0 <= i < n ==> k.has(#[trigger] s[i])
    &&& n < s.len() ==> !k.has(s[n])
}

/// `n` is the length of the run of `k` at the end of `s`.
pub open spec fn is_tail_run(s: Seq<char>, k: Class, n: int) -> bool {
    &&& 0 <= n <= s.len()
    &&& forall|i: int| s.len() - n <= i < s.len() ==> k.has(#[trigger] s[i])
    &&& n < s.len() ==> !k.has(s[s.len() - n - 1])
}

/// The run at the start of `s` is the one length that `is_run` admits.
pub proof fn lemma_run(s: Seq<char>, k: Class, n: int)
    ensures
        is_run(s, k, run_len(s, k) as int),
        is_run(s, k, n) ==> n == run_len(s, k),
    decreases s.len(),
{
    if s.len() > 0 && k.has(s[0]) {
        let t = s.drop_first();
        lemma_run(t, k, n - 1);
        let m = run_len(t, k) as int;
        assert forall|i: int| 0 <= i < m + 1 implies k.has(#[trigger] s[i]) by {
            if i > 0 {
                assert(s[i] == t[i - 1]);
            }
        }
        if m + 1 < s.len() {
            assert(s[m + 1] == t[m]);
        }
        if is_run(s, k, n) {
            assert(n >= 1);
            assert forall|i: int| 0 <= i < n - 1 implies k.has(#[trigger] t[i]) by {
                assert(t[i] == s[i + 1]);
            }
            if n - 1 < t.len() {
                assert(t[n - 1] == s[n]);
            }
            assert(is_run(t, k, n - 1));
        }
    } else {
        if is_run(s, k, n) && n > 0 {
            assert(k.has(s[0]));
        }
    }
}

/// The run at the end of `s` is the one length that `is_tail_run` admits.
pub proof fn lemma_tail_run(s: Seq<char>, k: Class, n: int)
    ensures
        is_tail_run(s, k, tail_run_len(s, k) as int),
        is_tail_run(s, k, n) ==> n == tail_run_len(s, k),
    decreases s.len(),
{
    if s.len() > 0 && k.has(s.last()) {
        let t = s.drop_last();
        lemma_tail_run(t, k, n - 1);
        let m = tail_run_len(t, k) as int;
        assert forall|i: int| s.len() - (m + 1) <= i < s.len() implies k.has(#[trigger] s[i]) by {
            if i < s.len() - 1 {
                assert(s[i] == t[i]);
            }
        }
        if m + 1 < s.len() {
            assert(s[s.len() - (m + 1) - 1] == t[t.len() - m - 1]);
        }
        if is_tail_run(s, k, n) {
            assert(n >= 1);
            assert forall|i: int| t.len() - (n - 1) <= i < t.len() implies k.has(
                #[trigger] t[i],
            ) by {
                assert(t[i] == s[i]);
            }
            if n - 1 < t.len() {
                assert(t[t.len() - (n - 1) - 1] == s[s.len() - n - 1]);
            }
            assert(is_tail_run(t, k, n - 1));
        }
    } else {
        if is_tail_run(s, k, n) && n > 0 {
            assert(k.has(s[s.len() - 1]));
        }
    }
}

/// `s` without the run of `k` at its start.
pub open spec fn strip_start(s: Seq<char>, k: Class) -> Seq<char> {
    s.skip(run_len(s, k) as int)
}

/// `s` without the run of `k` at its end.
pub open spec fn strip_end(s: Seq<char>, k: Class) -> Seq<char> {
    s.take(s.len() - tail_run_len(s, k))
}

/// `s` without the white space at its two ends.
pub open spec fn trim(s: Seq<char>) -> Seq<char> {
    strip_end(strip_start(s, Class::Space), Class::Space)
}

/// The characters of `v` from `from` up to `to`.
pub(crate) fn slice_of(v: &Vec<char>, from: usize, to: usize) -> (r: Vec<char>)
    requires
        from <= to <= v.len(),
    ensures
        r@ == v@.subrange(from as int, to as int),
{
    let mut r: Vec<char> = Vec::new();
    let mut i: usize = from;
    while i < to
        invariant
            from <= i <= to <= v.len(),
            r@ == v@.subrange(from as int, i as int),
        decreases to - i,
    {
        r.push(v[i]);
        i += 1;
        assert(v@.subrange(from as int, i as int) =~= v@.subrange(from as int, i as int - 1).push(
            v@[i as int - 1],
        ));
    }
    r
}

/// The index at which the run of `k` that starts at `from` ends.
pub(crate) fn skip_run(v: &Vec<char>, from: usize, k: Class) -> (r: usize)
    requires
        from <= v.len(),
    ensures
        r == from + run_len(v@.skip(from as int), k),
        from <= r <= v.len(),
{
    let mut i: usize = from;
    while i < v.len() && k.holds(v[i])
        invariant
            from <= i <= v.len(),
            forall|j: int| from <= j < i ==> k.has(#[trigger] v@[j]),
        decreases v.len() - i,
    {
        i += 1;
    }
    proof {
        let s = v@.skip(from as int);
        assert forall|j: int| 0 <= j < i - from implies k.has(#[trigger] s[j]) by {
            assert(s[j] == v@[from + j]);
        }
        assert(is_run(s, k, i - from));
        lemma_run(s, k, i - from);
    }
    i
}

/// The index at which the run of `k` that ends at `to` starts.
pub(crate) fn skip_run_back(v: &Vec<char>, to: usize, k: Class) -> (r: usize)
    requires
        to <= v.len(),
    ensures
        r == to - tail_run_len(v@.take(to as int), k),
        r <= to,
{
    let mut i: usize = to;
    while i > 0 && k.holds(v[i - 1])
        invariant
            i <= to <= v.len(),
            forall|j: int| i <= j < to ==> k.has(#[trigger] v@[j]),
        decreases i,
    {
        i -= 1;
    }
    proof {
        let s = v@.take(to as int);
        assert forall|j: int| s.len() - (to - i) <= j < s.len() implies k.has(#[trigger] s[j]) by {
            assert(s[j] == v@[j]);
        }
        assert(is_tail_run(s, k, to - i));
        lemma_tail_run(s, k, to - i);
    }
    i
}

/// `v` without the runs of `k` at its two ends, the run at the start
/// taken off first.
pub fn strip_both(v: &Vec<char>, k: Class) -> (r: Vec<char>)
    ensures
        r@ == strip_end(strip_start(v@, k), k),
{
    let a = skip_run(v, 0, k);
    assert(v@.skip(0) =~= v@);
    let rest = slice_of(v, a, v.len());
    assert(rest@ =~= strip_start(v@, k));
    let b = skip_run_back(&rest, rest.len(), k);
    assert(rest@.take(rest.len() as int) =~= rest@);
    let r = slice_of(&rest, 0, b);
    r
}

/// `v` without the white space at its two ends.
pub fn trimmed(v: &Vec<char>) -> (r: Vec<char>)
    ensures
        r@ == trim(v@),
{
    strip_both(v, Class::Space)
}

/// `pat` stands in `s` at index `i`.
pub open spec fn occurs_at(s: Seq<char>, pat: Seq<char>, i: int) -> bool {
    &&& 0 <= i
    &&& i + pat.len() <= s.len()
    &&& s.subrange(i, i + pat.len()) == pat
}

/// `i` is the first index at which `pat` stands in `s`.
pub open spec fn first_at(s: Seq<char>, pat: Seq<char>, i: int) -> bool {
    &&& occurs_at(s, pat, i)
    &&& forall|j: int| 0 <= j < i ==> !occurs_at(s, pat, j)
}

/// The first index at which `pat` stands in `s`, if it stands anywhere.
pub open spec fn find(s: Seq<char>, pat: Seq<char>) -> Option<int> {
    if exists|i: int| first_at(s, pat, i) {
        Some(choose|i: int| first_at(s, pat, i))
    } else {
        None
    }
}

/// `find` gives `Some(i)` for the first occurrence and for nothing else.
pub proof fn lemma_find_some(s: Seq<char>, pat: Seq<char>, i: int)
    requires
        first_at(s, pat, i),
    ensures
        find(s, pat) == Some(i),
{
    let j = choose|j: int| first_at(s, pat, j);
    if j < i {
        assert(occurs_at(s, pat, j));
    }
    if i < j {
        assert(occurs_at(s, pat, i));
    }
}

/// `find` gives `None` where `pat` stands nowhere in `s`.
pub proof fn lemma_find_none(s: Seq<char>, pat: Seq<char>)
    requires
        forall|i: int| !occurs_at(s, pat, i),
    ensures
        find(s, pat) is None,
{
}

/// What `find` returns is a first occurrence; without one, there is none.
pub proof fn lemma_find(s: Seq<char>, pat: Seq<char>)
    ensures
        find(s, pat) matches Some(i) ==> first_at(s, pat, i),
        find(s, pat) is None ==> forall|i: int| !occurs_at(s, pat, i),
{
    if find(s, pat) is None {
        assert forall|i: int| !occurs_at(s, pat, i) by {
            if occurs_at(s, pat, i) {
                lemma_least_occurrence(s, pat, i);
            }
        }
    }
}

/// Below an occurrence there is a first one.
proof fn lemma_least_occurrence(s: Seq<char>, pat: Seq<char>, i: int)
    requires
        occurs_at(s, pat, i),
    ensures
        exists|j: int| first_at(s, pat, j),
    decreases i,
{
    if exists|j: int| 0 <= j < i && occurs_at(s, pat, j) {
        let j = choose|j: int| 0 <= j < i && occurs_at(s, pat, j);
        lemma_least_occurrence(s, pat, j);
    } else {
        assert(first_at(s, pat, i));
    }
}

/// Whether `pat` stands in `v` at index `i`.
pub fn stands_at(v: &Vec<char>, pat: &Vec<char>, i: usize) -> (r: bool)
    ensures
        r == occurs_at(v@, pat@, i as int),
{
    if pat.len() > v.len() || i > v.len() - pat.len() {
        return false;
    }
    let mut k: usize = 0;
    while k < pat.len()
        invariant
            k <= pat.len(),
            i + pat.len() <= v.len(),
            v@.subrange(i as int, i + k) == pat@.take(k as int),
        decreases pat.len() - k,
    {
        if v[i + k] != pat[k] {
            proof {
                let w = v@.subrange(i as int, i + pat.len());
                assert(w[k as int] == v@[i + k]);
            }
            return false;
        }
        k += 1;
        assert(v@.subrange(i as int, i + k) =~= v@.subrange(i as int, i + k - 1).push(
            v@[i + k - 1],
        ));
        assert(pat@.take(k as int) =~= pat@.take(k as int - 1).push(pat@[k as int - 1]));
    }
    assert(pat@.take(pat.len() as int) =~= pat@);
    true
}

/// The first index at or after `from` at which `pat` stands in `v`.
pub(crate) fn find_from(v: &Vec<char>, pat: &Vec<char>, from: usize) -> (r: Option<usize>)
    requires
        from <= v.len(),
    ensures
        match r {
            Some(i) => from <= i && find(v@.skip(from as int), pat@) == Some(i - from),
            None => find(v@.skip(from as int), pat@) is None,
        },
{
    let ghost s = v@.skip(from as int);
    let mut i: usize = from;
    proof {
        assert forall|j: int| occurs_at(s, pat@, j) implies occurs_at(v@, pat@, from + j) by {
            assert(s.subrange(j, j + pat@.len()) =~= v@.subrange(from + j, from + j + pat@.len()));
        }
        assert forall|j: int| from <= j && occurs_at(v@, pat@, j) implies occurs_at(
            s,
            pat@,
            j - from,
        ) by {
            assert(s.subrange(j - from, j - from + pat@.len()) =~= v@.subrange(
                j,
                j + pat@.len(),
            ));
        }
    }
    loop
        invariant
            from <= i <= v.len(),
            s == v@.skip(from as int),
            forall|j: int| from <= j < i ==> !occurs_at(v@, pat@, j),
            forall|j: int| occurs_at(s, pat@, j) ==> occurs_at(v@, pat@, from + j),
            forall|j: int|
                from <= j && occurs_at(v@, pat@, j) ==> occurs_at(s, pat@, j - from),
        decreases v.len() - i,
    {
        if stands_at(v, pat, i) {
            proof {
                assert(first_at(s, pat@, i - from));
                lemma_find_some(s, pat@, i - from);
            }
            return Some(i);
        }
        if i == v.len() {
            proof {
                assert forall|j: int| !occurs_at(s, pat@, j) by {
                    if occurs_at(s, pat@, j) {
                        assert(occurs_at(v@, pat@, from + j));
                    }
                }
                lemma_find_none(s, pat@);
            }
            return None;
        }
        i += 1;
    }
}

/// The views of the vectors in `v`, in order.
pub open spec fn views(v: Seq<Vec<char>>) -> Seq<Seq<char>> {
    Seq::new(v.len(), |i: int| v[i]@)
}

/// Pushing a vector onto `v` pushes its view onto the views.
pub proof fn lemma_views_push(v: Seq<Vec<char>>, x: Vec<char>)
    ensures
        views(v.push(x)) == views(v).push(x@),
{
    assert(views(v.push(x)) =~= views(v).push(x@));
}

/// The line break.
pub open spec fn newline() -> Seq<char> {
    seq!['\n']
}

/// `s` without a carriage return at its end.
pub open spec fn strip_cr(s: Seq<char>) -> Seq<char> {
    if s.len() > 0 && s.last() == '\r' {
        s.drop_last()
    } else {
        s
    }
}

/// The lines of `s`. A line ends at a line feed; a carriage return just
/// before that line feed is not part of the line. What follows the last
/// line feed is a line only if it is not empty.
pub open spec fn lines(s: Seq<char>) -> Seq<Seq<char>>
    decreases s.len(),
    via lines_decreases
{
    if s.len() == 0 {
        Seq::empty()
    } else {
        match find(s, newline()) {
            Some(i) => seq![strip_cr(s.take(i))] + lines(s.skip(i + 1)),
            None => seq![s],
        }
    }
}

#[via_fn]
proof fn lines_decreases(s: Seq<char>) {
    lemma_find(s, newline());
}

/// The pieces of `parts`, with `sep` between each two.
pub open spec fn join(parts: Seq<Seq<char>>, sep: Seq<char>) -> Seq<char>
    decreases parts.len(),
{
    if parts.len() == 0 {
        Seq::empty()
    } else if parts.len() == 1 {
        parts[0]
    } else {
        join(parts.drop_last(), sep) + sep + parts.last()
    }
}

/// The vector that holds `c` alone.
pub fn single(c: char) -> (r: Vec<char>)
    ensures
        r@ == seq![c],
{
    let mut r: Vec<char> = Vec::new();
    r.push(c);
    assert(r@ =~= seq![c]);
    r
}

/// The vector that holds `a`, then `b`.
pub fn pair(a: char, b: char) -> (r: Vec<char>)
    ensures
        r@ == seq![a, b],
{
    let mut r: Vec<char> = Vec::new();
    r.push(a);
    r.push(b);
    assert(r@ =~= seq![a, b]);
    r
}

/// The lines of `v`.
pub fn lines_of(v: &Vec<char>) -> (r: Vec<Vec<char>>)
    ensures
        views(r@) == lines(v@),
{
    let nl = single('\n');
    let mut out: Vec<Vec<char>> = Vec::new();
    let mut pos: usize = 0;
    assert(v@.skip(0) =~= v@);
    assert(views(out@) =~= Seq::empty());
    while pos < v.len()
        invariant
            pos <= v.len(),
            nl@ == newline(),
            lines(v@) == views(out@) + lines(v@.skip(pos as int)),
        decreases v.len() - pos,
    {
        let ghost rest = v@.skip(pos as int);
        let ghost before = out@;
        match find_from(v, &nl, pos) {
            Some(i) => {
                proof {
                    lemma_find(rest, newline());
                }
                let mut end = i;
                if end > pos && v[end - 1] == '\r' {
                    end -= 1;
                }
                let line = slice_of(v, pos, end);
                proof {
                    assert(rest.take(i - pos) =~= v@.subrange(pos as int, i as int));
                    assert(line@ =~= strip_cr(rest.take(i - pos)));
                    assert(rest.skip(i - pos + 1) =~= v@.skip(i + 1));
                    lemma_views_push(before, line);
                }
                out.push(line);
                pos = i + 1;
                assert(views(out@) + lines(v@.skip(pos as int)) =~= views(before) + (
                seq![line@] + lines(v@.skip(pos as int))));
            },
            None => {
                let line = slice_of(v, pos, v.len());
                proof {
                    assert(line@ =~= rest);
                    lemma_views_push(before, line);
                    assert(v@.skip(v.len() as int) =~= Seq::<char>::empty());
                }
                out.push(line);
                pos = v.len();
                assert(views(out@) + lines(v@.skip(pos as int)) =~= views(before) + seq![rest]);
            },
        }
    }
    assert(v@.skip(v.len() as int) =~= Seq::<char>::empty());
    assert(views(out@) + Seq::<Seq<char>>::empty() =~= views(out@));
    out
}

/// The vectors of `parts`, with `sep` between each two.
pub fn joined(parts: &Vec<Vec<char>>, sep: &Vec<char>) -> (r: Vec<char>)
    ensures
        r@ == join(views(parts@), sep@),
{
    let mut out: Vec<char> = Vec::new();
    let mut i: usize = 0;
    assert(views(parts@).take(0) =~= Seq::<Seq<char>>::empty());
    while i < parts.len()
        invariant
            i <= parts.len(),
            out@ == join(views(parts@).take(i as int), sep@),
        decreases parts.len() - i,
    {
        let ghost done = views(parts@).take(i as int);
        let ghost next = views(parts@).take(i + 1);
        proof {
            assert(next.drop_last() =~= done);
            assert(next.last() == parts@[i as int]@);
        }
        if i > 0 {
            append(&mut out, sep);
        }
        append(&mut out, &parts[i]);
        proof {
            if i == 0 {
                assert(out@ =~= parts@[0]@);
            }
        }
        i += 1;
    }
    assert(views(parts@).take(parts.len() as int) =~= views(parts@));
    out
}

/// Puts the characters of `more` at the end of `out`.
pub fn append(out: &mut Vec<char>, more: &Vec<char>)
    ensures
        final(out)@ == old(out)@ + more@,
{
    let mut i: usize = 0;
    assert(more@.take(0) =~= Seq::<char>::empty());
    assert(out@ + Seq::<char>::empty() =~= out@);
    while i < more.len()
        invariant
            i <= more.len(),
            out@ == old(out)@ + more@.take(i as int),
        decreases more.len() - i,
    {
        out.push(more[i]);
        i += 1;
        assert(more@.take(i as int) =~= more@.take(i as int - 1).push(more@[i as int - 1]));
        assert(old(out)@ + more@.take(i as int) =~= (old(out)@ + more@.take(i as int - 1)).push(
            more@[i as int - 1],
        ));
    }
    assert(more@.take(more.len() as int) =~= more@);
}

/// Whether `v` holds the characters of `lit`.
pub fn same(v: &Vec<char>, lit: &str) -> (r: bool)
    ensures
        r == (v@ == lit@),
{
    let w = chars_of(lit);
    same_chars(v, &w)
}

/// Whether `a` and `b` hold the same characters.
pub fn same_chars(a: &Vec<char>, b: &Vec<char>) -> (r: bool)
    ensures
        r == (a@ == b@),
{
    if a.len() != b.len() {
        return false;
    }
    let mut i: usize = 0;
    while i < a.len()
        invariant
            i <= a.len(),
            a.len() == b.len(),
            forall|j: int| 0 <= j < i ==> a@[j] == b@[j],
        decreases a.len() - i,
    {
        if a[i] != b[i] {
            return false;
        }
        i += 1;
    }
    assert(a@ =~= b@);
    true
}

/// `c` in lower case if it is an ASCII capital, else `c`.
pub open spec fn lower_char(c: char) -> char {
    if 'A' <= c <= 'Z' {
        ((c as u8 + 32) as u8) as char
    } else {
        c
    }
}

/// `c` in lower case if it is an ASCII capital, else `c`.
pub fn to_lower_char(c: char) -> (r: char)
    ensures
        r == lower_char(c),
{
    let n: u32 = c as u32;
    if 65 <= n && n <= 90 {
        let b: u8 = n as u8;
        (b + 32) as char
    } else {
        c
    }
}

/// `s` with its ASCII capitals in lower case.
pub open spec fn lower(s: Seq<char>) -> Seq<char> {
    Seq::new(s.len(), |i: int| lower_char(s[i]))
}

/// `v` with its ASCII capitals in lower case.
pub fn to_lower(v: &Vec<char>) -> (r: Vec<char>)
    ensures
        r@ == lower(v@),
{
    let mut r: Vec<char> = Vec::new();
    let mut i: usize = 0;
    while i < v.len()
        invariant
            i <= v.len(),
            r@ == lower(v@).take(i as int),
        decreases v.len() - i,
    {
        r.push(to_lower_char(v[i]));
        i += 1;
        assert(lower(v@).take(i as int) =~= lower(v@).take(i as int - 1).push(
            lower_char(v@[i as int - 1]),
        ));
    }
    assert(lower(v@).take(v.len() as int) =~= lower(v@));
    r
}

/// Whether `a` and `b` are the same but for the case of ASCII letters.
pub open spec fn same_ignoring_case(a: Seq<char>, b: Seq<char>) -> bool {
    lower(a) == lower(b)
}

/// The first word of `s`: what stands between the white space at its
/// start and the next white space. It is empty where `s` holds no word.
pub open spec fn first_word(s: Seq<char>) -> Seq<char> {
    let t = strip_start(s, Class::Space);
    t.take(run_len(t, Class::Word) as int)
}

/// What follows the first word of `s`.
pub open spec fn after_word(s: Seq<char>) -> Seq<char> {
    let t = strip_start(s, Class::Space);
    t.skip(run_len(t, Class::Word) as int)
}

/// The first word of `v` at or after `from`, and the index behind it.
pub(crate) fn word_from(v: &Vec<char>, from: usize) -> (r: (Vec<char>, usize))
    requires
        from <= v.len(),
    ensures
        r.0@ == first_word(v@.skip(from as int)),
        from <= r.1 <= v.len(),
        v@.skip(r.1 as int) == after_word(v@.skip(from as int)),
{
    let a = skip_run(v, from, Class::Space);
    let b = skip_run(v, a, Class::Word);
    let w = slice_of(v, a, b);
    proof {
        let s = v@.skip(from as int);
        let t = strip_start(s, Class::Space);
        assert(t =~= v@.skip(a as int));
        assert(w@ =~= t.take(b - a));
        assert(v@.skip(b as int) =~= t.skip(b - a));
    }
    (w, b)
}

/// Whether `a` and `b` hold the same characters.
pub fn str_eq(a: &str, b: &str) -> (r: bool)
    ensures
        r == (a@ == b@),
{
    let x = chars_of(a);
    let y = chars_of(b);
    same_chars(&x, &y)
}

/// `v` cut at the first place where `pat` stands: what is before it and
/// what is behind it. `None` where `pat` stands nowhere in `v`.
pub fn split_first(v: &Vec<char>, pat: &Vec<char>) -> (r: Option<(Vec<char>, Vec<char>)>)
    ensures
        match r {
            Some((a, b)) => find(v@, pat@) matches Some(i) && a@ == v@.take(i) && b@ == v@.skip(
                i + pat@.len(),
            ),
            None => find(v@, pat@) is None,
        },
{
    assert(v@.skip(0) =~= v@);
    match find_from(v, pat, 0) {
        Some(i) => {
            proof {
                lemma_find(v@, pat@);
                assert(find(v@, pat@) == Some(i as int));
                assert(occurs_at(v@, pat@, i as int));
                assert(i + pat@.len() <= v@.len());
            }
            let n = v.len();
            let a = slice_of(v, 0, i);
            let b = slice_of(v, i + pat.len(), n);
            assert(a@ =~= v@.take(i as int));
            assert(b@ =~= v@.skip(i + pat@.len()));
            Some((a, b))
        },
        None => None,
    }
}

/// Whether `v` is made of white space alone.
pub fn is_blank(v: &Vec<char>) -> (r: bool)
    ensures
        r == (trim(v@).len() == 0),
{
    let a = skip_run(v, 0, Class::Space);
    proof {
        assert(v@.skip(0) =~= v@);
        let t = strip_start(v@, Class::Space);
        lemma_run(v@, Class::Space, a as int);
        lemma_tail_run(t, Class::Space, 0);
        if a < v.len() {
            assert(t[0] == v@[a as int]);
            assert(tail_run_len(t, Class::Space) < t.len());
        }
    }
    a == v.len()
}

/// A text that is not blank has a first word.
pub proof fn lemma_first_word_exists(s: Seq<char>)
    requires
        trim(s).len() > 0,
    ensures
        first_word(s).len() > 0,
{
    let a = run_len(s, Class::Space) as int;
    lemma_run(s, Class::Space, a);
    let t = strip_start(s, Class::Space);
    if a == s.len() {
        assert(t =~= Seq::<char>::empty());
        assert(strip_end(t, Class::Space) =~= Seq::<char>::empty());
    } else {
        assert(t[0] == s[a]);
        let b = run_len(t, Class::Word) as int;
        lemma_run(t, Class::Word, b);
        if b == 0 {
            assert(!Class::Word.has(t[0]));
        }
    }
}

} // verus!
