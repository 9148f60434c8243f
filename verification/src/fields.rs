//! Header fields: an ordered list of name and value in which no name
//! occurs twice. Names keep their case.

use vstd::prelude::*;
use crate::named::{is_key_index, key_index, lemma_key_index};

verus! {

/// A list of header fields as sequences of characters: name, then value.
pub type Fields = Seq<(Seq<char>, Seq<char>)>;

/// Whether a field of `fields` is named `key`.
pub open spec fn has_key(fields: Fields, key: Seq<char>) -> bool {
    key_index(fields, key) < fields.len()
}

/// The value of the field named `key`, if there is one.
pub open spec fn value_of(fields: Fields, key: Seq<char>) -> Option<Seq<char>> {
    if has_key(fields, key) {
        Some(fields[key_index(fields, key)].1)
    } else {
        None
    }
}

/// `fields` with `key` set to `value`: in the place of the field of that
/// name where there is one, else at the end.
pub open spec fn put(fields: Fields, key: Seq<char>, value: Seq<char>) -> Fields {
    if has_key(fields, key) {
        fields.update(key_index(fields, key), (key, value))
    } else {
        fields.push((key, value))
    }
}

/// No name occurs twice in `fields`.
pub open spec fn distinct_keys(fields: Fields) -> bool {
    forall|i: int, j: int|
        0 <= i < j < fields.len() ==> (#[trigger] fields[i]).0 != (#[trigger] fields[j]).0
}

/// Setting a field keeps the names distinct, makes the field the value of
/// its name, and leaves the values of all other names as they were.
pub proof fn lemma_put(fields: Fields, key: Seq<char>, value: Seq<char>, other: Seq<char>)
    requires
        distinct_keys(fields),
    ensures
        distinct_keys(put(fields, key, value)),
        value_of(put(fields, key, value), key) == Some(value),
        other != key ==> value_of(put(fields, key, value), other) == value_of(fields, other),
        put(fields, key, value).len() == if has_key(fields, key) {
            fields.len()
        } else {
            fields.len() + 1
        },
{
    let after = put(fields, key, value);
    let i = key_index(fields, key);
    lemma_key_index(fields, key, i);
    assert(is_key_index(after, key, i));
    lemma_key_index(after, key, i);
    let o = key_index(fields, other);
    lemma_key_index(fields, other, o);
    if other != key {
        assert forall|j: int| 0 <= j < o implies (#[trigger] after[j]).0 != other by {
            assert(fields[j].0 != other);
        }
        if o < fields.len() {
            assert(o != i);
            assert(is_key_index(after, other, o));
            lemma_key_index(after, other, o);
        } else {
            assert(is_key_index(after, other, after.len() as int));
            lemma_key_index(after, other, after.len() as int);
        }
    }
    assert forall|a: int, b: int| 0 <= a < b < after.len() implies (#[trigger] after[a]).0 != (
    #[trigger] after[b]).0 by {
        if a < fields.len() && a != i {
            assert(after[a] == fields[a]);
        }
        if b < fields.len() && b != i {
            assert(after[b] == fields[b]);
        }
        if b < fields.len() {
            assert(fields[a].0 != fields[b].0);
        } else {
            assert(fields[a].0 != key);
        }
    }
}

/// The fields that the pairs of `v` stand for.
pub open spec fn fields_of(v: Seq<(String, String)>) -> Fields {
    Seq::new(v.len(), |i: int| (v[i].0@, v[i].1@))
}

/// Header fields, in the order in which their names first came.
#[derive(Debug)]
pub struct HeaderFields {
    entries: Vec<(String, String)>,
}

impl View for HeaderFields {
    type V = Fields;

    closed spec fn view(&self) -> Fields {
        fields_of(self.entries@)
    }
}

impl HeaderFields {
    #[verifier::type_invariant]
    spec fn names_differ(&self) -> bool {
        distinct_keys(fields_of(self.entries@))
    }

    /// No fields.
    pub fn new() -> (r: HeaderFields)
        ensures
            r@ == Fields::empty(),
    {
        let r = HeaderFields { entries: Vec::new() };
        assert(fields_of(r.entries@) =~= Fields::empty());
        r
    }

    /// The number of fields.
    pub fn len(&self) -> (r: usize)
        ensures
            r == self@.len(),
    {
        self.entries.len()
    }

    /// Whether there is no field.
    pub fn is_empty(&self) -> (r: bool)
        ensures
            r == (self@.len() == 0),
    {
        self.entries.len() == 0
    }

    /// No name occurs twice.
    pub fn names_are_distinct(&self)
        ensures
            distinct_keys(self@),
    {
        proof {
            use_type_invariant(self);
        }
    }

    /// The name of the field at `i`.
    pub fn name_at(&self, i: usize) -> (r: &str)
        requires
            i < self@.len(),
        ensures
            r@ == self@[i as int].0,
    {
        self.entries[i].0.as_str()
    }

    /// The value of the field at `i`.
    pub fn value_at(&self, i: usize) -> (r: &str)
        requires
            i < self@.len(),
        ensures
            r@ == self@[i as int].1,
    {
        self.entries[i].1.as_str()
    }

    fn index_of(&self, key: &String) -> (i: usize)
        ensures
            i == key_index(self@, key@),
    {
        let mut i: usize = 0;
        while i < self.entries.len() && self.entries[i].0 != *key
            invariant
                i <= self.entries.len(),
                forall|j: int| 0 <= j < i ==> (#[trigger] self@[j]).0 != key@,
            decreases self.entries.len() - i,
        {
            i += 1;
        }
        proof {
            assert(is_key_index(self@, key@, i as int));
            lemma_key_index(self@, key@, i as int);
        }
        i
    }

    /// The value of the field named `key`, if there is one. Case counts.
    pub fn get(&self, key: &str) -> (r: Option<&str>)
        ensures
            match r {
                Some(v) => value_of(self@, key@) == Some(v@),
                None => value_of(self@, key@) is None,
            },
    {
        let i = self.index_of(&key.to_owned());
        if i < self.entries.len() {
            Some(self.entries[i].1.as_str())
        } else {
            None
        }
    }

    /// Whether a field is named `key`. Case counts.
    pub fn contains_key(&self, key: &str) -> (r: bool)
        ensures
            r == has_key(self@, key@),
    {
        self.index_of(&key.to_owned()) < self.entries.len()
    }

    /// Sets the field named `key` to `value`: in its place where there is
    /// such a field, else at the end.
    pub fn insert(&mut self, key: String, value: String)
        ensures
            final(self)@ == put(old(self)@, key@, value@),
            distinct_keys(final(self)@),
    {
        proof {
            use_type_invariant(&*self);
            lemma_put(self@, key@, value@, key@);
        }
        let i = self.index_of(&key);
        let ghost before = self@;
        let mut taken = HeaderFields::new();
        std::mem::swap(self, &mut taken);
        let mut entries = taken.entries;
        if i < entries.len() {
            entries.set(i, (key, value));
        } else {
            entries.push((key, value));
        }
        assert(fields_of(entries@) =~= put(before, key@, value@));
        *self = HeaderFields { entries };
    }

    /// A copy.
    pub fn clone(&self) -> (r: HeaderFields)
        ensures
            r@ == self@,
    {
        proof {
            use_type_invariant(self);
        }
        let mut entries: Vec<(String, String)> = Vec::new();
        let mut i: usize = 0;
        while i < self.entries.len()
            invariant
                i <= self.entries.len(),
                entries.len() == i,
                fields_of(entries@) == fields_of(self.entries@).take(i as int),
            decreases self.entries.len() - i,
        {
            let k = self.entries[i].0.clone();
            let v = self.entries[i].1.clone();
            let ghost prev = entries@;
            entries.push((k, v));
            proof {
                let got = fields_of(entries@);
                let want = fields_of(self.entries@).take(i + 1);
                assert forall|j: int| 0 <= j < i + 1 implies got[j] == want[j] by {
                    if j < i {
                        assert(entries@[j] == prev[j]);
                        assert(fields_of(prev)[j] == fields_of(self.entries@).take(i as int)[j]);
                    } else {
                        assert(entries@[j] == (k, v));
                    }
                }
                assert(got =~= want);
            }
            i += 1;
        }
        assert(fields_of(self.entries@).take(self.entries.len() as int) =~= fields_of(
            self.entries@,
        ));
        HeaderFields { entries }
    }
}

} // verus!
