//! What the library reads of a JSON document: whether it is an object, the
//! names of the object's members, and the value of each member that is a
//! string.

use vstd::prelude::*;
use crate::named::{is_key_index, key_index, lemma_key_index};
use crate::text::str_eq;

verus! {

/// The members of a JSON object: the name, then the value where it is a
/// string and `None` where it is anything else.
pub type Members = Seq<(Seq<char>, Option<Seq<char>>)>;

/// The members that the pairs of `v` stand for.
pub open spec fn members_of(v: Seq<(String, Option<String>)>) -> Members {
    Seq::new(
        v.len(),
        |i: int|
            (
                v[i].0@,
                match v[i].1 {
                    Some(t) => Some(t@),
                    None => None,
                },
            ),
    )
}

/// The value of the first member of `ms` named `name`, where there is such
/// a member and its value is a string.
pub open spec fn member_text(ms: Members, name: Seq<char>) -> Option<Seq<char>> {
    let i = key_index(ms, name);
    if i < ms.len() {
        ms[i].1
    } else {
        None
    }
}

/// A JSON object as far as the library reads it.
#[derive(Debug)]
pub struct JsonObject {
    /// The members in the order of the document's own map.
    pub members: Vec<(String, Option<String>)>,
}

impl View for JsonObject {
    type V = Members;

    open spec fn view(&self) -> Members {
        members_of(self.members@)
    }
}

impl JsonObject {
    /// The object without members.
    pub fn new() -> (r: JsonObject)
        ensures
            r@ == Members::empty(),
    {
        let r = JsonObject { members: Vec::new() };
        assert(r@ =~= Members::empty());
        r
    }

    /// Adds a member whose value is the string `text`.
    pub fn push_text(&mut self, name: String, text: String)
        ensures
            final(self)@ == old(self)@.push((name@, Some(text@))),
    {
        self.members.push((name, Some(text)));
        assert(self@ =~= old(self)@.push((name@, Some(text@))));
    }

    /// Adds a member whose value is no string.
    pub fn push_other(&mut self, name: String)
        ensures
            final(self)@ == old(self)@.push((name@, None::<Seq<char>>)),
    {
        self.members.push((name, None));
        assert(self@ =~= old(self)@.push((name@, None::<Seq<char>>)));
    }

    /// The number of members.
    pub fn len(&self) -> (r: usize)
        ensures
            r == self@.len(),
    {
        self.members.len()
    }

    /// The value of the first member named `name`, where there is such a
    /// member and its value is a string.
    pub fn text_of(&self, name: &str) -> (r: Option<&str>)
        ensures
            match r {
                Some(t) => member_text(self@, name@) == Some(t@),
                None => member_text(self@, name@) is None,
            },
    {
        let mut i: usize = 0;
        while i < self.members.len() && !str_eq(self.members[i].0.as_str(), name)
            invariant
                i <= self.members.len(),
                forall|j: int| 0 <= j < i ==> (#[trigger] self@[j]).0 != name@,
            decreases self.members.len() - i,
        {
            i += 1;
        }
        proof {
            assert(is_key_index(self@, name@, i as int));
            lemma_key_index(self@, name@, i as int);
        }
        if i < self.members.len() {
            match &self.members[i].1 {
                Some(t) => Some(t.as_str()),
                None => None,
            }
        } else {
            None
        }
    }
}

/// The error with which `serde_json` refuses a text.
#[verifier::external_type_specification]
#[verifier::external_body]
pub struct ExJsonError(serde_json::Error);

/// What `serde_json` makes of `text`: `None` where the text is no JSON
/// document, `Some(None)` where the document is no object, else the
/// object's members in the order in which its map hands them out.
pub uninterp spec fn json_members(text: Seq<char>) -> Option<Option<Members>>;

/// Parses `text` with `serde_json::from_str` into a `serde_json::Value` and
/// hands out the members of the object, each with its value where
/// `Value::as_str` gives one. The contract only gives the outcome its name,
/// `json_members`: the same text always yields the same outcome.
#[verifier::external_body]
pub(crate) fn parse_object(text: &str) -> (r: Result<Option<JsonObject>, serde_json::Error>)
    ensures
        match r {
            Ok(Some(obj)) => json_members(text@) == Some(Some(obj@)),
            Ok(None) => json_members(text@) == Some(None::<Members>),
            Err(_) => json_members(text@) is None,
        },
{
    let value: serde_json::Value = serde_json::from_str(text)?;
    Ok(
        value.as_object().map(
            |m|
                JsonObject {
                    members: m.iter().map(|(k, x)| (k.clone(), x.as_str().map(String::from))).collect(),
                },
        ),
    )
}

} // verus!
