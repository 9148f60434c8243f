//! Header fields as they go over the wire: the names and values that the
//! HTTP library accepts, and its map of them.

use vstd::prelude::*;
use reqwest::header::{HeaderMap, HeaderName, HeaderValue};
use crate::text::lower;

verus! {

/// The map of header fields of the HTTP library.
#[verifier::external_type_specification]
#[verifier::external_body]
#[verifier::reject_recursive_types(T)]
pub struct ExHeaderMap<T>(HeaderMap<T>);

/// A header value of the HTTP library.
#[verifier::external_type_specification]
#[verifier::external_body]
pub struct ExHeaderValue(HeaderValue);

/// Header fields by name.
pub type WireFields = Map<Seq<char>, Seq<char>>;

/// What a wire map holds: for each name, in lower case, its value. A
/// value is given as the text whose UTF-8 bytes the map keeps.
pub uninterp spec fn wire_fields(map: HeaderMap) -> Map<Seq<char>, Seq<char>>;

/// The characters of which a header name can be made: ASCII letters and
/// digits and ``! " # $ % & ' * + - . ^ _ ` | ~``.
pub open spec fn is_name_char(c: char) -> bool {
    let n = c as u32;
    ||| 33 <= n <= 39
    ||| n == 42
    ||| n == 43
    ||| n == 45
    ||| n == 46
    ||| 48 <= n <= 57
    ||| 65 <= n <= 90
    ||| 94 <= n <= 122
    ||| n == 124
    ||| n == 126
}

/// The names that the wire accepts: one to 65535 name characters.
pub open spec fn is_wire_name(name: Seq<char>) -> bool {
    &&& 1 <= name.len() <= 65535
    &&& forall|i: int| 0 <= i < name.len() ==> is_name_char(#[trigger] name[i])
}

/// The characters of which a header value can be made: the tab, and all
/// from the space on but the delete character.
pub open spec fn is_value_char(c: char) -> bool {
    let n = c as u32;
    n == 9 || (n >= 32 && n != 127)
}

/// The values that the wire accepts.
pub open spec fn is_wire_value(value: Seq<char>) -> bool {
    forall|i: int| 0 <= i < value.len() ==> is_value_char(#[trigger] value[i])
}

/// A wire map that holds no more names than this takes one more.
pub const SURE_ROOM: usize = 6553;

/// What became of a field that was offered to a wire map.
#[derive(Debug, Clone, Copy, PartialEq, Eq, Structural)]
pub enum Stored {
    /// The map holds it now.
    Kept,
    /// Its name is not accepted on the wire.
    BadName,
    /// Its name is accepted on the wire and its value is not.
    BadValue,
    /// The map takes no more fields.
    Full,
}

/// `HeaderMap::new`: a map that holds nothing.
#[verifier::external_body]
pub(crate) fn empty_wire_map() -> (r: HeaderMap)
    ensures
        wire_fields(r) == WireFields::empty(),
{
    HeaderMap::new()
}

/// Makes a name with `HeaderName::from_bytes` and a value with
/// `HeaderValue::from_str` and puts them into `map` with
/// `HeaderMap::try_insert`.
///
/// The name is accepted if it has one to 65535 bytes and each is a name
/// character; the value if each byte is a tab, or is 32 or more and not
/// 127. Where either is not accepted nothing is put. An accepted name is
/// kept in lower case, and the value takes the place of every value the
/// map had for that name.
///
/// The map may refuse a field for want of room; then it is left as it
/// was. It refuses only where it cannot grow: with 32768 names, with 24576
/// names in a table of 32768 places, or, after many names fell on the
/// same places, with a fifth of such a table taken. Each of these needs
/// more than `SURE_ROOM` names in the map.
#[verifier::external_body]
pub(crate) fn store_field(map: &mut HeaderMap, name: &str, value: &str) -> (r: Stored)
    ensures
        r is BadName <==> !is_wire_name(name@),
        r is BadValue <==> (is_wire_name(name@) && !is_wire_value(value@)),
        r is Full ==> wire_fields(*old(map)).dom().len() > SURE_ROOM,
        r is Kept ==> wire_fields(*final(map)) == wire_fields(*old(map)).insert(
            lower(name@),
            value@,
        ),
        !(r is Kept) ==> wire_fields(*final(map)) == wire_fields(*old(map)),
{
    let n = match HeaderName::from_bytes(name.as_bytes()) {
        Ok(n) => n,
        Err(_) => return Stored::BadName,
    };
    let v = match HeaderValue::from_str(value) {
        Ok(v) => v,
        Err(_) => return Stored::BadValue,
    };
    match map.try_insert(n, v) {
        Ok(_) => Stored::Kept,
        Err(_) => Stored::Full,
    }
}

} // verus!
