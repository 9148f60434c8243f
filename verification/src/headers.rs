//! The header blob of a captured request and its reading as header fields.
//!
//! The capture agent writes the headers as an object in which single
//! quotes stand where JSON wants double quotes. Before the blob is parsed
//! its double quotes are escaped and its single quotes are turned into
//! double quotes.

use vstd::prelude::*;
use crate::fields::{distinct_keys, has_key, lemma_put, put, Fields, HeaderFields};
use crate::json::{json_members, parse_object, JsonObject, Members};
use crate::text::{
    chars_of,
    lemma_run,
    lemma_tail_run,
    lower,
    same,
    string_of,
    strip_start,
    to_lower,
    trim,
    trimmed,
    Class,
};
use crate::wire::{
    empty_wire_map,
    is_wire_name,
    is_wire_value,
    store_field,
    wire_fields,
    Stored,
    WireFields,
    SURE_ROOM,
};
use reqwest::header::HeaderMap;

verus! {

/// `s` with a backslash put before each double quote.
pub open spec fn escape_quotes(s: Seq<char>) -> Seq<char>
    decreases s.len(),
{
    if s.len() == 0 {
        Seq::empty()
    } else if s.last() == '"' {
        escape_quotes(s.drop_last()) + seq!['\\', '"']
    } else {
        escape_quotes(s.drop_last()).push(s.last())
    }
}

/// `s` with a double quote in the place of each single quote.
pub open spec fn swap_quotes(s: Seq<char>) -> Seq<char> {
    Seq::new(
        s.len(),
        |i: int|
            if s[i] == '\'' {
                '"'
            } else {
                s[i]
            },
    )
}

/// The blob `s` as JSON text: double quotes escaped, then single quotes
/// turned into double quotes.
pub open spec fn normalize(s: Seq<char>) -> Seq<char> {
    swap_quotes(escape_quotes(s))
}

/// Why a header blob could not be read as header fields.
#[derive(Debug)]
pub enum FormatError {
    /// The normalized blob is no JSON document.
    Syntax,
    /// The document is no object.
    NotAnObject,
    /// The member of this name has a value that is no string.
    NotAString(String),
}

/// A format error, with the name it gives as a sequence of characters.
pub enum FormatFault {
    Syntax,
    NotAnObject,
    NotAString(Seq<char>),
}

impl View for FormatError {
    type V = FormatFault;

    open spec fn view(&self) -> FormatFault {
        match *self {
            FormatError::Syntax => FormatFault::Syntax,
            FormatError::NotAnObject => FormatFault::NotAnObject,
            FormatError::NotAString(name) => FormatFault::NotAString(name@),
        }
    }
}

/// The header fields that the members `ms` give: each member in turn sets
/// the field of its name. The first member whose value is no string makes
/// the whole an error that names it.
pub open spec fn fields_from(ms: Members) -> Result<Fields, FormatFault>
    decreases ms.len(),
{
    if ms.len() == 0 {
        Ok(Seq::empty())
    } else {
        match fields_from(ms.drop_last()) {
            Err(e) => Err(e),
            Ok(fields) => match ms.last().1 {
                None => Err(FormatFault::NotAString(ms.last().0)),
                Some(value) => Ok(put(fields, ms.last().0, value)),
            },
        }
    }
}

/// What a parsed blob gives: `parsed` is what the JSON parser made of the
/// normalized blob.
pub open spec fn fields_from_parsed(parsed: Option<Option<Members>>) -> Result<
    Fields,
    FormatFault,
> {
    match parsed {
        None => Err(FormatFault::Syntax),
        Some(None) => Err(FormatFault::NotAnObject),
        Some(Some(ms)) => fields_from(ms),
    }
}

/// The header fields that the blob `blob` stands for.
pub open spec fn fields_of_blob(blob: Seq<char>) -> Result<Fields, FormatFault> {
    fields_from_parsed(json_members(normalize(blob)))
}

/// The fields that `fields_from` gives have distinct names.
pub proof fn lemma_fields_from_distinct(ms: Members)
    ensures
        fields_from(ms) matches Ok(fields) ==> distinct_keys(fields),
    decreases ms.len(),
{
    if ms.len() > 0 {
        lemma_fields_from_distinct(ms.drop_last());
        if let Ok(fields) = fields_from(ms.drop_last()) {
            if let Some(value) = ms.last().1 {
                lemma_put(fields, ms.last().0, value, ms.last().0);
            }
        }
    }
}

/// The blob as JSON text: each double quote escaped, then each single
/// quote turned into a double quote.
pub fn normalize_header_blob(blob: &str) -> (r: String)
    ensures
        r@ == normalize(blob@),
{
    let v = chars_of(blob);
    let mut escaped: Vec<char> = Vec::new();
    let mut i: usize = 0;
    assert(v@.take(0) =~= Seq::<char>::empty());
    while i < v.len()
        invariant
            i <= v.len(),
            escaped@ == escape_quotes(v@.take(i as int)),
        decreases v.len() - i,
    {
        proof {
            let next = v@.take(i + 1);
            assert(next.drop_last() =~= v@.take(i as int));
            assert(next.last() == v@[i as int]);
        }
        let ghost before = escaped@;
        if v[i] == '"' {
            escaped.push('\\');
            escaped.push('"');
            assert(escaped@ =~= before + seq!['\\', '"']);
        } else {
            escaped.push(v[i]);
        }
        i += 1;
    }
    assert(v@.take(v.len() as int) =~= v@);
    let mut out: Vec<char> = Vec::new();
    let mut j: usize = 0;
    while j < escaped.len()
        invariant
            j <= escaped.len(),
            out@ == swap_quotes(escaped@).take(j as int),
        decreases escaped.len() - j,
    {
        let c = escaped[j];
        out.push(
            if c == '\'' {
                '"'
            } else {
                c
            },
        );
        j += 1;
        assert(out@ =~= swap_quotes(escaped@).take(j as int));
    }
    assert(swap_quotes(escaped@).take(escaped.len() as int) =~= swap_quotes(escaped@));
    string_of(&out)
}

/// The header fields that the members of `object` give. The first member
/// whose value is no string is an error that names it.
pub fn headers_from_object(object: &JsonObject) -> (r: Result<HeaderFields, FormatError>)
    ensures
        match r {
            Ok(h) => fields_from(object@) == Ok::<Fields, FormatFault>(h@),
            Err(e) => fields_from(object@) == Err::<Fields, FormatFault>(e@),
        },
{
    let mut fields = HeaderFields::new();
    let mut i: usize = 0;
    assert(object@.take(0) =~= Members::empty());
    while i < object.members.len()
        invariant
            i <= object.members.len(),
            fields_from(object@.take(i as int)) == Ok::<Fields, FormatFault>(fields@),
        decreases object.members.len() - i,
    {
        proof {
            let next = object@.take(i + 1);
            assert(next.drop_last() =~= object@.take(i as int));
            assert(next.last() == object@[i as int]);
        }
        match &object.members[i].1 {
            None => {
                let name = object.members[i].0.clone();
                proof {
                    lemma_error_stays(object@, i + 1);
                }
                return Err(FormatError::NotAString(name));
            },
            Some(value) => {
                fields.insert(object.members[i].0.clone(), value.clone());
            },
        }
        i += 1;
    }
    assert(object@.take(object.members.len() as int) =~= object@);
    Ok(fields)
}

/// An error among the first `n` members is the error of the whole.
proof fn lemma_error_stays(ms: Members, n: int)
    requires
        0 <= n <= ms.len(),
        fields_from(ms.take(n)) is Err,
    ensures
        fields_from(ms) == fields_from(ms.take(n)),
    decreases ms.len() - n,
{
    if n < ms.len() {
        assert(ms.take(n + 1).drop_last() =~= ms.take(n));
        lemma_error_stays(ms, n + 1);
    } else {
        assert(ms.take(n) =~= ms);
    }
}

/// What a parsed blob gives as header fields: a syntax error where the
/// parser refused the text, an error where the document is no object, else
/// the fields of the object's members.
pub fn headers_from_parsed<E>(parsed: Result<Option<JsonObject>, E>) -> (r: Result<
    HeaderFields,
    FormatError,
>)
    ensures
        ({
            let given = match parsed {
                Ok(Some(object)) => Some(Some(object@)),
                Ok(None) => Some(None::<Members>),
                Err(_) => None,
            };
            match r {
                Ok(h) => fields_from_parsed(given) == Ok::<Fields, FormatFault>(h@),
                Err(e) => fields_from_parsed(given) == Err::<Fields, FormatFault>(e@),
            }
        }),
{
    match parsed {
        Err(_) => Err(FormatError::Syntax),
        Ok(None) => Err(FormatError::NotAnObject),
        Ok(Some(object)) => headers_from_object(&object),
    }
}

/// Reads a header blob as header fields: normalizes it, parses it as
/// JSON, and takes the members of the object as fields.
pub fn json_str_to_hashmap(json_headers: &str) -> (r: Result<HeaderFields, FormatError>)
    ensures
        match r {
            Ok(h) => fields_of_blob(json_headers@) == Ok::<Fields, FormatFault>(h@),
            Err(e) => fields_of_blob(json_headers@) == Err::<Fields, FormatFault>(e@),
        },
{
    let text = normalize_header_blob(json_headers);
    headers_from_parsed(parse_object(text.as_str()))
}

/// The name of the header that asks for a body only if it has changed
/// since a given time.
pub open spec fn if_modified_since() -> Seq<char> {
    seq!['i', 'f', '-', 'm', 'o', 'd', 'i', 'f', 'i', 'e', 'd', '-', 's', 'i', 'n', 'c', 'e']
}

/// The name of the header that asks for a body only if its tag differs.
pub open spec fn if_none_match() -> Seq<char> {
    seq!['i', 'f', '-', 'n', 'o', 'n', 'e', '-', 'm', 'a', 't', 'c', 'h']
}

/// Whether a header of this name makes a request conditional: the name,
/// without white space at its ends and in any case, is `if-modified-since`
/// or `if-none-match`. Such a header is not replayed: the answer would be
/// cut short.
pub open spec fn is_conditional(name: Seq<char>) -> bool {
    let k = lower(trim(name));
    k == if_modified_since() || k == if_none_match()
}

/// Whether the field goes out with a replayed request: it is not
/// conditional, and the wire accepts its name and its value.
pub open spec fn goes_out(name: Seq<char>, value: Seq<char>) -> bool {
    !is_conditional(name) && is_wire_name(name) && is_wire_value(value)
}

/// What goes out of `fields`: each field that goes out, in turn, under
/// its name in lower case. A later field takes the place of an earlier one
/// of the same name.
pub open spec fn wire_image(fields: Fields) -> WireFields
    decreases fields.len(),
{
    if fields.len() == 0 {
        Map::empty()
    } else {
        let before = wire_image(fields.drop_last());
        let (name, value) = fields.last();
        if goes_out(name, value) {
            before.insert(lower(name), value)
        } else {
            before
        }
    }
}

/// No field of `fields` goes out.
pub open spec fn nothing_goes_out(fields: Fields) -> bool {
    forall|i: int|
        0 <= i < fields.len() ==> !goes_out((#[trigger] fields[i]).0, fields[i].1)
}

/// Why a header blob gave no wire map.
#[derive(Debug)]
pub enum HeaderError {
    /// The blob could not be read as header fields.
    Format(FormatError),
    /// The wire map took no more fields.
    Full,
}

/// Whether a header of this name makes a request conditional.
pub fn is_conditional_header(name: &str) -> (r: bool)
    ensures
        r == is_conditional(name@),
{
    let k = to_lower(&trimmed(&chars_of(name)));
    proof {
        reveal_strlit("if-modified-since");
        reveal_strlit("if-none-match");
        assert("if-modified-since"@ =~= if_modified_since());
        assert("if-none-match"@ =~= if_none_match());
    }
    same(&k, "if-modified-since") || same(&k, "if-none-match")
}

/// Why a header field is not accepted on the wire.
#[derive(Debug, Clone, Copy, PartialEq, Eq, Structural)]
pub enum ValidationError {
    /// The name is empty, too long, or holds a character that no name can
    /// be made of.
    Name,
    /// The value holds a character that no value can be made of.
    Value,
}

/// Whether the wire accepts the field; if not, what is wrong with it, the
/// name being looked at first.
pub open spec fn validity(name: Seq<char>, value: Seq<char>) -> Result<(), ValidationError> {
    if !is_wire_name(name) {
        Err(ValidationError::Name)
    } else if !is_wire_value(value) {
        Err(ValidationError::Value)
    } else {
        Ok(())
    }
}

/// What follows from offering a field to a wire map: that the field went
/// in, or what is wrong with it, or the failure of a map that is full.
pub fn settle_stored(stored: Stored) -> (r: Result<Option<ValidationError>, HeaderError>)
    ensures
        match stored {
            Stored::Kept => r matches Ok(None),
            Stored::BadName => r matches Ok(Some(ValidationError::Name)),
            Stored::BadValue => r matches Ok(Some(ValidationError::Value)),
            Stored::Full => r matches Err(HeaderError::Full),
        },
{
    match stored {
        Stored::Kept => Ok(None),
        Stored::BadName => Ok(Some(ValidationError::Name)),
        Stored::BadValue => Ok(Some(ValidationError::Value)),
        Stored::Full => Err(HeaderError::Full),
    }
}

/// Whether the wire accepts the field; if not, what is wrong with it.
pub fn validate_header(name: &str, value: &str) -> (r: Result<(), ValidationError>)
    ensures
        r == validity(name@, value@),
{
    let mut scratch = empty_wire_map();
    match store_field(&mut scratch, name, value) {
        Stored::BadName => Err(ValidationError::Name),
        Stored::BadValue => Err(ValidationError::Value),
        _ => Ok(()),
    }
}

/// Whether the field goes out with a replayed request.
pub fn goes_out_on_wire(name: &str, value: &str) -> (r: bool)
    ensures
        r == goes_out(name@, value@),
{
    !is_conditional_header(name) && validate_header(name, value).is_ok()
}

/// The wire map of the fields that go out. A field that is conditional, or
/// whose name or value the wire does not accept, is left out and the
/// others still go. The one failure is a map that takes no more fields,
/// which does not come with `SURE_ROOM` fields or fewer.
pub fn materialize(fields: &HeaderFields) -> (r: Result<HeaderMap, HeaderError>)
    ensures
        match r {
            Ok(map) => wire_fields(map) == wire_image(fields@),
            Err(e) => e is Full && !nothing_goes_out(fields@),
        },
        fields@.len() <= SURE_ROOM ==> r is Ok,
        r matches Ok(map) ==> !wire_fields(map).dom().contains(if_modified_since())
            && !wire_fields(map).dom().contains(if_none_match()),
{
    let mut map = empty_wire_map();
    let mut i: usize = 0;
    assert(fields@.take(0) =~= Fields::empty());
    while i < fields.len()
        invariant
            i <= fields@.len(),
            wire_fields(map) == wire_image(fields@.take(i as int)),
            wire_fields(map).dom().finite(),
            wire_fields(map).dom().len() <= i,
        decreases fields@.len() - i,
    {
        proof {
            let next = fields@.take(i + 1);
            assert(next.drop_last() =~= fields@.take(i as int));
            assert(next.last() == fields@[i as int]);
        }
        let name = fields.name_at(i);
        if !is_conditional_header(name) {
            match settle_stored(store_field(&mut map, name, fields.value_at(i))) {
                Ok(_) => {},
                Err(e) => {
                    assert(goes_out(fields@[i as int].0, fields@[i as int].1));
                    return Err(e);
                },
            }
        }
        i += 1;
    }
    proof {
        assert(fields@.take(fields@.len() as int) =~= fields@);
        lemma_no_conditional_goes_out(fields@);
    }
    Ok(map)
}

/// Reads a header blob and makes the wire map of the fields that go out.
/// A blob that reads as `SURE_ROOM` fields or fewer always gives a map.
pub fn json_to_header_map(json_headers: &str) -> (r: Result<HeaderMap, HeaderError>)
    ensures
        match r {
            Ok(map) => fields_of_blob(json_headers@) matches Ok(fields) && wire_fields(map)
                == wire_image(fields),
            Err(HeaderError::Format(e)) => fields_of_blob(json_headers@) == Err::<
                Fields,
                FormatFault,
            >(e@),
            Err(HeaderError::Full) => fields_of_blob(json_headers@) matches Ok(fields)
                && !nothing_goes_out(fields),
        },
        fields_of_blob(json_headers@) matches Ok(fields) && fields.len() <= SURE_ROOM ==> r is Ok,
        r matches Ok(map) ==> !wire_fields(map).dom().contains(if_modified_since())
            && !wire_fields(map).dom().contains(if_none_match()),
{
    match json_str_to_hashmap(json_headers) {
        Err(e) => Err(HeaderError::Format(e)),
        Ok(fields) => materialize(&fields),
    }
}

/// What can be made into a wire map.
pub trait IntoHeaderMap: Sized {
    /// The header fields that this stands for.
    spec fn fields(&self) -> Fields;

    /// The wire map of the fields that go out. With `SURE_ROOM` fields or
    /// fewer there always is one.
    fn parse(self) -> (r: Result<HeaderMap, HeaderError>)
        ensures
            match r {
                Ok(map) => wire_fields(map) == wire_image(self.fields()),
                Err(e) => e is Full && !nothing_goes_out(self.fields()),
            },
            self.fields().len() <= SURE_ROOM ==> r is Ok,
            r matches Ok(map) ==> !wire_fields(map).dom().contains(if_modified_since())
                && !wire_fields(map).dom().contains(if_none_match()),
    ;
}

impl IntoHeaderMap for HeaderFields {
    open spec fn fields(&self) -> Fields {
        self@
    }

    fn parse(self) -> (r: Result<HeaderMap, HeaderError>) {
        materialize(&self)
    }
}

/// A name that the wire accepts has no white space at its ends.
pub proof fn lemma_wire_name_trimmed(name: Seq<char>)
    requires
        is_wire_name(name),
    ensures
        trim(name) == name,
{
    lemma_run(name, Class::Space, 0);
    let t = strip_start(name, Class::Space);
    assert(t =~= name);
    lemma_tail_run(name, Class::Space, 0);
    assert(trim(name) =~= name);
}

/// No conditional header goes out: whatever the fields, the wire image
/// has neither `if-modified-since` nor `if-none-match`.
pub proof fn lemma_no_conditional_goes_out(fields: Fields)
    ensures
        !wire_image(fields).dom().contains(if_modified_since()),
        !wire_image(fields).dom().contains(if_none_match()),
    decreases fields.len(),
{
    if fields.len() > 0 {
        lemma_no_conditional_goes_out(fields.drop_last());
        let (name, value) = fields.last();
        if goes_out(name, value) {
            lemma_wire_name_trimmed(name);
        }
    }
}

/// What is shown for a format error.
pub open spec fn format_fault_text(fault: FormatFault) -> Seq<char> {
    match fault {
        FormatFault::Syntax => "Invalid JSON"@,
        FormatFault::NotAnObject => "Invalid JSON object"@,
        FormatFault::NotAString(name) => "Header value is not a string: "@ + name,
    }
}

impl FormatError {
    /// What is shown for the error. A member whose value is no string is
    /// named.
    pub fn message(&self) -> (r: String)
        ensures
            r@ == format_fault_text(self@),
    {
        match self {
            FormatError::Syntax => string_of(&chars_of("Invalid JSON")),
            FormatError::NotAnObject => string_of(&chars_of("Invalid JSON object")),
            FormatError::NotAString(name) => {
                let mut out = chars_of("Header value is not a string: ");
                crate::text::append(&mut out, &chars_of(name.as_str()));
                string_of(&out)
            },
        }
    }
}

impl HeaderError {
    /// What is shown for the error.
    pub fn message(&self) -> (r: String)
        ensures
            match *self {
                HeaderError::Format(e) => r@ == format_fault_text(e@),
                HeaderError::Full => r@ == "Too many headers"@,
            },
    {
        match self {
            HeaderError::Format(e) => e.message(),
            HeaderError::Full => string_of(&chars_of("Too many headers")),
        }
    }
}

/// Reading a blob drops no member: where the members give fields, each
/// member's name names a field, a conditional one too.
pub proof fn lemma_fields_keep_every_member(ms: Members, i: int)
    requires
        0 <= i < ms.len(),
        fields_from(ms) is Ok,
    ensures
        has_key(fields_from(ms)->Ok_0, ms[i].0),
    decreases ms.len(),
{
    let init = ms.drop_last();
    let fields = fields_from(init)->Ok_0;
    let name = ms.last().0;
    let value = ms.last().1->Some_0;
    lemma_fields_from_distinct(init);
    if i < ms.len() - 1 {
        lemma_fields_keep_every_member(init, i);
        assert(init[i] == ms[i]);
        lemma_put(fields, name, value, ms[i].0);
    } else {
        lemma_put(fields, name, value, name);
    }
}

} // verus!
