//! The log of captured requests: what the capture agent submits is checked
//! for its six fields and put at the end of the log. Nothing is ever
//! changed in the log or taken out of it.

use vstd::prelude::*;
use crate::json::{member_text, JsonObject, Members};
use crate::model::{RequestData, RequestDataView};
use crate::text::{chars_of, find, find_from, string_of};

verus! {

/// The six fields of a submission, in the order in which they are looked
/// for.
#[derive(Debug, Clone, Copy, PartialEq, Eq, Structural)]
pub enum CaptureField {
    /// `type`.
    Type,
    /// `http_version`.
    HttpVersion,
    /// `method`.
    Method,
    /// `url`.
    Url,
    /// `headers`.
    Headers,
    /// `body`.
    Body,
}

/// A submission that lacks one of its six fields, or holds it with a value
/// that is no string.
#[derive(Debug, Clone, Copy, PartialEq, Eq, Structural)]
pub struct MissingFieldsError {
    /// The first field that is missing.
    pub first: CaptureField,
}

impl CaptureField {
    /// The name of the member that holds the field.
    pub open spec fn name(self) -> Seq<char> {
        match self {
            CaptureField::Type => "type"@,
            CaptureField::HttpVersion => "http_version"@,
            CaptureField::Method => "method"@,
            CaptureField::Url => "url"@,
            CaptureField::Headers => "headers"@,
            CaptureField::Body => "body"@,
        }
    }

    /// The name of the member that holds the field.
    pub fn as_str(&self) -> (r: &'static str)
        ensures
            r@ == self.name(),
    {
        match self {
            CaptureField::Type => "type",
            CaptureField::HttpVersion => "http_version",
            CaptureField::Method => "method",
            CaptureField::Url => "url",
            CaptureField::Headers => "headers",
            CaptureField::Body => "body",
        }
    }
}

/// The value of the field in the submission, where it is there as a string.
pub open spec fn field_text(ms: Members, field: CaptureField) -> Option<Seq<char>> {
    member_text(ms, field.name())
}

/// The first of the six fields that the submission lacks, if it lacks one.
pub open spec fn first_missing(ms: Members) -> Option<CaptureField> {
    if field_text(ms, CaptureField::Type) is None {
        Some(CaptureField::Type)
    } else if field_text(ms, CaptureField::HttpVersion) is None {
        Some(CaptureField::HttpVersion)
    } else if field_text(ms, CaptureField::Method) is None {
        Some(CaptureField::Method)
    } else if field_text(ms, CaptureField::Url) is None {
        Some(CaptureField::Url)
    } else if field_text(ms, CaptureField::Headers) is None {
        Some(CaptureField::Headers)
    } else if field_text(ms, CaptureField::Body) is None {
        Some(CaptureField::Body)
    } else {
        None
    }
}

/// The submission holds all six fields as strings.
pub open spec fn is_complete(ms: Members) -> bool {
    first_missing(ms) is None
}

/// The request that a complete submission describes.
pub open spec fn described(ms: Members) -> RequestDataView {
    RequestDataView {
        request_type: field_text(ms, CaptureField::Type).unwrap(),
        http_version: field_text(ms, CaptureField::HttpVersion).unwrap(),
        method: field_text(ms, CaptureField::Method).unwrap(),
        url: field_text(ms, CaptureField::Url).unwrap(),
        headers: field_text(ms, CaptureField::Headers).unwrap(),
        body: field_text(ms, CaptureField::Body).unwrap(),
    }
}

/// The requests that the entries of `v` stand for.
pub open spec fn requests_of(v: Seq<RequestData>) -> Seq<RequestDataView> {
    Seq::new(v.len(), |i: int| v[i]@)
}

/// Whether an entry with this URL is listed: listing is not paused, and
/// the URL holds the text that is searched for.
pub open spec fn is_listed(url: Seq<char>, paused: bool, needle: Seq<char>) -> bool {
    !paused && find(url, needle) is Some
}

/// Reads one field of a submission.
fn read_field(submission: &JsonObject, field: CaptureField) -> (r: Result<
    String,
    MissingFieldsError,
>)
    ensures
        match r {
            Ok(s) => field_text(submission@, field) == Some(s@),
            Err(e) => field_text(submission@, field) is None && e.first == field,
        },
{
    match submission.text_of(field.as_str()) {
        Some(t) => Ok(string_of(&chars_of(t))),
        None => Err(MissingFieldsError { first: field }),
    }
}

/// Makes the request that a submission describes, or says which of the
/// six fields is the first to be missing.
pub fn request_from(submission: &JsonObject) -> (r: Result<RequestData, MissingFieldsError>)
    ensures
        match r {
            Ok(d) => is_complete(submission@) && d@ == described(submission@),
            Err(e) => first_missing(submission@) == Some(e.first),
        },
{
    let request_type = match read_field(submission, CaptureField::Type) {
        Ok(s) => s,
        Err(e) => {
            return Err(e);
        },
    };
    let http_version = match read_field(submission, CaptureField::HttpVersion) {
        Ok(s) => s,
        Err(e) => {
            return Err(e);
        },
    };
    let method = match read_field(submission, CaptureField::Method) {
        Ok(s) => s,
        Err(e) => {
            return Err(e);
        },
    };
    let url = match read_field(submission, CaptureField::Url) {
        Ok(s) => s,
        Err(e) => {
            return Err(e);
        },
    };
    let headers = match read_field(submission, CaptureField::Headers) {
        Ok(s) => s,
        Err(e) => {
            return Err(e);
        },
    };
    let body = match read_field(submission, CaptureField::Body) {
        Ok(s) => s,
        Err(e) => {
            return Err(e);
        },
    };
    Ok(RequestData::new(request_type, http_version, method, url, headers, body))
}

/// The captured requests in the order in which they came.
#[derive(Debug)]
pub struct CaptureLog {
    entries: Vec<RequestData>,
}

impl View for CaptureLog {
    type V = Seq<RequestDataView>;

    closed spec fn view(&self) -> Seq<RequestDataView> {
        requests_of(self.entries@)
    }
}

impl CaptureLog {
    /// The empty log.
    pub fn new() -> (r: CaptureLog)
        ensures
            r@ == Seq::<RequestDataView>::empty(),
    {
        let r = CaptureLog { entries: Vec::new() };
        assert(r@ =~= Seq::<RequestDataView>::empty());
        r
    }

    /// The number of entries.
    pub fn len(&self) -> (r: usize)
        ensures
            r == self@.len(),
    {
        self.entries.len()
    }

    /// Whether the log holds no entry.
    pub fn is_empty(&self) -> (r: bool)
        ensures
            r == (self@.len() == 0),
    {
        self.entries.len() == 0
    }

    /// The entry at `index`, if there is one.
    pub fn get(&self, index: usize) -> (r: Option<&RequestData>)
        ensures
            match r {
                Some(d) => index < self@.len() && d@ == self@[index as int],
                None => index >= self@.len(),
            },
    {
        if index < self.entries.len() {
            Some(&self.entries[index])
        } else {
            None
        }
    }

    /// Puts `request` at the end of the log and returns its index.
    pub fn append(&mut self, request: RequestData) -> (index: usize)
        ensures
            final(self)@ == old(self)@.push(request@),
            index == old(self)@.len(),
    {
        let index = self.entries.len();
        self.entries.push(request);
        assert(self@ =~= old(self)@.push(request@));
        index
    }

    /// Takes in a submission. A submission that holds all six fields as
    /// strings adds one entry at the end of the log, whose index is
    /// returned. Any other leaves the log as it was.
    pub fn ingest(&mut self, submission: &JsonObject) -> (r: Result<usize, MissingFieldsError>)
        ensures
            match r {
                Ok(index) => is_complete(submission@) && final(self)@ == old(self)@.push(
                    described(submission@),
                ) && index == old(self)@.len() && final(self)@.len() == old(self)@.len() + 1,
                Err(e) => first_missing(submission@) == Some(e.first) && final(self)@ == old(
                    self,
                )@,
            },
    {
        match request_from(submission) {
            Ok(request) => Ok(self.append(request)),
            Err(e) => Err(e),
        }
    }

    /// A copy of all entries, in order.
    pub fn snapshot(&self) -> (r: Vec<RequestData>)
        ensures
            requests_of(r@) == self@,
    {
        let mut out: Vec<RequestData> = Vec::new();
        let mut i: usize = 0;
        while i < self.entries.len()
            invariant
                i <= self.entries.len(),
                out.len() == i,
                forall|j: int| 0 <= j < i ==> (#[trigger] out@[j])@ == self.entries@[j]@,
            decreases self.entries.len() - i,
        {
            out.push(self.entries[i].clone());
            i += 1;
        }
        assert(requests_of(out@) =~= self@);
        out
    }

    /// The indices of the entries that are listed, in order: none while
    /// listing is paused, else those whose URL holds `needle`.
    pub fn listed(&self, paused: bool, needle: &str) -> (r: Vec<usize>)
        ensures
            forall|k: int| 0 <= k < r@.len() ==> (#[trigger] r@[k]) < self@.len() && is_listed(
                self@[r@[k] as int].url,
                paused,
                needle@,
            ),
            forall|k: int, l: int| 0 <= k < l < r@.len() ==> r@[k] < r@[l],
            forall|i: int|
                0 <= i < self@.len() && is_listed((#[trigger] self@[i]).url, paused, needle@)
                    ==> r@.contains(i as usize),
    {
        let mut out: Vec<usize> = Vec::new();
        if paused {
            return out;
        }
        let pat = chars_of(needle);
        let mut i: usize = 0;
        while i < self.entries.len()
            invariant
                i <= self.entries.len(),
                !paused,
                pat@ == needle@,
                forall|k: int|
                    0 <= k < out@.len() ==> (#[trigger] out@[k]) < i && is_listed(
                        self@[out@[k] as int].url,
                        paused,
                        needle@,
                    ),
                forall|k: int, l: int| 0 <= k < l < out@.len() ==> out@[k] < out@[l],
                forall|j: int|
                    0 <= j < i && is_listed((#[trigger] self@[j]).url, paused, needle@)
                        ==> out@.contains(j as usize),
            decreases self.entries.len() - i,
        {
            let url = chars_of(self.entries[i].url.as_str());
            assert(url@.skip(0) =~= url@);
            assert(self@[i as int].url == url@);
            let ghost before = out@;
            if find_from(&url, &pat, 0).is_some() {
                out.push(i);
                proof {
                    assert(out@[before.len() as int] == i);
                    assert forall|j: int|
                        0 <= j < i + 1 && is_listed(
                            (#[trigger] self@[j]).url,
                            paused,
                            needle@,
                        ) implies out@.contains(j as usize) by {
                        if j < i {
                            let k = choose|k: int| 0 <= k < before.len() && before[k] == j as usize;
                            assert(out@[k] == j as usize);
                        }
                    }
                }
            }
            i += 1;
        }
        out
    }
}

} // verus!
