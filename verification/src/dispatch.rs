//! Replaying a request: what is sent, and what is shown when the exchange
//! is over.
//!
//! The library decides; the caller sends the request that `plan` or
//! `plan_replay` describes, and hands the outcome to `outcome_text`, which
//! says what to show in the result slot of the context that sent it.

use vstd::prelude::*;
use crate::decode::{
    decoded,
    response_text,
    text_of,
    BodyError,
    Codec,
};
use crate::fields::Fields;
use crate::headers::{
    fields_of_blob,
    json_to_header_map,
    materialize,
    nothing_goes_out,
    wire_image,
    FormatFault,
    HeaderError,
};
use crate::model::{
    ParseFailure,
    ParseFault,
    RequestData,
    RequestDataProper,
    RequestDataProperView,
    RequestDataView,
};
use crate::permissive::shown;
use crate::strict::parse_strict;
use crate::text::{chars_of, string_of};
use crate::urls::opt_view;
use crate::wire::{wire_fields, WireFields, SURE_ROOM};
use reqwest::header::HeaderMap;

verus! {

/// Where a request is replayed from. Each context has a result slot of
/// its own.
#[derive(Debug, Clone, Copy, PartialEq, Eq, Structural)]
pub enum Context {
    /// The list of captured requests: the request is sent as captured.
    Proxy,
    /// The editor: the request is sent as its text reads strictly.
    Repeater,
}

/// A request to send.
#[derive(Debug)]
pub struct Outbound {
    /// The method token.
    pub method: String,
    /// The URL.
    pub url: String,
    /// The body, where there is one to attach.
    pub body: Option<String>,
    /// The header fields, where there are some to attach.
    pub headers: Option<HeaderMap>,
}

/// A request to send, over sequences of characters.
pub struct OutboundView {
    pub method: Seq<char>,
    pub url: Seq<char>,
    pub body: Option<Seq<char>>,
    pub headers: Option<WireFields>,
}

impl View for Outbound {
    type V = OutboundView;

    open spec fn view(&self) -> OutboundView {
        OutboundView {
            method: self.method@,
            url: self.url@,
            body: opt_view(self.body),
            headers: match self.headers {
                Some(map) => Some(wire_fields(map)),
                None => None,
            },
        }
    }
}

/// Why there is nothing to send.
#[derive(Debug)]
pub enum PlanError {
    /// The text of the request does not read strictly.
    Parse(ParseFailure),
    /// The headers gave no wire map.
    Headers(HeaderError),
}

/// The body to attach: none where `body` is empty.
pub open spec fn attached(body: Seq<char>) -> Option<Seq<char>> {
    if body.len() == 0 {
        None
    } else {
        Some(body)
    }
}

/// What is sent for a canonical request: its method and URL, its body
/// where it is not empty, and the wire image of its header fields where it
/// has any.
pub open spec fn outbound_of(q: RequestDataProperView) -> OutboundView {
    OutboundView {
        method: q.method.token(),
        url: q.url,
        body: attached(q.body),
        headers: if q.headers.len() == 0 {
            None
        } else {
            Some(wire_image(q.headers))
        },
    }
}

/// What is sent for a captured request, where `fields` are the fields of
/// its header blob: its method and URL as they stand, its body where it
/// is not empty, and the wire image of the fields where the blob is not
/// empty.
pub open spec fn outbound_as_captured(d: RequestDataView, fields: Fields) -> OutboundView {
    OutboundView {
        method: d.method,
        url: d.url,
        body: attached(d.body),
        headers: if d.headers.len() == 0 {
            None
        } else {
            Some(wire_image(fields))
        },
    }
}

/// The body to attach.
fn attach(body: &String) -> (r: Option<String>)
    ensures
        opt_view(r) == attached(body@),
{
    if body.as_str().is_empty() {
        None
    } else {
        Some(body.clone())
    }
}

/// The request to send for a canonical request. The one failure is a wire
/// map that takes no more fields, which does not come with `SURE_ROOM`
/// fields or fewer.
pub fn plan(request: &RequestDataProper) -> (r: Result<Outbound, HeaderError>)
    ensures
        match r {
            Ok(out) => out@ == outbound_of(request@),
            Err(e) => e is Full && !nothing_goes_out(request@.headers),
        },
        request@.headers.len() <= SURE_ROOM ==> r is Ok,
{
    let headers = if request.headers.is_empty() {
        None
    } else {
        match materialize(&request.headers) {
            Ok(map) => Some(map),
            Err(e) => {
                return Err(e);
            },
        }
    };
    Ok(
        Outbound {
            method: string_of(&chars_of(request.method.as_str())),
            url: request.url.clone(),
            body: attach(&request.body),
            headers,
        },
    )
}

/// The request to send for a captured request as it was captured. With an
/// empty header blob no headers are attached; a blob that cannot be read
/// is an error.
pub fn plan_as_captured(request: &RequestData) -> (r: Result<Outbound, HeaderError>)
    ensures
        match r {
            Ok(out) => if request@.headers.len() == 0 {
                out@ == outbound_as_captured(request@, Fields::empty())
            } else {
                fields_of_blob(request@.headers) matches Ok(fields) && out@
                    == outbound_as_captured(request@, fields)
            },
            Err(HeaderError::Format(e)) => request@.headers.len() > 0 && fields_of_blob(
                request@.headers,
            ) == Err::<Fields, FormatFault>(e@),
            Err(HeaderError::Full) => request@.headers.len() > 0 && (fields_of_blob(
                request@.headers,
            ) matches Ok(fields) && !nothing_goes_out(fields)),
        },
        request@.headers.len() == 0 || (fields_of_blob(request@.headers) matches Ok(fields)
            && fields.len() <= SURE_ROOM) ==> r is Ok,
{
    let headers = if request.headers.as_str().is_empty() {
        None
    } else {
        match json_to_header_map(request.headers.as_str()) {
            Ok(map) => Some(map),
            Err(e) => {
                return Err(e);
            },
        }
    };
    Ok(
        Outbound {
            method: request.method.clone(),
            url: request.url.clone(),
            body: attach(&request.body),
            headers,
        },
    )
}

/// The request to send for what the editor holds: the text shown for the
/// request is read strictly, and what it reads as is sent. Text that does
/// not read strictly sends nothing.
pub fn plan_replay(request: &RequestData) -> (r: Result<Outbound, PlanError>)
    ensures
        match r {
            Ok(out) => parse_strict(shown(request@)) matches Ok(q) && out@ == outbound_of(q),
            Err(PlanError::Parse(e)) => parse_strict(shown(request@)) == Err::<
                RequestDataProperView,
                ParseFault,
            >(e@),
            Err(PlanError::Headers(e)) => e is Full && (parse_strict(shown(request@)) matches Ok(
                q,
            ) && !nothing_goes_out(q.headers)),
        },
        parse_strict(shown(request@)) matches Ok(q) && q.headers.len() <= SURE_ROOM ==> r is Ok,
{
    let text = request.to_string();
    match RequestDataProper::from_str(text.as_str()) {
        Err(e) => Err(PlanError::Parse(e)),
        Ok(q) => match plan(&q) {
            Ok(out) => Ok(out),
            Err(e) => Err(PlanError::Headers(e)),
        },
    }
}

/// How an exchange ended.
#[derive(Debug)]
pub enum Exchange {
    /// The request could not be sent, or no response came.
    Failed,
    /// A response came.
    Answered {
        /// The value of its `Content-Encoding` header, where it has one.
        encoding: Option<String>,
        /// Its body as it came.
        body: Vec<u8>,
    },
}

/// What is shown when the request could not be sent.
pub open spec fn transport_failure_text() -> Seq<char> {
    "Failed to send request, check your internet connection OR network Setting."@
}

/// What is shown for a body that is not UTF-8.
pub open spec fn invalid_text_text() -> Seq<char> {
    "Wrong sequence of UTF-8 bytes."@
}

/// What is shown for a body that its codec refused.
pub open spec fn decode_failure_text(codec: Codec) -> Seq<char> {
    match codec {
        Codec::Gzip => "Failed to decompress gzip data"@,
        Codec::Deflate => "Failed to decompress deflate data"@,
        Codec::Brotli => "Failed to decompress brotli data"@,
    }
}

/// What is shown for the text of a body: the text, or the line that says
/// why there is none.
pub open spec fn body_shown(text: Result<Seq<char>, BodyError>) -> Seq<char> {
    match text {
        Ok(s) => s,
        Err(BodyError::InvalidText) => invalid_text_text(),
        Err(BodyError::Decode(e)) => decode_failure_text(e.codec),
    }
}

/// What is shown for an exchange that ended with a response of this
/// encoding and body.
pub open spec fn answer_shown(encoding: Option<Seq<char>>, body: Seq<u8>) -> Seq<char> {
    body_shown(text_of(decoded(body, encoding)))
}

/// What is shown when an exchange is over: a fixed line where it failed,
/// else what is shown for the response.
pub open spec fn exchange_shown(exchange: Exchange) -> Seq<char> {
    match exchange {
        Exchange::Failed => transport_failure_text(),
        Exchange::Answered { encoding, body } => answer_shown(opt_view(encoding), body@),
    }
}

/// What is shown for the text of a body.
pub fn body_text_shown(text: Result<String, BodyError>) -> (r: String)
    ensures
        ({
            let given = match text {
                Ok(s) => Ok(s@),
                Err(e) => Err(e),
            };
            r@ == body_shown(given)
        }),
{
    match text {
        Ok(s) => s,
        Err(BodyError::InvalidText) => string_of(&chars_of("Wrong sequence of UTF-8 bytes.")),
        Err(BodyError::Decode(e)) => {
            let line = match e.codec {
                Codec::Gzip => "Failed to decompress gzip data",
                Codec::Deflate => "Failed to decompress deflate data",
                Codec::Brotli => "Failed to decompress brotli data",
            };
            string_of(&chars_of(line))
        },
    }
}

/// What to show in the result slot when an exchange is over: a fixed line
/// where it failed, else the text of the response body, or the line that
/// says why the body gave no text.
pub fn outcome_text(exchange: &Exchange) -> (r: String)
    ensures
        r@ == exchange_shown(*exchange),
{
    match exchange {
        Exchange::Failed => string_of(
            &chars_of("Failed to send request, check your internet connection OR network Setting."),
        ),
        Exchange::Answered { encoding, body } => {
            let enc: Option<&str> = match encoding {
                Some(e) => Some(e.as_str()),
                None => None,
            };
            body_text_shown(response_text(body.as_slice(), enc))
        },
    }
}

/// The result slots, one for each context.
#[derive(Debug)]
pub struct ResultSlots {
    proxy: String,
    repeater: String,
}

/// What the result slots hold.
pub struct SlotsView {
    pub proxy: Seq<char>,
    pub repeater: Seq<char>,
}

impl SlotsView {
    /// What the slot of `context` holds.
    pub open spec fn of(self, context: Context) -> Seq<char> {
        match context {
            Context::Proxy => self.proxy,
            Context::Repeater => self.repeater,
        }
    }

    /// The slots after `text` was written to the slot of `context`.
    pub open spec fn with(self, context: Context, text: Seq<char>) -> SlotsView {
        match context {
            Context::Proxy => SlotsView { proxy: text, repeater: self.repeater },
            Context::Repeater => SlotsView { proxy: self.proxy, repeater: text },
        }
    }
}

impl View for ResultSlots {
    type V = SlotsView;

    closed spec fn view(&self) -> SlotsView {
        SlotsView { proxy: self.proxy@, repeater: self.repeater@ }
    }
}

impl ResultSlots {
    /// Two empty slots.
    pub fn new() -> (r: ResultSlots)
        ensures
            r@.proxy == Seq::<char>::empty(),
            r@.repeater == Seq::<char>::empty(),
    {
        ResultSlots { proxy: String::new(), repeater: String::new() }
    }

    /// What the slot of `context` holds.
    pub fn read(&self, context: Context) -> (r: &str)
        ensures
            r@ == self@.of(context),
    {
        match context {
            Context::Proxy => self.proxy.as_str(),
            Context::Repeater => self.repeater.as_str(),
        }
    }

    /// Puts what is shown for `exchange` into the slot of `context`. The
    /// other slot is left as it was.
    pub fn record(&mut self, context: Context, exchange: &Exchange)
        ensures
            final(self)@ == old(self)@.with(context, exchange_shown(*exchange)),
    {
        self.write(context, outcome_text(exchange));
    }

    /// Puts `text` into the slot of `context`, whole, in the place of what
    /// was there. The other slot is left as it was.
    pub fn write(&mut self, context: Context, text: String)
        ensures
            final(self)@ == old(self)@.with(context, text@),
    {
        match context {
            Context::Proxy => {
                self.proxy = text;
            },
            Context::Repeater => {
                self.repeater = text;
            },
        }
    }
}

/// Two writes to the slots of two different contexts do not touch each
/// other: in whichever order they come, each slot ends up holding exactly
/// the text that was written to it.
pub proof fn lemma_writes_keep_apart(
    slots: SlotsView,
    a: Context,
    text_a: Seq<char>,
    b: Context,
    text_b: Seq<char>,
)
    requires
        a != b,
    ensures
        slots.with(a, text_a).with(b, text_b).of(a) == text_a,
        slots.with(a, text_a).with(b, text_b).of(b) == text_b,
        slots.with(a, text_a).with(b, text_b) == slots.with(b, text_b).with(a, text_a),
{
}

/// A write changes the slot it is for and nothing else, and what the slot
/// then holds is the text that was written, none of what was there before.
pub proof fn lemma_write_is_whole(slots: SlotsView, at: Context, text: Seq<char>, other: Context)
    ensures
        slots.with(at, text).of(at) == text,
        other != at ==> slots.with(at, text).of(other) == slots.of(other),
{
}

impl PlanError {
    /// What to show in the result slot where there was nothing to send.
    pub fn message(&self) -> (r: String)
        ensures
            match *self {
                PlanError::Parse(e) => r@ == crate::model::fault_text(e@),
                PlanError::Headers(HeaderError::Format(e)) => r@
                    == crate::headers::format_fault_text(e@),
                PlanError::Headers(HeaderError::Full) => r@ == "Too many headers"@,
            },
    {
        match self {
            PlanError::Parse(e) => e.message(),
            PlanError::Headers(e) => e.message(),
        }
    }
}

} // verus!
