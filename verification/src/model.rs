//! The request model: versions, methods, the loosely typed captured
//! request and the strictly typed canonical request, and what can go wrong
//! when request text is parsed.

use vstd::prelude::*;
use crate::fields::{Fields, HeaderFields};
use crate::text::{append, chars_of, same, string_of};

verus! {

/// The versions of HTTP that a request line can name.
#[derive(Debug, Clone, Copy, PartialEq, Eq, Structural)]
pub enum HttpVersion {
    /// HTTP/0.9.
    Http0_9,
    /// HTTP/1.1.
    Http1_1,
    /// HTTP/2.0.
    Http2_0,
    /// HTTP/3.0.
    Http3_0,
    /// A version that is none of the above.
    Unknown,
}

/// The request methods that can be replayed.
#[derive(Debug, Clone, Copy, PartialEq, Eq, Structural)]
pub enum HttpMethod {
    GET,
    POST,
    PUT,
    DELETE,
    OPTIONS,
    CONNECT,
    TRACE,
}

/// Why request text could not be parsed.
#[derive(Debug)]
pub enum ParseFailure {
    /// The text holds no line at all.
    MissingRequestLine,
    /// The request line is not followed by a host line.
    MissingHostLine,
    /// The host line holds no colon.
    MalformedHostLine,
    /// The request line holds no request target.
    MissingTarget,
    /// The request line holds no version.
    MissingVersion,
    /// The method is none that can be replayed; the token is given.
    UnknownMethod(String),
    /// The version is none that is known; the token is given.
    UnknownVersion(String),
}

/// A parse error, with the token it names as a sequence of characters.
pub enum ParseFault {
    MissingRequestLine,
    MissingHostLine,
    MalformedHostLine,
    MissingTarget,
    MissingVersion,
    UnknownMethod(Seq<char>),
    UnknownVersion(Seq<char>),
}

impl View for ParseFailure {
    type V = ParseFault;

    open spec fn view(&self) -> ParseFault {
        match *self {
            ParseFailure::MissingRequestLine => ParseFault::MissingRequestLine,
            ParseFailure::MissingHostLine => ParseFault::MissingHostLine,
            ParseFailure::MalformedHostLine => ParseFault::MalformedHostLine,
            ParseFailure::MissingTarget => ParseFault::MissingTarget,
            ParseFailure::MissingVersion => ParseFault::MissingVersion,
            ParseFailure::UnknownMethod(t) => ParseFault::UnknownMethod(t@),
            ParseFailure::UnknownVersion(t) => ParseFault::UnknownVersion(t@),
        }
    }
}

impl HttpVersion {
    /// The token that names the version in a request line. `Unknown` has
    /// none.
    pub open spec fn token(self) -> Seq<char> {
        match self {
            HttpVersion::Http0_9 => seq!['H', 'T', 'T', 'P', '/', '0', '.', '9'],
            HttpVersion::Http1_1 => seq!['H', 'T', 'T', 'P', '/', '1', '.', '1'],
            HttpVersion::Http2_0 => seq!['H', 'T', 'T', 'P', '/', '2', '.', '0'],
            HttpVersion::Http3_0 => seq!['H', 'T', 'T', 'P', '/', '3', '.', '0'],
            HttpVersion::Unknown => Seq::empty(),
        }
    }

    /// The version that `t` names, if it names one.
    pub open spec fn named_by(t: Seq<char>) -> Option<HttpVersion> {
        if t == HttpVersion::Http0_9.token() {
            Some(HttpVersion::Http0_9)
        } else if t == HttpVersion::Http1_1.token() {
            Some(HttpVersion::Http1_1)
        } else if t == HttpVersion::Http2_0.token() {
            Some(HttpVersion::Http2_0)
        } else if t == HttpVersion::Http3_0.token() {
            Some(HttpVersion::Http3_0)
        } else {
            None
        }
    }

    /// The scheme under which a request of this version is sent: `https`
    /// for HTTP/2.0 and HTTP/3.0, `http` for the others.
    pub open spec fn scheme(self) -> Seq<char> {
        match self {
            HttpVersion::Http2_0 | HttpVersion::Http3_0 => seq!['h', 't', 't', 'p', 's'],
            _ => seq!['h', 't', 't', 'p'],
        }
    }

    /// The token that names the version; empty for `Unknown`.
    pub fn as_str(&self) -> (r: &'static str)
        ensures
            r@ == self.token(),
    {
        proof {
            reveal_strlit("HTTP/0.9");
            reveal_strlit("HTTP/1.1");
            reveal_strlit("HTTP/2.0");
            reveal_strlit("HTTP/3.0");
            reveal_strlit("");
        }
        let r = match self {
            HttpVersion::Http0_9 => "HTTP/0.9",
            HttpVersion::Http1_1 => "HTTP/1.1",
            HttpVersion::Http2_0 => "HTTP/2.0",
            HttpVersion::Http3_0 => "HTTP/3.0",
            HttpVersion::Unknown => "",
        };
        assert(r@ =~= self.token());
        r
    }

    /// The scheme under which a request of this version is sent.
    pub fn scheme_str(&self) -> (r: &'static str)
        ensures
            r@ == self.scheme(),
    {
        proof {
            reveal_strlit("https");
            reveal_strlit("http");
        }
        let r = match self {
            HttpVersion::Http2_0 | HttpVersion::Http3_0 => "https",
            _ => "http",
        };
        assert(r@ =~= self.scheme());
        r
    }

    /// The version that the token `t` names. A token that names none is an
    /// error that holds the token.
    pub fn from_chars(t: &Vec<char>) -> (r: Result<HttpVersion, ParseFailure>)
        ensures
            match r {
                Ok(v) => HttpVersion::named_by(t@) == Some(v),
                Err(e) => HttpVersion::named_by(t@) is None && e@ == ParseFault::UnknownVersion(
                    t@,
                ),
            },
    {
        if same(t, HttpVersion::Http0_9.as_str()) {
            Ok(HttpVersion::Http0_9)
        } else if same(t, HttpVersion::Http1_1.as_str()) {
            Ok(HttpVersion::Http1_1)
        } else if same(t, HttpVersion::Http2_0.as_str()) {
            Ok(HttpVersion::Http2_0)
        } else if same(t, HttpVersion::Http3_0.as_str()) {
            Ok(HttpVersion::Http3_0)
        } else {
            Err(ParseFailure::UnknownVersion(crate::text::string_of(t)))
        }
    }

    /// The version that `s` names. A string that names none is an error
    /// that holds the string.
    pub fn from_str(s: &str) -> (r: Result<HttpVersion, ParseFailure>)
        ensures
            match r {
                Ok(v) => HttpVersion::named_by(s@) == Some(v),
                Err(e) => HttpVersion::named_by(s@) is None && e@ == ParseFault::UnknownVersion(
                    s@,
                ),
            },
    {
        let t = crate::text::chars_of(s);
        HttpVersion::from_chars(&t)
    }
}

impl HttpMethod {
    /// The token that names the method in a request line.
    pub open spec fn token(self) -> Seq<char> {
        match self {
            HttpMethod::GET => seq!['G', 'E', 'T'],
            HttpMethod::POST => seq!['P', 'O', 'S', 'T'],
            HttpMethod::PUT => seq!['P', 'U', 'T'],
            HttpMethod::DELETE => seq!['D', 'E', 'L', 'E', 'T', 'E'],
            HttpMethod::OPTIONS => seq!['O', 'P', 'T', 'I', 'O', 'N', 'S'],
            HttpMethod::CONNECT => seq!['C', 'O', 'N', 'N', 'E', 'C', 'T'],
            HttpMethod::TRACE => seq!['T', 'R', 'A', 'C', 'E'],
        }
    }

    /// The method that `t` names, if it names one. Case counts.
    pub open spec fn named_by(t: Seq<char>) -> Option<HttpMethod> {
        if t == HttpMethod::GET.token() {
            Some(HttpMethod::GET)
        } else if t == HttpMethod::POST.token() {
            Some(HttpMethod::POST)
        } else if t == HttpMethod::PUT.token() {
            Some(HttpMethod::PUT)
        } else if t == HttpMethod::DELETE.token() {
            Some(HttpMethod::DELETE)
        } else if t == HttpMethod::OPTIONS.token() {
            Some(HttpMethod::OPTIONS)
        } else if t == HttpMethod::CONNECT.token() {
            Some(HttpMethod::CONNECT)
        } else if t == HttpMethod::TRACE.token() {
            Some(HttpMethod::TRACE)
        } else {
            None
        }
    }

    /// The token that names the method.
    pub fn as_str(&self) -> (r: &'static str)
        ensures
            r@ == self.token(),
    {
        proof {
            reveal_strlit("GET");
            reveal_strlit("POST");
            reveal_strlit("PUT");
            reveal_strlit("DELETE");
            reveal_strlit("OPTIONS");
            reveal_strlit("CONNECT");
            reveal_strlit("TRACE");
        }
        let r = match self {
            HttpMethod::GET => "GET",
            HttpMethod::POST => "POST",
            HttpMethod::PUT => "PUT",
            HttpMethod::DELETE => "DELETE",
            HttpMethod::OPTIONS => "OPTIONS",
            HttpMethod::CONNECT => "CONNECT",
            HttpMethod::TRACE => "TRACE",
        };
        assert(r@ =~= self.token());
        r
    }

    /// The method that the token `t` names. A token that names none is an
    /// error that holds the token: nothing is put in its place.
    pub fn from_chars(t: &Vec<char>) -> (r: Result<HttpMethod, ParseFailure>)
        ensures
            match r {
                Ok(m) => HttpMethod::named_by(t@) == Some(m),
                Err(e) => HttpMethod::named_by(t@) is None && e@ == ParseFault::UnknownMethod(t@),
            },
    {
        if same(t, HttpMethod::GET.as_str()) {
            Ok(HttpMethod::GET)
        } else if same(t, HttpMethod::POST.as_str()) {
            Ok(HttpMethod::POST)
        } else if same(t, HttpMethod::PUT.as_str()) {
            Ok(HttpMethod::PUT)
        } else if same(t, HttpMethod::DELETE.as_str()) {
            Ok(HttpMethod::DELETE)
        } else if same(t, HttpMethod::OPTIONS.as_str()) {
            Ok(HttpMethod::OPTIONS)
        } else if same(t, HttpMethod::CONNECT.as_str()) {
            Ok(HttpMethod::CONNECT)
        } else if same(t, HttpMethod::TRACE.as_str()) {
            Ok(HttpMethod::TRACE)
        } else {
            Err(ParseFailure::UnknownMethod(crate::text::string_of(t)))
        }
    }

    /// The method that `s` names. A string that names none is an error
    /// that holds the string.
    pub fn from_str(s: &str) -> (r: Result<HttpMethod, ParseFailure>)
        ensures
            match r {
                Ok(m) => HttpMethod::named_by(s@) == Some(m),
                Err(e) => HttpMethod::named_by(s@) is None && e@ == ParseFault::UnknownMethod(s@),
            },
    {
        let t = crate::text::chars_of(s);
        HttpMethod::from_chars(&t)
    }
}

/// Every method is named by its own token, and every version but
/// `Unknown` by its own.
pub proof fn lemma_tokens_name(m: HttpMethod, v: HttpVersion)
    ensures
        HttpMethod::named_by(m.token()) == Some(m),
        v != HttpVersion::Unknown ==> HttpVersion::named_by(v.token()) == Some(v),
        HttpVersion::named_by(HttpVersion::Unknown.token()) is None,
{
    let g = HttpMethod::GET.token();
    let po = HttpMethod::POST.token();
    let pu = HttpMethod::PUT.token();
    let d = HttpMethod::DELETE.token();
    let o = HttpMethod::OPTIONS.token();
    let c = HttpMethod::CONNECT.token();
    let t = HttpMethod::TRACE.token();
    assert(g[0] == 'G' && po[0] == 'P' && pu[0] == 'P' && d[0] == 'D' && o[0] == 'O' && c[0]
        == 'C' && t[0] == 'T');
    assert(po[1] == 'O' && pu[1] == 'U');
    assert(g.len() == 3 && po.len() == 4 && pu.len() == 3);
    let a = HttpVersion::Http0_9.token();
    let b = HttpVersion::Http1_1.token();
    let e = HttpVersion::Http2_0.token();
    let f = HttpVersion::Http3_0.token();
    assert(a[5] == '0' && b[5] == '1' && e[5] == '2' && f[5] == '3');
    assert(a.len() == 8 && HttpVersion::Unknown.token().len() == 0);
}

/// A request as the capture agent describes it: six strings, none of them
/// checked. `headers` is a blob in the agent's pseudo-JSON.
#[derive(Debug)]
pub struct RequestData {
    /// What kind of message this is, in the agent's words.
    pub request_type: String,
    /// The version token, such as `HTTP/1.1`.
    pub http_version: String,
    /// The method token, such as `GET`.
    pub method: String,
    /// The absolute URL.
    pub url: String,
    /// The header blob.
    pub headers: String,
    /// The body; empty where the request has none.
    pub body: String,
}

/// A captured request as six sequences of characters.
pub struct RequestDataView {
    pub request_type: Seq<char>,
    pub http_version: Seq<char>,
    pub method: Seq<char>,
    pub url: Seq<char>,
    pub headers: Seq<char>,
    pub body: Seq<char>,
}

impl View for RequestData {
    type V = RequestDataView;

    open spec fn view(&self) -> RequestDataView {
        RequestDataView {
            request_type: self.request_type@,
            http_version: self.http_version@,
            method: self.method@,
            url: self.url@,
            headers: self.headers@,
            body: self.body@,
        }
    }
}

impl RequestData {
    /// The request made of the six strings.
    pub fn new(
        request_type: String,
        http_version: String,
        method: String,
        url: String,
        headers: String,
        body: String,
    ) -> (r: RequestData)
        ensures
            r@ == (RequestDataView {
                request_type: request_type@,
                http_version: http_version@,
                method: method@,
                url: url@,
                headers: headers@,
                body: body@,
            }),
    {
        RequestData { request_type, http_version, method, url, headers, body }
    }

    /// The request whose six strings are empty.
    pub fn empty() -> (r: RequestData)
        ensures
            r@ == (RequestDataView {
                request_type: Seq::empty(),
                http_version: Seq::empty(),
                method: Seq::empty(),
                url: Seq::empty(),
                headers: Seq::empty(),
                body: Seq::empty(),
            }),
    {
        RequestData::new(
            String::new(),
            String::new(),
            String::new(),
            String::new(),
            String::new(),
            String::new(),
        )
    }

    /// A copy.
    pub fn clone(&self) -> (r: RequestData)
        ensures
            r@ == self@,
    {
        RequestData::new(
            self.request_type.clone(),
            self.http_version.clone(),
            self.method.clone(),
            self.url.clone(),
            self.headers.clone(),
            self.body.clone(),
        )
    }
}

/// A request ready to be sent: version and method are of the known ones,
/// the headers are a list of fields with distinct names.
#[derive(Debug)]
pub struct RequestDataProper {
    /// The version.
    pub http_version: HttpVersion,
    /// The method.
    pub method: HttpMethod,
    /// The absolute URL.
    pub url: String,
    /// The header fields but `Host`.
    pub headers: HeaderFields,
    /// The body; empty where the request has none.
    pub body: String,
}

/// A canonical request over sequences of characters.
pub struct RequestDataProperView {
    pub http_version: HttpVersion,
    pub method: HttpMethod,
    pub url: Seq<char>,
    pub headers: Fields,
    pub body: Seq<char>,
}

impl View for RequestDataProper {
    type V = RequestDataProperView;

    open spec fn view(&self) -> RequestDataProperView {
        RequestDataProperView {
            http_version: self.http_version,
            method: self.method,
            url: self.url@,
            headers: self.headers@,
            body: self.body@,
        }
    }
}

impl RequestDataProper {
    /// A copy.
    pub fn clone(&self) -> (r: RequestDataProper)
        ensures
            r@ == self@,
    {
        RequestDataProper {
            http_version: self.http_version,
            method: self.method,
            url: self.url.clone(),
            headers: self.headers.clone(),
            body: self.body.clone(),
        }
    }
}

/// What is shown for a parse error.
pub open spec fn fault_text(fault: ParseFault) -> Seq<char> {
    match fault {
        ParseFault::MissingRequestLine => "Missing request line"@,
        ParseFault::MissingHostLine => "No host line"@,
        ParseFault::MalformedHostLine => "Malformed host line"@,
        ParseFault::MissingTarget => "Missing URL"@,
        ParseFault::MissingVersion => "Missing HTTP version"@,
        ParseFault::UnknownMethod(t) => "Unsupported HTTP method: "@ + t,
        ParseFault::UnknownVersion(t) => "Unsupported HTTP version: "@ + t,
    }
}

impl ParseFailure {
    /// What is shown for the error. An unknown method or version is named.
    pub fn message(&self) -> (r: String)
        ensures
            r@ == fault_text(self@),
    {
        match self {
            ParseFailure::MissingRequestLine => string_of(&chars_of("Missing request line")),
            ParseFailure::MissingHostLine => string_of(&chars_of("No host line")),
            ParseFailure::MalformedHostLine => string_of(&chars_of("Malformed host line")),
            ParseFailure::MissingTarget => string_of(&chars_of("Missing URL")),
            ParseFailure::MissingVersion => string_of(&chars_of("Missing HTTP version")),
            ParseFailure::UnknownMethod(t) => {
                let mut out = chars_of("Unsupported HTTP method: ");
                append(&mut out, &chars_of(t.as_str()));
                string_of(&out)
            },
            ParseFailure::UnknownVersion(t) => {
                let mut out = chars_of("Unsupported HTTP version: ");
                append(&mut out, &chars_of(t.as_str()));
                string_of(&out)
            },
        }
    }
}

} // verus!
