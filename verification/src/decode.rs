//! The body of a response: decompressed by the name of its content
//! encoding, then read as UTF-8 text.

use vstd::prelude::*;
use vstd::slice::slice_to_vec;
use vstd::utf8::{decode_utf8, valid_utf8};
use crate::text::str_eq;
use std::io::Read;
use std::string::FromUtf8Error;

verus! {

/// The content encodings that are undone.
#[derive(Debug, Clone, Copy, PartialEq, Eq, Structural)]
pub enum Codec {
    /// `gzip`.
    Gzip,
    /// `deflate`: a raw deflate stream.
    Deflate,
    /// `br`: brotli.
    Brotli,
}

/// A body that is no stream of the codec that its content encoding names.
#[derive(Debug, Clone, Copy, PartialEq, Eq, Structural)]
pub struct DecodeError {
    /// The codec that refused the body.
    pub codec: Codec,
}

/// Why a body gave no text.
#[derive(Debug, Clone, Copy, PartialEq, Eq, Structural)]
pub enum BodyError {
    /// The body is no stream of its codec.
    Decode(DecodeError),
    /// The body was decompressed, but what came out is not UTF-8.
    InvalidText,
}

/// The error of a reader.
#[verifier::external_type_specification]
#[verifier::external_body]
pub struct ExIoError(std::io::Error);

/// The error of `String::from_utf8`.
#[verifier::external_type_specification]
#[verifier::external_body]
pub struct ExFromUtf8Error(FromUtf8Error);

/// `String::from_utf8` succeeds on the byte sequences that are UTF-8, and
/// then gives the text that the bytes encode.
pub assume_specification[ String::from_utf8 ](vec: Vec<u8>) -> (r: Result<String, FromUtf8Error>)
    ensures
        r is Ok <==> valid_utf8(vec@),
        r matches Ok(s) ==> s@ == decode_utf8(vec@),
;

/// What a gzip decoder reads out of `body`; `None` where it fails.
pub uninterp spec fn gzip_inflated(body: Seq<u8>) -> Option<Seq<u8>>;

/// What a raw deflate decoder reads out of `body`; `None` where it fails.
pub uninterp spec fn deflate_inflated(body: Seq<u8>) -> Option<Seq<u8>>;

/// What a brotli decoder reads out of `body`; `None` where it fails.
pub uninterp spec fn brotli_decoded(body: Seq<u8>) -> Option<Seq<u8>>;

/// Reads `flate2::read::GzDecoder` over `body` to its end. The contract
/// only gives the outcome its name, `gzip_inflated`.
#[verifier::external_body]
fn inflate_gzip(body: &[u8]) -> (r: Result<Vec<u8>, std::io::Error>)
    ensures
        match r {
            Ok(out) => gzip_inflated(body@) == Some(out@),
            Err(_) => gzip_inflated(body@) is None,
        },
{
    let mut out = Vec::new();
    match flate2::read::GzDecoder::new(body).read_to_end(&mut out) {
        Ok(_) => Ok(out),
        Err(e) => Err(e),
    }
}

/// Reads `flate2::read::DeflateDecoder` over `body` to its end. The
/// contract only gives the outcome its name, `deflate_inflated`.
#[verifier::external_body]
fn inflate_deflate(body: &[u8]) -> (r: Result<Vec<u8>, std::io::Error>)
    ensures
        match r {
            Ok(out) => deflate_inflated(body@) == Some(out@),
            Err(_) => deflate_inflated(body@) is None,
        },
{
    let mut out = Vec::new();
    match flate2::read::DeflateDecoder::new(body).read_to_end(&mut out) {
        Ok(_) => Ok(out),
        Err(e) => Err(e),
    }
}

/// Reads `brotli::Decompressor` over `body`, with a buffer as long as
/// `body`, to its end. The contract only gives the outcome its name,
/// `brotli_decoded`.
#[verifier::external_body]
fn decode_brotli(body: &[u8]) -> (r: Result<Vec<u8>, std::io::Error>)
    ensures
        match r {
            Ok(out) => brotli_decoded(body@) == Some(out@),
            Err(_) => brotli_decoded(body@) is None,
        },
{
    let mut out = Vec::new();
    match brotli::Decompressor::new(body, body.len()).read_to_end(&mut out) {
        Ok(_) => Ok(out),
        Err(e) => Err(e),
    }
}

impl Codec {
    /// The name of the codec as a content encoding.
    pub open spec fn name(self) -> Seq<char> {
        match self {
            Codec::Gzip => seq!['g', 'z', 'i', 'p'],
            Codec::Deflate => seq!['d', 'e', 'f', 'l', 'a', 't', 'e'],
            Codec::Brotli => seq!['b', 'r'],
        }
    }

    /// The codec that the content encoding names: `gzip`, `deflate` or
    /// `br`, letter for letter. No encoding, or any other name, names none.
    pub open spec fn named_by(encoding: Option<Seq<char>>) -> Option<Codec> {
        match encoding {
            None => None,
            Some(e) => if e == Codec::Gzip.name() {
                Some(Codec::Gzip)
            } else if e == Codec::Deflate.name() {
                Some(Codec::Deflate)
            } else if e == Codec::Brotli.name() {
                Some(Codec::Brotli)
            } else {
                None
            },
        }
    }

    /// What the codec's decoder reads out of `body`.
    pub open spec fn unpacked(self, body: Seq<u8>) -> Option<Seq<u8>> {
        match self {
            Codec::Gzip => gzip_inflated(body),
            Codec::Deflate => deflate_inflated(body),
            Codec::Brotli => brotli_decoded(body),
        }
    }

    /// The name of the codec as a content encoding.
    pub fn as_str(&self) -> (r: &'static str)
        ensures
            r@ == self.name(),
    {
        proof {
            reveal_strlit("gzip");
            reveal_strlit("deflate");
            reveal_strlit("br");
        }
        let r = match self {
            Codec::Gzip => "gzip",
            Codec::Deflate => "deflate",
            Codec::Brotli => "br",
        };
        assert(r@ =~= self.name());
        r
    }

    /// The codec that the content encoding names.
    pub fn from_encoding(encoding: Option<&str>) -> (r: Option<Codec>)
        ensures
            r == Codec::named_by(encoding_view(encoding)),
    {
        match encoding {
            None => None,
            Some(e) => {
                if str_eq(e, Codec::Gzip.as_str()) {
                    Some(Codec::Gzip)
                } else if str_eq(e, Codec::Deflate.as_str()) {
                    Some(Codec::Deflate)
                } else if str_eq(e, Codec::Brotli.as_str()) {
                    Some(Codec::Brotli)
                } else {
                    None
                }
            },
        }
    }
}

/// The content encoding as a sequence of characters.
pub open spec fn encoding_view(encoding: Option<&str>) -> Option<Seq<char>> {
    match encoding {
        Some(e) => Some(e@),
        None => None,
    }
}

/// What decoding makes of what a decoder read: its output, or the error
/// that names the codec.
pub open spec fn settled(codec: Codec, unpacked: Option<Seq<u8>>) -> Result<Seq<u8>, DecodeError> {
    match unpacked {
        Some(out) => Ok(out),
        None => Err(DecodeError { codec }),
    }
}

/// The body decoded by its content encoding: unchanged where the encoding
/// names no codec, else what the codec's decoder reads out of it, or the
/// error that names the codec where the decoder fails.
pub open spec fn decoded(body: Seq<u8>, encoding: Option<Seq<char>>) -> Result<
    Seq<u8>,
    DecodeError,
> {
    match Codec::named_by(encoding) {
        None => Ok(body),
        Some(codec) => settled(codec, codec.unpacked(body)),
    }
}

/// The text of a decoded body.
pub open spec fn text_of(bytes: Result<Seq<u8>, DecodeError>) -> Result<Seq<char>, BodyError> {
    match bytes {
        Err(e) => Err(BodyError::Decode(e)),
        Ok(b) => if valid_utf8(b) {
            Ok(decode_utf8(b))
        } else {
            Err(BodyError::InvalidText)
        },
    }
}

/// What decoding makes of what the decoder of `codec` gave: its output,
/// or the error that names the codec. A failed decoder never counts as
/// an empty body.
pub fn settle<E>(codec: Codec, unpacked: Result<Vec<u8>, E>) -> (r: Result<Vec<u8>, DecodeError>)
    ensures
        match r {
            Ok(out) => unpacked matches Ok(given) && out == given,
            Err(e) => unpacked is Err && e == (DecodeError { codec }),
        },
{
    match unpacked {
        Ok(out) => Ok(out),
        Err(_) => Err(DecodeError { codec }),
    }
}

/// Decodes a response body by its content encoding. `gzip`, `deflate` and
/// `br` name a codec; with no encoding, or any other, the body comes back
/// as it is.
pub fn decompress_response(body: &[u8], encoding: Option<&str>) -> (r: Result<
    Vec<u8>,
    DecodeError,
>)
    ensures
        match r {
            Ok(out) => decoded(body@, encoding_view(encoding)) == Ok::<Seq<u8>, DecodeError>(
                out@,
            ),
            Err(e) => decoded(body@, encoding_view(encoding)) == Err::<Seq<u8>, DecodeError>(e),
        },
        Codec::named_by(encoding_view(encoding)) is None ==> r is Ok && r->Ok_0@ == body@,
{
    match Codec::from_encoding(encoding) {
        None => Ok(slice_to_vec(body)),
        Some(Codec::Gzip) => settle(Codec::Gzip, inflate_gzip(body)),
        Some(Codec::Deflate) => settle(Codec::Deflate, inflate_deflate(body)),
        Some(Codec::Brotli) => settle(Codec::Brotli, decode_brotli(body)),
    }
}

/// Reads a decoded body as UTF-8 text. A body that could not be decoded
/// stays the decode error; one that was decoded but is not UTF-8 is
/// `InvalidText`.
pub fn body_text(bytes: Result<Vec<u8>, DecodeError>) -> (r: Result<String, BodyError>)
    ensures
        ({
            let given = match bytes {
                Ok(b) => Ok(b@),
                Err(e) => Err(e),
            };
            match r {
                Ok(s) => text_of(given) == Ok::<Seq<char>, BodyError>(s@),
                Err(e) => text_of(given) == Err::<Seq<char>, BodyError>(e),
            }
        }),
{
    match bytes {
        Err(e) => Err(BodyError::Decode(e)),
        Ok(b) => match String::from_utf8(b) {
            Ok(s) => Ok(s),
            Err(_) => Err(BodyError::InvalidText),
        },
    }
}

/// The text of a response body: decoded by its content encoding, then read
/// as UTF-8.
pub fn response_text(body: &[u8], encoding: Option<&str>) -> (r: Result<String, BodyError>)
    ensures
        match r {
            Ok(s) => text_of(decoded(body@, encoding_view(encoding))) == Ok::<
                Seq<char>,
                BodyError,
            >(s@),
            Err(e) => text_of(decoded(body@, encoding_view(encoding))) == Err::<
                Seq<char>,
                BodyError,
            >(e),
        },
{
    body_text(decompress_response(body, encoding))
}

/// A body that decodes to bytes which are not UTF-8 gives `InvalidText`
/// and never a decode error; a body that does not decode gives the decode
/// error and never `InvalidText`.
pub proof fn lemma_invalid_text_is_no_decode_error(body: Seq<u8>, encoding: Option<Seq<char>>)
    ensures
        decoded(body, encoding) matches Ok(bytes) && !valid_utf8(bytes) ==> text_of(
            decoded(body, encoding),
        ) == Err::<Seq<char>, BodyError>(BodyError::InvalidText),
        decoded(body, encoding) matches Err(e) ==> text_of(decoded(body, encoding)) == Err::<
            Seq<char>,
            BodyError,
        >(BodyError::Decode(e)),
        text_of(decoded(body, encoding)) == Err::<Seq<char>, BodyError>(BodyError::InvalidText)
            ==> decoded(body, encoding) is Ok,
{
}

/// Without a content encoding the body comes back as it is.
pub proof fn lemma_identity_without_encoding(body: Seq<u8>)
    ensures
        decoded(body, None) == Ok::<Seq<u8>, DecodeError>(body),
{
}

} // verus!
