use shadowproxy::decode::{
    body_text, decompress_response, response_text, settle, BodyError, Codec, DecodeError,
};
use std::io::Write;

fn gzip(data: &[u8]) -> Vec<u8> {
    let mut e = flate2::write::GzEncoder::new(Vec::new(), flate2::Compression::default());
    e.write_all(data).unwrap();
    e.finish().unwrap()
}

fn deflate(data: &[u8]) -> Vec<u8> {
    let mut e = flate2::write::DeflateEncoder::new(Vec::new(), flate2::Compression::default());
    e.write_all(data).unwrap();
    e.finish().unwrap()
}

fn brotli_bytes(data: &[u8]) -> Vec<u8> {
    let mut out = Vec::new();
    {
        let mut w = brotli::CompressorWriter::new(&mut out, 4096, 5, 22);
        w.write_all(data).unwrap();
    }
    out
}

#[test]
fn gzip_of_hello_decodes_to_hello() {
    let packed = gzip(b"hello");
    assert_ne!(packed, b"hello".to_vec());
    assert_eq!(decompress_response(&packed, Some("gzip")).unwrap(), b"hello".to_vec());
    assert_eq!(response_text(&packed, Some("gzip")).unwrap(), "hello");
}

#[test]
fn a_known_gzip_stream() {
    let packed: &[u8] = &[
        0x1f, 0x8b, 0x08, 0x00, 0x00, 0x00, 0x00, 0x00, 0x00, 0x03, 0xcb, 0x48, 0xcd, 0xc9, 0xc9,
        0x57, 0x28, 0xcf, 0x2f, 0xca, 0x49, 0x01, 0x00, 0x85, 0x11, 0x4a, 0x0d, 0x0b, 0x00, 0x00,
        0x00,
    ];
    assert_eq!(decompress_response(packed, Some("gzip")).unwrap(), b"hello world".to_vec());
}

#[test]
fn deflate_and_brotli_decode() {
    let text = "the quick brown fox jumps over the lazy dog, twice: the quick brown fox";
    let d = deflate(text.as_bytes());
    assert_ne!(d, text.as_bytes().to_vec());
    assert_eq!(decompress_response(&d, Some("deflate")).unwrap(), text.as_bytes().to_vec());
    let b = brotli_bytes(text.as_bytes());
    assert_ne!(b, text.as_bytes().to_vec());
    assert_eq!(decompress_response(&b, Some("br")).unwrap(), text.as_bytes().to_vec());
    assert_eq!(response_text(&b, Some("br")).unwrap(), text);
}

#[test]
fn without_an_encoding_the_body_comes_back_unchanged() {
    let body: Vec<u8> = vec![0, 1, 2, 0xff, 0x1f, 0x8b];
    assert_eq!(decompress_response(&body, None).unwrap(), body);
    assert_eq!(decompress_response(&[], None).unwrap(), Vec::<u8>::new());
}

#[test]
fn an_encoding_that_names_no_codec_is_the_identity() {
    let packed = gzip(b"hello");
    for name in ["identity", "", "GZIP", "Gzip", "gzip ", "x-gzip", "compress", "zstd", "brotli"] {
        assert_eq!(decompress_response(&packed, Some(name)).unwrap(), packed, "{}", name);
    }
}

#[test]
fn a_corrupt_stream_is_a_decode_error_that_names_the_codec() {
    let mut packed = gzip(b"hello hello hello hello");
    let n = packed.len();
    packed[n / 2] ^= 0xff;
    packed.truncate(n - 3);
    assert_eq!(
        decompress_response(&packed, Some("gzip")),
        Err(DecodeError { codec: Codec::Gzip })
    );
    assert_eq!(
        decompress_response(b"not gzip at all", Some("gzip")),
        Err(DecodeError { codec: Codec::Gzip })
    );
    assert_eq!(
        decompress_response(&[], Some("gzip")),
        Err(DecodeError { codec: Codec::Gzip })
    );
    assert_eq!(
        decompress_response(&[0xff, 0xff, 0xff, 0xff], Some("deflate")),
        Err(DecodeError { codec: Codec::Deflate })
    );
    assert_eq!(
        decompress_response(&[0xff, 0xff, 0xff, 0xff, 0xff], Some("br")),
        Err(DecodeError { codec: Codec::Brotli })
    );
    assert_eq!(
        response_text(b"not gzip at all", Some("gzip")),
        Err(BodyError::Decode(DecodeError { codec: Codec::Gzip }))
    );
}

#[test]
fn bytes_that_are_not_utf8_are_invalid_text() {
    assert_eq!(response_text(&[0xff, 0xfe], None), Err(BodyError::InvalidText));
    let packed = gzip(&[b'a', 0xc3, 0x28]);
    assert_eq!(decompress_response(&packed, Some("gzip")).unwrap(), vec![b'a', 0xc3, 0x28]);
    assert_eq!(response_text(&packed, Some("gzip")), Err(BodyError::InvalidText));
    assert_eq!(body_text(Ok(vec![0xed, 0xa0, 0x80])), Err(BodyError::InvalidText));
    assert_eq!(body_text(Ok(vec![0xf0, 0x9f, 0x98, 0x80])).unwrap(), "😀");
    assert_eq!(body_text(Ok(Vec::new())).unwrap(), "");
    assert_eq!(
        body_text(Err(DecodeError { codec: Codec::Brotli })),
        Err(BodyError::Decode(DecodeError { codec: Codec::Brotli }))
    );
}

#[test]
fn settle_keeps_the_output_and_names_the_codec() {
    assert_eq!(settle::<()>(Codec::Gzip, Ok(vec![1, 2])), Ok(vec![1, 2]));
    assert_eq!(settle::<()>(Codec::Gzip, Ok(Vec::new())), Ok(Vec::new()));
    assert_eq!(settle(Codec::Deflate, Err(7)), Err(DecodeError { codec: Codec::Deflate }));
}

#[test]
fn codecs_by_name() {
    assert_eq!(Codec::from_encoding(Some("gzip")), Some(Codec::Gzip));
    assert_eq!(Codec::from_encoding(Some("deflate")), Some(Codec::Deflate));
    assert_eq!(Codec::from_encoding(Some("br")), Some(Codec::Brotli));
    assert_eq!(Codec::from_encoding(Some("BR")), None);
    assert_eq!(Codec::from_encoding(None), None);
    assert_eq!(Codec::Gzip.as_str(), "gzip");
    assert_eq!(Codec::Deflate.as_str(), "deflate");
    assert_eq!(Codec::Brotli.as_str(), "br");
}
