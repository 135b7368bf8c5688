use httpecho::codec::ContentEncoding;
use httpecho::codec::generic_decoder;
use httpecho::errors::ConfigError;

fn round_trip(encoding: ContentEncoding) {
    let text = "The quick brown fox jumps over the lazy dog";
    let encoded = encoding.encode(text).unwrap();
    let decoded = encoding.decode(&encoded).unwrap();
    assert_eq!(decoded, text);
}

#[test]
fn round_trip_gzip() {
    round_trip(ContentEncoding::Gzip);
}

#[test]
fn round_trip_deflate() {
    round_trip(ContentEncoding::Deflate);
}

#[test]
fn round_trip_br() {
    round_trip(ContentEncoding::Br);
}

#[test]
fn round_trip_zstd() {
    round_trip(ContentEncoding::Zstd);
}

#[test]
fn round_trip_empty_string() {
    for encoding in [
        ContentEncoding::Gzip,
        ContentEncoding::Deflate,
        ContentEncoding::Br,
        ContentEncoding::Zstd,
    ] {
        let encoded = encoding.encode("").unwrap();
        let decoded = encoding.decode(&encoded).unwrap();
        assert_eq!(decoded, "");
    }
}

#[test]
fn round_trip_multibyte_text() {
    for encoding in [
        ContentEncoding::Gzip,
        ContentEncoding::Deflate,
        ContentEncoding::Br,
        ContentEncoding::Zstd,
    ] {
        let text = "héllo wörld — ünïcode ☃";
        let encoded = encoding.encode(text).unwrap();
        let decoded = encoding.decode(&encoded).unwrap();
        assert_eq!(decoded, text);
    }
}

#[test]
fn encode_changes_the_bytes() {
    // The compressed form of a long repetitive text is shorter than the
    // text, so the wrappers demonstrably did not hand their input back.
    let text = "aaaaaaaaaaaaaaaaaaaaaaaaaaaaaaaaaaaaaaaaaaaaaaaaaaaaaaaaaaaa";
    for encoding in [
        ContentEncoding::Gzip,
        ContentEncoding::Deflate,
        ContentEncoding::Br,
        ContentEncoding::Zstd,
    ] {
        let encoded = encoding.encode(text).unwrap();
        assert_ne!(encoded, text.as_bytes().to_vec());
        assert!(encoded.len() < text.len());
    }
}

#[test]
fn decode_rejects_corrupt_stream() {
    let garbage: Vec<u8> = vec![0x00, 0x01, 0x02, 0x03, 0xff, 0xfe];
    assert!(ContentEncoding::Gzip.decode(&garbage).is_err());
    assert!(ContentEncoding::Deflate.decode(&garbage).is_err());
    assert!(ContentEncoding::Zstd.decode(&garbage).is_err());
}

#[test]
fn decode_rejects_non_utf8_plaintext() {
    // 0xff is not valid UTF-8, so decompression succeeds but decoding the
    // text fails.
    let bytes: Vec<u8> = vec![0xff, 0xfe, 0x00];
    let mut encoder = flate2::write::GzEncoder::new(Vec::new(), flate2::Compression::default());
    std::io::Write::write_all(&mut encoder, &bytes).unwrap();
    let compressed = encoder.finish().unwrap();
    assert!(ContentEncoding::Gzip.decode(&compressed).is_err());
}

#[test]
fn generic_decoder_accepts_utf8() {
    let s = generic_decoder(b"plain text".to_vec()).unwrap();
    assert_eq!(s, "plain text");
}

#[test]
fn generic_decoder_rejects_invalid_utf8() {
    assert!(generic_decoder(vec![0xff, 0x00]).is_err());
}

#[test]
fn canonical_names() {
    assert_eq!(ContentEncoding::Gzip.canonical_name(), "gzip");
    assert_eq!(ContentEncoding::Deflate.canonical_name(), "deflate");
    assert_eq!(ContentEncoding::Br.canonical_name(), "br");
    assert_eq!(ContentEncoding::Zstd.canonical_name(), "zstd");
}

#[test]
fn from_str_parses_canonical_names() {
    assert_eq!(ContentEncoding::from_str("gzip").unwrap(), ContentEncoding::Gzip);
    assert_eq!(ContentEncoding::from_str("deflate").unwrap(), ContentEncoding::Deflate);
    assert_eq!(ContentEncoding::from_str("br").unwrap(), ContentEncoding::Br);
    assert_eq!(ContentEncoding::from_str("zstd").unwrap(), ContentEncoding::Zstd);
}

#[test]
fn from_str_ignores_letter_case() {
    assert_eq!(ContentEncoding::from_str("GZIP").unwrap(), ContentEncoding::Gzip);
    assert_eq!(ContentEncoding::from_str("Deflate").unwrap(), ContentEncoding::Deflate);
    assert_eq!(ContentEncoding::from_str("bR").unwrap(), ContentEncoding::Br);
    assert_eq!(ContentEncoding::from_str("ZStd").unwrap(), ContentEncoding::Zstd);
}

#[test]
fn from_str_rejects_unknown_names() {
    assert_eq!(ContentEncoding::from_str("lzma").unwrap_err(), ConfigError::UnknownEncoding);
    assert_eq!(ContentEncoding::from_str("").unwrap_err(), ConfigError::UnknownEncoding);
    assert_eq!(ContentEncoding::from_str("gzip ").unwrap_err(), ConfigError::UnknownEncoding);
}
