//! The content-encoding codec: gzip, deflate, brotli and zstd, in both
//! directions. The compressors themselves are outside crates; each is called
//! through a trusted wrapper whose result is named by an uninterpreted spec
//! function, and everything around the calls — dispatch, UTF-8 handling, the
//! round-trip guarantee — is verified.

use std::io::Read;
use std::io::Write;

use vstd::prelude::*;
use vstd::utf8::decode_utf8;
use vstd::utf8::encode_utf8;
use vstd::utf8::encode_utf8_decode_utf8;
use vstd::utf8::encode_utf8_valid_utf8;
use vstd::utf8::valid_utf8;

use crate::errors::ConfigError;
use crate::text::eq_ci;
use crate::text::eq_ignore_case;

verus! {

/// What gzip compression at the default level returns on the given bytes;
/// `None` stands for a failed compression.
pub uninterp spec fn gzip_comp(b: Seq<u8>) -> Option<Seq<u8>>;

/// What gzip decompression returns on the given bytes; `None` stands for a
/// corrupt or truncated stream.
pub uninterp spec fn gzip_decomp(b: Seq<u8>) -> Option<Seq<u8>>;

/// What raw-deflate compression at the default level returns on the given
/// bytes.
pub uninterp spec fn deflate_comp(b: Seq<u8>) -> Option<Seq<u8>>;

/// What raw-deflate decompression returns on the given bytes.
pub uninterp spec fn deflate_decomp(b: Seq<u8>) -> Option<Seq<u8>>;

/// What brotli compression (quality 11, window 22) returns on the given
/// bytes.
pub uninterp spec fn br_comp(b: Seq<u8>) -> Option<Seq<u8>>;

/// What brotli decompression returns on the given bytes.
pub uninterp spec fn br_decomp(b: Seq<u8>) -> Option<Seq<u8>>;

/// What zstd compression at the default level returns on the given bytes.
pub uninterp spec fn zstd_comp(b: Seq<u8>) -> Option<Seq<u8>>;

/// What zstd decompression returns on the given bytes.
pub uninterp spec fn zstd_decomp(b: Seq<u8>) -> Option<Seq<u8>>;

/// Relies on flate2's `GzEncoder`: gzip-compresses the bytes, and
/// `GzDecoder` inverts it.
#[verifier::external_body]
fn gzip_compress(data: &[u8]) -> (r: Result<Vec<u8>, ()>)
    ensures
        r matches Ok(v) ==> gzip_comp(data@) == Some(v@) && gzip_decomp(v@) == Some(data@),
        r is Err ==> gzip_comp(data@) is None,
{
    let mut encoder = flate2::write::GzEncoder::new(Vec::new(), flate2::Compression::default());
    if encoder.write_all(data).is_err() {
        return Err(());
    }
    encoder.finish().or(Err(()))
}

/// Relies on flate2's `GzDecoder`: gzip-decompresses the bytes, failing on a
/// corrupt stream.
#[verifier::external_body]
fn gzip_decompress(data: &[u8]) -> (r: Result<Vec<u8>, ()>)
    ensures
        r matches Ok(v) ==> gzip_decomp(data@) == Some(v@),
        r is Err ==> gzip_decomp(data@) is None,
{
    let mut out = Vec::new();
    match flate2::read::GzDecoder::new(data).read_to_end(&mut out) {
        Ok(_) => Ok(out),
        Err(_) => Err(()),
    }
}

/// Relies on flate2's `DeflateEncoder`: deflate-compresses the bytes, and
/// `DeflateDecoder` inverts it.
#[verifier::external_body]
fn deflate_compress(data: &[u8]) -> (r: Result<Vec<u8>, ()>)
    ensures
        r matches Ok(v) ==> deflate_comp(data@) == Some(v@) && deflate_decomp(v@) == Some(data@),
        r is Err ==> deflate_comp(data@) is None,
{
    let mut encoder = flate2::write::DeflateEncoder::new(
        Vec::new(),
        flate2::Compression::default(),
    );
    if encoder.write_all(data).is_err() {
        return Err(());
    }
    encoder.finish().or(Err(()))
}

/// Relies on flate2's `DeflateDecoder`: deflate-decompresses the bytes,
/// failing on a corrupt stream.
#[verifier::external_body]
fn deflate_decompress(data: &[u8]) -> (r: Result<Vec<u8>, ()>)
    ensures
        r matches Ok(v) ==> deflate_decomp(data@) == Some(v@),
        r is Err ==> deflate_decomp(data@) is None,
{
    let mut out = Vec::new();
    match flate2::read::DeflateDecoder::new(data).read_to_end(&mut out) {
        Ok(_) => Ok(out),
        Err(_) => Err(()),
    }
}

/// Relies on the brotli crate's `CompressorWriter`: brotli-compresses the
/// bytes (`into_inner` finishes the stream), and `Decompressor` inverts it.
#[verifier::external_body]
fn br_compress(data: &[u8]) -> (r: Result<Vec<u8>, ()>)
    ensures
        r matches Ok(v) ==> br_comp(data@) == Some(v@) && br_decomp(v@) == Some(data@),
        r is Err ==> br_comp(data@) is None,
{
    let mut encoder = brotli::CompressorWriter::new(Vec::new(), 4096, 11, 22);
    if encoder.write_all(data).is_err() {
        return Err(());
    }
    Ok(encoder.into_inner())
}

/// Relies on the brotli crate's `Decompressor`: brotli-decompresses the
/// bytes, failing on a corrupt stream.
#[verifier::external_body]
fn br_decompress(data: &[u8]) -> (r: Result<Vec<u8>, ()>)
    ensures
        r matches Ok(v) ==> br_decomp(data@) == Some(v@),
        r is Err ==> br_decomp(data@) is None,
{
    let mut out = Vec::new();
    match brotli::Decompressor::new(data, 4096).read_to_end(&mut out) {
        Ok(_) => Ok(out),
        Err(_) => Err(()),
    }
}

/// Relies on zstd's `encode_all`: zstd-compresses the bytes at the default
/// level, and `decode_all` inverts it.
#[verifier::external_body]
fn zstd_compress(data: &[u8]) -> (r: Result<Vec<u8>, ()>)
    ensures
        r matches Ok(v) ==> zstd_comp(data@) == Some(v@) && zstd_decomp(v@) == Some(data@),
        r is Err ==> zstd_comp(data@) is None,
{
    zstd::encode_all(data, 0).or(Err(()))
}

/// Relies on zstd's `decode_all`: zstd-decompresses the bytes, failing on a
/// corrupt stream.
#[verifier::external_body]
fn zstd_decompress(data: &[u8]) -> (r: Result<Vec<u8>, ()>)
    ensures
        r matches Ok(v) ==> zstd_decomp(data@) == Some(v@),
        r is Err ==> zstd_decomp(data@) is None,
{
    zstd::decode_all(data).or(Err(()))
}

/// Relies on `String::from_utf8`: succeeds exactly on valid UTF-8 input and
/// returns the decoded characters.
#[verifier::external_body]
fn string_from_utf8(data: Vec<u8>) -> (r: Option<String>)
    ensures
        r matches Some(s) ==> valid_utf8(data@) && s@ == decode_utf8(data@),
        r is None ==> !valid_utf8(data@),
{
    String::from_utf8(data).ok()
}

/// Turns decompressed bytes into text, rejecting byte sequences that are not
/// valid UTF-8. Shared by every codec's decode path.
pub fn generic_decoder(data: Vec<u8>) -> (r: Result<String, ()>)
    ensures
        r matches Ok(s) ==> valid_utf8(data@) && s@ == decode_utf8(data@),
        r is Err ==> !valid_utf8(data@),
{
    match string_from_utf8(data) {
        Some(s) => Ok(s),
        None => Err(()),
    }
}

/// The closed set of supported body compression formats.
#[derive(Clone, Copy, PartialEq, Eq, Structural, Debug)]
pub enum ContentEncoding {
    Gzip,
    Deflate,
    Br,
    Zstd,
}

/// The canonical wire name of an encoding, as it appears in a
/// `Content-Encoding` header.
pub open spec fn encoding_name(e: ContentEncoding) -> Seq<char> {
    match e {
        ContentEncoding::Gzip => "gzip"@,
        ContentEncoding::Deflate => "deflate"@,
        ContentEncoding::Br => "br"@,
        ContentEncoding::Zstd => "zstd"@,
    }
}

/// The encoding a name picks out, compared ignoring ASCII letter case, or
/// nothing when it matches no canonical name.
pub open spec fn encoding_of_name(v: Seq<char>) -> Option<ContentEncoding> {
    if eq_ci(v, "gzip"@) {
        Some(ContentEncoding::Gzip)
    } else if eq_ci(v, "deflate"@) {
        Some(ContentEncoding::Deflate)
    } else if eq_ci(v, "br"@) {
        Some(ContentEncoding::Br)
    } else if eq_ci(v, "zstd"@) {
        Some(ContentEncoding::Zstd)
    } else {
        None
    }
}

/// What compressing the given bytes under the given format returns.
pub open spec fn comp_spec(e: ContentEncoding, b: Seq<u8>) -> Option<Seq<u8>> {
    match e {
        ContentEncoding::Gzip => gzip_comp(b),
        ContentEncoding::Deflate => deflate_comp(b),
        ContentEncoding::Br => br_comp(b),
        ContentEncoding::Zstd => zstd_comp(b),
    }
}

/// What decompressing the given bytes under the given format returns.
pub open spec fn decomp_spec(e: ContentEncoding, b: Seq<u8>) -> Option<Seq<u8>> {
    match e {
        ContentEncoding::Gzip => gzip_decomp(b),
        ContentEncoding::Deflate => deflate_decomp(b),
        ContentEncoding::Br => br_decomp(b),
        ContentEncoding::Zstd => zstd_decomp(b),
    }
}

/// What encoding a text under the given format returns: the compression of
/// its UTF-8 bytes.
pub open spec fn encode_spec(e: ContentEncoding, s: Seq<char>) -> Option<Seq<u8>> {
    comp_spec(e, encode_utf8(s))
}

/// What decoding bytes under the given format returns: the decompressed
/// bytes read as UTF-8 text, failing on a corrupt stream or on bytes that
/// are not valid UTF-8.
pub open spec fn decode_spec(e: ContentEncoding, b: Seq<u8>) -> Option<Seq<char>> {
    match decomp_spec(e, b) {
        Some(x) => if valid_utf8(x) {
            Some(decode_utf8(x))
        } else {
            None
        },
        None => None,
    }
}

impl ContentEncoding {
    /// The canonical wire name: `gzip`, `deflate`, `br` or `zstd`.
    pub fn canonical_name(&self) -> (r: String)
        ensures
            r@ == encoding_name(*self),
    {
        match self {
            ContentEncoding::Gzip => "gzip".to_owned(),
            ContentEncoding::Deflate => "deflate".to_owned(),
            ContentEncoding::Br => "br".to_owned(),
            ContentEncoding::Zstd => "zstd".to_owned(),
        }
    }

    /// Parses an encoding name, ignoring ASCII letter case; any string that
    /// matches no canonical name is rejected.
    pub fn from_str(s: &str) -> (r: Result<ContentEncoding, ConfigError>)
        ensures
            r == (match encoding_of_name(s@) {
                Some(e) => Ok::<ContentEncoding, ConfigError>(e),
                None => Err::<ContentEncoding, ConfigError>(ConfigError::UnknownEncoding),
            }),
            r matches Ok(e) ==> eq_ci(s@, encoding_name(e)),
    {
        if eq_ignore_case(s, "gzip") {
            Ok(ContentEncoding::Gzip)
        } else if eq_ignore_case(s, "deflate") {
            Ok(ContentEncoding::Deflate)
        } else if eq_ignore_case(s, "br") {
            Ok(ContentEncoding::Br)
        } else if eq_ignore_case(s, "zstd") {
            Ok(ContentEncoding::Zstd)
        } else {
            Err(ConfigError::UnknownEncoding)
        }
    }

    /// Compresses a text's UTF-8 bytes. When it succeeds, decoding the
    /// result gives the text back — the round-trip law.
    pub fn encode(&self, data: &str) -> (r: Result<Vec<u8>, ()>)
        ensures
            r matches Ok(v) ==> encode_spec(*self, data@) == Some(v@),
            r matches Ok(v) ==> decode_spec(*self, v@) == Some(data@),
            r is Err ==> encode_spec(*self, data@) is None,
    {
        let bytes = data.as_bytes();
        let compressed = match self {
            ContentEncoding::Gzip => gzip_compress(bytes),
            ContentEncoding::Deflate => deflate_compress(bytes),
            ContentEncoding::Br => br_compress(bytes),
            ContentEncoding::Zstd => zstd_compress(bytes),
        };
        proof {
            encode_utf8_valid_utf8(data@);
            encode_utf8_decode_utf8(data@);
        }
        compressed
    }

    /// Decompresses bytes and reads them as UTF-8 text; a corrupt stream or
    /// non-UTF-8 plaintext is rejected.
    pub fn decode(&self, data: &[u8]) -> (r: Result<String, ()>)
        ensures
            r matches Ok(s) ==> decode_spec(*self, data@) == Some(s@),
            r is Err ==> decode_spec(*self, data@) is None,
    {
        let plain = match self {
            ContentEncoding::Gzip => gzip_decompress(data),
            ContentEncoding::Deflate => deflate_decompress(data),
            ContentEncoding::Br => br_decompress(data),
            ContentEncoding::Zstd => zstd_decompress(data),
        };
        match plain {
            Ok(bytes) => generic_decoder(bytes),
            Err(()) => Err(()),
        }
    }
}

} // verus!
