//! The immutable configuration a server instance is built from: response
//! status, optional body content, content type, optional content encoding,
//! explicit header overrides and the list of header names to highlight.

use vstd::prelude::*;
use vstd::slice::slice_to_vec;
use vstd::string::*;
use vstd::utf8::encode_utf8;
use vstd::utf8::valid_utf8;

use crate::codec::decode_spec;
use crate::codec::encode_spec;
use crate::codec::generic_decoder;
use crate::codec::ContentEncoding;
use crate::errors::ConfigError;
use crate::text::find_spec;
use crate::text::find_char;
use crate::text::trim_spec;
use crate::text::trim;

verus! {

/// The closed set of response content types.
#[derive(Clone, Copy, PartialEq, Eq, Structural, Debug)]
pub enum ContentType {
    /// JSON (`application/json`)
    Json,
    /// Text (`text/plain`)
    Text,
    /// HTML (`text/html`)
    Html,
}

/// The MIME name of a content type, as it appears in a `Content-Type`
/// header.
pub open spec fn mime_name(t: ContentType) -> Seq<char> {
    match t {
        ContentType::Json => "application/json"@,
        ContentType::Text => "text/plain"@,
        ContentType::Html => "text/html"@,
    }
}

/// The content type a configuration name picks out, compared ignoring ASCII
/// letter case, or nothing when it matches none.
pub open spec fn content_type_of_name(v: Seq<char>) -> Option<ContentType> {
    if crate::text::eq_ci(v, "json"@) {
        Some(ContentType::Json)
    } else if crate::text::eq_ci(v, "text"@) {
        Some(ContentType::Text)
    } else if crate::text::eq_ci(v, "html"@) {
        Some(ContentType::Html)
    } else {
        None
    }
}

impl ContentType {
    /// The MIME name: `application/json`, `text/plain` or `text/html`.
    pub fn mime_type(&self) -> (r: String)
        ensures
            r@ == mime_name(*self),
    {
        match self {
            ContentType::Json => "application/json".to_owned(),
            ContentType::Text => "text/plain".to_owned(),
            ContentType::Html => "text/html".to_owned(),
        }
    }

    /// Parses a content-type name (`json`, `text` or `html`), ignoring ASCII
    /// letter case.
    pub fn from_str(s: &str) -> (r: Result<ContentType, ConfigError>)
        ensures
            r == (match content_type_of_name(s@) {
                Some(t) => Ok::<ContentType, ConfigError>(t),
                None => Err::<ContentType, ConfigError>(ConfigError::UnknownContentType),
            }),
    {
        if crate::text::eq_ignore_case(s, "json") {
            Ok(ContentType::Json)
        } else if crate::text::eq_ignore_case(s, "text") {
            Ok(ContentType::Text)
        } else if crate::text::eq_ignore_case(s, "html") {
            Ok(ContentType::Html)
        } else {
            Err(ConfigError::UnknownContentType)
        }
    }
}

/// The mathematical value of a header: its key and value as character
/// sequences.
pub struct HeaderV {
    pub key: Seq<char>,
    pub value: Seq<char>,
}

/// One header override: a key and a value. Keys are compared ignoring ASCII
/// letter case everywhere.
#[derive(Debug)]
pub struct Header {
    pub key: String,
    pub value: String,
}

impl View for Header {
    type V = HeaderV;

    open spec fn view(&self) -> HeaderV {
        HeaderV { key: self.key@, value: self.value@ }
    }
}

impl DeepView for Header {
    type V = HeaderV;

    open spec fn deep_view(&self) -> HeaderV {
        self.view()
    }
}

impl Clone for Header {
    fn clone(&self) -> (res: Self)
        ensures
            res@ == self@,
    {
        Header { key: self.key.clone(), value: self.value.clone() }
    }
}

/// What parsing a `Key: Value` line yields: the parts on the two sides of
/// the first colon, each stripped of surrounding ASCII whitespace; a line
/// without a colon is malformed.
pub open spec fn header_of(s: Seq<char>) -> Option<HeaderV> {
    match find_spec(s, ':') {
        Some(i) => Some(
            HeaderV {
                key: trim_spec(s.subrange(0, i)),
                value: trim_spec(s.subrange(i + 1, s.len() as int)),
            },
        ),
        None => None,
    }
}

impl Header {
    /// Parses a `Key: Value` line, splitting at the first colon and trimming
    /// ASCII whitespace from both parts.
    pub fn from_str(s: &str) -> (r: Result<Header, ConfigError>)
        ensures
            r matches Ok(h) ==> header_of(s@) == Some(h@),
            r matches Err(c) ==> c == ConfigError::MalformedHeader && header_of(s@) is None,
    {
        let len = s.unicode_len();
        match find_char(s, ':') {
            Some(i) => {
                let key = trim(s.substring_char(0, i));
                let value = trim(s.substring_char(i + 1, len));
                Ok(Header { key, value })
            },
            None => Err(ConfigError::MalformedHeader),
        }
    }
}

/// The mathematical value of a configuration.
pub struct ConfigV {
    pub status_code: u16,
    pub content: Option<Seq<u8>>,
    pub content_type: ContentType,
    pub content_encoding: Option<ContentEncoding>,
    pub headers: Seq<HeaderV>,
    pub highlight_headers: Seq<Seq<char>>,
}

/// The view of an optional byte vector.
pub open spec fn opt_bytes(o: Option<Vec<u8>>) -> Option<Seq<u8>> {
    match o {
        Some(v) => Some(v@),
        None => None,
    }
}

/// The view of an optional borrowed string.
pub open spec fn opt_str_view(o: Option<&String>) -> Option<Seq<char>> {
    match o {
        Some(s) => Some(s@),
        None => None,
    }
}

/// The value of an optional borrowed encoding.
pub open spec fn opt_enc_view(o: Option<&ContentEncoding>) -> Option<ContentEncoding> {
    match o {
        Some(e) => Some(*e),
        None => None,
    }
}

/// The immutable configuration. Built once at startup and shared read-only
/// by every connection handler; all concurrency safety derives from its
/// immutability.
pub struct Config {
    pub status_code: u16,
    pub content: Option<Vec<u8>>,
    pub content_type: ContentType,
    pub content_encoding: Option<ContentEncoding>,
    pub headers: Vec<Header>,
    pub highlight_headers: Vec<String>,
}

impl View for Config {
    type V = ConfigV;

    open spec fn view(&self) -> ConfigV {
        ConfigV {
            status_code: self.status_code,
            content: opt_bytes(self.content),
            content_type: self.content_type,
            content_encoding: self.content_encoding,
            headers: self.headers.deep_view(),
            highlight_headers: self.highlight_headers.deep_view(),
        }
    }
}

impl Config {
    /// Bundles the parts of a configuration; nothing is validated here
    /// beyond what the parts' own parsers accepted.
    pub fn new(
        status_code: u16,
        content: Option<Vec<u8>>,
        content_type: ContentType,
        content_encoding: Option<ContentEncoding>,
        headers: Vec<Header>,
        highlight_headers: Vec<String>,
    ) -> (r: Self)
        ensures
            r@.status_code == status_code,
            r@.content == opt_bytes(content),
            r@.content_type == content_type,
            r@.content_encoding == content_encoding,
            r@.headers == headers.deep_view(),
            r@.highlight_headers == highlight_headers.deep_view(),
    {
        Self { status_code, content, content_type, content_encoding, headers, highlight_headers }
    }

    /// The configured body content, if any.
    pub fn content(&self) -> (r: Option<Vec<u8>>)
        ensures
            opt_bytes(r) == self@.content,
    {
        match &self.content {
            Some(v) => Some(slice_to_vec(v.as_slice())),
            None => None,
        }
    }
}

fn clone_headers(hs: &Vec<Header>) -> (r: Vec<Header>)
    ensures
        r.deep_view() == hs.deep_view(),
{
    let mut out: Vec<Header> = Vec::new();
    let mut i: usize = 0;
    while i < hs.len()
        invariant
            i <= hs.len(),
            out@.len() == i,
            forall|k: int| 0 <= k < i ==> #[trigger] out@[k]@ == hs@[k]@,
        decreases hs.len() - i,
    {
        let ghost pre = out@;
        out.push(hs[i].clone());
        proof {
            assert(forall|k: int| 0 <= k < i ==> out@[k] == pre[k]);
        }
        i += 1;
    }
    proof {
        assert(out.deep_view() =~= hs.deep_view());
    }
    out
}

fn clone_strings(ss: &Vec<String>) -> (r: Vec<String>)
    ensures
        r.deep_view() == ss.deep_view(),
{
    let mut out: Vec<String> = Vec::new();
    let mut i: usize = 0;
    while i < ss.len()
        invariant
            i <= ss.len(),
            out@.len() == i,
            forall|k: int| 0 <= k < i ==> #[trigger] out@[k]@ == ss@[k]@,
        decreases ss.len() - i,
    {
        let ghost pre = out@;
        out.push(ss[i].clone());
        proof {
            assert(forall|k: int| 0 <= k < i ==> out@[k] == pre[k]);
        }
        i += 1;
    }
    proof {
        assert(out.deep_view() =~= ss.deep_view());
    }
    out
}

impl Clone for Config {
    fn clone(&self) -> (res: Self)
        ensures
            res@ == self@,
    {
        Config {
            status_code: self.status_code,
            content: match &self.content {
                Some(v) => Some(slice_to_vec(v.as_slice())),
                None => None,
            },
            content_type: self.content_type,
            content_encoding: self.content_encoding,
            headers: clone_headers(&self.headers),
            highlight_headers: clone_strings(&self.highlight_headers),
        }
    }
}

/// The path named by a content value that begins with the reserved `@`
/// marker, which means "read the body from this file".
pub fn content_file_path(content: &str) -> (r: Option<String>)
    ensures
        r matches Some(p) ==> content@.len() >= 1 && content@[0] == '@' && p@ == content@.subrange(
            1,
            content@.len() as int,
        ),
        r is None ==> content@.len() == 0 || content@[0] != '@',
{
    let len = content.unicode_len();
    if len >= 1 && content.get_char(0) == '@' {
        Some(content.substring_char(1, len).to_owned())
    } else {
        None
    }
}

/// What the response body bytes are, given the configured content, the
/// configured encoding, and the bytes of a successfully read `@`-file if
/// there was one: no content means no body; file bytes are sent as they
/// are; literal content is sent encoded when an encoding is configured,
/// and as its UTF-8 bytes otherwise.
pub open spec fn content_bytes_spec(
    content: Option<Seq<char>>,
    encoding: Option<ContentEncoding>,
    file_data: Option<Seq<u8>>,
) -> Option<Seq<u8>> {
    match content {
        None => None,
        Some(c) => match file_data {
            Some(d) => Some(d),
            None => match encoding {
                None => Some(encode_utf8(c)),
                Some(e) => encode_spec(e, c),
            },
        },
    }
}

/// Computes the body bytes to store in the configuration. `file_data` holds
/// the bytes of the `@`-file when the content named one and it could be
/// read; on a failed read the literal content, marker included, is sent
/// instead.
pub fn get_content_bytes(
    content: Option<&String>,
    encoding: Option<&ContentEncoding>,
    file_data: Option<Vec<u8>>,
) -> (r: Option<Vec<u8>>)
    ensures
        opt_bytes(r) == content_bytes_spec(
            opt_str_view(content),
            opt_enc_view(encoding),
            opt_bytes(file_data),
        ),
{
    let clean = match content {
        Some(c) => c,
        None => {
            return None;
        },
    };
    if let Some(d) = file_data {
        return Some(d);
    }
    match encoding {
        None => Some(clean.as_str().as_bytes_vec()),
        Some(e) => match e.encode(clean.as_str()) {
            Ok(v) => Some(v),
            Err(()) => None,
        },
    }
}

/// Whether configured file content will be presentable: decodable under the
/// configured encoding, or valid UTF-8 when none is set. A failure here is
/// only worth an operator warning; the bytes are served either way.
pub fn file_content_decodes(data: &Vec<u8>, encoding: Option<&ContentEncoding>) -> (r: bool)
    ensures
        r == (match opt_enc_view(encoding) {
            None => valid_utf8(data@),
            Some(e) => decode_spec(e, data@) is Some,
        }),
{
    match encoding {
        None => generic_decoder(slice_to_vec(data.as_slice())).is_ok(),
        Some(e) => e.decode(data.as_slice()).is_ok(),
    }
}

} // verus!
