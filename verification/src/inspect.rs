//! Request inspection: a received request rendered as text for
//! observability. Header names on the highlight list are marked, matching
//! ignoring ASCII letter case; bodies are decoded through the codec when a
//! recognized `Content-Encoding` header is present. Purely additive: the
//! rendering never affects the generated response.

use vstd::prelude::*;
use vstd::slice::slice_to_vec;
use vstd::string::*;
use vstd::utf8::decode_utf8;
use vstd::utf8::valid_utf8;

use crate::codec::decode_spec;
use crate::codec::encoding_of_name;
use crate::codec::generic_decoder;
use crate::codec::ContentEncoding;
use crate::config::opt_enc_view;
use crate::config::Header;
use crate::config::HeaderV;
use crate::text::eq_ci;
use crate::text::eq_ignore_case;

verus! {

/// Whether a header name appears on the highlight list, compared ignoring
/// ASCII letter case.
pub open spec fn is_highlighted(name: Seq<char>, hl: Seq<Seq<char>>) -> bool {
    exists|j: int| 0 <= j < hl.len() && eq_ci(hl[j], name)
}

/// The rendered line for one received header: indented, and carrying a
/// visual marker when the name is on the highlight list.
pub open spec fn render_header(h: HeaderV, hl: Seq<Seq<char>>) -> Seq<char> {
    if is_highlighted(h.key, hl) {
        "  >> "@ + h.key + ": "@ + h.value + "\n"@
    } else {
        "  "@ + h.key + ": "@ + h.value + "\n"@
    }
}

/// The rendered lines for a received header list, in the order received.
pub open spec fn render_headers(hs: Seq<HeaderV>, hl: Seq<Seq<char>>) -> Seq<char>
    decreases hs.len(),
{
    if hs.len() == 0 {
        Seq::empty()
    } else {
        render_headers(hs.drop_last(), hl) + render_header(hs.last(), hl)
    }
}

/// Highlight matching ignores ASCII letter case: an entry that matches a
/// header's name under any letter case marks that header's rendered line.
pub proof fn lemma_highlight_case_insensitive(h: HeaderV, hl: Seq<Seq<char>>, j: int)
    requires
        0 <= j < hl.len(),
        eq_ci(hl[j], h.key),
    ensures
        render_header(h, hl) == "  >> "@ + h.key + ": "@ + h.value + "\n"@,
{
}

/// The value of the first received header with the given name, compared
/// ignoring ASCII letter case.
pub open spec fn first_lookup(hs: Seq<HeaderV>, key: Seq<char>) -> Option<Seq<char>>
    decreases hs.len(),
{
    if hs.len() == 0 {
        None
    } else if eq_ci(hs[0].key, key) {
        Some(hs[0].value)
    } else {
        first_lookup(hs.drop_first(), key)
    }
}

proof fn lemma_first_lookup_at(hs: Seq<HeaderV>, key: Seq<char>, i: int)
    requires
        0 <= i <= hs.len(),
        forall|k: int| 0 <= k < i ==> !eq_ci(hs[k].key, key),
        i < hs.len() ==> eq_ci(hs[i].key, key),
    ensures
        i < hs.len() ==> first_lookup(hs, key) == Some(hs[i].value),
        i == hs.len() ==> first_lookup(hs, key) is None,
    decreases hs.len(),
{
    if hs.len() == 0 {
    } else if eq_ci(hs[0].key, key) {
        assert(i == 0);
    } else {
        lemma_first_lookup_at(hs.drop_first(), key, i - 1);
    }
}

/// The encoding a received request declares: the first `Content-Encoding`
/// header's value when it names a supported codec, and nothing otherwise.
pub fn request_encoding(headers: &Vec<Header>) -> (r: Option<ContentEncoding>)
    ensures
        r == (match first_lookup(headers.deep_view(), "content-encoding"@) {
            Some(v) => encoding_of_name(v),
            None => None::<ContentEncoding>,
        }),
{
    let ghost g = headers.deep_view();
    let mut i: usize = 0;
    while i < headers.len()
        invariant
            i <= headers.len(),
            g == headers.deep_view(),
            g.len() == headers@.len(),
            forall|k: int| 0 <= k < i ==> !eq_ci(g[k].key, "content-encoding"@),
        decreases headers.len() - i,
    {
        if eq_ignore_case(headers[i].key.as_str(), "content-encoding") {
            proof {
                lemma_first_lookup_at(g, "content-encoding"@, i as int);
            }
            return match ContentEncoding::from_str(headers[i].value.as_str()) {
                Ok(e) => Some(e),
                Err(_) => None,
            };
        }
        i += 1;
    }
    proof {
        lemma_first_lookup_at(g, "content-encoding"@, g.len() as int);
    }
    None
}

/// What the body is rendered as: a placeholder for an empty body; decoded
/// text under the declared encoding, or raw UTF-8 text without one; and a
/// fixed placeholder when decoding fails.
pub open spec fn message_spec(body: Seq<u8>, enc: Option<ContentEncoding>) -> Seq<char> {
    if body.len() == 0 {
        "(no body)"@
    } else {
        match enc {
            None => if valid_utf8(body) {
                decode_utf8(body)
            } else {
                "(non-UTF8 data)"@
            },
            Some(e) => match decode_spec(e, body) {
                Some(s) => s,
                None => "(error decoding)"@,
            },
        }
    }
}

/// Renders a request body as text; codec failure is non-fatal and degrades
/// to a placeholder.
pub fn format_message(body_bytes: &Vec<u8>, encoding: Option<&ContentEncoding>) -> (r: String)
    ensures
        r@ == message_spec(body_bytes@, opt_enc_view(encoding)),
{
    if body_bytes.len() == 0 {
        return "(no body)".to_owned();
    }
    match encoding {
        None => match generic_decoder(slice_to_vec(body_bytes.as_slice())) {
            Ok(s) => s,
            Err(()) => "(non-UTF8 data)".to_owned(),
        },
        Some(e) => match e.decode(body_bytes.as_slice()) {
            Ok(s) => s,
            Err(()) => "(error decoding)".to_owned(),
        },
    }
}

fn should_highlight(name: &String, highlight_headers: &Vec<String>) -> (r: bool)
    ensures
        r == is_highlighted(name@, highlight_headers.deep_view()),
{
    let ghost g = highlight_headers.deep_view();
    let mut i: usize = 0;
    while i < highlight_headers.len()
        invariant
            i <= highlight_headers.len(),
            g == highlight_headers.deep_view(),
            g.len() == highlight_headers@.len(),
            forall|k: int| 0 <= k < i ==> !eq_ci(g[k], name@),
        decreases highlight_headers.len() - i,
    {
        if eq_ignore_case(highlight_headers[i].as_str(), name.as_str()) {
            proof {
                assert(g[i as int] == highlight_headers@[i as int]@);
                assert(eq_ci(g[i as int], name@));
            }
            return true;
        }
        i += 1;
    }
    false
}

/// Renders the received headers in order, marking the ones whose names
/// appear on the highlight list under any letter case.
pub fn format_headers(headers: &Vec<Header>, highlight_headers: &Vec<String>) -> (r: String)
    ensures
        r@ == render_headers(headers.deep_view(), highlight_headers.deep_view()),
{
    let ghost g = headers.deep_view();
    let ghost hl = highlight_headers.deep_view();
    let mut out = String::new();
    let mut i: usize = 0;
    while i < headers.len()
        invariant
            i <= headers.len(),
            g == headers.deep_view(),
            hl == highlight_headers.deep_view(),
            g.len() == headers@.len(),
            out@ == render_headers(g.subrange(0, i as int), hl),
        decreases headers.len() - i,
    {
        if should_highlight(&headers[i].key, highlight_headers) {
            out.append("  >> ");
        } else {
            out.append("  ");
        }
        out.append(headers[i].key.as_str());
        out.append(": ");
        out.append(headers[i].value.as_str());
        out.append("\n");
        proof {
            assert(g.subrange(0, i + 1).drop_last() =~= g.subrange(0, i as int));
            assert(g.subrange(0, i + 1).last() == g[i as int]);
            assert(out@ =~= render_headers(g.subrange(0, i as int), hl) + render_header(
                g[i as int],
                hl,
            ));
        }
        i += 1;
    }
    proof {
        assert(g.subrange(0, headers@.len() as int) =~= g);
    }
    out
}

/// A received request rendered for observability: method, path, headers and
/// body, each already formatted as text.
pub struct PrettyRequest {
    pub method: String,
    pub path: String,
    pub headers_str: String,
    pub body_str: String,
}

impl PrettyRequest {
    /// Assembles the rendering of a received request from its parts: the
    /// method, the path and query if there was one, the headers in received
    /// order, and the body bytes — or a read failure — to present under the
    /// request's own declared encoding.
    pub fn from_parts(
        method: String,
        path_and_query: Option<String>,
        headers: &Vec<Header>,
        body: Result<Vec<u8>, ()>,
        highlight_headers: &Vec<String>,
    ) -> (r: PrettyRequest)
        ensures
            r.method@ == method@,
            r.path@ == (match path_and_query {
                Some(p) => p@,
                None => "/"@,
            }),
            r.headers_str@ == render_headers(headers.deep_view(), highlight_headers.deep_view()),
            r.body_str@ == (match body {
                Ok(b) => message_spec(
                    b@,
                    match first_lookup(headers.deep_view(), "content-encoding"@) {
                        Some(v) => encoding_of_name(v),
                        None => None::<ContentEncoding>,
                    },
                ),
                Err(()) => "(error reading body)"@,
            }),
    {
        let path = match path_and_query {
            Some(p) => p,
            None => "/".to_owned(),
        };
        let headers_str = format_headers(headers, highlight_headers);
        let encoding = request_encoding(headers);
        let body_str = match body {
            Ok(b) => format_message(&b, encoding.as_ref()),
            Err(()) => "(error reading body)".to_owned(),
        };
        PrettyRequest { method, path, headers_str, body_str }
    }

    /// The full rendering: method, path, headers, body and a separator
    /// line, each on its own line.
    pub fn render(&self) -> (r: String)
        ensures
            r@ == "Method: "@ + self.method@ + "\nPath: "@ + self.path@ + "\nHeaders:\n"@
                + self.headers_str@ + "\nBody: "@ + self.body_str@ + "\n"@
                + "==================================================\n"@,
    {
        let mut out = String::new();
        out.append("Method: ");
        out.append(self.method.as_str());
        out.append("\nPath: ");
        out.append(self.path.as_str());
        out.append("\nHeaders:\n");
        out.append(self.headers_str.as_str());
        out.append("\nBody: ");
        out.append(self.body_str.as_str());
        out.append("\n");
        out.append("==================================================\n");
        proof {
            assert(out@ =~= "Method: "@ + self.method@ + "\nPath: "@ + self.path@ + "\nHeaders:\n"@
                + self.headers_str@ + "\nBody: "@ + self.body_str@ + "\n"@
                + "==================================================\n"@);
        }
        out
    }
}

} // verus!
