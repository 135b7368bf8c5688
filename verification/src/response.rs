//! Response generation: from a configuration to a concrete status, header
//! list and body, with the precedence rule that explicit header overrides
//! always win over derived headers, keys compared ignoring ASCII letter
//! case.

use vstd::prelude::*;
use vstd::string::*;

use crate::codec::encoding_name;
use crate::codec::encode_spec;
use crate::codec::ContentEncoding;
use crate::config::content_bytes_spec;
use crate::config::mime_name;
use crate::config::Config;
use crate::config::ConfigV;
use crate::config::Header;
use crate::config::HeaderV;
use crate::text::eq_ci;
use crate::text::eq_ignore_case;

verus! {

/// A header list with every entry whose key matches the given key (ignoring
/// ASCII letter case) removed.
pub open spec fn remove_key(hs: Seq<HeaderV>, key: Seq<char>) -> Seq<HeaderV>
    decreases hs.len(),
{
    if hs.len() == 0 {
        hs
    } else {
        let rest = remove_key(hs.drop_last(), key);
        if eq_ci(hs.last().key, key) {
            rest
        } else {
            rest.push(hs.last())
        }
    }
}

/// One header override applied to a header list: every same-keyed entry is
/// removed and the override appended, so the override wins.
pub open spec fn apply_header(hs: Seq<HeaderV>, h: HeaderV) -> Seq<HeaderV> {
    remove_key(hs, h.key).push(h)
}

/// A list of header overrides applied in order; a later override wins over
/// an earlier one with the same key.
pub open spec fn apply_headers(hs: Seq<HeaderV>, extra: Seq<HeaderV>) -> Seq<HeaderV>
    decreases extra.len(),
{
    if extra.len() == 0 {
        hs
    } else {
        apply_header(apply_headers(hs, extra.drop_last()), extra.last())
    }
}

/// The headers derived from the configuration alone: always a Content-Type,
/// and a Content-Encoding exactly when an encoding is configured and content
/// is present.
pub open spec fn derived_headers(c: ConfigV) -> Seq<HeaderV> {
    let base = seq![HeaderV { key: "Content-Type"@, value: mime_name(c.content_type) }];
    if c.content is Some && c.content_encoding is Some {
        base.push(
            HeaderV { key: "Content-Encoding"@, value: encoding_name(c.content_encoding.unwrap()) },
        )
    } else {
        base
    }
}

/// The headers of the built response: the derived headers, then every
/// explicit override applied in list order.
pub open spec fn response_headers(c: ConfigV) -> Seq<HeaderV> {
    apply_headers(derived_headers(c), c.headers)
}

/// The body of the built response: the configured content bytes, or empty.
pub open spec fn response_body(c: ConfigV) -> Seq<u8> {
    match c.content {
        Some(b) => b,
        None => Seq::empty(),
    }
}

/// The value a header list carries for a key, compared ignoring ASCII letter
/// case; the last entry wins, mirroring the override order.
pub open spec fn header_lookup(hs: Seq<HeaderV>, key: Seq<char>) -> Option<Seq<char>>
    decreases hs.len(),
{
    if hs.len() == 0 {
        None
    } else if eq_ci(hs.last().key, key) {
        Some(hs.last().value)
    } else {
        header_lookup(hs.drop_last(), key)
    }
}

proof fn lemma_lookup_remove(hs: Seq<HeaderV>, rkey: Seq<char>, key: Seq<char>)
    requires
        !eq_ci(rkey, key),
    ensures
        header_lookup(remove_key(hs, rkey), key) == header_lookup(hs, key),
    decreases hs.len(),
{
    if hs.len() == 0 {
    } else {
        lemma_lookup_remove(hs.drop_last(), rkey, key);
        let rest = remove_key(hs.drop_last(), rkey);
        if eq_ci(hs.last().key, rkey) {
            assert(!eq_ci(hs.last().key, key));
        } else {
            assert(rest.push(hs.last()).drop_last() =~= rest);
        }
    }
}

/// The value a built response carries for a key is decided by the explicit
/// overrides first and the derived headers only as a fallback: exactly the
/// precedence the configuration promises.
pub proof fn lemma_lookup_apply(base: Seq<HeaderV>, extra: Seq<HeaderV>, key: Seq<char>)
    ensures
        header_lookup(apply_headers(base, extra), key) == (match header_lookup(extra, key) {
            Some(v) => Some(v),
            None => header_lookup(base, key),
        }),
    decreases extra.len(),
{
    if extra.len() == 0 {
    } else {
        lemma_lookup_apply(base, extra.drop_last(), key);
        let h = extra.last();
        let prev = apply_headers(base, extra.drop_last());
        let removed = remove_key(prev, h.key);
        assert(removed.push(h).drop_last() =~= removed);
        if !eq_ci(h.key, key) {
            lemma_lookup_remove(prev, h.key, key);
        }
    }
}

/// An explicit header override always wins: whenever the override list has
/// an entry for a key (compared ignoring ASCII letter case), the built
/// response carries the last such entry's value for that key, whatever
/// header the content type or encoding would have derived.
pub proof fn lemma_explicit_header_wins(c: ConfigV, key: Seq<char>)
    requires
        header_lookup(c.headers, key) is Some,
    ensures
        header_lookup(response_headers(c), key) == header_lookup(c.headers, key),
{
    lemma_lookup_apply(derived_headers(c), c.headers, key);
}

/// An explicit `Content-Type` override, under any letter case of its key,
/// replaces the content-type enum's derived header value.
pub proof fn lemma_content_type_override(c: ConfigV)
    requires
        header_lookup(c.headers, "Content-Type"@) is Some,
    ensures
        header_lookup(response_headers(c), "Content-Type"@) == header_lookup(
            c.headers,
            "Content-Type"@,
        ),
{
    lemma_explicit_header_wins(c, "Content-Type"@);
}

/// When an encoding is configured, content is present, and no explicit
/// override touches `Content-Encoding`, the built response carries a
/// `Content-Encoding` header with the format's canonical name, and its body
/// is the stored content — which the configuration step made equal to
/// `encode(format, text)`.
pub proof fn lemma_encoded_response(text: Seq<char>, e: ContentEncoding, enc: Seq<u8>, c: ConfigV)
    requires
        content_bytes_spec(Some(text), Some(e), None) == Some(enc),
        c.content == Some(enc),
        c.content_encoding == Some(e),
        header_lookup(c.headers, "Content-Encoding"@) is None,
    ensures
        encode_spec(e, text) == Some(enc),
        response_body(c) == enc,
        header_lookup(response_headers(c), "Content-Encoding"@) == Some(encoding_name(e)),
{
    lemma_lookup_apply(derived_headers(c), c.headers, "Content-Encoding"@);
}

/// When content is absent the body is empty, and no `Content-Encoding`
/// header is derived even if an encoding was configured; one appears only if
/// an explicit override asks for it.
pub proof fn lemma_no_content(c: ConfigV)
    requires
        c.content is None,
        header_lookup(c.headers, "Content-Encoding"@) is None,
    ensures
        response_body(c).len() == 0,
        header_lookup(response_headers(c), "Content-Encoding"@) is None,
{
    lemma_lookup_apply(derived_headers(c), c.headers, "Content-Encoding"@);
    reveal_strlit("Content-Type");
    reveal_strlit("Content-Encoding");
    assert("Content-Type"@.len() != "Content-Encoding"@.len());
    let d = derived_headers(c);
    assert(d.len() == 1);
    assert(!eq_ci(d.last().key, "Content-Encoding"@));
    assert(d.drop_last().len() == 0);
    assert(header_lookup(d.drop_last(), "Content-Encoding"@) is None);
    assert(header_lookup(d, "Content-Encoding"@) is None);
}

/// No two entries of a header list share a key, compared ignoring ASCII
/// letter case.
pub open spec fn keys_unique(hs: Seq<HeaderV>) -> bool {
    forall|i: int, j: int| 0 <= i < j < hs.len() ==> !eq_ci(hs[i].key, hs[j].key)
}

proof fn lemma_remove_key_no_match(hs: Seq<HeaderV>, key: Seq<char>)
    ensures
        forall|i: int|
            0 <= i < remove_key(hs, key).len() ==> !eq_ci(
                #[trigger] remove_key(hs, key)[i].key,
                key,
            ),
    decreases hs.len(),
{
    if hs.len() > 0 {
        lemma_remove_key_no_match(hs.drop_last(), key);
        let rest = remove_key(hs.drop_last(), key);
        if !eq_ci(hs.last().key, key) {
            assert forall|i: int|
                0 <= i < rest.push(hs.last()).len() implies !eq_ci(
                rest.push(hs.last())[i].key,
                key,
            ) by {
                if i < rest.len() {
                    assert(rest.push(hs.last())[i] == rest[i]);
                } else {
                    assert(rest.push(hs.last())[i] == hs.last());
                }
            }
        }
    }
}

proof fn lemma_remove_key_subset(hs: Seq<HeaderV>, key: Seq<char>)
    ensures
        forall|i: int|
            0 <= i < remove_key(hs, key).len() ==> hs.contains(#[trigger] remove_key(hs, key)[i]),
    decreases hs.len(),
{
    if hs.len() > 0 {
        lemma_remove_key_subset(hs.drop_last(), key);
        assert forall|i: int|
            0 <= i < remove_key(hs, key).len() implies hs.contains(
            #[trigger] remove_key(hs, key)[i],
        ) by {
            let r = remove_key(hs, key);
            let rest = remove_key(hs.drop_last(), key);
            if i < rest.len() {
                assert(hs.drop_last().contains(rest[i]));
                let j = choose|j: int| 0 <= j < hs.drop_last().len() && hs.drop_last()[j]
                    == rest[i];
                assert(hs[j] == rest[i]);
            } else {
                assert(r[i] == hs.last());
                assert(hs[hs.len() - 1] == hs.last());
            }
        }
    }
}

proof fn lemma_remove_key_unique(hs: Seq<HeaderV>, key: Seq<char>)
    requires
        keys_unique(hs),
    ensures
        keys_unique(remove_key(hs, key)),
    decreases hs.len(),
{
    if hs.len() > 0 {
        assert(keys_unique(hs.drop_last()));
        lemma_remove_key_unique(hs.drop_last(), key);
        if !eq_ci(hs.last().key, key) {
            lemma_remove_key_subset(hs.drop_last(), key);
            let rest = remove_key(hs.drop_last(), key);
            assert forall|i: int, j: int|
                0 <= i < j < rest.push(hs.last()).len() implies !eq_ci(
                rest.push(hs.last())[i].key,
                rest.push(hs.last())[j].key,
            ) by {
                if j < rest.len() {
                } else {
                    assert(rest.push(hs.last())[j] == hs.last());
                    assert(hs.drop_last().contains(rest[i]));
                    let w = choose|w: int| 0 <= w < hs.drop_last().len() && hs.drop_last()[w]
                        == rest[i];
                    assert(hs[w] == rest[i]);
                    assert(!eq_ci(hs[w].key, hs[hs.len() - 1].key));
                }
            }
        }
    }
}

proof fn lemma_apply_header_unique(hs: Seq<HeaderV>, h: HeaderV)
    requires
        keys_unique(hs),
    ensures
        keys_unique(apply_header(hs, h)),
{
    lemma_remove_key_unique(hs, h.key);
    lemma_remove_key_no_match(hs, h.key);
    let r = remove_key(hs, h.key);
    assert forall|i: int, j: int|
        0 <= i < j < r.push(h).len() implies !eq_ci(r.push(h)[i].key, r.push(h)[j].key) by {
        if j == r.len() {
            assert(r.push(h)[j] == h);
            assert(!eq_ci(r[i].key, h.key));
        }
    }
}

proof fn lemma_apply_headers_unique(hs: Seq<HeaderV>, extra: Seq<HeaderV>)
    requires
        keys_unique(hs),
    ensures
        keys_unique(apply_headers(hs, extra)),
    decreases extra.len(),
{
    if extra.len() > 0 {
        lemma_apply_headers_unique(hs, extra.drop_last());
        lemma_apply_header_unique(apply_headers(hs, extra.drop_last()), extra.last());
    }
}

/// The built response names each header key at most once, under any letter
/// case: the override rule leaves no duplicates, whatever the configuration
/// holds.
pub proof fn lemma_response_keys_unique(c: ConfigV)
    ensures
        keys_unique(response_headers(c)),
{
    let d = derived_headers(c);
    reveal_strlit("Content-Type");
    reveal_strlit("Content-Encoding");
    assert("Content-Type"@.len() != "Content-Encoding"@.len());
    assert(keys_unique(d));
    lemma_apply_headers_unique(d, c.headers);
}

/// The response a configuration scripts: its status code verbatim, the
/// derived headers with every explicit override applied, and the stored
/// content as body.
pub struct HttpResponse {
    pub status_code: u16,
    pub headers: Vec<Header>,
    pub body: Vec<u8>,
}

fn remove_key_exec(headers: &Vec<Header>, key: &String) -> (r: Vec<Header>)
    ensures
        r.deep_view() == remove_key(headers.deep_view(), key@),
{
    let ghost g = headers.deep_view();
    let mut out: Vec<Header> = Vec::new();
    let mut i: usize = 0;
    while i < headers.len()
        invariant
            i <= headers.len(),
            g == headers.deep_view(),
            g.len() == headers@.len(),
            out.deep_view() =~= remove_key(g.subrange(0, i as int), key@),
        decreases headers.len() - i,
    {
        proof {
            assert(g.subrange(0, i + 1).drop_last() =~= g.subrange(0, i as int));
            assert(g.subrange(0, i + 1).last() == headers@[i as int]@);
        }
        if !eq_ignore_case(headers[i].key.as_str(), key.as_str()) {
            let ghost pre = out@;
            out.push(headers[i].clone());
            proof {
                assert(forall|k: int| 0 <= k < pre.len() ==> out@[k] == pre[k]);
                assert(out.deep_view() =~= remove_key(g.subrange(0, i + 1), key@));
            }
        } else {
            proof {
                assert(out.deep_view() =~= remove_key(g.subrange(0, i + 1), key@));
            }
        }
        i += 1;
    }
    proof {
        assert(g.subrange(0, headers@.len() as int) =~= g);
    }
    out
}

fn apply_header_exec(headers: &Vec<Header>, h: &Header) -> (r: Vec<Header>)
    ensures
        r.deep_view() == apply_header(headers.deep_view(), h@),
{
    let mut out = remove_key_exec(headers, &h.key);
    let ghost pre = out@;
    out.push(h.clone());
    proof {
        assert(forall|k: int| 0 <= k < pre.len() ==> out@[k] == pre[k]);
        assert(out.deep_view() =~= remove_key(headers.deep_view(), h@.key).push(h@));
    }
    out
}

/// Builds the response a configuration scripts. Deterministic in the
/// configuration and free of side effects, so safe to call concurrently
/// from any number of connection handlers.
pub fn generate_response(config: &Config) -> (r: HttpResponse)
    ensures
        r.status_code == config@.status_code,
        r.body@ == response_body(config@),
        r.headers.deep_view() == response_headers(config@),
{
    let content = config.content();
    let has_content = content.is_some();

    let mut headers: Vec<Header> = Vec::new();
    headers.push(Header { key: "Content-Type".to_owned(), value: config.content_type.mime_type() });
    if has_content {
        if let Some(e) = config.content_encoding {
            let ghost pre = headers@;
            headers.push(Header { key: "Content-Encoding".to_owned(), value: e.canonical_name() });
            proof {
                assert(forall|k: int| 0 <= k < pre.len() ==> headers@[k] == pre[k]);
            }
        }
    }
    proof {
        assert(headers.deep_view() =~= derived_headers(config@));
    }

    let ghost extra = config@.headers;
    let mut i: usize = 0;
    while i < config.headers.len()
        invariant
            i <= config.headers.len(),
            extra == config@.headers,
            extra.len() == config.headers@.len(),
            extra == config.headers.deep_view(),
            headers.deep_view() == apply_headers(derived_headers(config@), extra.subrange(
                0,
                i as int,
            )),
        decreases config.headers.len() - i,
    {
        headers = apply_header_exec(&headers, &config.headers[i]);
        proof {
            assert(extra.subrange(0, i + 1).drop_last() =~= extra.subrange(0, i as int));
            assert(extra.subrange(0, i + 1).last() == config.headers@[i as int]@);
        }
        i += 1;
    }
    proof {
        assert(extra.subrange(0, config.headers@.len() as int) =~= extra);
    }

    let body: Vec<u8> = match content {
        Some(v) => v,
        None => Vec::new(),
    };
    HttpResponse { status_code: config.status_code, headers, body }
}

} // verus!
