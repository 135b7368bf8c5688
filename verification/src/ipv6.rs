//! A verified parser for literal IPv6 socket addresses of the form
//! `[address]:port`: eight colon-separated groups of one to four hex
//! digits, with at most one `::` compressing one or more zero groups, and
//! optionally a dotted-decimal quad standing for the last two groups.
//! Scope identifiers are not accepted.

use vstd::prelude::*;
use vstd::string::*;

use crate::text::find_char;
use crate::text::find_spec;
use crate::text::lemma_find_spec_props;

verus! {

/// The text split at every colon: the groups an IPv6 address is written in.
/// A leading, trailing or doubled colon yields an empty group.
pub open spec fn split_groups(s: Seq<char>) -> Seq<Seq<char>>
    decreases s.len(),
{
    if s.len() == 0 {
        seq![Seq::<char>::empty()]
    } else if s[0] == ':' {
        seq![Seq::<char>::empty()] + split_groups(s.drop_first())
    } else {
        let rest = split_groups(s.drop_first());
        seq![seq![s[0]] + rest[0]] + rest.drop_first()
    }
}

proof fn lemma_split_nonempty(s: Seq<char>)
    ensures
        split_groups(s).len() >= 1,
    decreases s.len(),
{
    if s.len() > 0 {
        lemma_split_nonempty(s.drop_first());
    }
}

proof fn lemma_split_at_first(s: Seq<char>, i: int)
    requires
        0 <= i <= s.len(),
        forall|k: int| 0 <= k < i ==> s[k] != ':',
        i < s.len() ==> s[i] == ':',
    ensures
        i == s.len() ==> split_groups(s) == seq![s],
        i < s.len() ==> split_groups(s) == seq![s.subrange(0, i)] + split_groups(
            s.subrange(i + 1, s.len() as int),
        ),
    decreases s.len(),
{
    if s.len() == 0 {
        assert(s =~= Seq::<char>::empty());
    } else if s[0] == ':' {
        assert(i == 0);
        assert(s.subrange(0, 0) =~= Seq::<char>::empty());
        assert(s.subrange(1, s.len() as int) =~= s.drop_first());
        assert(split_groups(s) == seq![s.subrange(0, 0)] + split_groups(
            s.subrange(1, s.len() as int),
        ));
    } else {
        let d = s.drop_first();
        lemma_split_at_first(d, i - 1);
        lemma_split_nonempty(d);
        let rest = split_groups(d);
        if i == s.len() {
            assert(rest == seq![d]);
            assert(seq![s[0]] + d =~= s);
            assert(rest.drop_first() =~= Seq::<Seq<char>>::empty());
            assert(split_groups(s) =~= seq![s]);
        } else {
            assert(rest == seq![d.subrange(0, i - 1)] + split_groups(
                d.subrange(i, d.len() as int),
            ));
            assert(rest[0] == d.subrange(0, i - 1));
            assert(seq![s[0]] + d.subrange(0, i - 1) =~= s.subrange(0, i));
            assert(rest.drop_first() =~= split_groups(d.subrange(i, d.len() as int)));
            assert(d.subrange(i, d.len() as int) =~= s.subrange(i + 1, s.len() as int));
            assert(split_groups(s) =~= seq![s.subrange(0, i)] + split_groups(
                s.subrange(i + 1, s.len() as int),
            ));
        }
    }
}

fn split_colon(s: &str) -> (r: Vec<String>)
    ensures
        r.deep_view() == split_groups(s@),
{
    let len = s.unicode_len();
    let mut out: Vec<String> = Vec::new();
    let mut pos: usize = 0;
    proof {
        assert(s@.subrange(0, len as int) =~= s@);
        assert(out.deep_view() =~= Seq::<Seq<char>>::empty());
        assert(out.deep_view() + split_groups(s@) =~= split_groups(s@));
    }
    loop
        invariant
            pos <= len,
            len == s@.len(),
            split_groups(s@) =~= out.deep_view() + split_groups(
                s@.subrange(pos as int, len as int),
            ),
        decreases len - pos,
    {
        let rem = s.substring_char(pos, len);
        let ghost pre = out@;
        match find_char(rem, ':') {
            None => {
                out.push(rem.to_owned());
                proof {
                    lemma_find_spec_props(rem@, ':');
                    lemma_split_at_first(rem@, rem@.len() as int);
                    assert(forall|k: int| 0 <= k < pre.len() ==> out@[k] == pre[k]);
                    assert(out.deep_view() =~= pre.map_values(|x: String| x@).push(rem@));
                    assert(pre.map_values(|x: String| x@) =~= Seq::new(
                        pre.len(),
                        |k: int| pre[k]@,
                    ));
                    assert(out.deep_view() =~= split_groups(s@));
                }
                return out;
            },
            Some(i) => {
                let piece = rem.substring_char(0, i);
                out.push(piece.to_owned());
                proof {
                    lemma_find_spec_props(rem@, ':');
                    lemma_split_at_first(rem@, i as int);
                    assert(forall|k: int| 0 <= k < pre.len() ==> out@[k] == pre[k]);
                    assert(rem@.subrange(i + 1, rem@.len() as int) =~= s@.subrange(
                        pos + i + 1,
                        len as int,
                    ));
                    assert(out.deep_view() =~= (pre.map_values(|x: String| x@)).push(
                        rem@.subrange(0, i as int),
                    ));
                    assert(split_groups(s@) =~= out.deep_view() + split_groups(
                        s@.subrange(pos + i + 1, len as int),
                    ));
                }
                pos = pos + i + 1;
            },
        }
    }
}

/// How many groups are empty: the written form of a `::` compression.
pub open spec fn count_empties(gs: Seq<Seq<char>>) -> int
    decreases gs.len(),
{
    if gs.len() == 0 {
        0
    } else {
        count_empties(gs.drop_last()) + if gs.last().len() == 0 {
            1int
        } else {
            0int
        }
    }
}

/// The position of the first empty group, if any.
pub open spec fn find_empty(gs: Seq<Seq<char>>) -> Option<int>
    decreases gs.len(),
{
    if gs.len() == 0 {
        None
    } else if gs[0].len() == 0 {
        Some(0)
    } else {
        match find_empty(gs.drop_first()) {
            Some(i) => Some(i + 1),
            None => None,
        }
    }
}

proof fn lemma_find_empty_at(gs: Seq<Seq<char>>, i: int)
    requires
        0 <= i <= gs.len(),
        forall|k: int| 0 <= k < i ==> gs[k].len() > 0,
        i < gs.len() ==> gs[i].len() == 0,
    ensures
        i < gs.len() ==> find_empty(gs) == Some(i),
        i == gs.len() ==> find_empty(gs) is None,
    decreases gs.len(),
{
    if gs.len() == 0 {
    } else if gs[0].len() == 0 {
        assert(i == 0);
    } else {
        lemma_find_empty_at(gs.drop_first(), i - 1);
    }
}

/// A hexadecimal digit, in either letter case.
pub open spec fn is_hex_digit(c: char) -> bool {
    (48 <= c as int && c as int <= 57) || (97 <= c as int && c as int <= 102) || (65 <= c as int
        && c as int <= 70)
}

/// The value of a hexadecimal digit; letters count in either case.
pub open spec fn hex_digit_val(c: char) -> int {
    if 48 <= c as int && c as int <= 57 {
        c as int - 48
    } else if 97 <= c as int && c as int <= 102 {
        c as int - 87
    } else {
        c as int - 55
    }
}

/// The value of a hexadecimal numeral.
pub open spec fn hex_val(s: Seq<char>) -> int
    decreases s.len(),
{
    if s.len() == 0 {
        0
    } else {
        hex_val(s.drop_last()) * 16 + hex_digit_val(s.last())
    }
}

/// One group of an IPv6 address: one to four hexadecimal digits.
pub open spec fn valid_hex_group(s: Seq<char>) -> bool {
    1 <= s.len() <= 4 && (forall|i: int| 0 <= i < s.len() ==> is_hex_digit(s[i]))
}

spec fn pow16(i: int) -> int
    decreases i,
{
    if i <= 0 {
        1
    } else {
        16 * pow16(i - 1)
    }
}

proof fn lemma_hex_val_bound(s: Seq<char>)
    requires
        forall|i: int| 0 <= i < s.len() ==> is_hex_digit(s[i]),
    ensures
        0 <= hex_val(s) < pow16(s.len() as int),
    decreases s.len(),
{
    if s.len() > 0 {
        lemma_hex_val_bound(s.drop_last());
    }
}

/// Parses one group of one to four hex digits.
fn parse_hex_group(s: &str) -> (r: Option<u16>)
    ensures
        r matches Some(v) ==> valid_hex_group(s@) && v == hex_val(s@),
        r is None ==> !valid_hex_group(s@),
{
    let len = s.unicode_len();
    if len == 0 || len > 4 {
        return None;
    }
    let mut val: u32 = 0;
    let mut i: usize = 0;
    while i < len
        invariant
            i <= len,
            len == s@.len(),
            len <= 4,
            forall|k: int| 0 <= k < i ==> is_hex_digit(s@[k]),
            val == hex_val(s@.subrange(0, i as int)),
            val < pow16(i as int),
        decreases len - i,
    {
        let c = s.get_char(i);
        let u = c as u32;
        let d: u32 = if 48 <= u && u <= 57 {
            u - 48
        } else if 97 <= u && u <= 102 {
            u - 87
        } else if 65 <= u && u <= 70 {
            u - 55
        } else {
            assert(!is_hex_digit(s@[i as int]));
            return None;
        };
        proof {
            assert(s@.subrange(0, i + 1).drop_last() =~= s@.subrange(0, i as int));
            assert(s@.subrange(0, i + 1).last() == s@[i as int]);
            assert(pow16(0) == 1);
            assert(pow16(1) == 16);
            assert(pow16(2) == 256);
            assert(pow16(3) == 4096);
            assert(pow16(4) == 65536);
        }
        val = val * 16 + d;
        i += 1;
    }
    proof {
        assert(s@.subrange(0, len as int) =~= s@);
        assert(pow16(0) == 1);
        assert(pow16(1) == 16);
        assert(pow16(2) == 256);
        assert(pow16(3) == 4096);
        assert(pow16(4) == 65536);
        lemma_hex_val_bound(s@);
    }
    Some(val as u16)
}

/// Every group is a well-formed hex group.
pub open spec fn all_groups_valid(gs: Seq<Seq<char>>) -> bool {
    forall|k: int| 0 <= k < gs.len() ==> valid_hex_group(gs[k])
}

/// The values of a run of groups.
pub open spec fn group_vals(gs: Seq<Seq<char>>) -> Seq<u16> {
    Seq::new(gs.len(), |k: int| hex_val(gs[k]) as u16)
}

/// A run of zero groups, as written by a `::` compression.
pub open spec fn zero_groups(n: int) -> Seq<u16> {
    Seq::new(n as nat, |k: int| 0u16)
}

proof fn lemma_count_nonempty(gs: Seq<Seq<char>>)
    requires
        forall|k: int| 0 <= k < gs.len() ==> gs[k].len() > 0,
    ensures
        count_empties(gs) == 0,
    decreases gs.len(),
{
    if gs.len() > 0 {
        lemma_count_nonempty(gs.drop_last());
    }
}

/// The two group values an embedded dotted-decimal quad stands for: its
/// first two octets, and its last two.
pub open spec fn v4_pair(t: Seq<char>) -> Seq<u16> {
    match crate::resolver::ipv4_of(t) {
        Some(crate::resolver::IpAddress::V4(a, b, c, d)) => seq![
            (a as int * 256 + b as int) as u16,
            (c as int * 256 + d as int) as u16,
        ],
        _ => seq![],
    }
}

/// The values of the run of groups that ends an address: every group but
/// the last is a hex group; the last may instead be an embedded
/// dotted-decimal quad, which stands for two groups.
pub open spec fn run_vals(gs: Seq<Seq<char>>, lo: int, hi: int) -> Option<Seq<u16>> {
    if !(0 <= lo < hi <= gs.len()) {
        None
    } else {
        let head = gs.subrange(lo, hi - 1);
        let t = gs[hi - 1];
        if all_groups_valid(head) {
            if valid_hex_group(t) {
                Some(group_vals(head).push(hex_val(t) as u16))
            } else if crate::resolver::ipv4_of(t) is Some {
                Some(group_vals(head) + v4_pair(t))
            } else {
                None
            }
        } else {
            None
        }
    }
}

/// The eight group values an IPv6 address text denotes, or nothing when the
/// text is not a well-formed address: written in full it has exactly eight
/// groups, the last possibly a dotted-decimal quad worth two; one `::` —
/// leading, trailing, in the middle, or alone — stands for the groups left
/// out, which must be at least one.
pub open spec fn ipv6_groups(s: Seq<char>) -> Option<Seq<u16>> {
    let gs = split_groups(s);
    let n = gs.len() as int;
    let c = count_empties(gs);
    if c == 0 {
        match run_vals(gs, 0, n) {
            Some(w) => if w.len() == 8 {
                Some(w)
            } else {
                None
            },
            None => None,
        }
    } else if c == 1 {
        let p = find_empty(gs).unwrap();
        if 1 <= p && p + 2 <= n && all_groups_valid(gs.subrange(0, p)) {
            match run_vals(gs, p + 1, n) {
                Some(w) => if p + w.len() <= 7 {
                    Some(group_vals(gs.subrange(0, p)) + zero_groups(8 - p - w.len() as int) + w)
                } else {
                    None
                },
                None => None,
            }
        } else {
            None
        }
    } else if c == 2 {
        let p = find_empty(gs).unwrap();
        if p == 0 && n >= 3 && gs[1].len() == 0 {
            match run_vals(gs, 2, n) {
                Some(w) => if w.len() <= 7 {
                    Some(zero_groups(8 - w.len() as int) + w)
                } else {
                    None
                },
                None => None,
            }
        } else if n >= 3 && n <= 9 && p + 2 == n && gs[n - 1].len() == 0 && all_groups_valid(
            gs.subrange(0, n - 2),
        ) {
            Some(group_vals(gs.subrange(0, n - 2)) + zero_groups(10 - n))
        } else {
            None
        }
    } else if c == 3 {
        if n == 3 && gs[0].len() == 0 && gs[1].len() == 0 && gs[2].len() == 0 {
            Some(zero_groups(8))
        } else {
            None
        }
    } else {
        None
    }
}

/// The address an IPv6 text denotes.
pub open spec fn ipv6_of(s: Seq<char>) -> Option<crate::resolver::IpAddress> {
    match ipv6_groups(s) {
        Some(w) => Some(
            crate::resolver::IpAddress::V6(w[0], w[1], w[2], w[3], w[4], w[5], w[6], w[7]),
        ),
        None => None,
    }
}

fn parse_groups(gs: &Vec<String>, lo: usize, hi: usize) -> (r: Option<Vec<u16>>)
    requires
        lo <= hi <= gs@.len(),
    ensures
        r matches Some(v) ==> all_groups_valid(gs.deep_view().subrange(lo as int, hi as int))
            && v@.len() == hi - lo && forall|k: int|
            0 <= k < v@.len() ==> v@[k] == hex_val(gs.deep_view()[lo + k]) as u16,
        r is None ==> !all_groups_valid(gs.deep_view().subrange(lo as int, hi as int)),
{
    let ghost g = gs.deep_view();
    let mut out: Vec<u16> = Vec::new();
    let mut i: usize = lo;
    while i < hi
        invariant
            lo <= i <= hi <= gs@.len(),
            g == gs.deep_view(),
            g.len() == gs@.len(),
            out@.len() == i - lo,
            forall|k: int| lo <= k < i ==> valid_hex_group(g[k]),
            forall|k: int| 0 <= k < out@.len() ==> out@[k] == hex_val(g[lo + k]) as u16,
        decreases hi - i,
    {
        proof {
            assert(g[i as int] == gs@[i as int]@);
        }
        match parse_hex_group(gs[i].as_str()) {
            Some(v) => {
                out.push(v);
            },
            None => {
                assert(!valid_hex_group(g.subrange(lo as int, hi as int)[i - lo]));
                return None;
            },
        }
        i += 1;
    }
    Some(out)
}

fn parse_run(gs: &Vec<String>, lo: usize, hi: usize) -> (r: Option<Vec<u16>>)
    requires
        lo < hi <= gs@.len(),
    ensures
        (match r {
            Some(v) => run_vals(gs.deep_view(), lo as int, hi as int) == Some(v@),
            None => run_vals(gs.deep_view(), lo as int, hi as int) is None,
        }),
{
    let ghost g = gs.deep_view();
    let mut out = match parse_groups(gs, lo, hi - 1) {
        Some(v) => v,
        None => {
            return None;
        },
    };
    proof {
        assert(g[hi - 1] == gs@[hi - 1]@);
        assert(out@ =~= group_vals(g.subrange(lo as int, hi - 1)));
    }
    match parse_hex_group(gs[hi - 1].as_str()) {
        Some(v) => {
            out.push(v);
            proof {
                assert(out@ =~= group_vals(g.subrange(lo as int, hi - 1)).push(
                    hex_val(g[hi - 1]) as u16,
                ));
            }
            Some(out)
        },
        None => match crate::resolver::parse_ipv4(gs[hi - 1].as_str()) {
            Some(crate::resolver::IpAddress::V4(a, b, c, d)) => {
                out.push(a as u16 * 256 + b as u16);
                out.push(c as u16 * 256 + d as u16);
                proof {
                    assert(out@ =~= group_vals(g.subrange(lo as int, hi - 1)) + v4_pair(
                        g[hi - 1],
                    ));
                }
                Some(out)
            },
            Some(crate::resolver::IpAddress::V6(_, _, _, _, _, _, _, _)) => {
                proof {
                    assert(false);
                }
                None
            },
            None => None,
        },
    }
}

fn count_empty_groups(gs: &Vec<String>) -> (r: usize)
    ensures
        r == count_empties(gs.deep_view()),
        r <= gs@.len(),
{
    let ghost g = gs.deep_view();
    let n = gs.len();
    let mut c: usize = 0;
    let mut i: usize = 0;
    while i < n
        invariant
            i <= n,
            n == gs@.len(),
            g == gs.deep_view(),
            g.len() == n,
            c <= i,
            c == count_empties(g.subrange(0, i as int)),
        decreases n - i,
    {
        proof {
            assert(g.subrange(0, i + 1).drop_last() =~= g.subrange(0, i as int));
            assert(g.subrange(0, i + 1).last() == g[i as int]);
            assert(g[i as int] == gs@[i as int]@);
        }
        if gs[i].as_str().is_empty() {
            c += 1;
        }
        i += 1;
    }
    proof {
        assert(g.subrange(0, n as int) =~= g);
    }
    c
}

fn first_empty_group(gs: &Vec<String>) -> (r: usize)
    ensures
        r <= gs@.len(),
        r < gs@.len() ==> find_empty(gs.deep_view()) == Some(r as int),
        r == gs@.len() ==> find_empty(gs.deep_view()) is None,
        r == gs@.len() ==> forall|k: int|
            0 <= k < gs.deep_view().len() ==> gs.deep_view()[k].len() > 0,
{
    let ghost g = gs.deep_view();
    let n = gs.len();
    let mut p: usize = n;
    let mut i: usize = 0;
    while i < n
        invariant
            i <= n,
            n == gs@.len(),
            g == gs.deep_view(),
            g.len() == n,
            p <= n,
            p == n ==> forall|k: int| 0 <= k < i ==> g[k].len() > 0,
            p < n ==> g[p as int].len() == 0 && (forall|k: int| 0 <= k < p ==> g[k].len() > 0),
        decreases n - i,
    {
        proof {
            assert(g[i as int] == gs@[i as int]@);
        }
        if p == n && gs[i].as_str().is_empty() {
            p = i;
        }
        i += 1;
    }
    proof {
        if p == n {
            lemma_find_empty_at(g, n as int);
        } else {
            lemma_find_empty_at(g, p as int);
        }
    }
    p
}

fn push_zero_groups(out: &mut Vec<u16>, n: usize)
    ensures
        final(out)@ =~= old(out)@ + zero_groups(n as int),
{
    let mut i: usize = 0;
    while i < n
        invariant
            i <= n,
            out@ =~= old(out)@ + zero_groups(i as int),
        decreases n - i,
    {
        out.push(0);
        proof {
            assert(out@ =~= old(out)@ + zero_groups(i + 1));
        }
        i += 1;
    }
}

fn push_group_vals(out: &mut Vec<u16>, vals: &Vec<u16>)
    ensures
        final(out)@ =~= old(out)@ + vals@,
{
    let mut i: usize = 0;
    while i < vals.len()
        invariant
            i <= vals@.len(),
            out@ =~= old(out)@ + vals@.subrange(0, i as int),
        decreases vals@.len() - i,
    {
        out.push(vals[i]);
        proof {
            assert(out@ =~= old(out)@ + vals@.subrange(0, i + 1));
        }
        i += 1;
    }
    proof {
        assert(vals@.subrange(0, vals@.len() as int) =~= vals@);
    }
}

/// Parses an IPv6 address: eight colon-separated hex groups, with one `::`
/// allowed to stand for the missing groups.
pub fn parse_ipv6(s: &str) -> (r: Option<crate::resolver::IpAddress>)
    ensures
        r == ipv6_of(s@),
{
    let gs: Vec<String> = split_colon(s);
    let ghost g = gs.deep_view();
    let n = gs.len();
    proof {
        assert(g.len() == gs@.len());
    }
    let c = count_empty_groups(&gs);
    let p = first_empty_group(&gs);

    if c == 0 {
        proof {
            lemma_split_nonempty(s@);
        }
        let w = match parse_run(&gs, 0, n) {
            Some(v) => v,
            None => {
                return None;
            },
        };
        if w.len() != 8 {
            return None;
        }
        Some(
            crate::resolver::IpAddress::V6(w[0], w[1], w[2], w[3], w[4], w[5], w[6], w[7]),
        )
    } else if c == 1 {
        proof {
            if p == n {
                lemma_count_nonempty(g);
            }
        }
        if !(1 <= p && n >= 2 && p <= n - 2) {
            return None;
        }
        let left = match parse_groups(&gs, 0, p) {
            Some(v) => v,
            None => {
                return None;
            },
        };
        let w = match parse_run(&gs, p + 1, n) {
            Some(v) => v,
            None => {
                return None;
            },
        };
        if p > 7 || w.len() > 7 || p + w.len() > 7 {
            return None;
        }
        let mut full: Vec<u16> = Vec::new();
        push_group_vals(&mut full, &left);
        push_zero_groups(&mut full, 8 - p - w.len());
        push_group_vals(&mut full, &w);
        proof {
            assert(left@ =~= group_vals(g.subrange(0, p as int)));
            assert(full@ =~= group_vals(g.subrange(0, p as int)) + zero_groups(
                8 - p - w@.len() as int,
            ) + w@);
            assert(full@.len() == 8);
        }
        Some(
            crate::resolver::IpAddress::V6(
                full[0],
                full[1],
                full[2],
                full[3],
                full[4],
                full[5],
                full[6],
                full[7],
            ),
        )
    } else if c == 2 {
        proof {
            if p == n {
                lemma_count_nonempty(g);
            }
        }
        if p == 0 && n >= 3 && gs[1].as_str().is_empty() {
            proof {
                assert(g[1] == gs@[1]@);
            }
            let w = match parse_run(&gs, 2, n) {
                Some(v) => v,
                None => {
                    return None;
                },
            };
            if w.len() > 7 {
                return None;
            }
            let mut full: Vec<u16> = Vec::new();
            push_zero_groups(&mut full, 8 - w.len());
            push_group_vals(&mut full, &w);
            proof {
                assert(full@ =~= zero_groups(8 - w@.len() as int) + w@);
                assert(full@.len() == 8);
            }
            Some(
                crate::resolver::IpAddress::V6(
                    full[0],
                    full[1],
                    full[2],
                    full[3],
                    full[4],
                    full[5],
                    full[6],
                    full[7],
                ),
            )
        } else if n >= 3 && n <= 9 && p + 2 == n && gs[n - 1].as_str().is_empty() {
            proof {
                assert(g[n - 1] == gs@[n - 1]@);
            }
            let left = match parse_groups(&gs, 0, n - 2) {
                Some(v) => v,
                None => {
                    return None;
                },
            };
            let mut full: Vec<u16> = Vec::new();
            push_group_vals(&mut full, &left);
            push_zero_groups(&mut full, 10 - n);
            proof {
                assert(left@ =~= group_vals(g.subrange(0, n - 2)));
                assert(full@ =~= group_vals(g.subrange(0, n - 2)) + zero_groups(10 - n));
                assert(full@.len() == 8);
            }
            Some(
                crate::resolver::IpAddress::V6(
                    full[0],
                    full[1],
                    full[2],
                    full[3],
                    full[4],
                    full[5],
                    full[6],
                    full[7],
                ),
            )
        } else {
            proof {
                assert(g[1] == gs@[1]@);
                if n >= 1 {
                    assert(g[n - 1] == gs@[n - 1]@);
                }
            }
            None
        }
    } else if c == 3 {
        if n == 3 && gs[0].as_str().is_empty() && gs[1].as_str().is_empty() && gs[2].as_str()
            .is_empty() {
            proof {
                assert(zero_groups(8).len() == 8);
                assert(zero_groups(8)[0] == 0u16);
            }
            Some(crate::resolver::IpAddress::V6(0, 0, 0, 0, 0, 0, 0, 0))
        } else {
            proof {
                if n == 3 {
                    assert(g[0] == gs@[0]@);
                    assert(g[1] == gs@[1]@);
                    assert(g[2] == gs@[2]@);
                }
            }
            None
        }
    } else {
        None
    }
}

/// The socket address a literal `[address]:port` text denotes.
pub open spec fn ipv6_socket_of(s: Seq<char>) -> Option<crate::resolver::SockAddr> {
    if s.len() >= 1 && s[0] == '[' {
        match find_spec(s, ']') {
            Some(j) => if j + 2 <= s.len() && s[j + 1] == ':' {
                let addr = s.subrange(1, j);
                let port = s.subrange(j + 2, s.len() as int);
                match ipv6_of(addr) {
                    Some(ip) => if crate::resolver::valid_dec(port, 65535) {
                        Some(
                            crate::resolver::SockAddr {
                                ip,
                                port: crate::resolver::dec_val(port) as u16,
                            },
                        )
                    } else {
                        None
                    },
                    None => None,
                }
            } else {
                None
            },
            None => None,
        }
    } else {
        None
    }
}

/// Parses a literal IPv6 socket address of the form `[address]:port`.
pub fn parse_ipv6_socket(s: &str) -> (r: Option<crate::resolver::SockAddr>)
    ensures
        r == ipv6_socket_of(s@),
{
    let len = s.unicode_len();
    if len == 0 || s.get_char(0) != '[' {
        return None;
    }
    let j = match find_char(s, ']') {
        Some(j) => j,
        None => {
            return None;
        },
    };
    if j + 1 >= len {
        return None;
    }
    if s.get_char(j + 1) != ':' {
        return None;
    }
    let addr = s.substring_char(1, j);
    let port = s.substring_char(j + 2, len);
    let ip = match parse_ipv6(addr) {
        Some(ip) => ip,
        None => {
            return None;
        },
    };
    match crate::resolver::parse_dec(port, 65535) {
        Some(p) => Some(crate::resolver::SockAddr { ip, port: p as u16 }),
        None => None,
    }
}

} // verus!
