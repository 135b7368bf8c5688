//! Target-address resolution for gateway mode: a configured target is
//! either a literal IPv4 socket address, parsed and validated here, or a
//! URL whose host and port are read through the url crate and whose DNS
//! lookup the caller performs; the decision logic around both is verified.

use vstd::prelude::*;
use vstd::string::*;

use crate::errors::AddressResolutionError;
use crate::errors::ConfigError;
use crate::text::find_spec;
use crate::text::find_char;

verus! {

/// A resolved network address, as plain values.
#[derive(Clone, Copy, PartialEq, Eq, Structural, Debug)]
pub enum IpAddress {
    V4(u8, u8, u8, u8),
    V6(u16, u16, u16, u16, u16, u16, u16, u16),
}

/// A concrete socket address: an address and a port.
#[derive(Clone, Copy, PartialEq, Eq, Structural, Debug)]
pub struct SockAddr {
    pub ip: IpAddress,
    pub port: u16,
}

/// What a URL target offers: its host name, if any, and its port — explicit
/// or the scheme's well-known default — if any.
#[derive(Debug)]
pub struct UrlParts {
    pub host: Option<String>,
    pub port: Option<u16>,
}

impl Clone for UrlParts {
    fn clone(&self) -> (res: Self)
        ensures
            res == *self,
    {
        UrlParts {
            host: match &self.host {
                Some(h) => Some(h.clone()),
                None => None,
            },
            port: self.port,
        }
    }
}

/// The view of an optional owned string.
pub open spec fn opt_string_view(o: Option<String>) -> Option<Seq<char>> {
    match o {
        Some(s) => Some(s@),
        None => None,
    }
}

/// What parsing the text as a URL yields: the host, if any, and the port or
/// the scheme's well-known default, if any; `None` when the text is not a
/// valid URL.
pub uninterp spec fn url_target_of(s: Seq<char>) -> Option<(Option<Seq<char>>, Option<u16>)>;

/// Relies on url's `Url::parse`, `Url::host_str` and
/// `Url::port_or_known_default`: parses the text as a URL and reads out its
/// host and its explicit-or-default port.
#[verifier::external_body]
fn parse_target_url(s: &str) -> (r: Option<UrlParts>)
    ensures
        r matches Some(p) ==> url_target_of(s@) == Some((opt_string_view(p.host), p.port)),
        r is None ==> url_target_of(s@) is None,
{
    match url::Url::parse(s) {
        Ok(u) => Some(
            UrlParts {
                host: u.host_str().map(|h| h.to_owned()),
                port: u.port_or_known_default(),
            },
        ),
        Err(_) => None,
    }
}

/// A decimal digit.
pub open spec fn is_digit(c: char) -> bool {
    48 <= c as int && c as int <= 57
}

/// The value of a decimal digit.
pub open spec fn digit_val(c: char) -> int {
    c as int - 48
}

/// Every character is a decimal digit.
pub open spec fn all_digits(s: Seq<char>) -> bool {
    forall|i: int| 0 <= i < s.len() ==> is_digit(s[i])
}

/// The value of a decimal numeral.
pub open spec fn dec_val(s: Seq<char>) -> int
    decreases s.len(),
{
    if s.len() == 0 {
        0
    } else {
        dec_val(s.drop_last()) * 10 + digit_val(s.last())
    }
}

/// A decimal numeral in the form the standard socket-address parser
/// accepts: nonempty, digits only, no leading zero, value at most `max`.
pub open spec fn valid_dec(s: Seq<char>, max: int) -> bool {
    &&& s.len() >= 1
    &&& all_digits(s)
    &&& (s.len() > 1 ==> s[0] != '0')
    &&& dec_val(s) <= max
}

proof fn lemma_dec_val_nonneg(s: Seq<char>)
    requires
        all_digits(s),
    ensures
        dec_val(s) >= 0,
    decreases s.len(),
{
    if s.len() > 0 {
        lemma_dec_val_nonneg(s.drop_last());
    }
}

proof fn lemma_dec_val_prefix_le(s: Seq<char>, i: int)
    requires
        all_digits(s),
        0 <= i <= s.len(),
    ensures
        dec_val(s.subrange(0, i)) <= dec_val(s),
    decreases s.len() - i,
{
    if i == s.len() {
        assert(s.subrange(0, i) =~= s);
    } else {
        assert(s.subrange(0, i + 1).drop_last() =~= s.subrange(0, i));
        assert(all_digits(s.subrange(0, i)));
        lemma_dec_val_nonneg(s.subrange(0, i));
        lemma_dec_val_prefix_le(s, i + 1);
    }
}

/// Parses a decimal numeral of value at most `max`, in the strict form
/// `valid_dec` describes.
pub(crate) fn parse_dec(s: &str, max: u32) -> (r: Option<u32>)
    requires
        max <= 65535,
    ensures
        r matches Some(v) ==> valid_dec(s@, max as int) && v == dec_val(s@),
        r is None ==> !valid_dec(s@, max as int),
{
    let len = s.unicode_len();
    if len == 0 {
        return None;
    }
    if len > 1 && s.get_char(0) == '0' {
        return None;
    }
    let mut val: u32 = 0;
    let mut i: usize = 0;
    while i < len
        invariant
            i <= len,
            len == s@.len(),
            max <= 65535,
            val <= max,
            forall|k: int| 0 <= k < i ==> is_digit(s@[k]),
            val == dec_val(s@.subrange(0, i as int)),
        decreases len - i,
    {
        let c = s.get_char(i);
        let u = c as u32;
        if u < 48 || u > 57 {
            assert(!is_digit(s@[i as int]));
            return None;
        }
        proof {
            assert(s@.subrange(0, i + 1).drop_last() =~= s@.subrange(0, i as int));
            assert(s@.subrange(0, i + 1).last() == s@[i as int]);
        }
        val = val * 10 + (u - 48);
        if val > max {
            proof {
                if all_digits(s@) {
                    lemma_dec_val_prefix_le(s@, i as int + 1);
                }
            }
            return None;
        }
        i += 1;
    }
    proof {
        assert(s@.subrange(0, len as int) =~= s@);
    }
    Some(val)
}

/// The IPv4 address a dotted-decimal text denotes, in the strict form the
/// standard parser accepts: four octets, each a plain decimal up to 255
/// with no leading zero.
pub open spec fn ipv4_of(s: Seq<char>) -> Option<IpAddress> {
    match find_spec(s, '.') {
        None => None,
        Some(i1) => {
            let o1 = s.subrange(0, i1);
            let r1 = s.subrange(i1 + 1, s.len() as int);
            match find_spec(r1, '.') {
                None => None,
                Some(i2) => {
                    let o2 = r1.subrange(0, i2);
                    let r2 = r1.subrange(i2 + 1, r1.len() as int);
                    match find_spec(r2, '.') {
                        None => None,
                        Some(i3) => {
                            let o3 = r2.subrange(0, i3);
                            let o4 = r2.subrange(i3 + 1, r2.len() as int);
                            if valid_dec(o1, 255) && valid_dec(o2, 255) && valid_dec(o3, 255)
                                && valid_dec(o4, 255) {
                                Some(
                                    IpAddress::V4(
                                        dec_val(o1) as u8,
                                        dec_val(o2) as u8,
                                        dec_val(o3) as u8,
                                        dec_val(o4) as u8,
                                    ),
                                )
                            } else {
                                None
                            }
                        },
                    }
                },
            }
        },
    }
}

/// The socket address a literal `a.b.c.d:port` text denotes.
pub open spec fn ipv4_socket_of(s: Seq<char>) -> Option<SockAddr> {
    match find_spec(s, ':') {
        None => None,
        Some(ci) => {
            let addr = s.subrange(0, ci);
            let port = s.subrange(ci + 1, s.len() as int);
            match ipv4_of(addr) {
                None => None,
                Some(ip) => if valid_dec(port, 65535) {
                    Some(SockAddr { ip, port: dec_val(port) as u16 })
                } else {
                    None
                },
            }
        },
    }
}

pub(crate) fn parse_ipv4(s: &str) -> (r: Option<IpAddress>)
    ensures
        r == ipv4_of(s@),
        r matches Some(a) ==> a is V4,
{
    let len = s.unicode_len();
    let i1 = match find_char(s, '.') {
        Some(i) => i,
        None => {
            return None;
        },
    };
    let o1 = s.substring_char(0, i1);
    let r1 = s.substring_char(i1 + 1, len);
    let r1len = r1.unicode_len();
    let i2 = match find_char(r1, '.') {
        Some(i) => i,
        None => {
            return None;
        },
    };
    let o2 = r1.substring_char(0, i2);
    let r2 = r1.substring_char(i2 + 1, r1len);
    let r2len = r2.unicode_len();
    let i3 = match find_char(r2, '.') {
        Some(i) => i,
        None => {
            return None;
        },
    };
    let o3 = r2.substring_char(0, i3);
    let o4 = r2.substring_char(i3 + 1, r2len);
    let v1 = parse_dec(o1, 255);
    let v2 = parse_dec(o2, 255);
    let v3 = parse_dec(o3, 255);
    let v4 = parse_dec(o4, 255);
    match (v1, v2, v3, v4) {
        (Some(a), Some(b), Some(c), Some(d)) => Some(
            IpAddress::V4(a as u8, b as u8, c as u8, d as u8),
        ),
        _ => None,
    }
}

/// Parses a literal IPv4 socket address of the form `a.b.c.d:port`.
pub fn parse_ipv4_socket(s: &str) -> (r: Option<SockAddr>)
    ensures
        r == ipv4_socket_of(s@),
{
    let len = s.unicode_len();
    let ci = match find_char(s, ':') {
        Some(i) => i,
        None => {
            return None;
        },
    };
    let addr = s.substring_char(0, ci);
    let port = s.substring_char(ci + 1, len);
    let ip = match parse_ipv4(addr) {
        Some(ip) => ip,
        None => {
            return None;
        },
    };
    match parse_dec(port, 65535) {
        Some(p) => Some(SockAddr { ip, port: p as u16 }),
        None => None,
    }
}

/// The socket address a literal text denotes: the IPv4 dotted form, or the
/// bracketed IPv6 form.
pub open spec fn literal_socket_of(s: Seq<char>) -> Option<SockAddr> {
    match ipv4_socket_of(s) {
        Some(a) => Some(a),
        None => crate::ipv6::ipv6_socket_of(s),
    }
}

/// Parses a literal socket address, IPv4 or IPv6.
pub fn parse_socket_literal(s: &str) -> (r: Option<SockAddr>)
    ensures
        r == literal_socket_of(s@),
{
    match parse_ipv4_socket(s) {
        Some(a) => Some(a),
        None => crate::ipv6::parse_ipv6_socket(s),
    }
}

/// The relative form a forwarded request's target is rewritten to: its path
/// and query as received, or the root path when the request named none.
/// This is the only transformation the gateway applies to a request.
pub fn relative_target(path_and_query: Option<String>) -> (r: String)
    ensures
        r@ == (match path_and_query {
            Some(p) => p@,
            None => "/"@,
        }),
{
    match path_and_query {
        Some(p) => p,
        None => "/".to_owned(),
    }
}

/// The configured gateway target: a literal socket address, or a URL to be
/// resolved once per inbound connection.
#[derive(Debug)]
pub enum ParseSocketAddr {
    SocketAddr(SockAddr),
    Url(UrlParts),
}

impl Clone for ParseSocketAddr {
    fn clone(&self) -> (res: Self)
        ensures
            res == *self,
    {
        match self {
            ParseSocketAddr::SocketAddr(a) => ParseSocketAddr::SocketAddr(*a),
            ParseSocketAddr::Url(u) => ParseSocketAddr::Url(u.clone()),
        }
    }
}

impl ParseSocketAddr {
    /// Parses a target: a literal IPv4 or IPv6 socket address stands as it
    /// is; any other text must be a URL carrying a host and a port
    /// (explicit, or the scheme's well-known default).
    pub fn from_str(s: &str) -> (r: Result<ParseSocketAddr, ConfigError>)
        ensures
            (match literal_socket_of(s@) {
                Some(a) => r matches Ok(ParseSocketAddr::SocketAddr(sa)) && sa == a,
                None => match url_target_of(s@) {
                    Some((h, p)) => if h is Some && p is Some {
                        r matches Ok(ParseSocketAddr::Url(u)) && opt_string_view(u.host) == h
                            && u.port == p
                    } else {
                        r == Err::<ParseSocketAddr, ConfigError>(ConfigError::InvalidTarget)
                    },
                    None => r == Err::<ParseSocketAddr, ConfigError>(ConfigError::InvalidTarget),
                },
            }),
    {
        match parse_socket_literal(s) {
            Some(a) => Ok(ParseSocketAddr::SocketAddr(a)),
            None => match parse_target_url(s) {
                Some(p) => if p.host.is_some() && p.port.is_some() {
                    Ok(ParseSocketAddr::Url(p))
                } else {
                    Err(ConfigError::InvalidTarget)
                },
                None => Err(ConfigError::InvalidTarget),
            },
        }
    }

    /// The DNS question this target poses: nothing for a literal address;
    /// for a URL, the host to look up and the port to use, or the error when
    /// the URL carries no host or no port.
    pub fn lookup_host(&self) -> (r: Result<Option<(String, u16)>, AddressResolutionError>)
        ensures
            (match self {
                ParseSocketAddr::SocketAddr(_) => r == Ok::<
                    Option<(String, u16)>,
                    AddressResolutionError,
                >(None),
                ParseSocketAddr::Url(u) => match u.host {
                    None => r == Err::<Option<(String, u16)>, AddressResolutionError>(
                        AddressResolutionError::MissingHost,
                    ),
                    Some(h) => match u.port {
                        None => r == Err::<Option<(String, u16)>, AddressResolutionError>(
                            AddressResolutionError::MissingPort,
                        ),
                        Some(p) => r matches Ok(Some((rh, rp))) && rh@ == h@ && rp == p,
                    },
                },
            }),
    {
        match self {
            ParseSocketAddr::SocketAddr(_) => Ok(None),
            ParseSocketAddr::Url(u) => match &u.host {
                None => Err(AddressResolutionError::MissingHost),
                Some(h) => match u.port {
                    None => Err(AddressResolutionError::MissingPort),
                    Some(p) => Ok(Some((h.clone(), p))),
                },
            },
        }
    }

    /// Decides the concrete socket address: a literal target stands as it
    /// is; a URL target takes the outcome of the caller's DNS lookup for the
    /// host that `lookup_host` named, and the first returned address wins.
    /// A failed lookup, and a lookup never performed, count as resolution
    /// failures; an empty record set is reported apart.
    pub fn to_socket(&self, lookup: Option<Result<Vec<IpAddress>, ()>>) -> (r: Result<
        SockAddr,
        AddressResolutionError,
    >)
        ensures
            (match self {
                ParseSocketAddr::SocketAddr(a) => r == Ok::<SockAddr, AddressResolutionError>(*a),
                ParseSocketAddr::Url(u) => match u.host {
                    None => r == Err::<SockAddr, AddressResolutionError>(
                        AddressResolutionError::MissingHost,
                    ),
                    Some(_) => match u.port {
                        None => r == Err::<SockAddr, AddressResolutionError>(
                            AddressResolutionError::MissingPort,
                        ),
                        Some(p) => match lookup {
                            Some(Ok(ips)) => if ips@.len() == 0 {
                                r == Err::<SockAddr, AddressResolutionError>(
                                    AddressResolutionError::NoAddressRecords,
                                )
                            } else {
                                r == Ok::<SockAddr, AddressResolutionError>(
                                    SockAddr { ip: ips@[0], port: p },
                                )
                            },
                            _ => r == Err::<SockAddr, AddressResolutionError>(
                                AddressResolutionError::ResolutionFailed,
                            ),
                        },
                    },
                },
            }),
    {
        match self {
            ParseSocketAddr::SocketAddr(a) => Ok(*a),
            ParseSocketAddr::Url(u) => {
                if u.host.is_none() {
                    return Err(AddressResolutionError::MissingHost);
                }
                match u.port {
                    None => Err(AddressResolutionError::MissingPort),
                    Some(p) => match lookup {
                        Some(Ok(ips)) => if ips.len() == 0 {
                            Err(AddressResolutionError::NoAddressRecords)
                        } else {
                            Ok(SockAddr { ip: ips[0], port: p })
                        },
                        _ => Err(AddressResolutionError::ResolutionFailed),
                    },
                }
            },
        }
    }
}

} // verus!
