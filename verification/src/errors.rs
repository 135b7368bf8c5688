//! Error taxonomy: fatal configuration errors and per-connection
//! address-resolution errors.

use vstd::prelude::*;

verus! {

/// A startup-time configuration error; any of these is fatal before the
/// server starts listening.
#[derive(Clone, Copy, PartialEq, Eq, Structural, Debug)]
pub enum ConfigError {
    /// A header override that is not of the form `Key: Value`.
    MalformedHeader,
    /// A content-encoding name outside gzip/deflate/br/zstd.
    UnknownEncoding,
    /// A content-type name outside json/text/html.
    UnknownContentType,
    /// A gateway target that is neither a literal socket address nor a
    /// usable URL.
    InvalidTarget,
}

/// A per-connection failure while resolving the gateway target.
#[derive(Clone, Copy, PartialEq, Eq, Structural, Debug)]
pub enum AddressResolutionError {
    /// The target URL names no host.
    MissingHost,
    /// The target URL names no port and its scheme has no well-known
    /// default.
    MissingPort,
    /// The DNS lookup itself failed.
    ResolutionFailed,
    /// The DNS lookup succeeded but returned no address records.
    NoAddressRecords,
}

} // verus!
