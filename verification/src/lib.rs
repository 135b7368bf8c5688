//! A configurable HTTP endpoint library: request inspection, scripted
//! responses with header precedence rules, content-encoding codecs, and
//! target-address resolution for a transparent-forwarding mode.

pub mod codec;
pub mod config;
pub mod errors;
pub mod inspect;
pub mod ipv6;
pub mod resolver;
pub mod response;
pub mod text;
