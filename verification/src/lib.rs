//! 128-bit universally unique identifiers in the RFC 4122 layout.
//!
//! An identifier is sixteen bytes. It is made from nothing ([`UUID::null`]),
//! from bytes ([`UUID::from_bytes`]), from text ([`UUID::from_string`]) or at
//! random ([`UUID::random`]), and it is never changed afterwards. It can be
//! written as canonical text in lower or upper case, and its version and
//! variant fields can be read.
//!
//! The functions are verified against contracts over the bytes of the
//! identifier and the characters of the text; that written text is read back
//! as the same identifier is proved in [`round_trip`]. One thing is taken on
//! trust: the source of random bytes in [`generator`], of which nothing is
//! claimed.

pub mod formatter;
pub mod generator;
pub mod hex;
pub mod parser;
pub mod round_trip;
pub mod value;

pub use value::Variant;
pub use value::UUID;
