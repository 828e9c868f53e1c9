//! Hexadecimal text for binary identifiers: digests, payment identifiers and
//! raw byte buffers, emitted in lowercase and parsed in either case.
pub mod hex_text;
pub mod identifier;
pub mod hash_string;

pub use hash_string::HashString;
pub use identifier::{Digest, HashType, ParseError, PaymentId};
