//! A framework for encoding and decoding ASN.1 values, with one codec for the
//! XML encoding rules.

pub mod de;
pub mod enc;
pub mod error;
pub mod integer;
pub mod types;
pub mod xer;
