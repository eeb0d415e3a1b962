//! Decoder for lines of a line-oriented flight-recorder log format.
//!
//! Each line begins with a one-character record-kind tag; the remainder is a
//! sequence of fixed-width fields whose layout depends on the tag.  The crate
//! offers the per-kind field decoders, the top-level dispatcher that routes a
//! line to the right decoder, and the decoder/encoder for extension-definition
//! records that describe variable-width trailer fields.

pub mod records;
pub mod util;
