//! Shared building blocks: the failure taxonomy, fixed-width decimal fields,
//! and the primitive date / time / position parsers.

pub mod coord;
pub mod datetime;
pub mod digits;
pub mod parse_error;

pub use coord::{Compass, RawCoord, RawPosition};
pub use datetime::{Date, Time};
pub use parse_error::ParseError;
