//! The failure taxonomy shared by every decoder of the crate.

use vstd::prelude::*;

verus! {

/// Why a decode call failed.  Failures are returned as values, never raised:
/// a decoder either produces its record or one of these.
#[derive(Clone, Copy, Debug, PartialEq, Eq, Structural)]
pub enum ParseError {
    /// The line is shorter than the minimum length of the detected or
    /// attempted record kind.
    LineTooShort,
    /// A fixed-width slice that must be decimal digits holds a non-digit.
    MalformedNumericField,
    /// A delegated date, time or position parse failed.
    MalformedPrimitive,
    /// A decoder was handed a line whose first character is not the tag it
    /// decodes.  The dispatcher establishes each decoder's tag precondition,
    /// which is checked statically, so no function of this crate returns it;
    /// it remains for callers that drive a decoder directly.
    UnexpectedLeadingTag,
}

} // verus!
