use vstd::prelude::*;

verus! {

/// The one kind of failure that a fallible operation reports.
#[derive(Debug, Clone, Copy, PartialEq, Eq, Structural)]
pub enum HResultError {
    /// A malformed shape, flag set or size.
    InvalidArgument,
    /// The requested storage is larger than an allocation can be.
    OutOfMemory,
    /// A pitch or size does not fit in `usize`.
    ArithmeticOverflow,
    /// Source views disagree in format or dimensions.
    FormatMismatch,
    /// The format has no defined geometry or mapping.
    UnsupportedFormat,
    /// A header is truncated, has a bad signature or a malformed grammar.
    ParseError,
}

} // verus!
