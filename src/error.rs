use vstd::prelude::*;

verus! {

/// Every failure the engine reports.
#[derive(Debug, Clone, Copy, PartialEq, Eq, Structural)]
pub enum DanmukuError {
    /// A command body was not well-formed JSON.
    ParseError,
    /// Fewer than sixteen bytes were left where a frame header was expected.
    TruncatedHeader,
    /// A frame header announced lengths that do not fit the buffer.
    InvalidFrameLength,
    /// A compressed batch could not be inflated.
    DecompressionError,
    /// Compressed batches were nested deeper than the engine follows.
    NestingTooDeep,
    /// A recognised command lacked a field it needs, or held one of the wrong type.
    MalformedCommand,
    /// A frame body too large for the signed 32-bit length field.
    TooBigPkg,
    /// The transport could not be opened or the join frame not sent.
    ConnectError,
    /// The transport failed while the session was running.
    TransportError,
    /// An internal step failed (an address that would not parse, a payload that would not serialise).
    InternalError,
}

} // verus!
