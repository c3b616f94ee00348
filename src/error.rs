use vstd::prelude::*;

verus! {

/// Everything that can go wrong below the parser: positional misuse, span algebra that would
/// break a span's shape, malformed UTF-8, and a buffer that does not yet hold enough bytes.
#[derive(Debug, Clone, PartialEq, Eq)]
pub enum AlliumError {
    /// A position that is not inside the source: (position, path, length).
    InvalidPosition(usize, String, usize),
    /// Two cursors of different sources: (path of the first, path of the second).
    SpanMismatch(String, String),
    /// A span whose end does not lie after its start: (start, end).
    SpanSize(usize, usize),
    NegativeLengthSpan,
    ZeroLengthSpan,
    DiscontinuousSpans,
    BadBlockMatch,
    ZeroLengthMatch,
    BlockPatternLengthMismatch,
    BlockPatternEquivalency,
    SeekOverflow,
    NoAtom,
    Other(String),
    Eof,
    /// The byte at this offset cannot start a UTF-8 sequence.
    InvalidStartByte(usize),
    /// The stream ended inside the sequence that starts at this offset.
    TruncatedSequence(usize),
    /// The sequence that starts at this offset holds a byte that is not a continuation byte.
    BadContinuationByte(usize),
    /// The sequence that starts at this offset encodes a surrogate code point.
    SurrogateCodepoint(usize),
    /// The sequence that starts at this offset encodes a value above U+10FFFF.
    CodepointOutOfRange(usize),
    /// A cursor was handed to a file it does not belong to.
    ForeignCursor,
    /// The buffer must hold at least this many bytes before the request can be answered; the
    /// stream has not said yet whether it will.
    Pending(usize),
}

} // verus!
