use vstd::prelude::*;

verus! {

/// Why a chain could not be decoded or encoded.
#[derive(Clone, Copy, Debug, PartialEq, Eq, Structural)]
pub enum CodecError {
    /// A record does not lie within the buffer: fewer than two bytes remain
    /// where a length prefix is expected, or the prefix announces more bytes
    /// than the buffer holds, or fewer than the prefix itself takes.
    TruncatedRecord,
    /// A segment is longer than a 16-bit length prefix can announce.
    SegmentTooLarge,
    /// No buffer of the encoded size could be had.
    OutOfMemory,
}

} // verus!
