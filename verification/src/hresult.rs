use crate::error::CodecError;
use vstd::prelude::*;

verus! {

/// A status code in the host's 32-bit convention: negative values are
/// failures, non-negative ones successes.
#[allow(clippy::upper_case_acronyms)]
#[derive(Clone, Copy, Debug, PartialEq, Eq, Structural)]
pub struct HRESULT(pub i32);

/// Code of success.
pub const S_OK: i32 = 0;

/// Code of a success with a negative answer: nothing more to hand out,
/// nothing stored.
pub const S_FALSE: i32 = 1;

/// Code of an unspecified failure.
pub const E_FAIL: i32 = -2147467259;

/// Code of a failure over an argument that is not valid.
pub const E_INVALIDARG: i32 = -2147024809;

/// Code of a failed allocation.
pub const E_OUTOFMEMORY: i32 = -2147024882;

impl HRESULT {
    /// Whether the code reports success, that is, whether it is not negative.
    pub fn is_ok(&self) -> (r: bool)
        ensures
            r == (self.0 >= 0),
    {
        self.0 >= 0
    }

    /// The comparison status for an order of -1, 0 or 1: the order as a signed
    /// 16-bit number in the low half of the code, the high half zero. The host
    /// reads the low half back as a signed short.
    pub open spec fn of_order(order: int) -> HRESULT {
        if order < 0 {
            HRESULT((65536 + order) as i32)
        } else {
            HRESULT(order as i32)
        }
    }

    /// Embeds the result of a comparison in a success status: 0xFFFF for -1,
    /// 0 for 0, 1 for 1.
    pub fn from_order(order: i16) -> (r: HRESULT)
        ensures
            r == HRESULT::of_order(order as int),
            r.0 >= 0,
            r.0 % 65536 == (if order < 0 {
                65536 + order
            } else {
                order as int
            }),
    {
        if order < 0 {
            HRESULT(65536 + (order as i32))
        } else {
            HRESULT(order as i32)
        }
    }

    /// The status that reports a failed decode or encode to the host.
    pub open spec fn of_error(e: CodecError) -> HRESULT {
        match e {
            CodecError::TruncatedRecord => HRESULT(E_INVALIDARG),
            CodecError::SegmentTooLarge => HRESULT(E_INVALIDARG),
            CodecError::OutOfMemory => HRESULT(E_OUTOFMEMORY),
        }
    }

    /// Maps a codec error to the status reported to the host: malformed or
    /// unrepresentable input is an invalid argument, a failed allocation is
    /// out of memory.
    pub fn from_error(e: CodecError) -> (r: HRESULT)
        ensures
            r == HRESULT::of_error(e),
    {
        match e {
            CodecError::TruncatedRecord => HRESULT(E_INVALIDARG),
            CodecError::SegmentTooLarge => HRESULT(E_INVALIDARG),
            CodecError::OutOfMemory => HRESULT(E_OUTOFMEMORY),
        }
    }
}

} // verus!
