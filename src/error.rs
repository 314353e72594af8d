use vstd::prelude::*;

verus! {

/// Why a message could not be decoded.  Decoding is all or nothing: any of
/// these ends the decoding of the whole message.
#[derive(Debug, Clone, Copy, PartialEq, Eq, Structural)]
pub enum Error {
    /// The buffer ended before a field that the message requires.
    Eof,
    /// A string field does not hold valid UTF-8.
    InvalidStr,
    /// The leading byte names no known response type.
    InvalidPacketType(u8),
    /// The status integer is not one that a server may send: either it is
    /// unassigned, or it is one of the two pseudo-errors that only a client
    /// may synthesise locally.
    InvalidStatusCode(u32),
    /// A list of strings would hold more than `u32::MAX` strings or more
    /// than `u32::MAX` bytes in total.
    TooLong,
}

} // verus!
