use vstd::prelude::*;

verus! {

/// The ways a decode can fail. Every decode error is local to the frame
/// being parsed: the caller abandons the whole parse on any of these.
#[derive(Debug, Clone, Copy, PartialEq, Eq, Structural)]
pub enum EncodingError {
    /// The buffer is shorter than the field being read requires.
    Eof,
    /// String bytes are not valid UTF-8.
    Utf8,
    /// A varint's fifth byte still carries a continuation bit.
    VarIntTooLong,
    /// A decoded varint exceeds the 32-bit range.
    VarIntOverflow,
    /// A length field is negative or otherwise out of its domain.
    InvalidLength(i64),
}

} // verus!
