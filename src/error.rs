//! Error types shared by the decoders and encoders.

use vstd::prelude::*;

verus! {

/// Why a run of bytes could not be decoded.
#[derive(Debug, Clone, Copy, PartialEq, Eq, Structural)]
pub enum DecodeError {
    /// The buffer ended before the value did.
    TruncatedInput,
    /// A value-length byte above 31.
    ReservedLengthByte,
    /// A byte that cannot start the value being read.
    InvalidLeadByte,
    /// Text that is not valid UTF-8.
    Utf8DecodeError,
    /// A token byte outside the values the field admits.
    UnexpectedToken,
    /// A multipart entry that reaches past its buffer.
    MultipartBoundsError,
    /// An integer that does not fit in 64 bits.
    IntegerOverflow,
    /// A character set id outside the well-known table.
    CharsetNotRecognized,
    /// A content-type parameter with an id that has no decoder.
    UnknownParameter,
    /// Bytes left over where a value should have used the whole field.
    TrailingBytes,
}

/// The header an error is about: an MMS header, or a WAP header by its
/// seven-bit code.
#[derive(Debug, Clone, Copy, PartialEq, Eq, Structural)]
pub enum HeaderIdentity {
    Mms(crate::mms_header::MmsHeader),
    Wap(u8),
}

/// Why a value could not be encoded.
#[derive(Debug, Clone, Copy, PartialEq, Eq, Structural)]
pub enum EncodeError {
    /// A number too large for the form it must take.
    TooLarge,
    /// A header value whose kind does not fit the header.
    TypeMismatch(crate::mms_header::MmsHeader),
    /// A header that this library has no encoder for.
    UnimplementedEncoder(HeaderIdentity),
    /// An explicit Content-Type header beside the one computed from the body.
    DuplicateContentType,
    /// A charset parameter that names no well-known character set.
    CharsetNotRecognized,
    /// A content-type parameter with no binary form.
    UnsupportedParameter,
    /// A multipart body with no items.
    EmptyMultipart,
}

} // verus!
