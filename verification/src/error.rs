use vstd::prelude::*;

verus! {

/// Everything that can go wrong while decoding one SHC payload, one variant
/// per pipeline stage.
#[derive(Clone, Copy, Debug, PartialEq, Eq, Structural)]
pub enum DecodeError {
    /// The token has no `/` separator, or the digit-pair payload has an odd
    /// number of characters.
    MalformedToken,
    /// A digit-pair chunk holds a character that is not an ASCII digit.
    InvalidDigitPair,
    /// A digit pair maps outside the valid Unicode scalar range.
    InvalidCharCode,
    /// The recovered JWT has no `.` separator, so no payload segment exists.
    MalformedJWT,
    /// The payload segment is not valid base64 in the URL-safe, unpadded
    /// alphabet.
    Base64DecodeError,
    /// The base64-decoded bytes are not a valid raw deflate stream.
    InflateError,
    /// A byte sequence that should be text is not valid UTF-8.
    Utf8DecodeError,
    /// The JSON text is malformed, or a required field is missing or has the
    /// wrong JSON type.
    SchemaViolation,
    /// A bundle entry's `resourceType` tag is neither `Patient` nor
    /// `Immunization`.
    UnknownResourceType,
    /// A `Patient` resource has an empty `name` sequence.
    MissingName,
    /// An `Immunization` resource has an empty `performer` sequence.
    MissingPerformer,
}

} // verus!
