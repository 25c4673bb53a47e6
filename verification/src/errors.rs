//! The error taxonomy of the conversion functions. Every error is terminal
//! for its call; nothing is retried or swallowed.

use vstd::prelude::*;

verus! {

/// Why a conversion or a decode was rejected.
#[derive(Clone, Copy, Debug, PartialEq, Eq, Structural)]
pub enum ConvertError {
    /// A bare Z85 input carries no colon, so it holds no pad count.
    MissingPadDelimiter,
    /// The text after the last colon is not an unsigned decimal integer, or
    /// names more pad bytes than the payload decodes to.
    InvalidPadding,
    /// The Z85 decoder rejected the payload.
    Z85Decode,
    /// The Base64 decoder rejected the payload.
    Base64Decode,
    /// A data-URL input does not begin with `data:`.
    NotDataUrl,
    /// A data-URL input does not contain the `;z85,` marker.
    MissingZ85Marker,
    /// A data-URL input does not contain the `;base64,` marker.
    MissingBase64Marker,
    /// A bare input cannot be re-wrapped as a data URL: no MIME type is known.
    UnsupportedDirection,
}

impl ConvertError {
    /// A description of the error, one fixed line per variant.
    pub fn message(&self) -> (r: String)
        ensures
            *self is MissingPadDelimiter ==> r@ == "Invalid format: expected 'z85_data:padding'"@,
            *self is InvalidPadding ==> r@ == "Invalid padding number"@,
            *self is Z85Decode ==> r@ == "Z85 decode error"@,
            *self is Base64Decode ==> r@ == "Base64 decode error"@,
            *self is NotDataUrl ==> r@ == "Invalid data URL format"@,
            *self is MissingZ85Marker ==> r@ == "Data URL does not contain ;z85, marker"@,
            *self is MissingBase64Marker ==> r@ == "Data URL does not contain ;base64, marker"@,
            *self is UnsupportedDirection ==> r@
                == "Cannot convert raw to data URL: MIME type unknown"@,
    {
        match self {
            ConvertError::MissingPadDelimiter => String::from_str(
                "Invalid format: expected 'z85_data:padding'",
            ),
            ConvertError::InvalidPadding => String::from_str("Invalid padding number"),
            ConvertError::Z85Decode => String::from_str("Z85 decode error"),
            ConvertError::Base64Decode => String::from_str("Base64 decode error"),
            ConvertError::NotDataUrl => String::from_str("Invalid data URL format"),
            ConvertError::MissingZ85Marker => String::from_str(
                "Data URL does not contain ;z85, marker",
            ),
            ConvertError::MissingBase64Marker => String::from_str(
                "Data URL does not contain ;base64, marker",
            ),
            ConvertError::UnsupportedDirection => String::from_str(
                "Cannot convert raw to data URL: MIME type unknown",
            ),
        }
    }
}

} // verus!
