//! The two bare conversions: Z85 text with a pad count to Base64 text, and
//! Base64 text to Z85 text with a pad count.

use vstd::prelude::*;

use crate::alphabets::{base64_decode, base64_decode_of, base64_encode, base64_of};
use crate::codec::{decode_z85, encode_z85, spec_decode_z85, spec_encode_z85};
use crate::errors::ConvertError;

verus! {

/// What converting Z85 text with a pad count to Base64 yields: the bytes the
/// padding-aware Z85 decode restores, re-encoded as Base64.
pub open spec fn spec_z85_to_base64(s: Seq<char>) -> Result<Seq<char>, ConvertError> {
    match spec_decode_z85(s) {
        Ok(b) => Ok(base64_of(b)),
        Err(e) => Err(e),
    }
}

/// What converting Base64 text to Z85 with a pad count yields: the bytes the
/// Base64 decoder restores, run through the padding-aware Z85 encode.
pub open spec fn spec_base64_to_z85(s: Seq<char>) -> Result<Seq<char>, ConvertError> {
    match base64_decode_of(s) {
        Some(b) => Ok(spec_encode_z85(b)),
        None => Err(ConvertError::Base64Decode),
    }
}

/// Convert Z85 text with a pad count (`<z85>:<pad>`) to Base64 text. The
/// length bound only keeps the re-encoded size within `usize`.
///
/// The second clause composes with `base64_to_z85`: on that function's output
/// for any Base64 text of some byte buffer, this returns exactly that Base64
/// text again, so converting back and forth is the identity.
pub fn z85_to_base64(z85_data_with_padding: &str) -> (r: Result<String, ConvertError>)
    requires
        z85_data_with_padding@.len() <= usize::MAX / 4,
    ensures
        match spec_z85_to_base64(z85_data_with_padding@) {
            Ok(t) => r matches Ok(x) && x@ == t,
            Err(e) => r matches Err(e2) && e2 == e,
        },
        forall|b: Seq<u8>|
            z85_data_with_padding@ == spec_encode_z85(b) ==> (r matches Ok(x) && x@ == base64_of(
                b,
            )),
{
    match decode_z85(z85_data_with_padding) {
        Ok(bytes) => {
            let out = base64_encode(&bytes);
            Ok(out)
        },
        Err(e) => Err(e),
    }
}

/// Convert Base64 text to Z85 text with a pad count (`<z85>:<pad>`). The
/// length bound only keeps the re-encoded size within `usize`.
///
/// The second clause is the cross-codec guarantee: on the Base64 text of any
/// byte buffer, the result is exactly the padding-aware Z85 encoding of that
/// buffer.
pub fn base64_to_z85(base64_data: &str) -> (r: Result<String, ConvertError>)
    requires
        base64_data@.len() <= usize::MAX / 4,
    ensures
        match spec_base64_to_z85(base64_data@) {
            Ok(t) => r matches Ok(x) && x@ == t,
            Err(e) => r matches Err(e2) && e2 == e,
        },
        forall|b: Seq<u8>|
            base64_data@ == base64_of(b) ==> (r matches Ok(x) && x@ == spec_encode_z85(b)),
{
    match base64_decode(base64_data) {
        Ok(bytes) => {
            let out = encode_z85(bytes.as_slice());
            Ok(out)
        },
        Err(_) => Err(ConvertError::Base64Decode),
    }
}

} // verus!
