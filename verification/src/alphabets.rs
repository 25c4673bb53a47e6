//! The two binary-to-text alphabets, reached through trusted wrappers.
//!
//! What `z85::encode` and the Base64 standard engine produce is named by the
//! uninterpreted functions `z85_of` and `base64_of`; what their decoders
//! yield is named by `z85_decode_of` and `base64_decode_of`. The wrappers
//! also state that each decoder inverts its encoder: `z85::decode` maps every
//! 5-character group bijectively back to a 4-byte group, and the standard
//! Base64 engine requires canonical padding with no trailing bits, so on an
//! encoder's output each decoder returns exactly the encoded bytes.

use vstd::prelude::*;

verus! {

/// The Z85 text that `z85::encode` produces for `b`, for `b.len()` a
/// multiple of 4 (5 characters per 4-byte group, no tail form).
pub uninterp spec fn z85_of(b: Seq<u8>) -> Seq<char>;

/// What `z85::decode` yields on the text `s`: the decoded bytes, or nothing
/// when it rejects `s`.
pub uninterp spec fn z85_decode_of(s: Seq<char>) -> Option<Seq<u8>>;

/// The Base64 text that the standard padded engine produces for `b`.
pub uninterp spec fn base64_of(b: Seq<u8>) -> Seq<char>;

/// What the standard padded Base64 engine yields on the text `s`: the decoded
/// bytes, or nothing when it rejects `s`.
pub uninterp spec fn base64_decode_of(s: Seq<char>) -> Option<Seq<u8>>;

#[verifier::external_type_specification]
#[verifier::external_body]
pub struct ExZ85DecodeError(z85::DecodeError);

#[verifier::external_type_specification]
#[verifier::external_body]
pub struct ExBase64DecodeError(base64::DecodeError);

/// Relies on `z85::encode`: a pure function of the input bytes that maps each
/// 4-byte group to 5 characters of the Z85 alphabet. Its capacity arithmetic
/// (five output bytes per four input bytes) overflows for lengths near
/// `usize::MAX`, so those are excluded.
#[verifier::external_body]
pub(crate) fn z85_encode(data: &Vec<u8>) -> (r: String)
    requires
        data@.len() % 4 == 0,
        data@.len() <= usize::MAX / 2,
    ensures
        r@ == z85_of(data@),
{
    z85::encode(data)
}

/// Relies on `z85::decode`: a pure function of the input text. It accepts
/// only ASCII input and yields four bytes (or fewer, in the crate's tail
/// form) per five characters, so the output is never longer than the input.
/// On text that `z85::encode` produced for bytes of length a multiple of 4
/// it returns exactly those bytes: each 5-character group determines its
/// 4-byte group (values above `u32::MAX` are rejected), and such text never
/// begins a group with `#`, the only trigger of the shortened-tail form.
#[verifier::external_body]
pub(crate) fn z85_decode(s: &str) -> (r: Result<Vec<u8>, z85::DecodeError>)
    ensures
        (match r {
            Ok(v) => z85_decode_of(s@) == Some(v@) && v@.len() <= s@.len() && (forall|b: Seq<u8>|
                b.len() % 4 == 0 && s@ == z85_of(b) ==> v@ == b),
            Err(_) => z85_decode_of(s@) is None && (forall|b: Seq<u8>|
                b.len() % 4 == 0 ==> s@ != z85_of(b)),
        }),
{
    z85::decode(s)
}

/// Relies on `base64::engine::general_purpose::STANDARD.encode`: a pure
/// function of the input bytes, producing canonical padded Base64 text. Its
/// output-size calculation (four characters per three bytes) overflows for
/// lengths near `usize::MAX`, so those are excluded.
#[verifier::external_body]
pub(crate) fn base64_encode(data: &Vec<u8>) -> (r: String)
    requires
        data@.len() <= usize::MAX / 2,
    ensures
        r@ == base64_of(data@),
{
    base64::Engine::encode(&base64::engine::general_purpose::STANDARD, data)
}

/// Relies on `base64::engine::general_purpose::STANDARD.decode`: a pure
/// function of the input text. It accepts only ASCII input and yields three
/// bytes per four characters, so the output is never longer than the input.
/// The standard engine demands canonical padding and zero trailing bits, so
/// on text the engine itself encoded it returns exactly the encoded bytes.
#[verifier::external_body]
pub(crate) fn base64_decode(s: &str) -> (r: Result<Vec<u8>, base64::DecodeError>)
    ensures
        (match r {
            Ok(v) => base64_decode_of(s@) == Some(v@) && v@.len() <= s@.len() && (forall|
                b: Seq<u8>
            | s@ == base64_of(b) ==> v@ == b),
            Err(_) => base64_decode_of(s@) is None && (forall|b: Seq<u8>| s@ != base64_of(b)),
        }),
{
    base64::Engine::decode(&base64::engine::general_purpose::STANDARD, s)
}

} // verus!
