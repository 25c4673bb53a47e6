//! The padding-aware Z85 codec: pad a byte buffer with zero bytes to a
//! multiple of 4, encode it, and record the pad count after a colon; on
//! decode, split at the last colon, decode the payload, and strip exactly
//! that many trailing bytes.

use vstd::prelude::*;

use crate::alphabets::{z85_decode, z85_decode_of, z85_encode, z85_of};
use crate::errors::ConvertError;
use crate::strutil::{
    digits_val, last_index_of, lemma_last_index_of, parse_usize_digits, rfind_char,
    spec_parse_usize,
};

verus! {

/// How many zero bytes a buffer of length `n` needs to reach a multiple of 4.
pub open spec fn pad_len(n: nat) -> nat {
    ((4 - n % 4) % 4) as nat
}

/// `b` with its zero padding appended.
pub open spec fn zero_pad(b: Seq<u8>) -> Seq<u8> {
    b + Seq::new(pad_len(b.len()), |i: int| 0u8)
}

/// The single decimal digit that writes a pad count below 4.
pub open spec fn pad_digit(p: nat) -> char {
    if p == 0 {
        '0'
    } else if p == 1 {
        '1'
    } else if p == 2 {
        '2'
    } else {
        '3'
    }
}

/// The pad count is always in `[0, 4)` and equals `(4 - n % 4) % 4`; a length
/// already a multiple of 4 needs no padding, and padding always completes a
/// multiple of 4.
pub proof fn lemma_pad_len(n: nat)
    ensures
        pad_len(n) < 4,
        pad_len(n) == (4 - n % 4) % 4,
        n % 4 == 0 ==> pad_len(n) == 0,
        (n + pad_len(n)) % 4 == 0,
{
}

/// The full encoded form of `b`: the Z85 text of the padded buffer, a colon,
/// and the pad count's digit.
pub open spec fn spec_encode_z85(b: Seq<u8>) -> Seq<char> {
    z85_of(zero_pad(b)).push(':').push(pad_digit(pad_len(b.len())))
}

/// What decoding the text `s` yields: the text is split at its last colon,
/// the part after the colon must be an unsigned decimal pad count, the part
/// before it must decode as Z85, and the pad count, which may not exceed the
/// decoded length, is stripped from the end.
pub open spec fn spec_decode_z85(s: Seq<char>) -> Result<Seq<u8>, ConvertError> {
    let c = last_index_of(s, ':');
    if c < 0 {
        Err(ConvertError::MissingPadDelimiter)
    } else {
        let pad_txt = s.subrange(c + 1, s.len() as int);
        let payload = s.subrange(0, c);
        match spec_parse_usize(pad_txt) {
            None => Err(ConvertError::InvalidPadding),
            Some(pad) => match z85_decode_of(payload) {
                None => Err(ConvertError::Z85Decode),
                Some(bytes) => if pad > bytes.len() {
                    Err(ConvertError::InvalidPadding)
                } else {
                    Ok(bytes.take(bytes.len() - pad))
                },
            },
        }
    }
}

/// The shape of an encoded text: its last colon sits just before the final
/// digit, the payload before the colon is the Z85 text of the padded buffer,
/// and the digit parses back to the pad count.
proof fn lemma_encoding_shape(b: Seq<u8>, s: Seq<char>)
    requires
        s == spec_encode_z85(b),
    ensures
        s.len() == z85_of(zero_pad(b)).len() + 2,
        last_index_of(s, ':') == s.len() - 2,
        s.subrange(0, s.len() - 2) == z85_of(zero_pad(b)),
        spec_parse_usize(s.subrange(s.len() - 1, s.len() as int)) == Some(
            pad_len(b.len()) as usize,
        ),
{
    lemma_pad_len(b.len());
    let zof = z85_of(zero_pad(b));
    let d = pad_digit(pad_len(b.len()));
    assert(s[s.len() - 2] == ':');
    assert(s[s.len() - 1] == d);
    assert(d != ':');
    lemma_last_index_of(s, ':');
    let r = last_index_of(s, ':');
    assert(r >= s.len() - 2);
    assert(r < s.len() - 1);
    assert(s.subrange(0, s.len() - 2) =~= zof);
    let pad_txt = s.subrange(s.len() - 1, s.len() as int);
    assert(pad_txt =~= seq![d]);
    assert(pad_txt.last() == d);
    assert(pad_txt.drop_last().len() == 0);
    assert(digits_val(pad_txt.drop_last()) == 0);
    assert(digits_val(pad_txt) == digits_val(pad_txt.drop_last()) * 10 + (pad_txt.last() as u32
        - 48) as nat);
    assert(digits_val(pad_txt) == pad_len(b.len()));
}

/// Encode a byte buffer as Z85 text with its pad count appended: pad with
/// zero bytes to a multiple of 4, encode, and append `:<pad>`. Every buffer
/// is encodable; this never fails. The length bound only keeps the padded
/// and re-encoded sizes within `usize`.
pub fn encode_z85(data: &[u8]) -> (r: String)
    requires
        data@.len() <= usize::MAX / 4,
    ensures
        r@ == spec_encode_z85(data@),
{
    let mut buf: Vec<u8> = vstd::slice::slice_to_vec(data);
    let pad: usize = (4 - buf.len() % 4) % 4;
    proof {
        lemma_pad_len(data@.len());
    }
    let mut k: usize = 0;
    while k < pad
        invariant
            k <= pad,
            pad == pad_len(data@.len()),
            buf@ == data@ + Seq::new(k as nat, |i: int| 0u8),
        decreases pad - k,
    {
        buf.push(0u8);
        proof {
            assert(data@ + Seq::new((k + 1) as nat, |i: int| 0u8) =~= (data@ + Seq::new(
                k as nat,
                |i: int| 0u8,
            )).push(0u8));
        }
        k = k + 1;
    }
    proof {
        assert(buf@ =~= zero_pad(data@));
    }
    let text = z85_encode(&buf);
    let mut out = text;
    out.append(":");
    proof {
        reveal_strlit(":");
        assert(":"@ =~= seq![':']);
    }
    match pad {
        0 => {
            out.append("0");
            proof {
                reveal_strlit("0");
                assert("0"@ =~= seq!['0']);
                assert(out@ =~= spec_encode_z85(data@));
            }
        },
        1 => {
            out.append("1");
            proof {
                reveal_strlit("1");
                assert("1"@ =~= seq!['1']);
                assert(out@ =~= spec_encode_z85(data@));
            }
        },
        2 => {
            out.append("2");
            proof {
                reveal_strlit("2");
                assert("2"@ =~= seq!['2']);
                assert(out@ =~= spec_encode_z85(data@));
            }
        },
        _ => {
            out.append("3");
            proof {
                reveal_strlit("3");
                assert("3"@ =~= seq!['3']);
                assert(out@ =~= spec_encode_z85(data@));
            }
        },
    }
    out
}

/// Decode Z85 text with a pad count back to the original bytes.
///
/// The second clause is the round-trip law: on `encode_z85`'s output for any
/// byte buffer, including the empty one, decoding returns exactly that
/// buffer.
pub fn decode_z85(s: &str) -> (r: Result<Vec<u8>, ConvertError>)
    ensures
        match spec_decode_z85(s@) {
            Ok(b) => r matches Ok(v) && v@ == b && v@.len() <= s@.len(),
            Err(e) => r matches Err(e2) && e2 == e,
        },
        forall|b: Seq<u8>| s@ == spec_encode_z85(b) ==> (r matches Ok(v) && v@ == b),
{
    let n = s.unicode_len();
    match rfind_char(s, ':') {
        None => {
            proof {
                assert forall|b: Seq<u8>| s@ != spec_encode_z85(b) by {
                    if s@ == spec_encode_z85(b) {
                        lemma_encoding_shape(b, s@);
                    }
                }
            }
            Err(ConvertError::MissingPadDelimiter)
        },
        Some(c) => {
            let payload = s.substring_char(0, c);
            let pad_txt = s.substring_char(c + 1, n);
            match parse_usize_digits(pad_txt) {
                None => {
                    proof {
                        assert forall|b: Seq<u8>| s@ != spec_encode_z85(b) by {
                            if s@ == spec_encode_z85(b) {
                                lemma_encoding_shape(b, s@);
                            }
                        }
                    }
                    Err(ConvertError::InvalidPadding)
                },
                Some(pad) => {
                    match z85_decode(payload) {
                        Err(_) => {
                            proof {
                                assert forall|b: Seq<u8>| s@ != spec_encode_z85(b) by {
                                    if s@ == spec_encode_z85(b) {
                                        lemma_encoding_shape(b, s@);
                                        lemma_pad_len(b.len());
                                        assert(payload@ == z85_of(zero_pad(b)));
                                        assert(zero_pad(b).len() % 4 == 0);
                                    }
                                }
                            }
                            Err(ConvertError::Z85Decode)
                        },
                        Ok(mut v) => {
                            if pad > v.len() {
                                proof {
                                    assert forall|b: Seq<u8>| s@ != spec_encode_z85(b) by {
                                        if s@ == spec_encode_z85(b) {
                                            lemma_encoding_shape(b, s@);
                                            lemma_pad_len(b.len());
                                            assert(zero_pad(b).len() % 4 == 0);
                                            assert(v@ == zero_pad(b));
                                            assert(pad == pad_len(b.len()));
                                        }
                                    }
                                }
                                Err(ConvertError::InvalidPadding)
                            } else {
                                let keep = v.len() - pad;
                                v.truncate(keep);
                                proof {
                                    assert forall|b: Seq<u8>|
                                        s@ == spec_encode_z85(b) implies v@ == b by {
                                        lemma_encoding_shape(b, s@);
                                        lemma_pad_len(b.len());
                                        assert(zero_pad(b).len() % 4 == 0);
                                        assert(pad == pad_len(b.len()));
                                        assert(v@ =~= b);
                                    }
                                }
                                Ok(v)
                            }
                        },
                    }
                },
            }
        },
    }
}

} // verus!
