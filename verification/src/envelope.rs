//! The envelope resolver: run a conversion on a bare payload or on a
//! data-URL-wrapped one, honouring a requested (input kind, output kind)
//! pair, and re-wrap the result. A data URL reads
//! `data:<mime>;<encoding-tag>,<payload>`; the MIME type is carried over
//! verbatim, and the tag must match the conversion's source encoding.

use vstd::prelude::*;

use crate::convert::{
    base64_to_z85, spec_base64_to_z85, spec_z85_to_base64, z85_to_base64,
};
use crate::errors::ConvertError;
use crate::options::{ConversionOptions, DataType};
use crate::strutil::{find_first, first_match, has_match, has_prefix, lemma_first_match, match_at};

verus! {

/// The characters of the mandatory `data:` prefix.
pub open spec fn data_prefix() -> Seq<char> {
    seq!['d', 'a', 't', 'a', ':']
}

/// The characters of the `;z85,` encoding marker.
pub open spec fn marker_z85() -> Seq<char> {
    seq![';', 'z', '8', '5', ',']
}

/// The characters of the `;base64,` encoding marker.
pub open spec fn marker_base64() -> Seq<char> {
    seq![';', 'b', 'a', 's', 'e', '6', '4', ',']
}

/// `s` begins with `data:`.
pub open spec fn has_data_url_prefix(s: Seq<char>) -> bool {
    data_prefix().len() <= s.len() && s.subrange(0, 5) == data_prefix()
}

/// The (input kind, output kind) pair an options value requests; absent
/// options request the bare form on both sides.
pub open spec fn spec_direction(options: Option<ConversionOptions>) -> (DataType, DataType) {
    match options {
        Some(o) => (o.input, o.output),
        None => (DataType::Raw, DataType::Raw),
    }
}

/// What converting from Z85 to Base64 yields under each (input kind, output
/// kind) pair. A data-URL input must carry the `data:` prefix and the `;z85,`
/// marker; its MIME type is everything between the two, carried over
/// verbatim. A bare input cannot produce a data URL.
pub open spec fn spec_z85_to_base64_with_options(
    s: Seq<char>,
    input: DataType,
    output: DataType,
) -> Result<Seq<char>, ConvertError> {
    match (input, output) {
        (DataType::Raw, DataType::Raw) => spec_z85_to_base64(s),
        (DataType::DataURL, DataType::DataURL) => {
            if !has_data_url_prefix(s) {
                Err(ConvertError::NotDataUrl)
            } else {
                let i = first_match(s, marker_z85());
                if i < 0 {
                    Err(ConvertError::MissingZ85Marker)
                } else {
                    let mime = s.subrange(5, i);
                    match spec_z85_to_base64(s.subrange(i + 5, s.len() as int)) {
                        Ok(t) => Ok(data_prefix() + mime + marker_base64() + t),
                        Err(e) => Err(e),
                    }
                }
            }
        },
        (DataType::DataURL, DataType::Raw) => {
            if !has_data_url_prefix(s) {
                Err(ConvertError::NotDataUrl)
            } else {
                let i = first_match(s, marker_z85());
                if i < 0 {
                    Err(ConvertError::MissingZ85Marker)
                } else {
                    spec_z85_to_base64(s.subrange(i + 5, s.len() as int))
                }
            }
        },
        (DataType::Raw, DataType::DataURL) => Err(ConvertError::UnsupportedDirection),
    }
}

/// What converting from Base64 to Z85 yields under each (input kind, output
/// kind) pair; the mirror image of `spec_z85_to_base64_with_options` with the
/// `;base64,` marker expected on the input.
pub open spec fn spec_base64_to_z85_with_options(
    s: Seq<char>,
    input: DataType,
    output: DataType,
) -> Result<Seq<char>, ConvertError> {
    match (input, output) {
        (DataType::Raw, DataType::Raw) => spec_base64_to_z85(s),
        (DataType::DataURL, DataType::DataURL) => {
            if !has_data_url_prefix(s) {
                Err(ConvertError::NotDataUrl)
            } else {
                let i = first_match(s, marker_base64());
                if i < 0 {
                    Err(ConvertError::MissingBase64Marker)
                } else {
                    let mime = s.subrange(5, i);
                    match spec_base64_to_z85(s.subrange(i + 8, s.len() as int)) {
                        Ok(t) => Ok(data_prefix() + mime + marker_z85() + t),
                        Err(e) => Err(e),
                    }
                }
            }
        },
        (DataType::DataURL, DataType::Raw) => {
            if !has_data_url_prefix(s) {
                Err(ConvertError::NotDataUrl)
            } else {
                let i = first_match(s, marker_base64());
                if i < 0 {
                    Err(ConvertError::MissingBase64Marker)
                } else {
                    spec_base64_to_z85(s.subrange(i + 8, s.len() as int))
                }
            }
        },
        (DataType::Raw, DataType::DataURL) => Err(ConvertError::UnsupportedDirection),
    }
}

/// A marker match in a string with the `data:` prefix cannot start inside
/// that prefix, whose characters exclude the marker's leading semicolon.
proof fn lemma_marker_after_prefix(s: Seq<char>, marker: Seq<char>, i: int)
    requires
        has_data_url_prefix(s),
        marker.len() >= 1,
        marker[0] == ';',
        match_at(s, marker, i),
    ensures
        i >= 5,
{
    if i < 5 {
        assert(s[i] == s.subrange(0, 5)[i]);
        assert(s[i] == s.subrange(i, i + marker.len() as int)[0]);
    }
}

/// A marker that begins with `;` and has no further `;` cannot overlap
/// itself or the `data:` prefix, so in `data:<m><marker><p>` with no marker
/// occurrence inside the MIME type `m`, the first occurrence is exactly the
/// one written after `m`, whatever the payload `p` holds.
proof fn lemma_first_match_of_built(m: Seq<char>, marker: Seq<char>, p: Seq<char>)
    requires
        marker.len() >= 1,
        marker[0] == ';',
        forall|t: int| 1 <= t < marker.len() ==> marker[t] != ';',
        !has_match(m, marker),
    ensures
        has_data_url_prefix(data_prefix() + m + marker + p),
        first_match(data_prefix() + m + marker + p, marker) == 5 + m.len(),
        (data_prefix() + m + marker + p).subrange(5, 5 + m.len() as int) == m,
        (data_prefix() + m + marker + p).subrange(
            5 + m.len() + marker.len() as int,
            (data_prefix() + m + marker + p).len() as int,
        ) == p,
{
    let s = data_prefix() + m + marker + p;
    let ml = m.len() as int;
    let l = marker.len() as int;
    assert(s.subrange(0, 5) =~= data_prefix());
    assert(s.subrange(5 + ml, 5 + ml + l) =~= marker);
    assert(match_at(s, marker, 5 + ml));
    assert forall|j: int| 0 <= j < 5 + ml implies !match_at(s, marker, j) by {
        if match_at(s, marker, j) {
            if j < 5 {
                // the prefix holds no semicolon
                assert(s[j] == s.subrange(j, j + l)[0]);
                assert(s[j] == data_prefix()[j]);
            } else if j + l <= 5 + ml {
                // a full occurrence inside the MIME type
                assert(m.subrange(j - 5, j - 5 + l) =~= s.subrange(j, j + l));
                assert(match_at(m, marker, j - 5));
            } else {
                // an occurrence spanning the boundary would put the marker's
                // leading semicolon at a later marker position
                let t = 5 + ml - j;
                assert(s[j + t] == s.subrange(j, j + l)[t]);
                assert(s[j + t] == marker[t]);
                assert(s[5 + ml] == marker[0]);
            }
        }
    }
    lemma_first_match(s, marker);
    let fm = first_match(s, marker);
    assert(fm >= 0);
    assert(!(fm < 5 + ml));
    assert(!(fm > 5 + ml));
    assert(s.subrange(5, 5 + ml) =~= m);
    assert(s.subrange(5 + ml + l, s.len() as int) =~= p);
}

/// MIME preservation across a data-URL round trip: wrapping a payload `p` as
/// `data:<m>;base64,<p>` and converting it to the Z85 form, then converting
/// that back, carries the MIME type `m` over verbatim in both steps —
/// whatever the payload conversions themselves yield.
pub proof fn lemma_data_url_mime_round_trip(
    m: Seq<char>,
    p: Seq<char>,
    q: Seq<char>,
    p2: Seq<char>,
)
    requires
        !has_match(m, marker_base64()),
        !has_match(m, marker_z85()),
        spec_base64_to_z85(p) == Ok::<Seq<char>, ConvertError>(q),
        spec_z85_to_base64(q) == Ok::<Seq<char>, ConvertError>(p2),
    ensures
        spec_base64_to_z85_with_options(
            data_prefix() + m + marker_base64() + p,
            DataType::DataURL,
            DataType::DataURL,
        ) == Ok::<Seq<char>, ConvertError>(data_prefix() + m + marker_z85() + q),
        spec_z85_to_base64_with_options(
            data_prefix() + m + marker_z85() + q,
            DataType::DataURL,
            DataType::DataURL,
        ) == Ok::<Seq<char>, ConvertError>(data_prefix() + m + marker_base64() + p2),
{
    lemma_first_match_of_built(m, marker_base64(), p);
    lemma_first_match_of_built(m, marker_z85(), q);
}

/// A bare input can never produce a data URL: the (Raw, DataURL) direction
/// fails with `UnsupportedDirection`, for both conversions, on every input.
pub proof fn lemma_raw_to_data_url_always_fails(s: Seq<char>)
    ensures
        spec_z85_to_base64_with_options(s, DataType::Raw, DataType::DataURL) == Err::<
            Seq<char>,
            ConvertError,
        >(ConvertError::UnsupportedDirection),
        spec_base64_to_z85_with_options(s, DataType::Raw, DataType::DataURL) == Err::<
            Seq<char>,
            ConvertError,
        >(ConvertError::UnsupportedDirection),
{
}

/// A data URL without the `;z85,` marker fails the Z85-source conversion
/// with the marker-specific error, not the generic prefix error, for either
/// output kind.
pub proof fn lemma_z85_marker_required(s: Seq<char>, output: DataType)
    requires
        has_data_url_prefix(s),
        !has_match(s, marker_z85()),
    ensures
        spec_z85_to_base64_with_options(s, DataType::DataURL, output) == Err::<
            Seq<char>,
            ConvertError,
        >(ConvertError::MissingZ85Marker),
{
    lemma_first_match(s, marker_z85());
}

/// A data URL without the `;base64,` marker fails the Base64-source
/// conversion with the marker-specific error, not the generic prefix error,
/// for either output kind.
pub proof fn lemma_base64_marker_required(s: Seq<char>, output: DataType)
    requires
        has_data_url_prefix(s),
        !has_match(s, marker_base64()),
    ensures
        spec_base64_to_z85_with_options(s, DataType::DataURL, output) == Err::<
            Seq<char>,
            ConvertError,
        >(ConvertError::MissingBase64Marker),
{
    lemma_first_match(s, marker_base64());
}

/// Convert Z85 to Base64 under the requested envelope kinds; absent options
/// mean bare input and bare output. The length bound only keeps the
/// re-encoded size within `usize`.
pub fn z85_to_base64_with_options(data: &str, options: Option<ConversionOptions>) -> (r: Result<
    String,
    ConvertError,
>)
    requires
        data@.len() <= usize::MAX / 4,
    ensures
        match spec_z85_to_base64_with_options(
            data@,
            spec_direction(options).0,
            spec_direction(options).1,
        ) {
            Ok(t) => r matches Ok(x) && x@ == t,
            Err(e) => r matches Err(e2) && e2 == e,
        },
{
    let (input, output) = match options {
        Some(o) => (o.input, o.output),
        None => (DataType::Raw, DataType::Raw),
    };
    match (input, output) {
        (DataType::Raw, DataType::Raw) => z85_to_base64(data),
        (DataType::DataURL, DataType::DataURL) => {
            proof {
                reveal_strlit("data:");
                assert("data:"@ =~= data_prefix());
                reveal_strlit(";z85,");
                assert(";z85,"@ =~= marker_z85());
            }
            if !has_prefix(data, "data:") {
                return Err(ConvertError::NotDataUrl);
            }
            match find_first(data, ";z85,") {
                None => Err(ConvertError::MissingZ85Marker),
                Some(i) => {
                    proof {
                        lemma_first_match(data@, marker_z85());
                        lemma_marker_after_prefix(data@, marker_z85(), i as int);
                    }
                    let n = data.unicode_len();
                    let mime = data.substring_char(5, i);
                    let payload = data.substring_char(i + 5, n);
                    match z85_to_base64(payload) {
                        Err(e) => Err(e),
                        Ok(conv) => {
                            let mut out = String::from_str("data:");
                            out.append(mime);
                            out.append(";base64,");
                            out.append(conv.as_str());
                            proof {
                                reveal_strlit(";base64,");
                                assert(";base64,"@ =~= marker_base64());
                                assert(out@ =~= data_prefix() + data@.subrange(5, i as int)
                                    + marker_base64() + conv@);
                            }
                            Ok(out)
                        },
                    }
                },
            }
        },
        (DataType::DataURL, DataType::Raw) => {
            proof {
                reveal_strlit("data:");
                assert("data:"@ =~= data_prefix());
                reveal_strlit(";z85,");
                assert(";z85,"@ =~= marker_z85());
            }
            if !has_prefix(data, "data:") {
                return Err(ConvertError::NotDataUrl);
            }
            match find_first(data, ";z85,") {
                None => Err(ConvertError::MissingZ85Marker),
                Some(i) => {
                    let n = data.unicode_len();
                    let payload = data.substring_char(i + 5, n);
                    z85_to_base64(payload)
                },
            }
        },
        (DataType::Raw, DataType::DataURL) => Err(ConvertError::UnsupportedDirection),
    }
}

/// Convert Base64 to Z85 under the requested envelope kinds; absent options
/// mean bare input and bare output. The length bound only keeps the
/// re-encoded size within `usize`.
pub fn base64_to_z85_with_options(data: &str, options: Option<ConversionOptions>) -> (r: Result<
    String,
    ConvertError,
>)
    requires
        data@.len() <= usize::MAX / 4,
    ensures
        match spec_base64_to_z85_with_options(
            data@,
            spec_direction(options).0,
            spec_direction(options).1,
        ) {
            Ok(t) => r matches Ok(x) && x@ == t,
            Err(e) => r matches Err(e2) && e2 == e,
        },
{
    let (input, output) = match options {
        Some(o) => (o.input, o.output),
        None => (DataType::Raw, DataType::Raw),
    };
    match (input, output) {
        (DataType::Raw, DataType::Raw) => base64_to_z85(data),
        (DataType::DataURL, DataType::DataURL) => {
            proof {
                reveal_strlit("data:");
                assert("data:"@ =~= data_prefix());
                reveal_strlit(";base64,");
                assert(";base64,"@ =~= marker_base64());
            }
            if !has_prefix(data, "data:") {
                return Err(ConvertError::NotDataUrl);
            }
            match find_first(data, ";base64,") {
                None => Err(ConvertError::MissingBase64Marker),
                Some(i) => {
                    proof {
                        lemma_first_match(data@, marker_base64());
                        lemma_marker_after_prefix(data@, marker_base64(), i as int);
                    }
                    let n = data.unicode_len();
                    let mime = data.substring_char(5, i);
                    let payload = data.substring_char(i + 8, n);
                    match base64_to_z85(payload) {
                        Err(e) => Err(e),
                        Ok(conv) => {
                            let mut out = String::from_str("data:");
                            out.append(mime);
                            out.append(";z85,");
                            out.append(conv.as_str());
                            proof {
                                reveal_strlit(";z85,");
                                assert(";z85,"@ =~= marker_z85());
                                assert(out@ =~= data_prefix() + data@.subrange(5, i as int)
                                    + marker_z85() + conv@);
                            }
                            Ok(out)
                        },
                    }
                },
            }
        },
        (DataType::DataURL, DataType::Raw) => {
            proof {
                reveal_strlit("data:");
                assert("data:"@ =~= data_prefix());
                reveal_strlit(";base64,");
                assert(";base64,"@ =~= marker_base64());
            }
            if !has_prefix(data, "data:") {
                return Err(ConvertError::NotDataUrl);
            }
            match find_first(data, ";base64,") {
                None => Err(ConvertError::MissingBase64Marker),
                Some(i) => {
                    let n = data.unicode_len();
                    let payload = data.substring_char(i + 8, n);
                    base64_to_z85(payload)
                },
            }
        },
        (DataType::Raw, DataType::DataURL) => Err(ConvertError::UnsupportedDirection),
    }
}

} // verus!
