//! The efficiency estimator: from a byte count alone, the projected encoded
//! sizes under Base64 (3 bytes to 4 characters) and Z85 (4 bytes to 5
//! characters). Both use ceiling division, so a count of 0 yields size 0 on
//! both sides. The ratio of the two sizes is left to the caller: it is not an
//! integer quantity.

use vstd::prelude::*;

verus! {

/// The character count of the Base64 encoding of `n` bytes.
pub open spec fn spec_base64_size(n: int) -> int {
    (n + 2) / 3 * 4
}

/// The character count of the padded Z85 encoding of `n` bytes, the pad
/// count's own digits not counted.
pub open spec fn spec_z85_size(n: int) -> int {
    (n + 3) / 4 * 5
}

/// The projected encoded sizes of a byte buffer under both encodings.
#[derive(Clone, Copy, Debug, PartialEq, Eq, Structural)]
pub struct EfficiencyReport {
    pub original_size: usize,
    pub base64_size: usize,
    pub z85_size: usize,
}

/// Project the encoded sizes of `original_size` bytes under Base64 and Z85.
/// The bound on the input only keeps the projected sizes within `usize`.
pub fn get_encoding_efficiency(original_size: usize) -> (r: EfficiencyReport)
    requires
        original_size <= usize::MAX / 2,
    ensures
        r.original_size == original_size,
        r.base64_size == spec_base64_size(original_size as int),
        r.z85_size == spec_z85_size(original_size as int),
{
    proof {
        vstd::arithmetic::div_mod::lemma_fundamental_div_mod(original_size + 2, 3);
        vstd::arithmetic::div_mod::lemma_fundamental_div_mod(original_size + 3, 4);
    }
    let base64_size = (original_size + 2) / 3 * 4;
    let z85_size = (original_size + 3) / 4 * 5;
    EfficiencyReport { original_size, base64_size, z85_size }
}

} // verus!
