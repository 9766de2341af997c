//! Account identities and their printed form.
use vstd::prelude::*;

verus! {

/// The printed form of a 32-byte account key.
pub uninterp spec fn pubkey_text(key: Seq<u8>) -> Seq<char>;

/// Relies on the `Display` impl of `anchor_lang::prelude::Pubkey`, which writes
/// `bs58::encode(key).into_string()`: it depends on the key bytes alone, and a
/// non-empty key never encodes to the empty string.
#[verifier::external_body]
pub(crate) fn key_to_string(key: &[u8; 32]) -> (r: String)
    ensures
        r@ == pubkey_text(key@),
        r@.len() > 0,
{
    anchor_lang::prelude::Pubkey::new_from_array(*key).to_string()
}

/// Whether two 32-byte values are equal, byte for byte.
pub fn bytes32_equal(a: &[u8; 32], b: &[u8; 32]) -> (r: bool)
    ensures
        r == (a@ == b@),
{
    let mut i: usize = 0;
    while i < 32
        invariant
            0 <= i <= 32,
            a@.len() == 32,
            b@.len() == 32,
            forall|j: int| 0 <= j < i ==> a@[j] == b@[j],
        decreases 32 - i,
    {
        if a[i] != b[i] {
            return false;
        }
        i = i + 1;
    }
    assert(a@ =~= b@);
    true
}

} // verus!
