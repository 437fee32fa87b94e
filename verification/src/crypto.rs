use vstd::prelude::*;

verus! {

/// A block or message hash.
pub type SaitoHash = [u8; 32];

/// A compressed secp256k1 public key.
pub type SaitoPublicKey = [u8; 33];

/// A compact signature.
pub type SaitoSignature = [u8; 64];

/// `n` zero bytes.
pub open spec fn zeros(n: nat) -> Seq<u8> {
    Seq::new(n, |i: int| 0u8)
}

/// The all-zero hash.
pub fn zero_hash() -> (h: SaitoHash)
    ensures
        h@ == zeros(32),
{
    let h: SaitoHash = [0u8; 32];
    assert(h@ =~= zeros(32));
    h
}

/// Whether two hashes hold the same bytes.
pub fn hash_eq(a: &SaitoHash, b: &SaitoHash) -> (r: bool)
    ensures
        r == (a@ == b@),
{
    let mut i: usize = 0;
    while i < 32
        invariant
            0 <= i <= 32,
            a@.len() == 32,
            b@.len() == 32,
            forall|j: int| 0 <= j < i ==> a@[j] == b@[j],
        decreases 32 - i,
    {
        if a[i] != b[i] {
            return false;
        }
        i = i + 1;
    }
    assert(a@ =~= b@);
    true
}

/// The 32 bytes of `data` that start at `start`, as a hash.
pub fn hash_at(data: &[u8], start: usize) -> (h: SaitoHash)
    requires
        start + 32 <= data@.len(),
    ensures
        h@ == data@.subrange(start as int, start + 32),
{
    let mut h: SaitoHash = [0u8; 32];
    let mut i: usize = 0;
    while i < 32
        invariant
            0 <= i <= 32,
            start + 32 <= data.len(),
            h@.len() == 32,
            forall|j: int| 0 <= j < i ==> h@[j] == data@[start + j],
        decreases 32 - i,
    {
        h[i] = data[start + i];
        i = i + 1;
    }
    assert(h@ =~= data@.subrange(start as int, start + 32));
    h
}

} // verus!
