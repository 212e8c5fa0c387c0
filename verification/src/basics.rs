//! Fixed-width primitive value types.

use vstd::prelude::*;

verus! {

/// Base unit of currency: one millionth of the display unit.
#[derive(Clone, Copy, Debug, PartialEq, Eq, PartialOrd, Ord, Hash, Structural)]
pub struct MicroAlgos(pub u64);

impl Default for MicroAlgos {
    /// Zero currency units.
    fn default() -> (r: Self)
        ensures
            r.0 == 0,
    {
        MicroAlgos(0)
    }
}

/// A round of the consensus protocol.
pub type Round = u64;

/// A 32-byte ed25519 public key, held as its canonical byte form.
#[derive(Clone, Copy, Debug, PartialEq, Eq)]
pub struct PublicKey(pub [u8; 32]);

/// Participation public key used in key registration transactions.
pub type VotePK = PublicKey;

/// VRF public key used in key registration transactions.
pub type VrfPK = PublicKey;

/// A SHA-512/256 hash value (no checksum, no canonical text form).
pub type Digest = [u8; 32];

impl PublicKey {
    /// Checks whether this key is the all-zero sentinel.
    pub fn is_zero(&self) -> (r: bool)
        ensures
            r == (self.0@ == crate::address::zero_bytes()),
    {
        let mut i: usize = 0;
        while i < 32
            invariant
                i <= 32,
                forall|k: int| 0 <= k < i ==> self.0@[k] == 0u8,
            decreases 32 - i,
        {
            if self.0[i] != 0 {
                proof {
                    assert(self.0@[i as int] != crate::address::zero_bytes()[i as int]);
                }
                return false;
            }
            i = i + 1;
        }
        proof {
            assert(self.0@ =~= crate::address::zero_bytes());
        }
        true
    }
}

} // verus!
