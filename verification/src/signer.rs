//! The local peer's signing identity.
//!
//! A signer holds the key material the keystore hands over: the 32-byte
//! signing seed followed by the 32-byte public key.  Reading the
//! material from disk is the caller's business; parsing and the public
//! half live here.  Signing itself is the crypto layer's work.

use vstd::prelude::*;

use crate::ids::PeerId;

verus! {

/// Why a signer could not be built.
#[derive(Debug)]
pub enum Error {
    /// The key material does not have the stored layout.
    InvalidKeyLength,
}

/// The local peer's signing key material: seed then public key.
pub struct Signer {
    pub key: Vec<u8>,
}

impl Signer {
    /// Seed and public key, 32 bytes each.
    pub open spec fn wf(&self) -> bool {
        self.key@.len() == 64
    }

    /// Parse a signer from its stored key material: exactly 64 bytes,
    /// anything else is rejected.
    pub fn new(key: Vec<u8>) -> (r: Result<Signer, Error>)
        ensures
            key@.len() == 64 ==> (r matches Result::Ok(s) && s.key@ == key@ && s.wf()),
            key@.len() != 64 ==> r is Err,
    {
        if key.len() == 64 {
            Result::Ok(Signer { key })
        } else {
            Result::Err(Error::InvalidKeyLength)
        }
    }

    /// The public half of the key: the peer id this signer signs as.
    pub fn public_key(&self) -> (r: PeerId)
        requires
            self.wf(),
        ensures
            r@ == self.key@.skip(32),
    {
        let mut half: Vec<u8> = Vec::new();
        let mut i: usize = 32;
        while i < 64
            invariant
                32 <= i <= 64,
                self.wf(),
                half@.len() == i - 32,
                forall|j: int| 0 <= j < half@.len() ==> half@[j] == self.key@[j + 32],
            decreases 64 - i,
        {
            half.push(self.key[i]);
            i += 1;
        }
        proof {
            assert(half@ =~= self.key@.skip(32));
        }
        PeerId::new(half)
    }
}

} // verus!
