//! Local identities: an asymmetric keypair whose public half is determined
//! by its private half.

use vstd::prelude::*;
use crate::codec::KEY_LEN;
use crate::primitives::{derive_public, public_of, random_bytes};

verus! {

/// An asymmetric identity usable as sender or recipient. The public key is
/// safe to share; the private key must stay local.
pub struct Keypair {
    pub public: Vec<u8>,
    pub private: Vec<u8>,
}

impl Keypair {
    /// A well-formed keypair: the private key has the right length and the
    /// public key is exactly the one it determines.
    pub open spec fn wf(self) -> bool {
        &&& self.private@.len() == KEY_LEN
        &&& self.public@.len() == KEY_LEN
        &&& self.public@ == public_of(self.private@)
    }
}

/// The keypair a 32-byte private key determines; refused for any other
/// length.
pub fn keypair_from_private(private: Vec<u8>) -> (r: Option<Keypair>)
    ensures
        (match r {
            Some(kp) => kp.wf() && kp.private@ == private@ && private@.len() == KEY_LEN,
            None => private@.len() != KEY_LEN,
        }),
{
    if private.len() != KEY_LEN {
        return None;
    }
    let public = derive_public(&private);
    Some(Keypair { public, private })
}

/// A fresh keypair from the system random source; refused only when that
/// source fails.
pub fn generate_keypair() -> (r: Option<Keypair>)
    ensures
        (match r {
            Some(kp) => kp.wf(),
            None => true,
        }),
{
    let private = match random_bytes(KEY_LEN) {
        Some(b) => b,
        None => return None,
    };
    keypair_from_private(private)
}

} // verus!
