//! The trial-decrypt receiver: try every local private key against one
//! incoming blob, in storage order, and report the first that opens it.

use vstd::prelude::*;
use crate::codec::{decode, decode_model, DecodeOutcome, EncodedBlob};
use crate::payload::{msg_model, DecodedMessage};

verus! {

/// Try `keys` in order against `blob`; the first key that authenticates
/// yields the result, attributed to its index. Returns nothing exactly when
/// no candidate key delivers, and never skips a key that would have: every
/// index below the reported one fails to open the blob.
pub fn trial_decode(keys: &Vec<Vec<u8>>, blob: &EncodedBlob) -> (r: Option<(usize, DecodedMessage)>)
    ensures
        (match r {
            Some(pair) => {
                &&& (pair.0 as int) < keys@.len()
                &&& decode_model(keys@[pair.0 as int]@, blob@) == (DecodeOutcome::Delivered {
                    m: msg_model(pair.1),
                })
                &&& forall|j: int|
                    0 <= j < pair.0 as int ==> !(#[trigger] decode_model(keys@[j]@, blob@)
                        is Delivered)
            },
            None => forall|j: int|
                0 <= j < keys@.len() ==> !(#[trigger] decode_model(keys@[j]@, blob@) is Delivered),
        }),
{
    let mut i: usize = 0;
    while i < keys.len()
        invariant
            i <= keys@.len(),
            forall|j: int| 0 <= j < i ==> !(#[trigger] decode_model(keys@[j]@, blob@) is Delivered),
        decreases keys@.len() - i,
    {
        match decode(&keys[i], blob) {
            Ok(m) => {
                return Some((i, m));
            },
            Err(_) => {},
        }
        i = i + 1;
    }
    None
}

} // verus!
