//! The codec's guarantees, stated and proved over the models that the
//! executable functions' contracts speak of.

use vstd::prelude::*;
use crate::codec::{decode_model, encodes, DecodeOutcome, KEY_LEN};
use crate::hexcode::{hex_of, lemma_hex_of_len, lemma_unhex_bad_pair, nib_val};
use crate::payload::{DecodedModel, PayloadModel};
use crate::primitives::{honest_pk, public_of};

verus! {

/// Round trip: a blob encoded from sender `sks` to the public key behind
/// `skr` decodes under `skr` to exactly the sender's public key and the
/// payload that was encoded.
pub proof fn lemma_round_trip(sks: Seq<u8>, skr: Seq<u8>, p: PayloadModel, blob: Seq<u8>)
    requires
        skr.len() == KEY_LEN,
        encodes(sks, public_of(skr), p, blob),
    ensures
        decode_model(skr, blob) == (DecodeOutcome::Delivered {
            m: DecodedModel { sender: public_of(sks), payload: p },
        }),
{
}

/// Recipient binding: a blob encoded to one canonical public key fails
/// authentication under every candidate key with a different public half.
/// `honest_pk` is owed: a non-canonical 32-byte string can alias the
/// recipient's own curve point under different bytes.
pub proof fn lemma_recipient_binding(
    sks: Seq<u8>,
    pkr: Seq<u8>,
    skc: Seq<u8>,
    p: PayloadModel,
    blob: Seq<u8>,
)
    requires
        skc.len() == KEY_LEN,
        honest_pk(pkr),
        public_of(skc) != pkr,
        encodes(sks, pkr, p, blob),
    ensures
        decode_model(skc, blob) == DecodeOutcome::AuthFailed,
{
}

/// At most one identity opens a blob validly encoded to a canonical public
/// key: any candidate key that the blob delivers under has the recipient's
/// public half, so two keys with different public halves can never both
/// succeed.
pub proof fn lemma_at_most_one_recipient(
    sks: Seq<u8>,
    pkr: Seq<u8>,
    skc: Seq<u8>,
    p: PayloadModel,
    blob: Seq<u8>,
)
    requires
        skc.len() == KEY_LEN,
        honest_pk(pkr),
        encodes(sks, pkr, p, blob),
        decode_model(skc, blob) is Delivered,
    ensures
        public_of(skc) == pkr,
{
}

/// Trial ordering determinism: if exactly one candidate key opens a blob,
/// then whatever prefix of failed candidates was tried first, the success
/// the ordered trial reports is attributed to that key and no other.
pub proof fn lemma_trial_attribution(keys: Seq<Seq<u8>>, blob: Seq<u8>, i: int, k: int)
    requires
        0 <= i < keys.len(),
        0 <= k < keys.len(),
        forall|j: int|
            0 <= j < keys.len() ==> ((#[trigger] decode_model(keys[j], blob) is Delivered) <==> j
                == i),
        decode_model(keys[k], blob) is Delivered,
        forall|j: int| 0 <= j < k ==> !(#[trigger] decode_model(keys[j], blob) is Delivered),
    ensures
        k == i,
{
}

/// Idempotent failure: what decoding returns — delivery, authentication
/// failure, or malformedness — is a function of the key and the blob alone,
/// so two calls on the same pair agree.
pub proof fn lemma_decode_deterministic(
    sk: Seq<u8>,
    blob: Seq<u8>,
    r1: DecodeOutcome,
    r2: DecodeOutcome,
)
    requires
        r1 == decode_model(sk, blob),
        r2 == decode_model(sk, blob),
    ensures
        r1 == r2,
{
}

/// The share of non-malleability the text layer shows: corrupting any one
/// character of a well-formed blob to a byte outside the hex alphabet makes
/// every decode, under every candidate key, reject the blob as malformed
/// before any decryption is tried. Corruption that stays inside the alphabet
/// reaches the ciphertext, whose rejection is the primitive's to keep.
pub proof fn lemma_corrupt_character_rejected(sk: Seq<u8>, wire: Seq<u8>, k: int, c: u8)
    requires
        0 <= k < hex_of(wire).len(),
        nib_val(c) is None,
    ensures
        decode_model(sk, hex_of(wire).update(k, c)) is Malformed,
{
    let blob = hex_of(wire).update(k, c);
    lemma_hex_of_len(wire);
    lemma_unhex_bad_pair(blob, k / 2);
}

/// The cleartext structure names no recipient: whether a blob is
/// structurally well-formed is the same question under every candidate key,
/// so inspecting the parse stage reveals nothing about whom a blob is for.
pub proof fn lemma_structure_names_no_recipient(sk1: Seq<u8>, sk2: Seq<u8>, blob: Seq<u8>)
    ensures
        (decode_model(sk1, blob) is Malformed) <==> (decode_model(sk2, blob) is Malformed),
{
}

} // verus!
