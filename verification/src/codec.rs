//! The wire codec. `encode` turns (sender private key, recipient public key,
//! payload type, body) into one printable text blob; `decode` inverts it
//! given the right private key.
//!
//! Wire layout, before the text encoding: an ephemeral public key (32 bytes),
//! an outer nonce (24 bytes), and an outer box sealed from the ephemeral key
//! to the recipient. The outer plaintext is the sender's public key (32
//! bytes), an inner nonce (24 bytes), and an inner box sealed from the
//! sender's own key to the recipient, holding the framed payload. The outer
//! layer keeps the cleartext free of both parties' identities; the inner
//! layer binds the message to the sender the recipient recovers.

use vstd::prelude::*;
use crate::hexcode::{hex_decode, hex_encode, hex_of, hex_text, lemma_hex_of_len,
    lemma_hex_of_text, lemma_unhex_hex_of, unhex};
use crate::payload::{build_payload, build_payload_exec, dp_model, msg_model, parse_payload,
    parse_payload_exec, payload_model, payload_wf, sub_vec, concat3, lemma_parse_build,
    DecodedMessage, DecodedModel, EncodeFlags, PayloadModel, PayloadType, MAX_BODY_LEN,
    MAX_NAME_LEN};
use crate::primitives::{box_decrypt, box_encrypt, box_open_of, derive_public, honest_pk,
    public_of, random_bytes};

verus! {

/// Length of a public or private key in bytes.
pub const KEY_LEN: usize = 32;

/// Length of a box nonce in bytes.
pub const NONCE_LEN: usize = 24;

/// Length of a box authentication tag in bytes.
pub const TAG_LEN: usize = 16;

/// Shortest wire a structurally valid blob can decode to: ephemeral key,
/// outer nonce, and a non-degenerate outer box.
pub const MIN_WIRE_LEN: usize = 72;

/// The opaque printable text a blob is: ASCII bytes, every one a hex digit.
pub type EncodedBlob = Vec<u8>;

/// Why encoding refused.
#[derive(Clone, Copy, Debug, PartialEq, Eq, Structural)]
pub enum EncodeError {
    /// A key had the wrong length.
    MalformedKey,
    /// Body or file name exceeds what the wire format carries.
    BodyTooLarge,
    /// The encryption primitive or the random source failed.
    PrimitiveFailure,
}

/// Why decoding refused. A wrong key and a tampered blob are deliberately
/// indistinguishable: both report `AuthenticationFailed`.
#[derive(Clone, Copy, Debug, PartialEq, Eq, Structural)]
pub enum DecodeError {
    /// Decryption did not authenticate: not this recipient, or not intact.
    AuthenticationFailed,
    /// The blob is not even structurally a blob; no decryption was tried.
    MalformedBlob,
}

/// The outcome a decode call reports, in mathematical form.
pub enum DecodeOutcome {
    Delivered { m: DecodedModel },
    AuthFailed,
    Malformed,
}

/// Keys a codec call accepts: both exactly `KEY_LEN` bytes.
pub open spec fn keys_ok(sks: Seq<u8>, pkr: Seq<u8>) -> bool {
    sks.len() == KEY_LEN && pkr.len() == KEY_LEN
}

/// What decoding a blob under one candidate private key returns. `decode`
/// returns exactly this, and `encode`'s contract speaks of every candidate
/// key through it.
pub open spec fn decode_model(sk: Seq<u8>, blob: Seq<u8>) -> DecodeOutcome {
    match unhex(blob) {
        Option::None => DecodeOutcome::Malformed,
        Option::Some(wire) => {
            if wire.len() < MIN_WIRE_LEN {
                DecodeOutcome::Malformed
            } else if sk.len() != KEY_LEN {
                DecodeOutcome::AuthFailed
            } else {
                let epk = wire.subrange(0, 32);
                let n_out = wire.subrange(32, 56);
                let outer_ct = wire.subrange(56, wire.len() as int);
                match box_open_of(sk, epk, n_out, outer_ct) {
                    Option::None => DecodeOutcome::AuthFailed,
                    Option::Some(outer_pt) => {
                        if outer_pt.len() < 56 {
                            DecodeOutcome::AuthFailed
                        } else {
                            let spk = outer_pt.subrange(0, 32);
                            let n_in = outer_pt.subrange(32, 56);
                            let inner_ct = outer_pt.subrange(56, outer_pt.len() as int);
                            match box_open_of(sk, spk, n_in, inner_ct) {
                                Option::None => DecodeOutcome::AuthFailed,
                                Option::Some(pt) => match parse_payload(pt) {
                                    Option::None => DecodeOutcome::AuthFailed,
                                    Option::Some(p) => DecodeOutcome::Delivered {
                                        m: DecodedModel { sender: spk, payload: p },
                                    },
                                },
                            }
                        }
                    },
                }
            }
        },
    }
}

/// A blob carries payload `p` from the holder of `sks` to the holder of the
/// private key behind `pkr`: every candidate key matching `pkr` recovers the
/// sender and the payload, and — when `pkr` is a canonical public key, so
/// that differing bytes mean a different recipient — every other candidate
/// key fails authentication. This is the whole behavior a blob shows to
/// decoding.
pub open spec fn encodes(sks: Seq<u8>, pkr: Seq<u8>, p: PayloadModel, blob: Seq<u8>) -> bool {
    &&& forall|skc: Seq<u8>|
        skc.len() == KEY_LEN && public_of(skc) == pkr ==> #[trigger] decode_model(skc, blob)
            == (DecodeOutcome::Delivered { m: DecodedModel { sender: public_of(sks), payload: p } })
    &&& honest_pk(pkr) ==> forall|skc: Seq<u8>|
        skc.len() == KEY_LEN && public_of(skc) != pkr ==> #[trigger] decode_model(skc, blob)
            == DecodeOutcome::AuthFailed
}

/// Encode a payload from the sender's private key to the recipient's public
/// key as one printable text blob.
///
/// Succeeds whenever the keys are well-formed, the payload is within the
/// wire limits, and the primitive and the random source cooperate; the blob
/// then decodes as `encodes` states, under the intended recipient's key and
/// no other.
pub fn encode(
    sender_private: &Vec<u8>,
    recipient_public: &Vec<u8>,
    payload_type: PayloadType,
    flags: EncodeFlags,
    body: &Vec<u8>,
) -> (r: Result<EncodedBlob, EncodeError>)
    ensures
        (r matches Err(e) && e == EncodeError::MalformedKey) <==> !keys_ok(
            sender_private@,
            recipient_public@,
        ),
        (r matches Err(e) && e == EncodeError::BodyTooLarge) <==> (keys_ok(
            sender_private@,
            recipient_public@,
        ) && !payload_wf(payload_model(payload_type, body@))),
        r matches Ok(blob) ==> encodes(
            sender_private@,
            recipient_public@,
            payload_model(payload_type, body@),
            blob@,
        ),
        r matches Ok(blob) ==> hex_text(blob@),
{
    match flags {
        EncodeFlags::Plain => {},
    }
    if sender_private.len() != KEY_LEN || recipient_public.len() != KEY_LEN {
        return Err(EncodeError::MalformedKey);
    }
    let name_ok = match &payload_type {
        PayloadType::Message => true,
        PayloadType::File { file_name } => file_name.len() <= MAX_NAME_LEN,
    };
    if !name_ok || body.len() > MAX_BODY_LEN {
        return Err(EncodeError::BodyTooLarge);
    }
    let inner_pt = build_payload_exec(&payload_type, body);
    let n_in = match random_bytes(NONCE_LEN) {
        Some(v) => v,
        None => return Err(EncodeError::PrimitiveFailure),
    };
    let inner_ct = match box_encrypt(sender_private, recipient_public, &n_in, &inner_pt) {
        Some(c) => c,
        None => return Err(EncodeError::PrimitiveFailure),
    };
    let sender_public = derive_public(sender_private);
    let outer_pt = concat3(&sender_public, &n_in, &inner_ct);
    let esk = match random_bytes(KEY_LEN) {
        Some(v) => v,
        None => return Err(EncodeError::PrimitiveFailure),
    };
    let epk = derive_public(&esk);
    let n_out = match random_bytes(NONCE_LEN) {
        Some(v) => v,
        None => return Err(EncodeError::PrimitiveFailure),
    };
    let outer_ct = match box_encrypt(&esk, recipient_public, &n_out, &outer_pt) {
        Some(c) => c,
        None => return Err(EncodeError::PrimitiveFailure),
    };
    let wire = concat3(&epk, &n_out, &outer_ct);
    let blob = hex_encode(&wire);
    proof {
        lemma_unhex_hex_of(wire@);
        lemma_hex_of_text(wire@);
        lemma_hex_of_len(wire@);
        let p = payload_model(payload_type, body@);
        lemma_parse_build(p);
        assert(wire@.subrange(0, 32) =~= epk@);
        assert(wire@.subrange(32, 56) =~= n_out@);
        assert(wire@.subrange(56, wire@.len() as int) =~= outer_ct@);
        assert(outer_pt@.subrange(0, 32) =~= sender_public@);
        assert(outer_pt@.subrange(32, 56) =~= n_in@);
        assert(outer_pt@.subrange(56, outer_pt@.len() as int) =~= inner_ct@);
        assert forall|skc: Seq<u8>|
            skc.len() == KEY_LEN && public_of(skc) == recipient_public@ implies #[trigger]
        decode_model(skc, blob@) == (DecodeOutcome::Delivered {
            m: DecodedModel { sender: public_of(sender_private@), payload: p },
        }) by {
            assert(box_open_of(skc, public_of(esk@), n_out@, outer_ct@) == Some(outer_pt@));
            assert(box_open_of(skc, public_of(sender_private@), n_in@, inner_ct@) == Some(
                inner_pt@,
            ));
        }
        if honest_pk(recipient_public@) {
            assert forall|skc: Seq<u8>|
                skc.len() == KEY_LEN && public_of(skc) != recipient_public@ implies #[trigger]
            decode_model(skc, blob@) == DecodeOutcome::AuthFailed by {
                assert(box_open_of(skc, public_of(esk@), n_out@, outer_ct@) is None);
            }
        }
    }
    Ok(blob)
}

/// Decode a blob with one candidate private key. Returns the sender's public
/// key and the payload exactly when `decode_model` delivers; a structurally
/// invalid blob is `MalformedBlob`, everything else — wrong key, tampering,
/// forgery — is the one indistinguishable `AuthenticationFailed`.
pub fn decode(candidate_private: &Vec<u8>, blob: &EncodedBlob) -> (r: Result<
    DecodedMessage,
    DecodeError,
>)
    ensures
        (match r {
            Ok(m) => decode_model(candidate_private@, blob@) == (DecodeOutcome::Delivered {
                m: msg_model(m),
            }),
            Err(e) => (match e {
                DecodeError::AuthenticationFailed => decode_model(candidate_private@, blob@)
                    == DecodeOutcome::AuthFailed,
                DecodeError::MalformedBlob => decode_model(candidate_private@, blob@)
                    == DecodeOutcome::Malformed,
            }),
        }),
{
    let wire = match hex_decode(blob) {
        Some(w) => w,
        None => return Err(DecodeError::MalformedBlob),
    };
    if wire.len() < MIN_WIRE_LEN {
        return Err(DecodeError::MalformedBlob);
    }
    if candidate_private.len() != KEY_LEN {
        return Err(DecodeError::AuthenticationFailed);
    }
    let epk = sub_vec(&wire, 0, 32);
    let n_out = sub_vec(&wire, 32, 56);
    let outer_ct = sub_vec(&wire, 56, wire.len());
    let outer_pt = match box_decrypt(candidate_private, &epk, &n_out, &outer_ct) {
        Some(m) => m,
        None => return Err(DecodeError::AuthenticationFailed),
    };
    if outer_pt.len() < 56 {
        return Err(DecodeError::AuthenticationFailed);
    }
    let sender = sub_vec(&outer_pt, 0, 32);
    let n_in = sub_vec(&outer_pt, 32, 56);
    let inner_ct = sub_vec(&outer_pt, 56, outer_pt.len());
    let inner_pt = match box_decrypt(candidate_private, &sender, &n_in, &inner_ct) {
        Some(m) => m,
        None => return Err(DecodeError::AuthenticationFailed),
    };
    let data = match parse_payload_exec(&inner_pt) {
        Some(d) => d,
        None => return Err(DecodeError::AuthenticationFailed),
    };
    Ok(DecodedMessage { sender, data })
}

} // verus!
