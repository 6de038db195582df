//! Trusted boundary around the public-key authenticated-encryption primitive
//! and the system random source. Everything else in the crate is verified
//! against the contracts stated here.

use vstd::prelude::*;
use crypto_box::aead::Aead;

verus! {

/// The X25519 public key derived from a 32-byte secret key.
pub uninterp spec fn public_of(sk: Seq<u8>) -> Seq<u8>;

/// The NaCl-box ciphertext produced from one side's secret key, the other
/// side's public key, a 24-byte nonce and a plaintext.
pub uninterp spec fn box_cipher_of(sk: Seq<u8>, pk: Seq<u8>, nonce: Seq<u8>, msg: Seq<u8>) -> Seq<u8>;

/// What opening a NaCl-box ciphertext returns: the plaintext, if the keys,
/// nonce and ciphertext authenticate, and nothing otherwise.
pub uninterp spec fn box_open_of(sk: Seq<u8>, pk: Seq<u8>, nonce: Seq<u8>, ct: Seq<u8>) -> Option<Seq<u8>>;

/// A public key in canonical form: the one some secret key derives. X25519
/// ignores the top bit of a 32-byte public key, so distinct byte strings can
/// name one curve point; only for canonical keys is "a different public key"
/// the same as "a different recipient", and only of those does the codec
/// claim that every other key fails.
pub open spec fn honest_pk(pk: Seq<u8>) -> bool {
    exists|skx: Seq<u8>| skx.len() == 32 && public_of(skx) == pk
}

/// Relies on `crypto_box::SecretKey::public_key`: the public key is a
/// function of the 32 secret-key bytes alone, and is 32 bytes long.
#[verifier::external_body]
pub(crate) fn derive_public(sk: &Vec<u8>) -> (r: Vec<u8>)
    requires
        sk@.len() == 32,
    ensures
        r@ == public_of(sk@),
        r@.len() == 32,
{
    let key = crypto_box::SecretKey::from_slice(sk.as_slice()).unwrap();
    key.public_key().as_bytes().to_vec()
}

/// Relies on `crypto_box::SalsaBox` (X25519 + XSalsa20-Poly1305, NaCl's
/// `crypto_box`): `encrypt` is a deterministic function of the two keys, the
/// nonce and the plaintext, adds a 16-byte authentication tag, and produces a
/// ciphertext that `decrypt` opens exactly for the matching key pair — the
/// recipient's secret key together with the sender's public key — and that
/// fails authentication under any other recipient key. The failure clause is
/// stated only for canonical recipient keys (`honest_pk`): for a key with the
/// ignored top bit set, a "different" byte string can still name the
/// recipient's own curve point and decrypt.
#[verifier::external_body]
pub(crate) fn box_encrypt(sk: &Vec<u8>, pk: &Vec<u8>, nonce: &Vec<u8>, msg: &Vec<u8>) -> (r: Option<Vec<u8>>)
    requires
        sk@.len() == 32,
        pk@.len() == 32,
        nonce@.len() == 24,
    ensures
        r matches Some(c) ==> {
            &&& c@ == box_cipher_of(sk@, pk@, nonce@, msg@)
            &&& c@.len() == msg@.len() + 16
            &&& forall|skr: Seq<u8>|
                skr.len() == 32 && public_of(skr) == pk@
                    ==> #[trigger] box_open_of(skr, public_of(sk@), nonce@, c@) == Some(msg@)
            &&& honest_pk(pk@) ==> forall|skr: Seq<u8>|
                skr.len() == 32 && public_of(skr) != pk@
                    ==> #[trigger] box_open_of(skr, public_of(sk@), nonce@, c@) is None
        },
{
    let sk = crypto_box::SecretKey::from_slice(sk.as_slice()).unwrap();
    let pk = crypto_box::PublicKey::from_slice(pk.as_slice()).unwrap();
    let sealer = crypto_box::SalsaBox::new(&pk, &sk);
    let nonce = crypto_box::Nonce::from_slice(nonce.as_slice());
    match sealer.encrypt(nonce, msg.as_slice()) {
        Ok(c) => Some(c),
        Err(_) => None,
    }
}

/// Relies on `crypto_box::SalsaBox::decrypt`: a deterministic function of the
/// two keys, the nonce and the ciphertext; it returns the plaintext when they
/// authenticate and an error otherwise.
#[verifier::external_body]
pub(crate) fn box_decrypt(sk: &Vec<u8>, pk: &Vec<u8>, nonce: &Vec<u8>, ct: &Vec<u8>) -> (r: Option<Vec<u8>>)
    requires
        sk@.len() == 32,
        pk@.len() == 32,
        nonce@.len() == 24,
    ensures
        (match r {
            Some(m) => box_open_of(sk@, pk@, nonce@, ct@) == Some(m@),
            None => box_open_of(sk@, pk@, nonce@, ct@) is None,
        }),
{
    let sk = crypto_box::SecretKey::from_slice(sk.as_slice()).unwrap();
    let pk = crypto_box::PublicKey::from_slice(pk.as_slice()).unwrap();
    let opener = crypto_box::SalsaBox::new(&pk, &sk);
    let nonce = crypto_box::Nonce::from_slice(nonce.as_slice());
    match opener.decrypt(nonce, ct.as_slice()) {
        Ok(m) => Some(m),
        Err(_) => None,
    }
}

/// Relies on `getrandom::fill`: on success the buffer is filled from the
/// operating system's random source. Nothing is promised of the bytes.
#[verifier::external_body]
pub(crate) fn random_bytes(n: usize) -> (r: Option<Vec<u8>>)
    ensures
        r matches Some(b) ==> b@.len() == n,
{
    let mut buf = vec![0u8; n];
    match getrandom::fill(&mut buf) {
        Ok(()) => Some(buf),
        Err(_) => None,
    }
}

} // verus!
