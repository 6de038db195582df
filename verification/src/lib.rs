//! An authenticated, recipient-anonymous message codec.
//!
//! A set of local identities (X25519 keypairs) exchange messages and files as
//! single self-contained text blobs. `codec::encode` turns (sender private
//! key, recipient public key, payload type, body bytes) into one opaque
//! printable blob; `codec::decode` inverts it given the right private key, and
//! `receive::trial_decode` tries every local key in order. The blob never
//! names its recipient in cleartext, and a wrong key or a tampered blob fails
//! authentication rather than yielding garbage.

pub mod primitives;
pub mod hexcode;
pub mod payload;
pub mod codec;
pub mod keys;
pub mod receive;
pub mod laws;
