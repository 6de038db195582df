use gqg::codec::encode;
use gqg::keys::{keypair_from_private, Keypair};
use gqg::payload::{DecodedPayload, EncodeFlags, PayloadType};
use gqg::receive::trial_decode;

fn fixed_keypair(seed: u8) -> Keypair {
    let mut private = vec![seed; 32];
    private[0] = seed.wrapping_add(1);
    keypair_from_private(private).expect("32-byte key")
}

#[test]
fn trial_attributes_to_the_one_key_that_opens() {
    let sender = fixed_keypair(1);
    let x = fixed_keypair(2);
    let y = fixed_keypair(3);
    let z = fixed_keypair(4);
    let blob = encode(
        &sender.private,
        &y.public,
        PayloadType::Message,
        EncodeFlags::Plain,
        &b"for y".to_vec(),
    )
    .expect("encode");
    let (index, msg) = trial_decode(
        &vec![x.private.clone(), y.private.clone(), z.private.clone()],
        &blob,
    )
    .expect("one key opens it");
    assert_eq!(index, 1);
    assert_eq!(msg.sender, sender.public);
    match msg.data {
        DecodedPayload::Message { contents } => assert_eq!(contents, b"for y".to_vec()),
        DecodedPayload::File { .. } => panic!("wrong payload type"),
    }
    // The same blob, with y's key in every position of the list.
    let (index, _) = trial_decode(
        &vec![y.private.clone(), x.private.clone(), z.private.clone()],
        &blob,
    )
    .expect("one key opens it");
    assert_eq!(index, 0);
    let (index, _) = trial_decode(
        &vec![x.private.clone(), z.private.clone(), y.private.clone()],
        &blob,
    )
    .expect("one key opens it");
    assert_eq!(index, 2);
}

#[test]
fn trial_fails_when_no_key_opens() {
    let sender = fixed_keypair(5);
    let recipient = fixed_keypair(6);
    let x = fixed_keypair(7);
    let z = fixed_keypair(8);
    let blob = encode(
        &sender.private,
        &recipient.public,
        PayloadType::Message,
        EncodeFlags::Plain,
        &b"nobody local".to_vec(),
    )
    .expect("encode");
    assert!(trial_decode(&vec![x.private.clone(), z.private.clone()], &blob).is_none());
    assert!(trial_decode(&Vec::new(), &blob).is_none());
    // A key of the wrong length is tried and fails, without a panic.
    assert!(trial_decode(&vec![vec![0u8; 5]], &blob).is_none());
}
