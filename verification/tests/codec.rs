use gqg::codec::{decode, encode, DecodeError, EncodeError};
use gqg::keys::{generate_keypair, keypair_from_private, Keypair};
use gqg::payload::{DecodedPayload, EncodeFlags, PayloadType};

fn fixed_keypair(seed: u8) -> Keypair {
    let mut private = vec![seed; 32];
    private[0] = seed.wrapping_add(1);
    keypair_from_private(private).expect("32-byte key")
}

#[test]
fn round_trip_message() {
    let alice = fixed_keypair(10);
    let bob = fixed_keypair(20);
    let body = b"hello".to_vec();
    let blob = encode(
        &alice.private,
        &bob.public,
        PayloadType::Message,
        EncodeFlags::Plain,
        &body,
    )
    .expect("encode");
    let msg = decode(&bob.private, &blob).expect("decode");
    assert_eq!(msg.sender, alice.public);
    match msg.data {
        DecodedPayload::Message { contents } => assert_eq!(contents, b"hello".to_vec()),
        DecodedPayload::File { .. } => panic!("wrong payload type"),
    }
}

#[test]
fn round_trip_file() {
    let alice = fixed_keypair(30);
    let bob = fixed_keypair(40);
    let body = vec![0u8, 1, 2, 3, 255, 254];
    let blob = encode(
        &alice.private,
        &bob.public,
        PayloadType::File {
            file_name: b"report.pdf".to_vec(),
        },
        EncodeFlags::Plain,
        &body,
    )
    .expect("encode");
    let msg = decode(&bob.private, &blob).expect("decode");
    assert_eq!(msg.sender, alice.public);
    match msg.data {
        DecodedPayload::File {
            file_name,
            contents,
        } => {
            assert_eq!(file_name, b"report.pdf".to_vec());
            assert_eq!(contents, vec![0u8, 1, 2, 3, 255, 254]);
        }
        DecodedPayload::Message { .. } => panic!("wrong payload type"),
    }
}

#[test]
fn round_trip_empty_bodies() {
    let alice = fixed_keypair(50);
    let bob = fixed_keypair(60);
    let blob = encode(
        &alice.private,
        &bob.public,
        PayloadType::Message,
        EncodeFlags::Plain,
        &Vec::new(),
    )
    .expect("encode");
    let msg = decode(&bob.private, &blob).expect("decode");
    match msg.data {
        DecodedPayload::Message { contents } => assert!(contents.is_empty()),
        DecodedPayload::File { .. } => panic!("wrong payload type"),
    }
    let blob = encode(
        &alice.private,
        &bob.public,
        PayloadType::File {
            file_name: Vec::new(),
        },
        EncodeFlags::Plain,
        &Vec::new(),
    )
    .expect("encode");
    let msg = decode(&bob.private, &blob).expect("decode");
    match msg.data {
        DecodedPayload::File {
            file_name,
            contents,
        } => {
            assert!(file_name.is_empty());
            assert!(contents.is_empty());
        }
        DecodedPayload::Message { .. } => panic!("wrong payload type"),
    }
}

#[test]
fn wrong_recipient_fails_authentication() {
    let alice = fixed_keypair(70);
    let bob = fixed_keypair(80);
    let carol = fixed_keypair(90);
    let blob = encode(
        &alice.private,
        &bob.public,
        PayloadType::Message,
        EncodeFlags::Plain,
        &b"for bob only".to_vec(),
    )
    .expect("encode");
    assert_eq!(
        decode(&carol.private, &blob).unwrap_err(),
        DecodeError::AuthenticationFailed
    );
    // The sender cannot open their own blob either.
    assert_eq!(
        decode(&alice.private, &blob).unwrap_err(),
        DecodeError::AuthenticationFailed
    );
}

#[test]
fn flipping_any_byte_never_decodes() {
    let alice = fixed_keypair(100);
    let bob = fixed_keypair(110);
    let blob = encode(
        &alice.private,
        &bob.public,
        PayloadType::Message,
        EncodeFlags::Plain,
        &b"integrity".to_vec(),
    )
    .expect("encode");
    for i in 0..blob.len() {
        // Replace the hex digit with a different digit of the alphabet, so
        // the damage reaches the ciphertext rather than the text layer.
        let mut tampered = blob.clone();
        tampered[i] = if tampered[i] == b'0' { b'1' } else { b'0' };
        assert!(decode(&bob.private, &tampered).is_err(), "byte {} slipped", i);
        // Push the byte outside the alphabet as well.
        let mut garbled = blob.clone();
        garbled[i] = b'x';
        assert!(decode(&bob.private, &garbled).is_err(), "byte {} slipped", i);
    }
}

#[test]
fn blobs_name_no_recipient() {
    let alice = fixed_keypair(120);
    let bob = fixed_keypair(130);
    let carol = fixed_keypair(140);
    let body = b"same words".to_vec();
    let to_bob = encode(
        &alice.private,
        &bob.public,
        PayloadType::Message,
        EncodeFlags::Plain,
        &body,
    )
    .expect("encode");
    let to_carol = encode(
        &alice.private,
        &carol.public,
        PayloadType::Message,
        EncodeFlags::Plain,
        &body,
    )
    .expect("encode");
    // Same cleartext shape, no shared identifying bytes in the clear.
    assert_eq!(to_bob.len(), to_carol.len());
    assert_ne!(to_bob, to_carol);
    // Each opens only under its own recipient.
    assert!(decode(&bob.private, &to_bob).is_ok());
    assert!(decode(&carol.private, &to_bob).is_err());
    assert!(decode(&carol.private, &to_carol).is_ok());
    assert!(decode(&bob.private, &to_carol).is_err());
}

#[test]
fn blob_is_printable_text() {
    let alice = fixed_keypair(150);
    let bob = fixed_keypair(160);
    let blob = encode(
        &alice.private,
        &bob.public,
        PayloadType::Message,
        EncodeFlags::Plain,
        &b"printable".to_vec(),
    )
    .expect("encode");
    for &c in blob.iter() {
        assert!(c.is_ascii_digit() || (b'a'..=b'f').contains(&c));
    }
    assert!(String::from_utf8(blob).is_ok());
}

#[test]
fn same_error_on_repeat() {
    let bob = fixed_keypair(170);
    let invalid = b"not a blob at all".to_vec();
    let first = decode(&bob.private, &invalid).unwrap_err();
    let second = decode(&bob.private, &invalid).unwrap_err();
    assert_eq!(first, second);
    let alice = fixed_keypair(180);
    let carol = fixed_keypair(190);
    let blob = encode(
        &alice.private,
        &bob.public,
        PayloadType::Message,
        EncodeFlags::Plain,
        &b"x".to_vec(),
    )
    .expect("encode");
    let first = decode(&carol.private, &blob).unwrap_err();
    let second = decode(&carol.private, &blob).unwrap_err();
    assert_eq!(first, DecodeError::AuthenticationFailed);
    assert_eq!(first, second);
}

#[test]
fn malformed_blobs_rejected_before_decryption() {
    let bob = fixed_keypair(200);
    // Empty, odd length, bad character, and well-formed-but-short hex.
    assert_eq!(
        decode(&bob.private, &Vec::new()).unwrap_err(),
        DecodeError::MalformedBlob
    );
    assert_eq!(
        decode(&bob.private, &b"abc".to_vec()).unwrap_err(),
        DecodeError::MalformedBlob
    );
    assert_eq!(
        decode(&bob.private, &b"zz".to_vec()).unwrap_err(),
        DecodeError::MalformedBlob
    );
    assert_eq!(
        decode(&bob.private, &b"00ff".to_vec()).unwrap_err(),
        DecodeError::MalformedBlob
    );
    assert_eq!(
        decode(&bob.private, &b"AB".to_vec()).unwrap_err(),
        DecodeError::MalformedBlob
    );
}

#[test]
fn encode_rejects_malformed_keys() {
    let bob = fixed_keypair(210);
    let short = vec![1u8; 31];
    let long = vec![1u8; 33];
    assert_eq!(
        encode(
            &short,
            &bob.public,
            PayloadType::Message,
            EncodeFlags::Plain,
            &Vec::new()
        )
        .unwrap_err(),
        EncodeError::MalformedKey
    );
    assert_eq!(
        encode(
            &bob.private,
            &long,
            PayloadType::Message,
            EncodeFlags::Plain,
            &Vec::new()
        )
        .unwrap_err(),
        EncodeError::MalformedKey
    );
}

#[test]
fn encode_rejects_oversized_input() {
    let alice = fixed_keypair(220);
    let bob = fixed_keypair(230);
    let long_name = vec![b'n'; 65536];
    assert_eq!(
        encode(
            &alice.private,
            &bob.public,
            PayloadType::File {
                file_name: long_name
            },
            EncodeFlags::Plain,
            &Vec::new()
        )
        .unwrap_err(),
        EncodeError::BodyTooLarge
    );
    // The largest accepted name still round-trips.
    let edge_name = vec![b'n'; 65535];
    let blob = encode(
        &alice.private,
        &bob.public,
        PayloadType::File {
            file_name: edge_name.clone(),
        },
        EncodeFlags::Plain,
        &b"x".to_vec(),
    )
    .expect("encode");
    let msg = decode(&bob.private, &blob).expect("decode");
    match msg.data {
        DecodedPayload::File {
            file_name,
            contents,
        } => {
            assert_eq!(file_name, edge_name);
            assert_eq!(contents, b"x".to_vec());
        }
        DecodedPayload::Message { .. } => panic!("wrong payload type"),
    }
}

#[test]
fn keypairs_well_formed() {
    assert!(keypair_from_private(vec![0u8; 31]).is_none());
    assert!(keypair_from_private(vec![0u8; 33]).is_none());
    let kp = keypair_from_private(vec![7u8; 32]).expect("32-byte key");
    assert_eq!(kp.private, vec![7u8; 32]);
    assert_eq!(kp.public.len(), 32);
    // The public half is derived, not copied.
    assert_ne!(kp.public, kp.private);
    let again = keypair_from_private(vec![7u8; 32]).expect("32-byte key");
    assert_eq!(kp.public, again.public);
    let fresh = generate_keypair().expect("random source");
    assert_eq!(fresh.private.len(), 32);
    assert_eq!(fresh.public.len(), 32);
}
