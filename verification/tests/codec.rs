use pq_envelope::{
    decode_envelope, decode_recipient_identity, decode_sender_identity, digest_bytes,
    encode_envelope, encode_recipient_identity, encode_sender_identity, open_envelope, seal,
    EnvelopeError, KeyRegistry,
};

use dilithium::{DilithiumKeyPair, ML_DSA_65};

#[test]
fn envelope_wire_round_trip() {
    let mut reg = KeyRegistry::new();
    let alice = reg.generate_recipient(String::from("alice")).unwrap();
    let carol = reg.generate_recipient(String::from("carol")).unwrap();
    let bob = reg.generate_sender(String::from("bob")).unwrap();
    let msg = b"over the wire".to_vec();
    let env = seal(&reg, &msg, &String::from("bob"), &vec![alice, carol]).unwrap();

    let wire = encode_envelope(&env);
    let back = decode_envelope(&wire).unwrap();
    assert_eq!(back.sender_id, env.sender_id);
    assert_eq!(back.recipients.len(), env.recipients.len());
    for (a, b) in back.recipients.iter().zip(env.recipients.iter()) {
        assert_eq!(a.recipient_id, b.recipient_id);
        assert_eq!(a.encapsulated_key, b.encapsulated_key);
    }
    assert_eq!(back.nonce, env.nonce);
    assert_eq!(back.ciphertext, env.ciphertext);
    assert_eq!(back.tag, env.tag);
    assert_eq!(back.signature, env.signature);

    let pt = open_envelope(&reg, &back, &String::from("alice"), &vec![
        pq_envelope::SenderIdentity { id: String::from("bob"), sign_public: bob.sign_public },
    ])
    .unwrap();
    assert_eq!(pt, msg);
}

#[test]
fn wire_layout_exact_bytes() {
    // Every field is written as an 8-byte big-endian byte count followed by
    // the bytes; entries are preceded by their count.
    let env = pq_envelope::Envelope {
        sender_id: String::from("ab"),
        recipients: vec![pq_envelope::RecipientEntry {
            recipient_id: String::from("c"),
            encapsulated_key: vec![1, 2],
        }],
        nonce: vec![9],
        ciphertext: vec![7, 7, 7],
        tag: vec![],
        signature: vec![5],
    };
    let wire = encode_envelope(&env);
    let expected: Vec<u8> = vec![
        0, 0, 0, 0, 0, 0, 0, 2, b'a', b'b', // sender_id
        0, 0, 0, 0, 0, 0, 0, 1, // one recipient entry
        0, 0, 0, 0, 0, 0, 0, 1, b'c', // its identifier
        0, 0, 0, 0, 0, 0, 0, 2, 1, 2, // its encapsulated key
        0, 0, 0, 0, 0, 0, 0, 1, 9, // nonce
        0, 0, 0, 0, 0, 0, 0, 3, 7, 7, 7, // ciphertext
        0, 0, 0, 0, 0, 0, 0, 0, // tag (empty)
        0, 0, 0, 0, 0, 0, 0, 1, 5, // signature
    ];
    assert_eq!(wire, expected);
    // This envelope's nonce and tag do not have the primitive lengths, so
    // decoding fails closed.
    assert_eq!(decode_envelope(&wire).unwrap_err(), EnvelopeError::SerializationFailed);
}

#[test]
fn garbage_bytes_fail_to_decode() {
    let r = decode_envelope(&vec![0, 1, 2, 3]);
    assert_eq!(r.unwrap_err(), EnvelopeError::SerializationFailed);
    let r2 = decode_envelope(&Vec::new());
    assert_eq!(r2.unwrap_err(), EnvelopeError::SerializationFailed);
}

#[test]
fn truncated_wire_fails_to_decode() {
    let mut reg = KeyRegistry::new();
    let alice = reg.generate_recipient(String::from("alice")).unwrap();
    reg.generate_sender(String::from("bob")).unwrap();
    let env = seal(&reg, &b"snip".to_vec(), &String::from("bob"), &vec![alice]).unwrap();
    let mut wire = encode_envelope(&env);
    wire.truncate(wire.len() - 1);
    assert_eq!(decode_envelope(&wire).unwrap_err(), EnvelopeError::SerializationFailed);
}

#[test]
fn trailing_bytes_fail_to_decode() {
    let mut reg = KeyRegistry::new();
    let alice = reg.generate_recipient(String::from("alice")).unwrap();
    reg.generate_sender(String::from("bob")).unwrap();
    let env = seal(&reg, &b"pad".to_vec(), &String::from("bob"), &vec![alice]).unwrap();
    let mut wire = encode_envelope(&env);
    wire.push(0);
    assert_eq!(decode_envelope(&wire).unwrap_err(), EnvelopeError::SerializationFailed);
}

#[test]
fn recipient_identity_wire_round_trip() {
    let mut reg = KeyRegistry::new();
    let alice = reg.generate_recipient(String::from("alice")).unwrap();
    let wire = encode_recipient_identity(&alice);
    let back = decode_recipient_identity(&wire).unwrap();
    assert_eq!(back.id, String::from("alice"));
    assert_eq!(back.kem_public, alice.kem_public);
}

#[test]
fn sender_identity_wire_round_trip() {
    let mut reg = KeyRegistry::new();
    let bob = reg.generate_sender(String::from("bob")).unwrap();
    let wire = encode_sender_identity(&bob);
    let back = decode_sender_identity(&wire).unwrap();
    assert_eq!(back.id, String::from("bob"));
    assert_eq!(back.sign_public, bob.sign_public);
}

#[test]
fn identity_decode_rejects_garbage() {
    assert_eq!(
        decode_recipient_identity(&vec![9, 9]).unwrap_err(),
        EnvelopeError::SerializationFailed
    );
    assert_eq!(decode_sender_identity(&Vec::new()).unwrap_err(), EnvelopeError::SerializationFailed);
}

#[test]
fn digest_ignores_signature_and_covers_payload() {
    let mut reg = KeyRegistry::new();
    let alice = reg.generate_recipient(String::from("alice")).unwrap();
    reg.generate_sender(String::from("bob")).unwrap();
    let env = seal(&reg, &b"digest me".to_vec(), &String::from("bob"), &vec![alice]).unwrap();
    let d1 = digest_bytes(&env);
    let mut unsigned = env.clone();
    unsigned.signature = Vec::new();
    assert_eq!(digest_bytes(&unsigned), d1);
    let mut altered = env.clone();
    altered.ciphertext[0] ^= 0xff;
    assert_ne!(digest_bytes(&altered), d1);
}

#[test]
fn resigned_tampered_payload_fails_authentication() {
    // A forger who can sign under an identifier the recipient trusts can make
    // the signature check pass on altered payload bytes; the AEAD tag still
    // rejects them, one step later.
    let mut reg = KeyRegistry::new();
    let alice = reg.generate_recipient(String::from("alice")).unwrap();
    reg.generate_sender(String::from("bob")).unwrap();
    let env = seal(&reg, &b"defense in depth".to_vec(), &String::from("bob"), &vec![alice])
        .unwrap();

    let mut forged = env.clone();
    forged.ciphertext[0] ^= 0x01;
    let eve = DilithiumKeyPair::generate(ML_DSA_65).unwrap();
    let digest = digest_bytes(&forged);
    let sig = eve.sign(&digest, b"").unwrap();
    forged.signature = sig.as_bytes().to_vec();

    let trusted_eve = pq_envelope::SenderIdentity {
        id: String::from("bob"),
        sign_public: eve.public_key().to_vec(),
    };
    let r = open_envelope(&reg, &forged, &String::from("alice"), &vec![trusted_eve]);
    assert_eq!(r.unwrap_err(), EnvelopeError::PayloadAuthenticationFailed);
}

#[test]
fn resigned_truncated_tag_fails_authentication() {
    // A tag that is not a whole Poly1305 tag is payload corruption even when
    // the envelope was re-signed over it.
    let mut reg = KeyRegistry::new();
    let alice = reg.generate_recipient(String::from("alice")).unwrap();
    reg.generate_sender(String::from("bob")).unwrap();
    let env = seal(&reg, &b"short tag".to_vec(), &String::from("bob"), &vec![alice]).unwrap();

    let mut forged = env.clone();
    forged.tag.truncate(15);
    let eve = DilithiumKeyPair::generate(ML_DSA_65).unwrap();
    let digest = digest_bytes(&forged);
    let sig = eve.sign(&digest, b"").unwrap();
    forged.signature = sig.as_bytes().to_vec();

    let trusted_eve = pq_envelope::SenderIdentity {
        id: String::from("bob"),
        sign_public: eve.public_key().to_vec(),
    };
    let r = open_envelope(&reg, &forged, &String::from("alice"), &vec![trusted_eve]);
    assert_eq!(r.unwrap_err(), EnvelopeError::PayloadAuthenticationFailed);
}
