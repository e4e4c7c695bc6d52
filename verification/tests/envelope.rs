use pq_envelope::{
    open_envelope, seal, EnvelopeError, KeyRegistry, RecipientIdentity, SenderIdentity,
};

fn setup() -> (KeyRegistry, RecipientIdentity, SenderIdentity) {
    let mut reg = KeyRegistry::new();
    let alice = reg.generate_recipient(String::from("alice")).unwrap();
    let bob = reg.generate_sender(String::from("bob")).unwrap();
    (reg, alice, bob)
}

#[test]
fn round_trip_single_recipient() {
    let (reg, alice, bob) = setup();
    let msg = b"attack at dawn".to_vec();
    let env = seal(&reg, &msg, &String::from("bob"), &vec![alice.clone()]).unwrap();
    let pt = open_envelope(&reg, &env, &String::from("alice"), &vec![bob.clone()]).unwrap();
    assert_eq!(pt, msg);
}

#[test]
fn round_trip_empty_plaintext() {
    let (reg, alice, bob) = setup();
    let msg: Vec<u8> = Vec::new();
    let env = seal(&reg, &msg, &String::from("bob"), &vec![alice.clone()]).unwrap();
    let pt = open_envelope(&reg, &env, &String::from("alice"), &vec![bob.clone()]).unwrap();
    assert_eq!(pt, msg);
}

#[test]
fn multi_recipient_independence() {
    let mut reg = KeyRegistry::new();
    let alice = reg.generate_recipient(String::from("alice")).unwrap();
    let carol = reg.generate_recipient(String::from("carol")).unwrap();
    let dave = reg.generate_recipient(String::from("dave")).unwrap();
    let bob = reg.generate_sender(String::from("bob")).unwrap();
    let msg = b"to all of you".to_vec();
    let env = seal(
        &reg,
        &msg,
        &String::from("bob"),
        &vec![alice.clone(), carol.clone(), dave.clone()],
    )
    .unwrap();
    let allow = vec![bob.clone()];
    let p1 = open_envelope(&reg, &env, &String::from("alice"), &allow).unwrap();
    let p2 = open_envelope(&reg, &env, &String::from("carol"), &allow).unwrap();
    let p3 = open_envelope(&reg, &env, &String::from("dave"), &allow).unwrap();
    assert_eq!(p1, msg);
    assert_eq!(p1, p2);
    assert_eq!(p2, p3);
}

#[test]
fn duplicate_recipient_entries_both_open() {
    let (reg, alice, bob) = setup();
    let msg = b"twice addressed".to_vec();
    let env = seal(&reg, &msg, &String::from("bob"), &vec![alice.clone(), alice.clone()]).unwrap();
    assert_eq!(env.recipients.len(), 2);
    let pt = open_envelope(&reg, &env, &String::from("alice"), &vec![bob.clone()]).unwrap();
    assert_eq!(pt, msg);
}

#[test]
fn ciphertext_is_not_plaintext() {
    let (reg, alice, _bob) = setup();
    let msg = b"not in the clear".to_vec();
    let env = seal(&reg, &msg, &String::from("bob"), &vec![alice.clone()]).unwrap();
    assert_eq!(env.ciphertext.len(), msg.len());
    assert_ne!(env.ciphertext, msg);
}

#[test]
fn untrusted_sender_rejected_with_empty_allow_list() {
    let (reg, alice, _bob) = setup();
    let msg = b"hello".to_vec();
    let env = seal(&reg, &msg, &String::from("bob"), &vec![alice.clone()]).unwrap();
    let r = open_envelope(&reg, &env, &String::from("alice"), &Vec::new());
    assert_eq!(r.unwrap_err(), EnvelopeError::UntrustedSender);
}

#[test]
fn wrong_recipient_rejected() {
    let mut reg = KeyRegistry::new();
    let alice = reg.generate_recipient(String::from("alice")).unwrap();
    let _carol = reg.generate_recipient(String::from("carol")).unwrap();
    let bob = reg.generate_sender(String::from("bob")).unwrap();
    let msg = b"for alice only".to_vec();
    let env = seal(&reg, &msg, &String::from("bob"), &vec![alice.clone()]).unwrap();
    let r = open_envelope(&reg, &env, &String::from("carol"), &vec![bob.clone()]);
    assert_eq!(r.unwrap_err(), EnvelopeError::RecipientNotAddressed);
}

#[test]
fn unknown_sender_rejected() {
    let (reg, alice, _bob) = setup();
    let msg = b"hello".to_vec();
    let r = seal(&reg, &msg, &String::from("mallory"), &vec![alice.clone()]);
    assert_eq!(r.unwrap_err(), EnvelopeError::UnknownSender);
}

#[test]
fn unknown_recipient_rejected() {
    let (reg, alice, bob) = setup();
    let msg = b"hello".to_vec();
    let env = seal(&reg, &msg, &String::from("bob"), &vec![alice.clone()]).unwrap();
    let r = open_envelope(&reg, &env, &String::from("nobody"), &vec![bob.clone()]);
    assert_eq!(r.unwrap_err(), EnvelopeError::UnknownRecipient);
}

#[test]
fn duplicate_identifier_rejected() {
    let mut reg = KeyRegistry::new();
    reg.generate_recipient(String::from("alice")).unwrap();
    let r = reg.generate_recipient(String::from("alice"));
    assert_eq!(r.unwrap_err(), EnvelopeError::DuplicateIdentifier);
    reg.generate_sender(String::from("bob")).unwrap();
    let s = reg.generate_sender(String::from("bob"));
    assert_eq!(s.unwrap_err(), EnvelopeError::DuplicateIdentifier);
}

#[test]
fn recipient_and_sender_namespaces_are_separate() {
    let mut reg = KeyRegistry::new();
    reg.generate_recipient(String::from("pat")).unwrap();
    assert!(reg.generate_sender(String::from("pat")).is_ok());
}

#[test]
fn encapsulation_failure_names_first_bad_recipient() {
    let (reg, alice, _bob) = setup();
    let bogus = RecipientIdentity { id: String::from("shorty"), kem_public: vec![1, 2, 3] };
    let msg = b"hello".to_vec();
    let r = seal(&reg, &msg, &String::from("bob"), &vec![alice.clone(), bogus]);
    match r.unwrap_err() {
        EnvelopeError::EncapsulationFailed { recipient_id } => {
            assert_eq!(recipient_id, String::from("shorty"));
        },
        other => panic!("expected EncapsulationFailed, got {:?}", other),
    }
}

#[test]
fn tampered_ciphertext_rejected_as_signature_invalid() {
    let (reg, alice, bob) = setup();
    let msg = b"integrity matters".to_vec();
    let env = seal(&reg, &msg, &String::from("bob"), &vec![alice.clone()]).unwrap();
    let mut bad = env.clone();
    bad.ciphertext[0] ^= 0x01;
    let r = open_envelope(&reg, &bad, &String::from("alice"), &vec![bob.clone()]);
    assert_eq!(r.unwrap_err(), EnvelopeError::SignatureInvalid);
}

#[test]
fn tampered_tag_rejected_as_signature_invalid() {
    let (reg, alice, bob) = setup();
    let msg = b"integrity matters".to_vec();
    let env = seal(&reg, &msg, &String::from("bob"), &vec![alice.clone()]).unwrap();
    let mut bad = env.clone();
    bad.tag[15] ^= 0x80;
    let r = open_envelope(&reg, &bad, &String::from("alice"), &vec![bob.clone()]);
    assert_eq!(r.unwrap_err(), EnvelopeError::SignatureInvalid);
}

#[test]
fn tampered_nonce_rejected_as_signature_invalid() {
    let (reg, alice, bob) = setup();
    let msg = b"integrity matters".to_vec();
    let env = seal(&reg, &msg, &String::from("bob"), &vec![alice.clone()]).unwrap();
    let mut bad = env.clone();
    bad.nonce[0] ^= 0x01;
    let r = open_envelope(&reg, &bad, &String::from("alice"), &vec![bob.clone()]);
    assert_eq!(r.unwrap_err(), EnvelopeError::SignatureInvalid);
}

#[test]
fn tampered_other_recipient_id_rejected_as_signature_invalid() {
    let mut reg = KeyRegistry::new();
    let alice = reg.generate_recipient(String::from("alice")).unwrap();
    let carol = reg.generate_recipient(String::from("carol")).unwrap();
    let bob = reg.generate_sender(String::from("bob")).unwrap();
    let msg = b"two of you".to_vec();
    let env =
        seal(&reg, &msg, &String::from("bob"), &vec![alice.clone(), carol.clone()]).unwrap();
    let mut bad = env.clone();
    // Swap the second recipient's identifier for another string: alice's own
    // entry is untouched, but the signed recipient list changed.
    bad.recipients[1].recipient_id = String::from("caroz");
    let r = open_envelope(&reg, &bad, &String::from("alice"), &vec![bob.clone()]);
    assert_eq!(r.unwrap_err(), EnvelopeError::SignatureInvalid);
}

#[test]
fn tampered_sender_id_never_succeeds() {
    let (reg, alice, bob) = setup();
    let msg = b"who sent this".to_vec();
    let env = seal(&reg, &msg, &String::from("bob"), &vec![alice.clone()]).unwrap();
    let mut bad = env.clone();
    bad.sender_id = String::from("boc");
    // The allow-list no longer carries the envelope's sender identifier.
    let r = open_envelope(&reg, &bad, &String::from("alice"), &vec![bob.clone()]);
    assert_eq!(r.unwrap_err(), EnvelopeError::UntrustedSender);
    // Even an allow-list that trusts bob's key under the altered identifier
    // only moves the failure to signature verification.
    let forged = SenderIdentity { id: String::from("boc"), sign_public: bob.sign_public.clone() };
    let r2 = open_envelope(&reg, &bad, &String::from("alice"), &vec![forged]);
    assert_eq!(r2.unwrap_err(), EnvelopeError::SignatureInvalid);
}

#[test]
fn tampered_encapsulated_key_rejected_as_decapsulation_failure() {
    let (reg, alice, bob) = setup();
    let msg = b"wrapped key".to_vec();
    let env = seal(&reg, &msg, &String::from("bob"), &vec![alice.clone()]).unwrap();
    // The signature covers the recipient identifiers, not the encapsulated
    // keys themselves; corruption here is caught at decapsulation.
    let mut bad = env.clone();
    let last = bad.recipients[0].encapsulated_key.len() - 1;
    bad.recipients[0].encapsulated_key[last] ^= 0x01;
    let r = open_envelope(&reg, &bad, &String::from("alice"), &vec![bob.clone()]);
    assert_eq!(r.unwrap_err(), EnvelopeError::DecapsulationFailed);
}

#[test]
fn truncated_encapsulated_key_rejected_as_decapsulation_failure() {
    let (reg, alice, bob) = setup();
    let msg = b"wrapped key".to_vec();
    let env = seal(&reg, &msg, &String::from("bob"), &vec![alice.clone()]).unwrap();
    let mut bad = env.clone();
    bad.recipients[0].encapsulated_key.truncate(100);
    let r = open_envelope(&reg, &bad, &String::from("alice"), &vec![bob.clone()]);
    assert_eq!(r.unwrap_err(), EnvelopeError::DecapsulationFailed);
}

#[test]
fn concrete_scenario() {
    let mut reg = KeyRegistry::new();
    let alice = reg.generate_recipient(String::from("alice")).unwrap();
    let bob = reg.generate_sender(String::from("bob")).unwrap();
    let msg = b"hello".to_vec();
    assert_eq!(msg.len(), 5);
    let env = seal(&reg, &msg, &String::from("bob"), &vec![alice.clone()]).unwrap();

    let pt = open_envelope(&reg, &env, &String::from("alice"), &vec![bob.clone()]).unwrap();
    assert_eq!(pt, b"hello".to_vec());

    let empty = open_envelope(&reg, &env, &String::from("alice"), &Vec::new());
    assert_eq!(empty.unwrap_err(), EnvelopeError::UntrustedSender);

    // An unrelated sender's public key presented under the identifier "bob".
    let mut other_reg = KeyRegistry::new();
    let impostor = other_reg.generate_sender(String::from("bob")).unwrap();
    let r = open_envelope(&reg, &env, &String::from("alice"), &vec![impostor]);
    assert_eq!(r.unwrap_err(), EnvelopeError::SignatureInvalid);
}

#[test]
fn allow_list_uses_first_entry_for_sender_id() {
    let (reg, alice, bob) = setup();
    let msg = b"first match wins".to_vec();
    let env = seal(&reg, &msg, &String::from("bob"), &vec![alice.clone()]).unwrap();
    let mut other_reg = KeyRegistry::new();
    let impostor = other_reg.generate_sender(String::from("bob")).unwrap();
    // The impostor's key stands first under "bob": verification uses it and
    // fails; trust is not silently transferred to a later entry.
    let r = open_envelope(&reg, &env, &String::from("alice"), &vec![impostor, bob.clone()]);
    assert_eq!(r.unwrap_err(), EnvelopeError::SignatureInvalid);
}
