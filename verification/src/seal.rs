//! The seal protocol: encrypt a message once for a set of recipients and
//! bind the sender's identity to it.
//!
//! A fresh content key encrypts the payload; for each recipient the content
//! key is wrapped under an ML-KEM shared secret encapsulated to that
//! recipient; the sender signs the canonical digest of everything that
//! determines plaintext recovery. Encapsulation failure for any recipient is
//! fatal to the whole operation.

use vstd::prelude::*;

use crate::bytes::{fits_len, push_bytes, str_byte_len};
use crate::codec::{digest_bytes, digest_spec};
use crate::errors::EnvelopeError;
use crate::primitives::{
    aead_pt, aead_seal, kem_decap_of, kem_encaps, kem_keypair, random_bytes, sig_verifies,
    sign_bytes, KEM_PUBLIC_LEN, NONCE_LEN, SYM_KEY_LEN,
};
use crate::registry::KeyRegistry;
use crate::types::{
    entry_cek, env_wf, Envelope, RecipientEntry, RecipientIdentity, ENTRY_LEN,
};

verus! {

/// A recipient identity that encapsulation must reject: its KEM public key
/// does not have the ML-KEM-1024 encoded length.
pub open spec fn bad_recipient_at(recips: Seq<RecipientIdentity>, i: int) -> bool {
    recips[i].kem_public@.len() != KEM_PUBLIC_LEN
}

/// One content key protects the envelope: the payload decrypts to the
/// plaintext under it, and every recipient entry decapsulates to it under
/// any private key matching that recipient's sealed public key.
pub open spec fn sealed_with_cek(
    env: &Envelope,
    pt: Seq<u8>,
    recips: Seq<RecipientIdentity>,
    cek: Seq<u8>,
) -> bool {
    &&& cek.len() == SYM_KEY_LEN
    &&& aead_pt(cek, env.nonce@, env.ciphertext@, env.tag@) == Some(pt)
    &&& forall|i: int, sk: Seq<u8>|
        0 <= i < recips.len() && #[trigger] kem_keypair(recips[i].kem_public@, sk) ==> entry_cek(
            sk,
            env.recipients@[i].encapsulated_key@,
        ) == Some(cek)
}

/// What a successful seal guarantees of its envelope: the sender's identifier
/// stands in it, the entries mirror the recipient list in order, the envelope
/// is well formed, its digest verifies under the sender's signing key, and
/// one fresh content key ties payload and entries together.
pub open spec fn sealed_spec(
    env: &Envelope,
    pt: Seq<u8>,
    sender_id: Seq<char>,
    sender_pk: Seq<u8>,
    recips: Seq<RecipientIdentity>,
) -> bool {
    &&& env.sender_id@ == sender_id
    &&& env.recipients@.len() == recips.len()
    &&& forall|i: int|
        0 <= i < recips.len() ==> (#[trigger] env.recipients@[i]).recipient_id@ == recips[i].id@
    &&& env_wf(env)
    &&& env.ciphertext@.len() == pt.len()
    &&& sig_verifies(sender_pk, digest_spec(env), env.signature@)
    &&& exists|cek: Seq<u8>| #[trigger] sealed_with_cek(env, pt, recips, cek)
}

/// Seals `plaintext` from the registered sender `sender_id` to every identity
/// in `recipients`: fails with `UnknownSender` when the sender is not
/// registered, with `EncapsulationFailed` naming the first recipient whose
/// KEM public key is unusable, and otherwise returns an envelope satisfying
/// `sealed_spec` under the sender's registered signing key. At least one
/// recipient must be given; the payload must stay far below the XChaCha20
/// counter limit.
pub fn seal(
    reg: &KeyRegistry,
    plaintext: &Vec<u8>,
    sender_id: &String,
    recipients: &Vec<RecipientIdentity>,
) -> (r: Result<Envelope, EnvelopeError>)
    requires
        recipients@.len() >= 1,
        plaintext@.len() < 0x1_0000_0000,
    ensures
        r is Ok <==> (reg.spec_senders().dom().contains(sender_id@) && forall|i: int|
            0 <= i < recipients@.len() ==> !bad_recipient_at(recipients@, i)),
        !reg.spec_senders().dom().contains(sender_id@) ==> r == Err::<Envelope, EnvelopeError>(
            EnvelopeError::UnknownSender,
        ),
        r matches Err(e) ==> (e == EnvelopeError::UnknownSender || e matches
            EnvelopeError::EncapsulationFailed { recipient_id: _ }),
        r == Err::<Envelope, EnvelopeError>(EnvelopeError::UnknownSender)
            ==> !reg.spec_senders().dom().contains(sender_id@),
        r matches Err(EnvelopeError::EncapsulationFailed { recipient_id }) ==> exists|i: int|
            0 <= i < recipients@.len() && #[trigger] bad_recipient_at(recipients@, i)
                && recipient_id@ == recipients@[i].id@ && (forall|j: int|
                0 <= j < i ==> !bad_recipient_at(recipients@, j)),
        r matches Ok(env) ==> sealed_spec(
            &env,
            plaintext@,
            sender_id@,
            reg.spec_senders()[sender_id@].spec_sign_public(),
            recipients@,
        ),
{
    let skp = match reg.lookup_sender_private(sender_id) {
        Some(kp) => kp,
        None => {
            return Err(EnvelopeError::UnknownSender);
        },
    };
    let cek = random_bytes(SYM_KEY_LEN);
    let nonce = random_bytes(NONCE_LEN);
    let (ciphertext, tag) = aead_seal(&cek, &nonce, plaintext);
    let mut entries: Vec<RecipientEntry> = Vec::new();
    let mut i: usize = 0;
    while i < recipients.len()
        invariant
            i <= recipients@.len(),
            entries@.len() == i,
            cek@.len() == SYM_KEY_LEN,
            reg.spec_senders().dom().contains(sender_id@),
            forall|j: int| 0 <= j < i ==> !bad_recipient_at(recipients@, j),
            forall|j: int|
                0 <= j < i ==> (#[trigger] entries@[j]).recipient_id@ == recipients@[j].id@,
            forall|j: int|
                0 <= j < i ==> (#[trigger] entries@[j]).encapsulated_key@.len() == ENTRY_LEN,
            forall|j: int|
                0 <= j < i ==> fits_len(
                    vstd::utf8::encode_utf8(#[trigger] entries@[j].recipient_id@),
                ),
            forall|j: int, sk: Seq<u8>|
                0 <= j < i && #[trigger] kem_keypair(recipients@[j].kem_public@, sk) ==> entry_cek(
                    sk,
                    entries@[j].encapsulated_key@,
                ) == Some(cek@),
        decreases recipients@.len() - i,
    {
        let rec = &recipients[i];
        if rec.kem_public.len() != KEM_PUBLIC_LEN {
            proof {
                assert(bad_recipient_at(recipients@, i as int));
            }
            return Err(EnvelopeError::EncapsulationFailed { recipient_id: rec.id.clone() });
        }
        let (kem_ct, ss) = kem_encaps(&rec.kem_public);
        let wnonce = random_bytes(NONCE_LEN);
        let (wct, wtag) = aead_seal(&ss, &wnonce, &cek);
        let ghost ct0 = kem_ct@;
        let mut ek = kem_ct;
        push_bytes(&mut ek, &wnonce);
        push_bytes(&mut ek, &wct);
        push_bytes(&mut ek, &wtag);
        // Materializes the identifier's byte length as a usize, bounding it
        // for its wire length prefix.
        let _id_len = str_byte_len(&rec.id);
        proof {
            assert(ek@.len() == ENTRY_LEN);
            assert(ek@.subrange(0, 1568) =~= ct0);
            assert(ek@.subrange(1568, 1592) =~= wnonce@);
            assert(ek@.subrange(1592, 1624) =~= wct@);
            assert(ek@.subrange(1624, 1640) =~= wtag@);
            assert forall|sk: Seq<u8>| #[trigger]
                kem_keypair(rec.kem_public@, sk) implies entry_cek(sk, ek@) == Some(cek@) by {
                assert(kem_decap_of(sk, ct0) == ss@);
                assert(aead_pt(ss@, wnonce@, wct@, wtag@) == Some(cek@));
            }
        }
        entries.push(RecipientEntry { recipient_id: rec.id.clone(), encapsulated_key: ek });
        i = i + 1;
    }
    let mut env = Envelope {
        sender_id: sender_id.clone(),
        recipients: entries,
        nonce,
        ciphertext,
        tag,
        signature: Vec::new(),
    };
    let digest = digest_bytes(&env);
    let rnd = random_bytes(SYM_KEY_LEN);
    proof {
        skp.lemma_field_views();
    }
    let sig = match sign_bytes(&skp.sign_private, &skp.sign_public, &digest, &rnd) {
        Some(s) => s,
        None => {
            return vstd::pervasive::unreached();
        },
    };
    let ghost env_before = env;
    env.signature = sig;
    // Materializes the remaining field lengths as usizes, bounding them for
    // their wire length prefixes.
    let _sender_len = str_byte_len(&env.sender_id);
    let _ct_len = env.ciphertext.len();
    let _sig_len = env.signature.len();
    proof {
        assert(digest_spec(&env) == digest_spec(&env_before));
        assert(env_wf(&env));
        assert(sealed_with_cek(&env, plaintext@, recipients@, cek@));
    }
    Ok(env)
}

} // verus!
