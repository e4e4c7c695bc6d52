//! The open protocol: recover the plaintext of an envelope as one recipient,
//! enforcing the caller-supplied trust policy.
//!
//! Ordering is a security invariant, not an optimization: the signature is
//! verified against the allow-listed key before any decapsulation or
//! decryption is attempted, so a forged envelope is never decapsulated or
//! decrypted. Every failure surfaces with its specific kind; no partial
//! plaintext is ever returned.

use vstd::prelude::*;

use crate::codec::{digest_bytes, digest_spec};
use crate::errors::EnvelopeError;
use crate::primitives::{aead_open, kem_decaps, sig_verifies, verify_bytes, NONCE_LEN, TAG_LEN};
use crate::registry::KeyRegistry;
use crate::types::{entry_cek, Envelope, RecipientEntry, SenderIdentity, ENTRY_LEN};

verus! {

/// The first entry addressed to `rid`, if any: the one the open protocol
/// uses.
pub open spec fn find_entry(entries: Seq<RecipientEntry>, rid: Seq<char>) -> Option<RecipientEntry>
    decreases entries.len(),
{
    if entries.len() == 0 {
        None
    } else if entries[0].recipient_id@ == rid {
        Some(entries[0])
    } else {
        find_entry(entries.drop_first(), rid)
    }
}

/// The first allow-list identity carrying `sid`, if any: the key the
/// signature is checked against.
pub open spec fn find_sender(allowed: Seq<SenderIdentity>, sid: Seq<char>) -> Option<SenderIdentity>
    decreases allowed.len(),
{
    if allowed.len() == 0 {
        None
    } else if allowed[0].id@ == sid {
        Some(allowed[0])
    } else {
        find_sender(allowed.drop_first(), sid)
    }
}

/// What opening an envelope returns, as a function of the registry, the
/// envelope, the opening recipient and the allow-list. The nesting mirrors
/// the protocol's mandatory order: recipient resolution, entry lookup, trust
/// policy, signature verification, decapsulation, payload decryption. A
/// payload nonce or tag of the wrong length counts as payload corruption.
pub open spec fn open_model(
    reg: &KeyRegistry,
    env: &Envelope,
    rid: Seq<char>,
    allowed: Seq<SenderIdentity>,
) -> Result<Seq<u8>, EnvelopeError> {
    if !reg.spec_recipients().dom().contains(rid) {
        Err(EnvelopeError::UnknownRecipient)
    } else {
        match find_entry(env.recipients@, rid) {
            None => Err(EnvelopeError::RecipientNotAddressed),
            Some(entry) => match find_sender(allowed, env.sender_id@) {
                None => Err(EnvelopeError::UntrustedSender),
                Some(s) => if !sig_verifies(
                    s.sign_public@,
                    digest_spec(env),
                    env.signature@,
                ) {
                    Err(EnvelopeError::SignatureInvalid)
                } else {
                    match entry_cek(
                        reg.spec_recipients()[rid].spec_kem_private(),
                        entry.encapsulated_key@,
                    ) {
                        None => Err(EnvelopeError::DecapsulationFailed),
                        Some(cek) => if env.nonce@.len() != NONCE_LEN || env.tag@.len()
                            != TAG_LEN {
                            Err(EnvelopeError::PayloadAuthenticationFailed)
                        } else {
                            match crate::primitives::aead_pt(
                                cek,
                                env.nonce@,
                                env.ciphertext@,
                                env.tag@,
                            ) {
                                None => Err(EnvelopeError::PayloadAuthenticationFailed),
                                Some(pt) => Ok(pt),
                            }
                        },
                    }
                },
            },
        }
    }
}

/// A scan that found no match up to the end means `find_entry` finds none.
pub proof fn lemma_find_entry_none(entries: Seq<RecipientEntry>, rid: Seq<char>)
    requires
        forall|j: int| 0 <= j < entries.len() ==> (#[trigger] entries[j]).recipient_id@ != rid,
    ensures
        find_entry(entries, rid) is None,
    decreases entries.len(),
{
    if entries.len() > 0 {
        lemma_find_entry_none(entries.drop_first(), rid);
    }
}

/// A first match at `i` is what `find_entry` returns.
pub proof fn lemma_find_entry_first(entries: Seq<RecipientEntry>, rid: Seq<char>, i: int)
    requires
        0 <= i < entries.len(),
        entries[i].recipient_id@ == rid,
        forall|j: int| 0 <= j < i ==> (#[trigger] entries[j]).recipient_id@ != rid,
    ensures
        find_entry(entries, rid) == Some(entries[i]),
    decreases i,
{
    if i > 0 {
        lemma_find_entry_first(entries.drop_first(), rid, i - 1);
    }
}

/// A scan that found no match up to the end means `find_sender` finds none.
pub proof fn lemma_find_sender_none(allowed: Seq<SenderIdentity>, sid: Seq<char>)
    requires
        forall|j: int| 0 <= j < allowed.len() ==> (#[trigger] allowed[j]).id@ != sid,
    ensures
        find_sender(allowed, sid) is None,
    decreases allowed.len(),
{
    if allowed.len() > 0 {
        lemma_find_sender_none(allowed.drop_first(), sid);
    }
}

/// A first match at `i` is what `find_sender` returns.
pub proof fn lemma_find_sender_first(allowed: Seq<SenderIdentity>, sid: Seq<char>, i: int)
    requires
        0 <= i < allowed.len(),
        allowed[i].id@ == sid,
        forall|j: int| 0 <= j < i ==> (#[trigger] allowed[j]).id@ != sid,
    ensures
        find_sender(allowed, sid) == Some(allowed[i]),
    decreases i,
{
    if i > 0 {
        lemma_find_sender_first(allowed.drop_first(), sid, i - 1);
    }
}

/// Scans for the first entry addressed to `rid`.
fn find_entry_index(entries: &Vec<RecipientEntry>, rid: &String) -> (r: Option<usize>)
    ensures
        r matches Some(i) ==> i < entries@.len() && find_entry(entries@, rid@) == Some(
            entries@[i as int],
        ),
        r is None ==> find_entry(entries@, rid@) is None,
{
    let mut i: usize = 0;
    while i < entries.len()
        invariant
            i <= entries@.len(),
            forall|j: int| 0 <= j < i ==> (#[trigger] entries@[j]).recipient_id@ != rid@,
        decreases entries@.len() - i,
    {
        if entries[i].recipient_id == *rid {
            proof {
                lemma_find_entry_first(entries@, rid@, i as int);
            }
            return Some(i);
        }
        i = i + 1;
    }
    proof {
        lemma_find_entry_none(entries@, rid@);
    }
    None
}

/// Scans for the first allow-list identity carrying `sid`.
fn find_sender_index(allowed: &Vec<SenderIdentity>, sid: &String) -> (r: Option<usize>)
    ensures
        r matches Some(i) ==> i < allowed@.len() && find_sender(allowed@, sid@) == Some(
            allowed@[i as int],
        ),
        r is None ==> find_sender(allowed@, sid@) is None,
{
    let mut i: usize = 0;
    while i < allowed.len()
        invariant
            i <= allowed@.len(),
            forall|j: int| 0 <= j < i ==> (#[trigger] allowed@[j]).id@ != sid@,
        decreases allowed@.len() - i,
    {
        if allowed[i].id == *sid {
            proof {
                lemma_find_sender_first(allowed@, sid@, i as int);
            }
            return Some(i);
        }
        i = i + 1;
    }
    proof {
        lemma_find_sender_none(allowed@, sid@);
    }
    None
}

/// Opens `env` as the registered recipient `recipient_id`, trusting exactly
/// the senders on `allowed_senders`. Returns precisely what `open_model`
/// prescribes: the plaintext, or the failure kind of the first step that
/// rejects.
pub fn open_envelope(
    reg: &KeyRegistry,
    env: &Envelope,
    recipient_id: &String,
    allowed_senders: &Vec<SenderIdentity>,
) -> (r: Result<Vec<u8>, EnvelopeError>)
    ensures
        r matches Ok(p) ==> open_model(reg, env, recipient_id@, allowed_senders@) == Ok::<
            Seq<u8>,
            EnvelopeError,
        >(p@),
        r matches Err(e) ==> open_model(reg, env, recipient_id@, allowed_senders@) == Err::<
            Seq<u8>,
            EnvelopeError,
        >(e),
{
    let rkp = match reg.lookup_recipient_private(recipient_id) {
        Some(kp) => kp,
        None => {
            return Err(EnvelopeError::UnknownRecipient);
        },
    };
    // Step 2: locate this recipient's encapsulated-key entry.
    let idx = match find_entry_index(&env.recipients, recipient_id) {
        Some(i) => i,
        None => {
            return Err(EnvelopeError::RecipientNotAddressed);
        },
    };
    let entry = &env.recipients[idx];
    // Step 3: recompute the canonical digest over the envelope's fields.
    let digest = digest_bytes(env);
    // Step 4: find the sender on the caller's allow-list.
    let sdx = match find_sender_index(allowed_senders, &env.sender_id) {
        Some(i) => i,
        None => {
            return Err(EnvelopeError::UntrustedSender);
        },
    };
    let trusted = &allowed_senders[sdx];
    // Step 5: verify the signature before any decapsulation or decryption.
    if !verify_bytes(&trusted.sign_public, &digest, &env.signature) {
        return Err(EnvelopeError::SignatureInvalid);
    }
    // Step 6: decapsulate and unwrap the content key.
    if entry.encapsulated_key.len() != ENTRY_LEN {
        return Err(EnvelopeError::DecapsulationFailed);
    }
    let ek = &entry.encapsulated_key;
    let kem_ct = vstd::slice::slice_to_vec(vstd::slice::slice_subrange(ek.as_slice(), 0, 1568));
    let wnonce = vstd::slice::slice_to_vec(vstd::slice::slice_subrange(ek.as_slice(), 1568, 1592));
    let wct = vstd::slice::slice_to_vec(vstd::slice::slice_subrange(ek.as_slice(), 1592, 1624));
    let wtag = vstd::slice::slice_to_vec(vstd::slice::slice_subrange(ek.as_slice(), 1624, 1640));
    proof {
        rkp.lemma_field_views();
    }
    let kek = kem_decaps(&rkp.kem_private, &kem_ct);
    let cek = match aead_open(&kek, &wnonce, &wct, &wtag) {
        Some(c) => c,
        None => {
            return Err(EnvelopeError::DecapsulationFailed);
        },
    };
    // Step 7: decrypt and authenticate the payload under the content key.
    if env.nonce.len() != NONCE_LEN || env.tag.len() != TAG_LEN {
        return Err(EnvelopeError::PayloadAuthenticationFailed);
    }
    match aead_open(&cek, &env.nonce, &env.ciphertext, &env.tag) {
        Some(pt) => Ok(pt),
        None => Err(EnvelopeError::PayloadAuthenticationFailed),
    }
}

} // verus!
