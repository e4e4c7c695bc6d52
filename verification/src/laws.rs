//! The protocol's laws: what holds of opening any envelope that `seal`
//! guarantees (`sealed_spec`), stated over the spec functions that `seal` and
//! `open_envelope` use in their contracts and proved from them.

use vstd::prelude::*;

use crate::codec::digest_spec;
use crate::errors::EnvelopeError;
use crate::open::{find_entry, find_sender, lemma_find_entry_none, open_model};
use crate::registry::KeyRegistry;
use crate::seal::{sealed_spec, sealed_with_cek};
use crate::types::{rkp_wf, Envelope, RecipientIdentity, SenderIdentity};

verus! {

/// The hypotheses tying one sealed envelope, one addressed recipient and one
/// allow-list entry together: the recipient at index `i` is registered with
/// the keypair whose public half the envelope was sealed to (identities under
/// one identifier carry one key), and the allow-list resolves the envelope's
/// sender identifier to the signing key the envelope was sealed under.
pub open spec fn round_trip_setting(
    reg: &KeyRegistry,
    env: &Envelope,
    pt: Seq<u8>,
    sender_id: Seq<char>,
    sender_pk: Seq<u8>,
    recips: Seq<RecipientIdentity>,
    i: int,
    allowed: Seq<SenderIdentity>,
) -> bool {
    &&& sealed_spec(env, pt, sender_id, sender_pk, recips)
    &&& 0 <= i < recips.len()
    &&& reg.spec_recipients().dom().contains(recips[i].id@)
    &&& rkp_wf(reg.spec_recipients()[recips[i].id@])
    &&& reg.spec_recipients()[recips[i].id@].spec_kem_public() == recips[i].kem_public@
    &&& forall|j: int|
        0 <= j < recips.len() && (#[trigger] recips[j]).id@ == recips[i].id@ ==> recips[j].kem_public@
            == recips[i].kem_public@
    &&& find_sender(allowed, sender_id) matches Some(s) && s.sign_public@ == sender_pk
}

/// Round trip: every recipient an envelope was sealed to, opening with an
/// allow-list that resolves the sender to the sealing key, recovers exactly
/// the sealed plaintext.
pub proof fn lemma_round_trip(
    reg: &KeyRegistry,
    env: &Envelope,
    pt: Seq<u8>,
    sender_id: Seq<char>,
    sender_pk: Seq<u8>,
    recips: Seq<RecipientIdentity>,
    i: int,
    allowed: Seq<SenderIdentity>,
)
    requires
        round_trip_setting(reg, env, pt, sender_id, sender_pk, recips, i, allowed),
    ensures
        open_model(reg, env, recips[i].id@, allowed) == Ok::<Seq<u8>, EnvelopeError>(pt),
{
    let rid = recips[i].id@;
    let rkp = reg.spec_recipients()[rid];
    let cek = choose|cek: Seq<u8>| #[trigger] sealed_with_cek(env, pt, recips, cek);
    assert(sealed_with_cek(env, pt, recips, cek));
    assert(env.recipients@[i].recipient_id@ == rid);
    let entry = find_entry(env.recipients@, rid);
    assert(entry is Some) by {
        if entry is None {
            lemma_find_entry_is_none_means_no_match(env.recipients@, rid);
        }
    }
    let e = entry->Some_0;
    let k = lemma_find_entry_some_index(env.recipients@, rid);
    assert(env.recipients@[k] == e && env.recipients@[k].recipient_id@ == rid);
    assert(recips[k].id@ == rid);
    assert(recips[k].kem_public@ == recips[i].kem_public@);
    assert(kem_keypair_holds(rkp, recips[k]));
    assert(entry_recovers(env, recips, k, rkp.spec_kem_private(), cek));
    assert(env.nonce@.len() == crate::primitives::NONCE_LEN);
    assert(env.tag@.len() == crate::primitives::TAG_LEN);
    let s = find_sender(allowed, sender_id)->Some_0;
    assert(crate::primitives::sig_verifies(s.sign_public@, digest_spec(env), env.signature@));
}

/// Helper: a found entry sits at some index with a matching identifier.
proof fn lemma_find_entry_some_index(
    entries: Seq<crate::types::RecipientEntry>,
    rid: Seq<char>,
) -> (k: int)
    requires
        find_entry(entries, rid) is Some,
    ensures
        0 <= k < entries.len(),
        entries[k] == find_entry(entries, rid)->Some_0,
        entries[k].recipient_id@ == rid,
    decreases entries.len(),
{
    if entries[0].recipient_id@ == rid {
        0
    } else {
        let k = lemma_find_entry_some_index(entries.drop_first(), rid);
        assert(entries.drop_first()[k] == entries[k + 1]);
        k + 1
    }
}

/// Helper: if `find_entry` finds nothing, no entry matches.
proof fn lemma_find_entry_is_none_means_no_match(
    entries: Seq<crate::types::RecipientEntry>,
    rid: Seq<char>,
)
    requires
        find_entry(entries, rid) is None,
    ensures
        forall|j: int| 0 <= j < entries.len() ==> (#[trigger] entries[j]).recipient_id@ != rid,
    decreases entries.len(),
{
    if entries.len() > 0 {
        lemma_find_entry_is_none_means_no_match(entries.drop_first(), rid);
        assert forall|j: int|
            0 <= j < entries.len() implies (#[trigger] entries[j]).recipient_id@ != rid by {
            if j > 0 {
                assert(entries.drop_first()[j - 1] == entries[j]);
            }
        }
    }
}

/// Helper naming the keypair fact the round trip rests on.
spec fn kem_keypair_holds(
    rkp: crate::types::RecipientKeyPair,
    ident: RecipientIdentity,
) -> bool {
    crate::primitives::kem_keypair(ident.kem_public@, rkp.spec_kem_private())
}

/// Helper naming what one entry recovers.
spec fn entry_recovers(
    env: &Envelope,
    recips: Seq<RecipientIdentity>,
    k: int,
    sk: Seq<u8>,
    cek: Seq<u8>,
) -> bool {
    crate::types::entry_cek(sk, env.recipients@[k].encapsulated_key@) == Some(cek)
}

/// Multi-recipient independence: two recipients of the same envelope, each
/// opening under the same trust setting, recover the identical plaintext.
pub proof fn lemma_multi_recipient_independence(
    reg: &KeyRegistry,
    env: &Envelope,
    pt: Seq<u8>,
    sender_id: Seq<char>,
    sender_pk: Seq<u8>,
    recips: Seq<RecipientIdentity>,
    i1: int,
    i2: int,
    allowed: Seq<SenderIdentity>,
)
    requires
        round_trip_setting(reg, env, pt, sender_id, sender_pk, recips, i1, allowed),
        round_trip_setting(reg, env, pt, sender_id, sender_pk, recips, i2, allowed),
    ensures
        open_model(reg, env, recips[i1].id@, allowed) == open_model(
            reg,
            env,
            recips[i2].id@,
            allowed,
        ),
        open_model(reg, env, recips[i1].id@, allowed) == Ok::<Seq<u8>, EnvelopeError>(pt),
{
    lemma_round_trip(reg, env, pt, sender_id, sender_pk, recips, i1, allowed);
    lemma_round_trip(reg, env, pt, sender_id, sender_pk, recips, i2, allowed);
}

/// Untrusted sender rejection: however valid the signature, opening a sealed
/// envelope as an addressed, registered recipient with an allow-list that
/// does not carry the sender's identifier fails with `UntrustedSender`.
pub proof fn lemma_untrusted_sender(
    reg: &KeyRegistry,
    env: &Envelope,
    pt: Seq<u8>,
    sender_id: Seq<char>,
    sender_pk: Seq<u8>,
    recips: Seq<RecipientIdentity>,
    i: int,
    allowed: Seq<SenderIdentity>,
)
    requires
        sealed_spec(env, pt, sender_id, sender_pk, recips),
        0 <= i < recips.len(),
        reg.spec_recipients().dom().contains(recips[i].id@),
        find_sender(allowed, sender_id) is None,
    ensures
        open_model(reg, env, recips[i].id@, allowed) == Err::<Seq<u8>, EnvelopeError>(
            EnvelopeError::UntrustedSender,
        ),
{
    let rid = recips[i].id@;
    assert(env.recipients@[i].recipient_id@ == rid);
    assert(find_entry(env.recipients@, rid) is Some) by {
        if find_entry(env.recipients@, rid) is None {
            lemma_find_entry_is_none_means_no_match(env.recipients@, rid);
        }
    }
}

/// Wrong recipient rejection: opening a sealed envelope as a registered
/// identifier that is not among the sealed recipients fails with
/// `RecipientNotAddressed`.
pub proof fn lemma_wrong_recipient(
    reg: &KeyRegistry,
    env: &Envelope,
    pt: Seq<u8>,
    sender_id: Seq<char>,
    sender_pk: Seq<u8>,
    recips: Seq<RecipientIdentity>,
    rid: Seq<char>,
    allowed: Seq<SenderIdentity>,
)
    requires
        sealed_spec(env, pt, sender_id, sender_pk, recips),
        reg.spec_recipients().dom().contains(rid),
        forall|j: int| 0 <= j < recips.len() ==> (#[trigger] recips[j]).id@ != rid,
    ensures
        open_model(reg, env, rid, allowed) == Err::<Seq<u8>, EnvelopeError>(
            EnvelopeError::RecipientNotAddressed,
        ),
{
    assert forall|j: int|
        0 <= j < env.recipients@.len() implies (#[trigger] env.recipients@[j]).recipient_id@
        != rid by {
        assert(env.recipients@[j].recipient_id@ == recips[j].id@);
    }
    lemma_find_entry_none(env.recipients@, rid);
}

/// Unknown recipient rejection: opening under an unregistered recipient
/// identifier fails with `UnknownRecipient`, whatever the envelope holds.
pub proof fn lemma_unknown_recipient(
    reg: &KeyRegistry,
    env: &Envelope,
    rid: Seq<char>,
    allowed: Seq<SenderIdentity>,
)
    requires
        !reg.spec_recipients().dom().contains(rid),
    ensures
        open_model(reg, env, rid, allowed) == Err::<Seq<u8>, EnvelopeError>(
            EnvelopeError::UnknownRecipient,
        ),
{
}

/// The verified residue of tamper rejection: plaintext is surfaced only when
/// the envelope's signature verifies, under the allow-listed key for its
/// sender identifier, over the canonical digest of the envelope's fields
/// exactly as presented. Any mutation of those fields forces a fresh
/// verification against the new digest.
pub proof fn lemma_open_needs_valid_signature(
    reg: &KeyRegistry,
    env: &Envelope,
    rid: Seq<char>,
    allowed: Seq<SenderIdentity>,
)
    requires
        open_model(reg, env, rid, allowed) is Ok,
    ensures
        find_sender(allowed, env.sender_id@) matches Some(s) && crate::primitives::sig_verifies(
            s.sign_public@,
            digest_spec(env),
            env.signature@,
        ),
{
}

} // verus!
