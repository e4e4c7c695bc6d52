//! The data model: key material, public identities, and the envelope.

use vstd::prelude::*;

use crate::bytes::fits_len;
use crate::primitives::{
    aead_pt, kem_decap_of, kem_keypair, sig_keypair, KEM_CT_LEN, KEM_PRIVATE_LEN, KEM_PUBLIC_LEN,
    NONCE_LEN, SIG_PRIVATE_LEN, SIG_PUBLIC_LEN, SYM_KEY_LEN, TAG_LEN,
};

verus! {

/// Byte length of one encapsulated-key entry: an ML-KEM ciphertext, the
/// wrapping nonce, the wrapped 32-byte content key, and the wrapping tag.
pub const ENTRY_LEN: usize = KEM_CT_LEN + NONCE_LEN + SYM_KEY_LEN + TAG_LEN;

/// The exportable projection of a recipient keypair: what senders need to
/// address a message to this recipient.
#[derive(Clone, Debug)]
pub struct RecipientIdentity {
    pub id: String,
    pub kem_public: Vec<u8>,
}

/// The exportable projection of a sender keypair: what recipients put on
/// their allow-lists.
#[derive(Clone, Debug)]
pub struct SenderIdentity {
    pub id: String,
    pub sign_public: Vec<u8>,
}

/// A recipient's full keypair. Owned by the registry; the private half never
/// leaves it: outside this crate it is visible to specifications only.
pub struct RecipientKeyPair {
    pub id: String,
    pub kem_public: Vec<u8>,
    pub(crate) kem_private: Vec<u8>,
}

impl RecipientKeyPair {
    /// The identifier, for specifications.
    pub closed spec fn spec_id(&self) -> Seq<char> {
        self.id@
    }

    /// The public half's bytes, for specifications.
    pub closed spec fn spec_kem_public(&self) -> Seq<u8> {
        self.kem_public@
    }

    /// The private half's bytes, for specifications; no executable accessor
    /// exists.
    pub closed spec fn spec_kem_private(&self) -> Seq<u8> {
        self.kem_private@
    }

    /// The specification accessors name exactly the fields' contents.
    pub(crate) proof fn lemma_field_views(&self)
        ensures
            self.spec_id() == self.id@,
            self.spec_kem_public() == self.kem_public@,
            self.spec_kem_private() == self.kem_private@,
    {
    }
}

/// A sender's full keypair. Owned by the registry; the private half never
/// leaves it: outside this crate it is visible to specifications only.
pub struct SenderKeyPair {
    pub id: String,
    pub sign_public: Vec<u8>,
    pub(crate) sign_private: Vec<u8>,
}

impl SenderKeyPair {
    /// The identifier, for specifications.
    pub closed spec fn spec_id(&self) -> Seq<char> {
        self.id@
    }

    /// The public half's bytes, for specifications.
    pub closed spec fn spec_sign_public(&self) -> Seq<u8> {
        self.sign_public@
    }

    /// The private half's bytes, for specifications; no executable accessor
    /// exists.
    pub closed spec fn spec_sign_private(&self) -> Seq<u8> {
        self.sign_private@
    }

    /// The specification accessors name exactly the fields' contents.
    pub(crate) proof fn lemma_field_views(&self)
        ensures
            self.spec_id() == self.id@,
            self.spec_sign_public() == self.sign_public@,
            self.spec_sign_private() == self.sign_private@,
    {
    }
}

/// One per-recipient entry of an envelope: who it is for, and the content
/// key encapsulated to that recipient's KEM public key.
#[derive(Clone, Debug)]
pub struct RecipientEntry {
    pub recipient_id: String,
    pub encapsulated_key: Vec<u8>,
}

/// A sealed message: self-describing, opened independently by each recipient.
/// The signature covers the canonical digest of every field that determines
/// plaintext recovery.
#[derive(Clone, Debug)]
pub struct Envelope {
    pub sender_id: String,
    pub recipients: Vec<RecipientEntry>,
    pub nonce: Vec<u8>,
    pub ciphertext: Vec<u8>,
    pub tag: Vec<u8>,
    pub signature: Vec<u8>,
}

/// Well-formed recipient key material: FIPS 203 encoded lengths and the two
/// halves generated together.
pub open spec fn rkp_wf(kp: RecipientKeyPair) -> bool {
    &&& kp.spec_kem_public().len() == KEM_PUBLIC_LEN
    &&& kp.spec_kem_private().len() == KEM_PRIVATE_LEN
    &&& kem_keypair(kp.spec_kem_public(), kp.spec_kem_private())
}

/// Well-formed sender key material: FIPS 204 encoded lengths and the two
/// halves generated together.
pub open spec fn skp_wf(kp: SenderKeyPair) -> bool {
    &&& kp.spec_sign_public().len() == SIG_PUBLIC_LEN
    &&& kp.spec_sign_private().len() == SIG_PRIVATE_LEN
    &&& sig_keypair(kp.spec_sign_public(), kp.spec_sign_private())
}

/// Structurally well-formed envelope: primitive-imposed field lengths, and
/// every variable-length field short enough for its length prefix.
pub open spec fn env_wf(env: &Envelope) -> bool {
    &&& env.nonce@.len() == NONCE_LEN
    &&& env.tag@.len() == TAG_LEN
    &&& fits_len(vstd::utf8::encode_utf8(env.sender_id@))
    &&& fits_len(env.nonce@)
    &&& fits_len(env.ciphertext@)
    &&& fits_len(env.tag@)
    &&& fits_len(env.signature@)
    &&& env.recipients@.len() <= u64::MAX
    &&& forall|i: int|
        0 <= i < env.recipients@.len() ==> fits_len(
            vstd::utf8::encode_utf8(#[trigger] env.recipients@[i].recipient_id@),
        ) && fits_len(env.recipients@[i].encapsulated_key@)
}

/// The content key that a recipient private key recovers from one
/// encapsulated-key entry: decapsulate the ML-KEM ciphertext, then unwrap the
/// content key under the shared secret. `None` when the entry is malformed or
/// the unwrapping tag does not authenticate.
pub open spec fn entry_cek(sk: Seq<u8>, ek: Seq<u8>) -> Option<Seq<u8>> {
    if ek.len() == ENTRY_LEN {
        aead_pt(
            kem_decap_of(sk, ek.subrange(0, KEM_CT_LEN as int)),
            ek.subrange(KEM_CT_LEN as int, (KEM_CT_LEN + NONCE_LEN) as int),
            ek.subrange(
                (KEM_CT_LEN + NONCE_LEN) as int,
                (KEM_CT_LEN + NONCE_LEN + SYM_KEY_LEN) as int,
            ),
            ek.subrange((KEM_CT_LEN + NONCE_LEN + SYM_KEY_LEN) as int, ENTRY_LEN as int),
        )
    } else {
        None
    }
}

} // verus!
