//! The key registry: maps identifiers to recipient and sender keypairs.
//!
//! A registry is an explicitly constructed value passed by reference to seal
//! and open. Its abstract model is a pair of maps from identifier to keypair;
//! a type invariant guarantees that identifiers are unique and that every
//! stored keypair was honestly generated, so callers never carry a
//! well-formedness precondition.

use vstd::prelude::*;

use crate::errors::EnvelopeError;
use crate::primitives::{kem_keygen, random_bytes, sig_keygen, SYM_KEY_LEN};
use crate::types::{rkp_wf, skp_wf, RecipientIdentity, RecipientKeyPair, SenderIdentity, SenderKeyPair};

verus! {

/// True when some element of `s` carries identifier `id`.
pub(crate) open spec fn has_recipient_id(s: Seq<RecipientKeyPair>, id: Seq<char>) -> bool {
    exists|i: int| 0 <= i < s.len() && #[trigger] s[i].id@ == id
}

/// The element of `s` carrying identifier `id` (meaningful when ids are
/// unique and one is present).
pub(crate) open spec fn recipient_with_id(
    s: Seq<RecipientKeyPair>,
    id: Seq<char>,
) -> RecipientKeyPair {
    s[choose|i: int| 0 <= i < s.len() && #[trigger] s[i].id@ == id]
}

/// True when some element of `s` carries identifier `id`.
pub(crate) open spec fn has_sender_id(s: Seq<SenderKeyPair>, id: Seq<char>) -> bool {
    exists|i: int| 0 <= i < s.len() && #[trigger] s[i].id@ == id
}

/// The element of `s` carrying identifier `id` (meaningful when ids are
/// unique and one is present).
pub(crate) open spec fn sender_with_id(s: Seq<SenderKeyPair>, id: Seq<char>) -> SenderKeyPair {
    s[choose|i: int| 0 <= i < s.len() && #[trigger] s[i].id@ == id]
}

/// Maps opaque identifiers to keypairs; one namespace for recipients and one
/// for senders. Keys live for the registry's lifetime.
pub struct KeyRegistry {
    pub(crate) recipients: Vec<RecipientKeyPair>,
    pub(crate) senders: Vec<SenderKeyPair>,
}

impl KeyRegistry {
    /// Identifiers are unique within each namespace and every stored keypair
    /// is well formed: established at construction, preserved by every
    /// insertion.
    #[verifier::type_invariant]
    pub(crate) open spec fn wf(&self) -> bool {
        &&& forall|i: int, j: int|
            0 <= i < j < self.recipients@.len() ==> #[trigger] self.recipients@[i].id@
                != #[trigger] self.recipients@[j].id@
        &&& forall|i: int, j: int|
            0 <= i < j < self.senders@.len() ==> #[trigger] self.senders@[i].id@
                != #[trigger] self.senders@[j].id@
        &&& forall|i: int| 0 <= i < self.recipients@.len() ==> rkp_wf(#[trigger] self.recipients@[i])
        &&& forall|i: int| 0 <= i < self.senders@.len() ==> skp_wf(#[trigger] self.senders@[i])
    }

    /// The registry's recipient namespace as a map from identifier to keypair.
    pub closed spec fn spec_recipients(&self) -> Map<Seq<char>, RecipientKeyPair> {
        Map::new(
            |id: Seq<char>| has_recipient_id(self.recipients@, id),
            |id: Seq<char>| recipient_with_id(self.recipients@, id),
        )
    }

    /// The registry's sender namespace as a map from identifier to keypair.
    pub closed spec fn spec_senders(&self) -> Map<Seq<char>, SenderKeyPair> {
        Map::new(
            |id: Seq<char>| has_sender_id(self.senders@, id),
            |id: Seq<char>| sender_with_id(self.senders@, id),
        )
    }

    /// An empty registry.
    pub fn new() -> (r: Self)
        ensures
            r.spec_recipients() == Map::<Seq<char>, RecipientKeyPair>::empty(),
            r.spec_senders() == Map::<Seq<char>, SenderKeyPair>::empty(),
    {
        let r = KeyRegistry { recipients: Vec::new(), senders: Vec::new() };
        proof {
            assert(r.spec_recipients() =~= Map::<Seq<char>, RecipientKeyPair>::empty());
            assert(r.spec_senders() =~= Map::<Seq<char>, SenderKeyPair>::empty());
        }
        r
    }

    /// The full keypair registered for a recipient identifier, or `None` if
    /// the identifier is absent. For use by the open protocol only: the
    /// private half must not cross the process boundary.
    pub(crate) fn lookup_recipient_private(&self, id: &String) -> (r: Option<&RecipientKeyPair>)
        ensures
            r is Some <==> self.spec_recipients().dom().contains(id@),
            r matches Some(kp) ==> *kp == self.spec_recipients()[id@] && rkp_wf(*kp),
    {
        proof {
            use_type_invariant(self);
        }
        let mut i: usize = 0;
        while i < self.recipients.len()
            invariant
                i <= self.recipients@.len(),
                forall|j: int| 0 <= j < i ==> #[trigger] self.recipients@[j].id@ != id@,
            decreases self.recipients@.len() - i,
        {
            if self.recipients[i].id == *id {
                proof {
                    use_type_invariant(self);
                    let k = choose|k: int|
                        0 <= k < self.recipients@.len() && #[trigger] self.recipients@[k].id@
                            == id@;
                    assert(k == i);
                }
                return Some(&self.recipients[i]);
            }
            i = i + 1;
        }
        None
    }

    /// The full keypair registered for a sender identifier, or `None` if the
    /// identifier is absent. For use by the seal protocol only.
    pub(crate) fn lookup_sender_private(&self, id: &String) -> (r: Option<&SenderKeyPair>)
        ensures
            r is Some <==> self.spec_senders().dom().contains(id@),
            r matches Some(kp) ==> *kp == self.spec_senders()[id@] && skp_wf(*kp),
    {
        proof {
            use_type_invariant(self);
        }
        let mut i: usize = 0;
        while i < self.senders.len()
            invariant
                i <= self.senders@.len(),
                forall|j: int| 0 <= j < i ==> #[trigger] self.senders@[j].id@ != id@,
            decreases self.senders@.len() - i,
        {
            if self.senders[i].id == *id {
                proof {
                    use_type_invariant(self);
                    let k = choose|k: int|
                        0 <= k < self.senders@.len() && #[trigger] self.senders@[k].id@ == id@;
                    assert(k == i);
                }
                return Some(&self.senders[i]);
            }
            i = i + 1;
        }
        None
    }

    /// Generates a fresh ML-KEM-1024 keypair, stores it under `id`, and
    /// returns the public projection. Fails closed with `DuplicateIdentifier`
    /// if `id` is already registered, leaving the registry unchanged.
    pub fn generate_recipient(&mut self, id: String) -> (r: Result<
        RecipientIdentity,
        EnvelopeError,
    >)
        ensures
            final(self).spec_senders() == old(self).spec_senders(),
            old(self).spec_recipients().dom().contains(id@) ==> r == Err::<
                RecipientIdentity,
                EnvelopeError,
            >(EnvelopeError::DuplicateIdentifier) && final(self).spec_recipients() == old(self).spec_recipients(),
            !old(self).spec_recipients().dom().contains(id@) ==> (r matches Ok(ident)
                && ident.id@ == id@ && final(self).spec_recipients() == old(self).spec_recipients().insert(id@, final(self).spec_recipients()[id@]) && final(self).spec_recipients()[id@].spec_id() == id@ && final(self).spec_recipients()[id@].spec_kem_public()
                == ident.kem_public@ && rkp_wf(final(self).spec_recipients()[id@])),
    {
        proof {
            use_type_invariant(&*self);
        }
        if self.lookup_recipient_private(&id).is_some() {
            return Err(EnvelopeError::DuplicateIdentifier);
        }
        let (pk, sk) = kem_keygen();
        let ident = RecipientIdentity { id: id.clone(), kem_public: pk.clone() };
        let kp = RecipientKeyPair { id, kem_public: pk, kem_private: sk };
        proof {
            kp.lemma_field_views();
            assert(rkp_wf(kp));
        }
        let ghost old_rs = self.recipients@;
        let mut rs: Vec<RecipientKeyPair> = Vec::new();
        std::mem::swap(&mut rs, &mut self.recipients);
        rs.push(kp);
        proof {
            assert(forall|j: int| 0 <= j < old_rs.len() ==> #[trigger] old_rs[j].id@ != ident.id@);
        }
        std::mem::swap(&mut rs, &mut self.recipients);
        proof {
            let s = self.recipients@;
            assert forall|x: Seq<char>| #[trigger]
                has_recipient_id(s, x) implies has_recipient_id(old_rs, x) || x == ident.id@ by {
                let i = choose|i: int| 0 <= i < s.len() && #[trigger] s[i].id@ == x;
                if i < old_rs.len() {
                    assert(old_rs[i].id@ == x);
                }
            }
            assert forall|x: Seq<char>| has_recipient_id(old_rs, x) implies has_recipient_id(
                s,
                x,
            ) by {
                let i = choose|i: int| 0 <= i < old_rs.len() && #[trigger] old_rs[i].id@ == x;
                assert(s[i].id@ == x);
            }
            assert(has_recipient_id(s, ident.id@)) by {
                assert(s[s.len() - 1].id@ == ident.id@);
            }
            assert forall|x: Seq<char>|
                has_recipient_id(old_rs, x) implies #[trigger] recipient_with_id(s, x)
                == recipient_with_id(old_rs, x) by {
                let i = choose|i: int| 0 <= i < s.len() && #[trigger] s[i].id@ == x;
                let j = choose|j: int| 0 <= j < old_rs.len() && #[trigger] old_rs[j].id@ == x;
                assert(s[j].id@ == x);
                assert(i == j);
            }
            assert(recipient_with_id(s, ident.id@) == s[s.len() - 1]) by {
                let i = choose|i: int| 0 <= i < s.len() && #[trigger] s[i].id@ == ident.id@;
                assert(i == s.len() - 1);
            }
            assert(final(self).spec_recipients() =~= old(self).spec_recipients().insert(
                ident.id@,
                final(self).spec_recipients()[ident.id@],
            ));
            assert(final(self).spec_senders() =~= old(self).spec_senders());
        }
        Ok(ident)
    }

    /// Generates a fresh ML-DSA-65 keypair, stores it under `id`, and returns
    /// the public projection. Fails closed with `DuplicateIdentifier` if `id`
    /// is already registered, leaving the registry unchanged.
    pub fn generate_sender(&mut self, id: String) -> (r: Result<SenderIdentity, EnvelopeError>)
        ensures
            final(self).spec_recipients() == old(self).spec_recipients(),
            old(self).spec_senders().dom().contains(id@) ==> r == Err::<
                SenderIdentity,
                EnvelopeError,
            >(EnvelopeError::DuplicateIdentifier) && final(self).spec_senders() == old(self).spec_senders(),
            !old(self).spec_senders().dom().contains(id@) ==> (r matches Ok(ident) && ident.id@
                == id@ && final(self).spec_senders() == old(self).spec_senders().insert(
                id@,
                final(self).spec_senders()[id@],
            ) && final(self).spec_senders()[id@].spec_id() == id@
                && final(self).spec_senders()[id@].spec_sign_public() == ident.sign_public@ && skp_wf(
                final(self).spec_senders()[id@],
            )),
    {
        proof {
            use_type_invariant(&*self);
        }
        if self.lookup_sender_private(&id).is_some() {
            return Err(EnvelopeError::DuplicateIdentifier);
        }
        let seed = random_bytes(SYM_KEY_LEN);
        let (pk, sk) = sig_keygen(&seed);
        let ident = SenderIdentity { id: id.clone(), sign_public: pk.clone() };
        let kp = SenderKeyPair { id, sign_public: pk, sign_private: sk };
        proof {
            kp.lemma_field_views();
            assert(skp_wf(kp));
        }
        let ghost old_ss = self.senders@;
        let mut ss: Vec<SenderKeyPair> = Vec::new();
        std::mem::swap(&mut ss, &mut self.senders);
        ss.push(kp);
        proof {
            assert(forall|j: int| 0 <= j < old_ss.len() ==> #[trigger] old_ss[j].id@ != ident.id@);
        }
        std::mem::swap(&mut ss, &mut self.senders);
        proof {
            let s = self.senders@;
            assert forall|x: Seq<char>| #[trigger]
                has_sender_id(s, x) implies has_sender_id(old_ss, x) || x == ident.id@ by {
                let i = choose|i: int| 0 <= i < s.len() && #[trigger] s[i].id@ == x;
                if i < old_ss.len() {
                    assert(old_ss[i].id@ == x);
                }
            }
            assert forall|x: Seq<char>| has_sender_id(old_ss, x) implies has_sender_id(s, x) by {
                let i = choose|i: int| 0 <= i < old_ss.len() && #[trigger] old_ss[i].id@ == x;
                assert(s[i].id@ == x);
            }
            assert(has_sender_id(s, ident.id@)) by {
                assert(s[s.len() - 1].id@ == ident.id@);
            }
            assert forall|x: Seq<char>|
                has_sender_id(old_ss, x) implies #[trigger] sender_with_id(s, x) == sender_with_id(
                old_ss,
                x,
            ) by {
                let i = choose|i: int| 0 <= i < s.len() && #[trigger] s[i].id@ == x;
                let j = choose|j: int| 0 <= j < old_ss.len() && #[trigger] old_ss[j].id@ == x;
                assert(s[j].id@ == x);
                assert(i == j);
            }
            assert(sender_with_id(s, ident.id@) == s[s.len() - 1]) by {
                let i = choose|i: int| 0 <= i < s.len() && #[trigger] s[i].id@ == ident.id@;
                assert(i == s.len() - 1);
            }
            assert(final(self).spec_senders() =~= old(self).spec_senders().insert(
                ident.id@,
                final(self).spec_senders()[ident.id@],
            ));
            assert(final(self).spec_recipients() =~= old(self).spec_recipients());
        }
        Ok(ident)
    }
}

} // verus!
