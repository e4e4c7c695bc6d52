//! The closed set of failure kinds that registry, codec, seal and open
//! operations surface. Every failure is terminal and reported with its
//! specific kind; no failure is downgraded to a more generic one.

use vstd::prelude::*;

verus! {

/// A failure kind. Each operation's contract states exactly which kind is
/// returned on which inputs.
#[derive(Debug, Clone, PartialEq, Eq)]
pub enum EnvelopeError {
    /// An identifier being registered is already present in the registry.
    DuplicateIdentifier,
    /// Sealing was requested for a sender identifier that is not registered.
    UnknownSender,
    /// Opening was requested for a recipient identifier that is not registered.
    UnknownRecipient,
    /// The envelope carries no encapsulated-key entry for the opening recipient.
    RecipientNotAddressed,
    /// The envelope's sender identifier is not on the caller's allow-list.
    UntrustedSender,
    /// The envelope's signature does not verify under the allow-listed key.
    SignatureInvalid,
    /// Key encapsulation failed for the named recipient; sealing is
    /// all-or-nothing, so the whole operation fails.
    EncapsulationFailed { recipient_id: String },
    /// The recipient's encapsulated-key entry could not be decapsulated.
    DecapsulationFailed,
    /// The payload's integrity check failed during decryption.
    PayloadAuthenticationFailed,
    /// Wire bytes could not be decoded as an envelope or identity.
    SerializationFailed,
}

} // verus!
