//! Multi-recipient, sender-authenticated envelope encryption built on
//! post-quantum primitives: ML-KEM-1024 for per-recipient key encapsulation,
//! ML-DSA-65 for sender signatures, and XChaCha20-Poly1305 for the bulk
//! payload. A message is sealed once for a set of recipients and opened
//! independently by each of them, after the sender has been checked against a
//! caller-supplied allow-list and the envelope signature has been verified.

pub mod bytes;
pub mod codec;
pub mod errors;
pub mod laws;
pub mod open;
pub mod primitives;
pub mod registry;
pub mod seal;
pub mod types;

pub use codec::{
    decode_envelope, decode_recipient_identity, decode_sender_identity, digest_bytes,
    encode_envelope, encode_recipient_identity, encode_sender_identity,
};
pub use errors::EnvelopeError;
pub use open::open_envelope;
pub use registry::KeyRegistry;
pub use seal::seal;
pub use types::{Envelope, RecipientEntry, RecipientIdentity, SenderIdentity};
