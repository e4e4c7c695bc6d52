//! Trusted boundary to the post-quantum primitive crates.
//!
//! Every function here is an `external_body` wrapper around one call into an
//! outside crate; its contract states what that crate's source and
//! documentation promise, over uninterpreted names for the results that no
//! short formula can state (decapsulated secrets, decrypted payloads,
//! signature verdicts). Everything else in this crate is verified against
//! these contracts.

use vstd::prelude::*;

use chacha20poly1305::aead::{Aead, KeyInit};
use chacha20poly1305::{Key, XChaCha20Poly1305, XNonce};
use dilithium::{DilithiumKeyPair, DilithiumSignature, ML_DSA_65};
use ml_kem::kem::{Decapsulate, Encapsulate};
use ml_kem::{Ciphertext, EncodedSizeUser, KemCore, MlKem1024};
use rand::rngs::OsRng;
use rand::RngCore;

verus! {

/// ML-KEM-1024 encapsulation-key length in bytes.
pub const KEM_PUBLIC_LEN: usize = 1568;

/// ML-KEM-1024 decapsulation-key length in bytes.
pub const KEM_PRIVATE_LEN: usize = 3168;

/// ML-KEM-1024 ciphertext (encapsulated key) length in bytes.
pub const KEM_CT_LEN: usize = 1568;

/// Shared-secret and content-key length in bytes.
pub const SYM_KEY_LEN: usize = 32;

/// XChaCha20-Poly1305 nonce length in bytes.
pub const NONCE_LEN: usize = 24;

/// Poly1305 authentication-tag length in bytes.
pub const TAG_LEN: usize = 16;

/// ML-DSA-65 public-key length in bytes.
pub const SIG_PUBLIC_LEN: usize = 1952;

/// ML-DSA-65 private-key length in bytes.
pub const SIG_PRIVATE_LEN: usize = 4032;

/// ML-DSA-65 signature length in bytes.
pub const SIG_LEN: usize = 3309;

/// Holds of the public and private halves of one honestly generated
/// ML-KEM-1024 keypair.
pub uninterp spec fn kem_keypair(pk: Seq<u8>, sk: Seq<u8>) -> bool;

/// The shared secret that ML-KEM-1024 decapsulation derives from a private
/// key and an encapsulated key; decapsulation is deterministic.
pub uninterp spec fn kem_decap_of(sk: Seq<u8>, ct: Seq<u8>) -> Seq<u8>;

/// Holds of the public and private halves of one honestly generated
/// ML-DSA-65 keypair.
pub uninterp spec fn sig_keypair(pk: Seq<u8>, sk: Seq<u8>) -> bool;

/// The verdict of ML-DSA-65 signature verification, which is a deterministic
/// function of the public key, the message and the signature.
pub uninterp spec fn sig_verifies(pk: Seq<u8>, msg: Seq<u8>, sig: Seq<u8>) -> bool;

/// What XChaCha20-Poly1305 decryption returns for a key, nonce, ciphertext
/// and tag: the plaintext, or `None` when the tag does not authenticate the
/// ciphertext. Decryption is deterministic.
pub uninterp spec fn aead_pt(key: Seq<u8>, nonce: Seq<u8>, ct: Seq<u8>, tag: Seq<u8>) -> Option<
    Seq<u8>,
>;

/// Relies on rand's `OsRng::fill_bytes`: fills the buffer from the operating
/// system's entropy source. Nothing is assumed of the values drawn.
#[verifier::external_body]
pub(crate) fn random_bytes(n: usize) -> (r: Vec<u8>)
    ensures
        r@.len() == n,
{
    let mut v = vec![0u8; n];
    OsRng.fill_bytes(&mut v);
    v
}

/// Relies on ml-kem's `MlKem1024::generate`: returns a fresh decapsulation /
/// encapsulation keypair with the FIPS 203 encoded sizes.
#[verifier::external_body]
pub(crate) fn kem_keygen() -> (r: (Vec<u8>, Vec<u8>))
    ensures
        r.0@.len() == KEM_PUBLIC_LEN,
        r.1@.len() == KEM_PRIVATE_LEN,
        kem_keypair(r.0@, r.1@),
{
    let (dk, ek) = MlKem1024::generate(&mut OsRng);
    (ek.as_bytes().to_vec(), dk.as_bytes().to_vec())
}

/// Relies on ml-kem's `EncapsulationKey::{from_bytes, encapsulate}`: produces
/// an encapsulated key and a 32-byte shared secret; decapsulating the
/// encapsulated key with the matching private key recovers that same secret
/// (FIPS 203 correctness), and encapsulation is infallible.
#[verifier::external_body]
pub(crate) fn kem_encaps(pk: &Vec<u8>) -> (r: (Vec<u8>, Vec<u8>))
    requires
        pk@.len() == KEM_PUBLIC_LEN,
    ensures
        r.0@.len() == KEM_CT_LEN,
        r.1@.len() == SYM_KEY_LEN,
        forall|sk: Seq<u8>| #[trigger] kem_keypair(pk@, sk) ==> kem_decap_of(sk, r.0@) == r.1@,
{
    let pk_arr = pk.as_slice().try_into().expect("length checked by contract");
    let ek = <MlKem1024 as KemCore>::EncapsulationKey::from_bytes(&pk_arr);
    let (ct, ss) = ek.encapsulate(&mut OsRng).expect("ML-KEM encapsulation is infallible");
    (ct.as_slice().to_vec(), ss.as_slice().to_vec())
}

/// Relies on ml-kem's `DecapsulationKey::{from_bytes, decapsulate}`:
/// decapsulation is an infallible, deterministic function of the private key
/// and the encapsulated key, returning a 32-byte shared secret.
#[verifier::external_body]
pub(crate) fn kem_decaps(sk: &Vec<u8>, ct: &Vec<u8>) -> (r: Vec<u8>)
    requires
        sk@.len() == KEM_PRIVATE_LEN,
        ct@.len() == KEM_CT_LEN,
    ensures
        r@ == kem_decap_of(sk@, ct@),
        r@.len() == SYM_KEY_LEN,
{
    let sk_arr = sk.as_slice().try_into().expect("length checked by contract");
    let dk = <MlKem1024 as KemCore>::DecapsulationKey::from_bytes(&sk_arr);
    let ct_arr: Ciphertext<MlKem1024> =
        ct.as_slice().try_into().expect("length checked by contract");
    let ss = dk.decapsulate(&ct_arr).expect("ML-KEM decapsulation is infallible");
    ss.as_slice().to_vec()
}

/// Relies on dilithium's `DilithiumKeyPair::generate_deterministic` with the
/// ML-DSA-65 parameter set: derives a keypair from the 32-byte seed, with the
/// FIPS 204 encoded sizes.
#[verifier::external_body]
pub(crate) fn sig_keygen(seed: &Vec<u8>) -> (r: (Vec<u8>, Vec<u8>))
    requires
        seed@.len() == SYM_KEY_LEN,
    ensures
        r.0@.len() == SIG_PUBLIC_LEN,
        r.1@.len() == SIG_PRIVATE_LEN,
        sig_keypair(r.0@, r.1@),
{
    let seed_arr: &[u8; 32] = seed.as_slice().try_into().expect("length checked by contract");
    let kp = DilithiumKeyPair::generate_deterministic(ML_DSA_65, seed_arr);
    (kp.public_key().to_vec(), kp.private_key().to_vec())
}

/// Relies on dilithium's `DilithiumKeyPair::{from_keys, sign_deterministic}`:
/// for a consistent ML-DSA-65 keypair the key check and signing succeed, and
/// the produced signature verifies under the keypair's public key (FIPS 204
/// correctness).
#[verifier::external_body]
pub(crate) fn sign_bytes(sk: &Vec<u8>, pk: &Vec<u8>, msg: &Vec<u8>, rnd: &Vec<u8>) -> (r: Option<
    Vec<u8>,
>)
    requires
        rnd@.len() == SYM_KEY_LEN,
    ensures
        r matches Some(sig) ==> sig@.len() == SIG_LEN && (sig_keypair(pk@, sk@) ==> sig_verifies(
            pk@,
            msg@,
            sig@,
        )),
        sig_keypair(pk@, sk@) ==> r is Some,
{
    let kp = match DilithiumKeyPair::from_keys(sk.as_slice(), pk.as_slice(), ML_DSA_65) {
        Ok(kp) => kp,
        Err(_) => {
            return None;
        },
    };
    let rnd_arr: &[u8; 32] = rnd.as_slice().try_into().expect("length checked by contract");
    match kp.sign_deterministic(msg.as_slice(), b"", rnd_arr) {
        Ok(sig) => Some(sig.as_bytes().to_vec()),
        Err(_) => None,
    }
}

/// Relies on dilithium's `DilithiumKeyPair::verify` with the ML-DSA-65
/// parameter set: a deterministic verdict on (public key, message,
/// signature), false whenever the key or signature has the wrong length.
#[verifier::external_body]
pub(crate) fn verify_bytes(pk: &Vec<u8>, msg: &Vec<u8>, sig: &Vec<u8>) -> (r: bool)
    ensures
        r == sig_verifies(pk@, msg@, sig@),
{
    let s = DilithiumSignature::from_slice(sig.as_slice());
    DilithiumKeyPair::verify(pk.as_slice(), &s, msg.as_slice(), b"", ML_DSA_65)
}

/// Relies on chacha20poly1305's `XChaCha20Poly1305::encrypt`: authenticated
/// encryption of a payload far below the XChaCha20 counter limit succeeds,
/// returns a ciphertext of the plaintext's length plus a 16-byte tag, and
/// decrypting that ciphertext and tag under the same key and nonce returns
/// the plaintext (AEAD round trip).
#[verifier::external_body]
pub(crate) fn aead_seal(key: &Vec<u8>, nonce: &Vec<u8>, pt: &Vec<u8>) -> (r: (Vec<u8>, Vec<u8>))
    requires
        key@.len() == SYM_KEY_LEN,
        nonce@.len() == NONCE_LEN,
        pt@.len() < 0x1_0000_0000,
    ensures
        r.0@.len() == pt@.len(),
        r.1@.len() == TAG_LEN,
        aead_pt(key@, nonce@, r.0@, r.1@) == Some(pt@),
{
    let cipher = XChaCha20Poly1305::new(Key::from_slice(key.as_slice()));
    let mut ct = cipher
        .encrypt(XNonce::from_slice(nonce.as_slice()), pt.as_slice())
        .expect("payload is far below the XChaCha20 length limit");
    let tag = ct.split_off(ct.len() - 16);
    (ct, tag)
}

/// Relies on chacha20poly1305's `XChaCha20Poly1305::decrypt`: deterministic
/// in the key, nonce, ciphertext and tag; returns the plaintext exactly when
/// the tag authenticates the ciphertext, and the plaintext has the
/// ciphertext's length. The tag must be a whole Poly1305 tag: the underlying
/// decrypt splits the last 16 bytes of `ct ++ tag` off as the tag, so on a
/// tag of another length the plaintext would answer to a different split.
#[verifier::external_body]
pub(crate) fn aead_open(key: &Vec<u8>, nonce: &Vec<u8>, ct: &Vec<u8>, tag: &Vec<u8>) -> (r: Option<
    Vec<u8>,
>)
    requires
        key@.len() == SYM_KEY_LEN,
        nonce@.len() == NONCE_LEN,
        tag@.len() == TAG_LEN,
    ensures
        r matches Some(p) ==> aead_pt(key@, nonce@, ct@, tag@) == Some(p@) && p@.len() == ct@.len(),
        r is None ==> aead_pt(key@, nonce@, ct@, tag@) is None,
{
    let cipher = XChaCha20Poly1305::new(Key::from_slice(key.as_slice()));
    let mut buf = ct.clone();
    buf.extend_from_slice(tag.as_slice());
    cipher.decrypt(XNonce::from_slice(nonce.as_slice()), buf.as_slice()).ok()
}

/// Relies on std's `String::from_utf8`: succeeds exactly on valid UTF-8 and
/// returns the string whose byte encoding is the input, unchanged.
#[verifier::external_body]
pub(crate) fn string_from_utf8(bytes: Vec<u8>) -> (r: Option<String>)
    ensures
        r matches Some(s) ==> vstd::utf8::encode_utf8(s@) == bytes@,
        vstd::utf8::valid_utf8(bytes@) ==> r is Some,
{
    String::from_utf8(bytes).ok()
}

} // verus!
