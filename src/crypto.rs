//! Cryptographic primitives: ChaCha20-Poly1305 authenticated encryption,
//! Ed25519 detached signatures, and key material from the operating system.

use vstd::prelude::*;

use chacha20poly1305::aead::{Aead, KeyInit};
use ed25519_dalek::{Signer, Verifier};
use rand::RngCore;

use crate::security::SecurityError;

verus! {

/// ChaCha20-Poly1305 key size in bytes.
pub const CHACHA_KEY_SIZE: usize = 32;

/// ChaCha20-Poly1305 nonce size in bytes.
pub const NONCE_SIZE: usize = 12;

/// Poly1305 tag size in bytes.
pub const TAG_SIZE: usize = 16;

/// Ed25519 signature size in bytes.
pub const SIGNATURE_SIZE: usize = 64;

/// Ed25519 public key size in bytes.
pub const ED25519_PUBLIC_KEY_SIZE: usize = 32;

/// Ed25519 secret seed size in bytes.
pub const ED25519_PRIVATE_KEY_SIZE: usize = 32;

/// Longest plaintext that ChaCha20-Poly1305 seals: fewer than 2^32 - 1
/// blocks of 64 bytes.
pub const MAX_PLAINTEXT: u64 = 274877906880;

/// The ChaCha20-Poly1305 ciphertext, tag appended, of `plaintext` under `key`
/// and `nonce`, with no associated data.
pub uninterp spec fn aead_seal(key: Seq<u8>, nonce: Seq<u8>, plaintext: Seq<u8>) -> Seq<u8>;

/// The Ed25519 signature of `message` by the secret seed `seed`.
pub uninterp spec fn ed25519_sign(seed: Seq<u8>, message: Seq<u8>) -> Seq<u8>;

/// The Ed25519 public key of the secret seed `seed`.
pub uninterp spec fn ed25519_public(seed: Seq<u8>) -> Seq<u8>;

/// Whether a decryption result `r` gives back every plaintext whose seal
/// under `key` and `nonce` is `c`.
pub open spec fn opens_every_seal(r: Option<Vec<u8>>, key: Seq<u8>, nonce: Seq<u8>, c: Seq<u8>) -> bool {
    forall|m: Seq<u8>|
        c == #[trigger] aead_seal(key, nonce, m) && m.len() < MAX_PLAINTEXT ==> (r matches Some(p)
            && p@ == m)
}

/// Whether a verification result `r` accepts every signature of `message`
/// made with a seed whose public key is `public_key`.
pub open spec fn accepts_honest(r: bool, public_key: Seq<u8>, message: Seq<u8>, signature: Seq<u8>) -> bool {
    forall|seed: Seq<u8>|
        seed.len() == ED25519_PRIVATE_KEY_SIZE && public_key == #[trigger] ed25519_public(seed)
            && signature == ed25519_sign(seed, message) ==> r
}

/// Relies on `ChaCha20Poly1305::encrypt` (aead's `Aead::encrypt` over the
/// crate's in-place encryption): the result is the ciphertext with the 16-byte
/// tag appended, and it fails only for plaintexts of 2^32 - 1 blocks or more.
#[verifier::external_body]
fn chacha_seal(key: &[u8], nonce: &[u8], plaintext: &[u8]) -> (r: Option<Vec<u8>>)
    requires
        key@.len() == CHACHA_KEY_SIZE,
        nonce@.len() == NONCE_SIZE,
    ensures
        r matches Some(c) ==> c@ == aead_seal(key@, nonce@, plaintext@) && c@.len()
            == plaintext@.len() + TAG_SIZE,
        plaintext@.len() < MAX_PLAINTEXT ==> r is Some,
{
    let cipher = chacha20poly1305::ChaCha20Poly1305::new(chacha20poly1305::Key::from_slice(key));
    cipher.encrypt(chacha20poly1305::Nonce::from_slice(nonce), plaintext).ok()
}

/// Relies on `ChaCha20Poly1305::decrypt`: it gives back the plaintext of
/// whatever `encrypt` sealed under the same key and nonce, and it succeeds
/// only where the tag it recomputes matches, that is only on such a seal.
#[verifier::external_body]
fn chacha_open(key: &[u8], nonce: &[u8], ciphertext: &[u8]) -> (r: Option<Vec<u8>>)
    requires
        key@.len() == CHACHA_KEY_SIZE,
        nonce@.len() == NONCE_SIZE,
    ensures
        opens_every_seal(r, key@, nonce@, ciphertext@),
        r matches Some(p) ==> ciphertext@ == aead_seal(key@, nonce@, p@),
{
    let cipher = chacha20poly1305::ChaCha20Poly1305::new(chacha20poly1305::Key::from_slice(key));
    cipher.decrypt(chacha20poly1305::Nonce::from_slice(nonce), ciphertext).ok()
}

/// Relies on ed25519-dalek's `SigningKey::from_bytes` and `sign`: a
/// deterministic 64-byte signature.
#[verifier::external_body]
fn ed_sign(seed: &[u8], message: &[u8]) -> (r: Vec<u8>)
    requires
        seed@.len() == ED25519_PRIVATE_KEY_SIZE,
    ensures
        r@ == ed25519_sign(seed@, message@),
        r@.len() == SIGNATURE_SIZE,
{
    let seed: [u8; 32] = seed.try_into().unwrap();
    ed25519_dalek::SigningKey::from_bytes(&seed).sign(message).to_bytes().to_vec()
}

/// Relies on ed25519-dalek's `SigningKey::verifying_key`: the 32-byte
/// compressed public key of the seed.
#[verifier::external_body]
fn ed_public(seed: &[u8]) -> (r: Vec<u8>)
    requires
        seed@.len() == ED25519_PRIVATE_KEY_SIZE,
    ensures
        r@ == ed25519_public(seed@),
        r@.len() == ED25519_PUBLIC_KEY_SIZE,
{
    let seed: [u8; 32] = seed.try_into().unwrap();
    ed25519_dalek::SigningKey::from_bytes(&seed).verifying_key().to_bytes().to_vec()
}

/// Relies on ed25519-dalek's `VerifyingKey::from_bytes` and `verify`: the
/// public key of a seed decompresses, and a signature made with the seed
/// verifies under it.
#[verifier::external_body]
fn ed_verify(public_key: &[u8], message: &[u8], signature: &[u8]) -> (r: bool)
    requires
        public_key@.len() == ED25519_PUBLIC_KEY_SIZE,
        signature@.len() == SIGNATURE_SIZE,
    ensures
        accepts_honest(r, public_key@, message@, signature@),
{
    let pk: [u8; 32] = public_key.try_into().unwrap();
    let sig: [u8; 64] = signature.try_into().unwrap();
    match ed25519_dalek::VerifyingKey::from_bytes(&pk) {
        Ok(vk) => vk.verify(message, &ed25519_dalek::Signature::from_bytes(&sig)).is_ok(),
        Err(_) => false,
    }
}

/// Relies on rand's `OsRng::try_fill_bytes`: `len` bytes from the operating
/// system, or nothing where it cannot supply them.
#[verifier::external_body]
fn os_random(len: usize) -> (r: Option<Vec<u8>>)
    ensures
        r matches Some(v) ==> v@.len() == len,
{
    let mut v = vec![0u8; len];
    match rand::rngs::OsRng.try_fill_bytes(&mut v) {
        Ok(()) => Some(v),
        Err(_) => None,
    }
}

/// Encrypts `plaintext` under `key` with the given nonce.
pub fn encrypt_with_nonce(plaintext: &[u8], key: &[u8], nonce: Vec<u8>) -> (r: Result<
    (Vec<u8>, Vec<u8>),
    SecurityError,
>)
    requires
        nonce@.len() == NONCE_SIZE,
    ensures
        r is Ok <==> key@.len() == CHACHA_KEY_SIZE && plaintext@.len() < MAX_PLAINTEXT,
        r matches Err(e) ==> e == SecurityError::EncryptionFailed,
        r matches Ok((c, n)) ==> n@ == nonce@ && c@ == aead_seal(key@, nonce@, plaintext@)
            && c@.len() == plaintext@.len() + TAG_SIZE,
{
    if key.len() != CHACHA_KEY_SIZE || plaintext.len() as u64 >= MAX_PLAINTEXT {
        return Err(SecurityError::EncryptionFailed);
    }
    match chacha_seal(key, nonce.as_slice(), plaintext) {
        Some(c) => Ok((c, nonce)),
        None => Err(SecurityError::EncryptionFailed),
    }
}

/// Encrypts `plaintext` under `key` with a fresh random nonce; gives the
/// ciphertext and the nonce.
pub fn encrypt_message(plaintext: &[u8], key: &[u8]) -> (r: Result<
    (Vec<u8>, Vec<u8>),
    SecurityError,
>)
    ensures
        key@.len() != CHACHA_KEY_SIZE || plaintext@.len() >= MAX_PLAINTEXT ==> r
            == Err::<(Vec<u8>, Vec<u8>), SecurityError>(SecurityError::EncryptionFailed),
        r matches Err(e) ==> e == SecurityError::EncryptionFailed,
        r matches Ok((c, n)) ==> n@.len() == NONCE_SIZE && c@ == aead_seal(key@, n@, plaintext@)
            && c@.len() == plaintext@.len() + TAG_SIZE,
{
    if key.len() != CHACHA_KEY_SIZE || plaintext.len() as u64 >= MAX_PLAINTEXT {
        return Err(SecurityError::EncryptionFailed);
    }
    match generate_nonce() {
        Ok(nonce) => encrypt_with_nonce(plaintext, key, nonce),
        Err(e) => Err(e),
    }
}

/// Decrypts and authenticates `ciphertext`. Whatever `encrypt_message`
/// sealed under a key comes back under that key and nonce.
pub fn decrypt_message(ciphertext: &[u8], nonce: &[u8], key: &[u8]) -> (r: Result<
    Vec<u8>,
    SecurityError,
>)
    ensures
        key@.len() != CHACHA_KEY_SIZE || nonce@.len() != NONCE_SIZE ==> r is Err,
        r matches Err(e) ==> e == SecurityError::DecryptionFailed,
        r matches Ok(p) ==> ciphertext@ == aead_seal(key@, nonce@, p@),
        forall|m: Seq<u8>|
            key@.len() == CHACHA_KEY_SIZE && nonce@.len() == NONCE_SIZE && m.len() < MAX_PLAINTEXT
                && ciphertext@ == #[trigger] aead_seal(key@, nonce@, m) ==> (r matches Ok(p) && p@
                == m),
{
    if key.len() != CHACHA_KEY_SIZE || nonce.len() != NONCE_SIZE {
        return Err(SecurityError::DecryptionFailed);
    }
    match chacha_open(key, nonce, ciphertext) {
        Some(p) => Ok(p),
        None => Err(SecurityError::DecryptionFailed),
    }
}

/// Signs `message` with the Ed25519 seed `private_key`.
pub fn sign_message(message: &[u8], private_key: &[u8]) -> (r: Result<Vec<u8>, SecurityError>)
    ensures
        r is Ok <==> private_key@.len() == ED25519_PRIVATE_KEY_SIZE,
        r matches Err(e) ==> e == SecurityError::AuthenticationFailed,
        r matches Ok(s) ==> s@ == ed25519_sign(private_key@, message@) && s@.len()
            == SIGNATURE_SIZE,
{
    if private_key.len() != ED25519_PRIVATE_KEY_SIZE {
        return Err(SecurityError::AuthenticationFailed);
    }
    Ok(ed_sign(private_key, message))
}

/// Checks an Ed25519 signature of `message` under `public_key`. A signature
/// made by `sign_message` with a seed verifies under that seed's public key.
pub fn verify_signature(message: &[u8], signature: &[u8], public_key: &[u8]) -> (r: Result<
    (),
    SecurityError,
>)
    ensures
        signature@.len() != SIGNATURE_SIZE || public_key@.len() != ED25519_PUBLIC_KEY_SIZE ==> r is Err,
        r matches Err(e) ==> e == SecurityError::AuthenticationFailed,
        signature@.len() == SIGNATURE_SIZE && public_key@.len() == ED25519_PUBLIC_KEY_SIZE
            ==> forall|seed: Seq<u8>|
            seed.len() == ED25519_PRIVATE_KEY_SIZE && public_key@ == #[trigger] ed25519_public(seed)
                && signature@ == ed25519_sign(seed, message@) ==> r is Ok,
{
    if signature.len() != SIGNATURE_SIZE || public_key.len() != ED25519_PUBLIC_KEY_SIZE {
        return Err(SecurityError::AuthenticationFailed);
    }
    if ed_verify(public_key, message, signature) {
        Ok(())
    } else {
        Err(SecurityError::AuthenticationFailed)
    }
}

/// A fresh random nonce.
pub fn generate_nonce() -> (r: Result<Vec<u8>, SecurityError>)
    ensures
        r matches Ok(n) ==> n@.len() == NONCE_SIZE,
        r matches Err(e) ==> e == SecurityError::EncryptionFailed,
{
    match os_random(NONCE_SIZE) {
        Some(n) => Ok(n),
        None => Err(SecurityError::EncryptionFailed),
    }
}

/// A fresh random 32-byte encryption key.
pub fn generate_encryption_key() -> (r: Result<Vec<u8>, SecurityError>)
    ensures
        r matches Ok(k) ==> k@.len() == CHACHA_KEY_SIZE,
        r matches Err(e) ==> e == SecurityError::KeyError,
{
    match os_random(CHACHA_KEY_SIZE) {
        Some(k) => Ok(k),
        None => Err(SecurityError::KeyError),
    }
}

/// A fresh Ed25519 key pair: a random 32-byte seed and its public key.
pub fn generate_signing_keypair() -> (r: Result<(Vec<u8>, Vec<u8>), SecurityError>)
    ensures
        r matches Ok((s, v)) ==> s@.len() == ED25519_PRIVATE_KEY_SIZE && v@ == ed25519_public(s@)
            && v@.len() == ED25519_PUBLIC_KEY_SIZE,
        r matches Err(e) ==> e == SecurityError::KeyError,
{
    match os_random(ED25519_PRIVATE_KEY_SIZE) {
        Some(seed) => {
            let public = ed_public(seed.as_slice());
            Ok((seed, public))
        },
        None => Err(SecurityError::KeyError),
    }
}

} // verus!
