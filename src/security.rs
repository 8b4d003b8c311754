//! The security envelope: a message wrapped with authenticated encryption,
//! a detached signature, both, or neither.
//!
//! A key id names a key set: the encryption key is stored under the id itself,
//! the signing seed under `<id>-signing` and its public key under
//! `<id>-verify`, as `KeyManager::generate_keypair` lays them out.

use vstd::prelude::*;

use crate::crypto::{
    aead_seal, decrypt_message, generate_nonce, ed25519_public, ed25519_sign, encrypt_with_nonce, sign_message,
    verify_signature, MAX_PLAINTEXT, NONCE_SIZE, SIGNATURE_SIZE, TAG_SIZE,
};
use crate::key_manager::{signing_id, usable, verify_id, KeyManager, KeyType};
use crate::protocols::clone_bytes;
use crate::text::push_str;
use crate::utils::current_time_secs;

verus! {

/// A key or cryptographic failure.
#[derive(Clone, Copy, Debug, PartialEq, Eq, Structural)]
pub enum SecurityError {
    AuthenticationFailed,
    EncryptionFailed,
    DecryptionFailed,
    KeyError,
    ConfigError,
}

/// The protection applied to a message.
#[derive(Clone, Copy, Debug, PartialEq, Eq, Structural)]
pub enum SecurityMode {
    /// No protection.
    Plain,
    /// A signature over the plaintext.
    Signed,
    /// Authenticated encryption.
    Encrypted,
    /// A signature over the plaintext, then authenticated encryption.
    EncryptedAndSigned,
}

impl Default for SecurityMode {
    fn default() -> (r: SecurityMode)
        ensures
            r == SecurityMode::EncryptedAndSigned,
    {
        SecurityMode::EncryptedAndSigned
    }
}

/// Whether a mode signs.
pub open spec fn signs(mode: SecurityMode) -> bool {
    mode == SecurityMode::Signed || mode == SecurityMode::EncryptedAndSigned
}

/// Whether a mode encrypts.
pub open spec fn encrypts(mode: SecurityMode) -> bool {
    mode == SecurityMode::Encrypted || mode == SecurityMode::EncryptedAndSigned
}

/// Version of the envelope format.
pub const ENVELOPE_VERSION: u8 = 1;

/// Header of a secured message.
#[derive(Debug)]
pub struct SecurityHeader {
    pub version: u8,
    pub mode: SecurityMode,
    pub key_id: String,
    /// Empty unless the mode encrypts.
    pub nonce: Vec<u8>,
    /// Present exactly when the mode signs.
    pub signature: Option<Vec<u8>>,
}

/// A message inside its envelope.
#[derive(Debug)]
pub struct SecuredMessage {
    pub header: SecurityHeader,
    /// The ciphertext where the mode encrypts, else the plaintext.
    pub payload: Vec<u8>,
    /// Reserved for a message authentication code; never set.
    pub hmac: Option<Vec<u8>>,
}

/// The value of an optional byte vector.
pub open spec fn opt_bytes(v: Option<Vec<u8>>) -> Option<Seq<u8>> {
    match v {
        Some(b) => Some(b@),
        None => None,
    }
}

/// Whether `s` is `m` secured with `mode` under key set `id` of `km`, the
/// nonce being whatever `s` carries.
pub open spec fn secured_as(s: SecuredMessage, km: KeyManager, m: Seq<u8>, mode: SecurityMode, id: Seq<char>) -> bool {
    &&& s.header.version == ENVELOPE_VERSION
    &&& s.header.mode == mode
    &&& s.header.key_id@ == id
    &&& s.hmac is None
    &&& if encrypts(mode) {
        &&& s.header.nonce@.len() == NONCE_SIZE
        &&& km.entry(id) matches Some(k)
        &&& s.payload@ == aead_seal(k.key_data, s.header.nonce@, m)
        &&& s.payload@.len() == m.len() + TAG_SIZE
    } else {
        &&& s.header.nonce@.len() == 0
        &&& s.payload@ == m
    }
    &&& if signs(mode) {
        &&& km.entry(signing_id(id)) matches Some(k)
        &&& s.header.signature matches Some(g)
        &&& g@ == ed25519_sign(k.key_data, m)
        &&& g@.len() == SIGNATURE_SIZE
    } else {
        s.header.signature is None
    }
}

/// Whether `km` holds at `now` the keys that securing with `mode` under key
/// set `id` needs.
pub open spec fn can_secure(km: KeyManager, mode: SecurityMode, id: Seq<char>, now: u64) -> bool {
    &&& signs(mode) ==> usable(km.entry(signing_id(id)), KeyType::Signing, now)
    &&& encrypts(mode) ==> usable(km.entry(id), KeyType::Encryption, now)
}

/// Whether `km` holds at `now` the keys that opening a message secured with
/// `mode` under key set `id` needs, the verification key being the public key
/// of the signing seed.
pub open spec fn can_open(km: KeyManager, mode: SecurityMode, id: Seq<char>, now: u64) -> bool {
    &&& encrypts(mode) ==> usable(km.entry(id), KeyType::Encryption, now)
    &&& signs(mode) ==> {
        &&& usable(km.entry(verify_id(id)), KeyType::Verification, now)
        &&& km.entry(signing_id(id)) matches Some(s)
        &&& s.key_data.len() == crate::crypto::ED25519_PRIVATE_KEY_SIZE
        &&& km.entry(verify_id(id))->Some_0.key_data == ed25519_public(s.key_data)
    }
}

/// The security service: the envelope over a key store it owns.
#[derive(Debug)]
pub struct SecurityService {
    pub key_manager: KeyManager,
}

/// `id` followed by `suffix`.
fn with_suffix(id: &str, suffix: &str) -> (r: String)
    ensures
        r@ == id@ + suffix@,
{
    let mut r = String::from_str(id);
    push_str(&mut r, suffix);
    r
}

impl SecurityService {
    pub fn new(key_manager: KeyManager) -> (r: SecurityService)
        ensures
            r.key_manager == key_manager,
    {
        SecurityService { key_manager }
    }

    /// Secures `data` with `mode` under key set `key_id`, checking keys
    /// against `now` (seconds) and encrypting with `nonce`.
    pub fn secure_message_at(
        &self,
        data: &[u8],
        mode: SecurityMode,
        key_id: &str,
        nonce: Vec<u8>,
        now: u64,
    ) -> (r: Result<SecuredMessage, SecurityError>)
        requires
            self.key_manager.wf(),
            encrypts(mode) ==> nonce@.len() == NONCE_SIZE,
        ensures
            r is Ok <==> can_secure(self.key_manager, mode, key_id@, now) && (encrypts(mode)
                ==> data@.len() < MAX_PLAINTEXT),
            r matches Ok(s) ==> secured_as(s, self.key_manager, data@, mode, key_id@),
            r matches Ok(s) ==> encrypts(mode) ==> s.header.nonce@ == nonce@,
            r matches Err(e) ==> e == SecurityError::KeyError || e == SecurityError::EncryptionFailed,
            r matches Err(e) ==> (e == SecurityError::KeyError <==> !can_secure(
                self.key_manager,
                mode,
                key_id@,
                now,
            )),
    {
        let signature = if mode == SecurityMode::Signed || mode == SecurityMode::EncryptedAndSigned {
            let sid = with_suffix(key_id, "-signing");
            let seed = self.key_manager.get_signing_key_at(sid.as_str(), now)?;
            match sign_message(data, seed.as_slice()) {
                Ok(g) => Some(g),
                Err(_) => {
                    return Err(SecurityError::EncryptionFailed);
                },
            }
        } else {
            None
        };
        let (payload, used_nonce) = if mode == SecurityMode::Encrypted || mode
            == SecurityMode::EncryptedAndSigned {
            let key = self.key_manager.get_encryption_key_at(key_id, now)?;
            encrypt_with_nonce(data, key.as_slice(), nonce)?
        } else {
            (crate::wire::copy_range(data, 0, data.len()), Vec::new())
        };
        proof {
            if !encrypts(mode) {
                assert(payload@ =~= data@);
            }
        }
        Ok(
            SecuredMessage {
                header: SecurityHeader {
                    version: ENVELOPE_VERSION,
                    mode,
                    key_id: String::from_str(key_id),
                    nonce: used_nonce,
                    signature,
                },
                payload,
                hmac: None,
            },
        )
    }

    /// Recovers the plaintext of `secured`, checking keys against `now`
    /// (seconds). What `secure_message_at` produced comes back unchanged while
    /// the keys it used remain.
    pub fn extract_message_at(&self, secured: &SecuredMessage, now: u64) -> (r: Result<
        Vec<u8>,
        SecurityError,
    >)
        requires
            self.key_manager.wf(),
        ensures
            forall|m: Seq<u8>|
                #[trigger] secured_as(*secured, self.key_manager, m, secured.header.mode, secured.header.key_id@)
                    && can_open(self.key_manager, secured.header.mode, secured.header.key_id@, now)
                    && (encrypts(secured.header.mode) ==> m.len() < MAX_PLAINTEXT) ==> (r matches Ok(p) && p@ == m),
            secured.header.mode == SecurityMode::Plain ==> (r matches Ok(p) && p@ == secured.payload@),
            r matches Ok(p) ==> !encrypts(secured.header.mode) ==> p@ == secured.payload@,
            r matches Ok(p) ==> encrypts(secured.header.mode) ==> (self.key_manager.entry(
                secured.header.key_id@,
            ) matches Some(k) && secured.payload@ == aead_seal(k.key_data, secured.header.nonce@, p@)),
            r matches Ok(_) ==> can_open_keys_present(self.key_manager, secured.header.mode, secured.header.key_id@, now),
            encrypts(secured.header.mode) && !enc_usable(self.key_manager, secured.header.key_id@, now)
                ==> r == Err::<Vec<u8>, SecurityError>(SecurityError::KeyError),
            encrypts(secured.header.mode) && enc_usable(self.key_manager, secured.header.key_id@, now)
                && !sealed_payload(self.key_manager, *secured) ==> r == Err::<Vec<u8>, SecurityError>(
                SecurityError::DecryptionFailed,
            ),
            secured.header.mode == SecurityMode::Signed && secured.header.signature is None ==> r
                == Err::<Vec<u8>, SecurityError>(SecurityError::AuthenticationFailed),
            secured.header.mode == SecurityMode::Signed && secured.header.signature is Some
                && !verify_usable(self.key_manager, secured.header.key_id@, now) ==> r == Err::<
                Vec<u8>,
                SecurityError,
            >(SecurityError::KeyError),
            signs(secured.header.mode) && secured.header.signature is None ==> r is Err,
            r == Err::<Vec<u8>, SecurityError>(SecurityError::DecryptionFailed) ==> encrypts(
                secured.header.mode,
            ) && enc_usable(self.key_manager, secured.header.key_id@, now) && !sealed_short(
                self.key_manager,
                *secured,
            ),
            r == Err::<Vec<u8>, SecurityError>(SecurityError::AuthenticationFailed) ==> signs(
                secured.header.mode,
            ) && (secured.header.signature is None || verify_usable(self.key_manager, secured.header.key_id@, now))
                && (encrypts(secured.header.mode) ==> sealed_payload(self.key_manager, *secured)),
            r == Err::<Vec<u8>, SecurityError>(SecurityError::KeyError) ==> (encrypts(secured.header.mode)
                && !enc_usable(self.key_manager, secured.header.key_id@, now)) || (signs(secured.header.mode)
                && !verify_usable(self.key_manager, secured.header.key_id@, now)),
            r matches Err(e) ==> e == SecurityError::KeyError || e == SecurityError::DecryptionFailed
                || e == SecurityError::AuthenticationFailed,
    {
        let mode = secured.header.mode;
        let key_id = secured.header.key_id.as_str();
        let plaintext = if mode == SecurityMode::Encrypted || mode == SecurityMode::EncryptedAndSigned {
            let key = self.key_manager.get_encryption_key_at(key_id, now)?;
            decrypt_message(secured.payload.as_slice(), secured.header.nonce.as_slice(), key.as_slice())?
        } else {
            clone_bytes(&secured.payload)
        };
        if mode == SecurityMode::Signed || mode == SecurityMode::EncryptedAndSigned {
            let signature = match &secured.header.signature {
                Some(g) => g,
                None => {
                    return Err(SecurityError::AuthenticationFailed);
                },
            };
            let vid = with_suffix(key_id, "-verify");
            let public = self.key_manager.get_verification_key_at(vid.as_str(), now)?;
            verify_signature(plaintext.as_slice(), signature.as_slice(), public.as_slice())?;
        }
        Ok(plaintext)
    }
}

impl SecurityService {
    /// Secures `data` with `mode` under key set `key_id`, with a fresh nonce
    /// and the keys checked against the current time.
    pub fn secure_message(&self, data: &[u8], mode: SecurityMode, key_id: &str) -> (r: Result<
        SecuredMessage,
        SecurityError,
    >)
        requires
            self.key_manager.wf(),
        ensures
            r matches Ok(s) ==> secured_as(s, self.key_manager, data@, mode, key_id@),
            r matches Err(e) ==> e == SecurityError::KeyError || e == SecurityError::EncryptionFailed,
            mode == SecurityMode::Plain ==> (r matches Ok(s) && secured_as(
                s,
                self.key_manager,
                data@,
                mode,
                key_id@,
            )),
            mode == SecurityMode::Signed ==> (r is Ok <== lasting(
                self.key_manager,
                signing_id(key_id@),
                KeyType::Signing,
            )),
            mode == SecurityMode::Signed && !(self.key_manager.entry(signing_id(key_id@)) matches Some(
                k,
            ) && k.key_type == KeyType::Signing) ==> r == Err::<SecuredMessage, SecurityError>(
                SecurityError::KeyError,
            ),
            encrypts(mode) && !(self.key_manager.entry(key_id@) matches Some(k) && k.key_type
                == KeyType::Encryption) ==> r is Err,
            signs(mode) && !(self.key_manager.entry(signing_id(key_id@)) matches Some(k) && k.key_type
                == KeyType::Signing) ==> r is Err,
    {
        let nonce = if mode == SecurityMode::Encrypted || mode == SecurityMode::EncryptedAndSigned {
            generate_nonce()?
        } else {
            Vec::new()
        };
        self.secure_message_at(data, mode, key_id, nonce, current_time_secs())
    }

    /// Recovers the plaintext of `secured`, with the keys checked against the
    /// current time.
    pub fn extract_message(&self, secured: &SecuredMessage) -> (r: Result<Vec<u8>, SecurityError>)
        requires
            self.key_manager.wf(),
        ensures
            secured.header.mode == SecurityMode::Plain ==> (r matches Ok(p) && p@ == secured.payload@),
            r matches Ok(p) ==> !encrypts(secured.header.mode) ==> p@ == secured.payload@,
            r matches Ok(p) ==> encrypts(secured.header.mode) ==> (self.key_manager.entry(
                secured.header.key_id@,
            ) matches Some(k) && secured.payload@ == aead_seal(k.key_data, secured.header.nonce@, p@)),
            encrypts(secured.header.mode) && !(self.key_manager.entry(secured.header.key_id@) matches Some(
                k,
            ) && k.key_type == KeyType::Encryption) ==> r == Err::<Vec<u8>, SecurityError>(
                SecurityError::KeyError,
            ),
            secured.header.mode == SecurityMode::Signed && secured.header.signature is None ==> r
                == Err::<Vec<u8>, SecurityError>(SecurityError::AuthenticationFailed),
            secured.header.mode == SecurityMode::Signed && secured.header.signature is Some && !(
            self.key_manager.entry(verify_id(secured.header.key_id@)) matches Some(k) && k.key_type
                == KeyType::Verification) ==> r == Err::<Vec<u8>, SecurityError>(SecurityError::KeyError),
            forall|m: Seq<u8>|
                #[trigger] secured_as(*secured, self.key_manager, m, secured.header.mode, secured.header.key_id@)
                    && can_open_lasting(self.key_manager, secured.header.mode, secured.header.key_id@)
                    && (encrypts(secured.header.mode) ==> m.len() < MAX_PLAINTEXT) ==> (r matches Ok(p) && p@ == m),
            r == Err::<Vec<u8>, SecurityError>(SecurityError::DecryptionFailed) ==> encrypts(
                secured.header.mode,
            ) && !sealed_short(self.key_manager, *secured),
            r == Err::<Vec<u8>, SecurityError>(SecurityError::AuthenticationFailed) ==> signs(
                secured.header.mode,
            ),
            r matches Err(e) ==> e == SecurityError::KeyError || e == SecurityError::DecryptionFailed
                || e == SecurityError::AuthenticationFailed,
    {
        self.extract_message_at(secured, current_time_secs())
    }
}

impl SecurityService {
    /// The encoding of a secured message.
    pub fn serialize(&self, message: &SecuredMessage) -> (r: Vec<u8>)
        ensures
            r@ == crate::codec::secured_bytes(*message),
    {
        crate::codec::serialize_secured(message)
    }

    /// Decodes a secured message; exactly what `serialize` produced decodes,
    /// to a message with the same values.
    pub fn deserialize(&self, data: &[u8]) -> (r: Result<SecuredMessage, crate::error::GatewayError>)
        ensures
            forall|s: SecuredMessage|
                data@ == #[trigger] crate::codec::secured_bytes(s) ==> (r matches Ok(t)
                    && crate::codec::same_secured(t, s)),
            r matches Err(e) ==> e == crate::error::GatewayError::Parse,
    {
        crate::codec::deserialize_secured(data)
    }
}

/// Whether the encryption key of key set `id` is usable at `now`.
pub open spec fn enc_usable(km: KeyManager, id: Seq<char>, now: u64) -> bool {
    usable(km.entry(id), KeyType::Encryption, now)
}

/// Whether the verification key of key set `id` is usable at `now`.
pub open spec fn verify_usable(km: KeyManager, id: Seq<char>, now: u64) -> bool {
    usable(km.entry(verify_id(id)), KeyType::Verification, now)
}

/// Whether the payload of `s` is the seal of some plaintext under the
/// encryption key of its key set and its nonce.
pub open spec fn sealed_payload(km: KeyManager, s: SecuredMessage) -> bool {
    &&& s.header.nonce@.len() == NONCE_SIZE
    &&& km.entry(s.header.key_id@) matches Some(k)
    &&& exists|p: Seq<u8>| s.payload@ == #[trigger] aead_seal(k.key_data, s.header.nonce@, p)
}

/// Whether the payload of `s` is the seal of some plaintext shorter than
/// `MAX_PLAINTEXT`, which decryption always opens.
pub open spec fn sealed_short(km: KeyManager, s: SecuredMessage) -> bool {
    &&& s.header.nonce@.len() == NONCE_SIZE
    &&& km.entry(s.header.key_id@) matches Some(k)
    &&& exists|p: Seq<u8>| p.len() < MAX_PLAINTEXT && s.payload@ == #[trigger] aead_seal(k.key_data, s.header.nonce@, p)
}

/// Whether a key of type `t` is stored under `id` without expiry, so that
/// no reading of the clock refuses it.
pub open spec fn lasting(km: KeyManager, id: Seq<char>, t: KeyType) -> bool {
    km.entry(id) matches Some(k) && k.key_type == t && k.expires_at is None
}

/// Whether the keys that opening with `mode` under key set `id` needs are
/// stored without expiry, the verification key being the public key of the
/// signing seed.
pub open spec fn can_open_lasting(km: KeyManager, mode: SecurityMode, id: Seq<char>) -> bool {
    &&& encrypts(mode) ==> lasting(km, id, KeyType::Encryption)
    &&& signs(mode) ==> {
        &&& lasting(km, verify_id(id), KeyType::Verification)
        &&& km.entry(signing_id(id)) matches Some(s)
        &&& s.key_data.len() == crate::crypto::ED25519_PRIVATE_KEY_SIZE
        &&& km.entry(verify_id(id))->Some_0.key_data == ed25519_public(s.key_data)
    }
}

/// Whether the keys that opening with `mode` under key set `id` fetches are
/// present and unexpired at `now`.
pub open spec fn can_open_keys_present(km: KeyManager, mode: SecurityMode, id: Seq<char>, now: u64) -> bool {
    &&& encrypts(mode) ==> usable(km.entry(id), KeyType::Encryption, now)
    &&& signs(mode) ==> usable(km.entry(verify_id(id)), KeyType::Verification, now)
}

} // verus!
