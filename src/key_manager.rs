//! The key store: encryption keys, signing seeds and verification keys under
//! string ids, each with a type, a creation time and an optional expiry.

use vstd::prelude::*;

use crate::codec::{
    bytes_field, chars_field, holds_at, lemma_be64_unique, lemma_bytes_field_unique,
    lemma_chars_field_unique, lemma_holds_concat, put_bytes, put_chars, take_bytes, take_chars,
};
use crate::crypto;
use crate::error::GatewayError;
use crate::wire::{be64_bytes, push_u64, read_u64};
use crate::security::SecurityError;
use crate::text::{push_str, str_eq};
use crate::utils::current_time_secs as now_secs;

verus! {

/// Seconds in a day.
pub const SECS_PER_DAY: u64 = 86400;

/// Length of every stored key: a ChaCha20-Poly1305 key, an Ed25519 seed or an
/// Ed25519 public key.
pub const KEY_LEN: usize = 32;

/// Types of keys the store holds.
#[derive(Clone, Copy, Debug, PartialEq, Eq, Structural)]
pub enum KeyType {
    /// Symmetric ChaCha20-Poly1305 key.
    Encryption,
    /// Ed25519 secret seed.
    Signing,
    /// Ed25519 public key.
    Verification,
}

/// What the store records about a key.
#[derive(Debug)]
pub struct KeyMetadata {
    pub id: String,
    pub key_type: KeyType,
    /// Creation time, seconds since the epoch.
    pub created_at: u64,
    /// Expiry time, seconds since the epoch; `None` never expires.
    pub expires_at: Option<u64>,
    pub description: String,
}

impl Clone for KeyMetadata {
    fn clone(&self) -> (r: KeyMetadata)
        ensures
            r.id@ == self.id@,
            r.key_type == self.key_type,
            r.created_at == self.created_at,
            r.expires_at == self.expires_at,
            r.description@ == self.description@,
    {
        KeyMetadata {
            id: self.id.clone(),
            key_type: self.key_type,
            created_at: self.created_at,
            expires_at: self.expires_at,
            description: self.description.clone(),
        }
    }
}

/// The contents of one key of the store.
pub struct KeyRecord {
    pub key_type: KeyType,
    pub created_at: u64,
    pub expires_at: Option<u64>,
    pub description: Seq<char>,
    pub key_data: Seq<u8>,
}

/// Whether a key is past its expiry at time `now` (seconds).
pub open spec fn expired(expires_at: Option<u64>, now: u64) -> bool {
    match expires_at {
        Some(e) => now > e,
        None => false,
    }
}

/// Whether the store's record under an id is a key of type `t` that has not
/// expired at `now`.
pub open spec fn usable(rec: Option<KeyRecord>, t: KeyType, now: u64) -> bool {
    rec matches Some(k) && k.key_type == t && !expired(k.expires_at, now)
}

/// The expiry of a key created at `now` with a lifetime of `ttl_days`;
/// a lifetime past the end of time saturates.
pub open spec fn expiry(now: u64, ttl_days: Option<u64>) -> Option<u64> {
    match ttl_days {
        Some(d) => Some(
            if now + d * SECS_PER_DAY > u64::MAX {
                u64::MAX
            } else {
                (now + d * SECS_PER_DAY) as u64
            },
        ),
        None => None,
    }
}

/// The id of the signing half of a key pair.
pub open spec fn signing_id(base: Seq<char>) -> Seq<char> {
    base + "-signing"@
}

/// The id of the verification half of a key pair.
pub open spec fn verify_id(base: Seq<char>) -> Seq<char> {
    base + "-verify"@
}

/// The description of the signing half of a key pair.
pub open spec fn signing_description(d: Seq<char>) -> Seq<char> {
    d + " (signing)"@
}

/// The description of the verification half of a key pair.
pub open spec fn verify_description(d: Seq<char>) -> Seq<char> {
    d + " (verification)"@
}

#[derive(Debug)]
struct KeyEntry {
    metadata: KeyMetadata,
    key_data: Vec<u8>,
}

spec fn record_of(e: KeyEntry) -> KeyRecord {
    KeyRecord {
        key_type: e.metadata.key_type,
        created_at: e.metadata.created_at,
        expires_at: e.metadata.expires_at,
        description: e.metadata.description@,
        key_data: e.key_data@,
    }
}

/// What the store of keys `s` holds under `id`.
spec fn records_lookup(s: Seq<KeyEntry>, id: Seq<char>) -> Option<KeyRecord> {
    match entries_lookup(s, id) {
        Some(e) => Some(record_of(e)),
        None => None,
    }
}

spec fn entries_lookup(s: Seq<KeyEntry>, id: Seq<char>) -> Option<KeyEntry>
    decreases s.len(),
{
    if s.len() == 0 {
        None
    } else if s.last().metadata.id@ == id {
        Some(s.last())
    } else {
        entries_lookup(s.drop_last(), id)
    }
}

spec fn unique_ids(s: Seq<KeyEntry>) -> bool {
    forall|i: int, j: int|
        0 <= i < s.len() && 0 <= j < s.len() && i != j ==> (#[trigger] s[i]).metadata.id@ != (
        #[trigger] s[j]).metadata.id@
}

proof fn lemma_lookup_unique(s: Seq<KeyEntry>, id: Seq<char>)
    requires
        unique_ids(s),
    ensures
        forall|i: int|
            0 <= i < s.len() && (#[trigger] s[i]).metadata.id@ == id ==> entries_lookup(s, id)
                == Some(s[i]),
        (forall|i: int| 0 <= i < s.len() ==> (#[trigger] s[i]).metadata.id@ != id)
            ==> entries_lookup(s, id) is None,
    decreases s.len(),
{
    if s.len() > 0 {
        let d = s.drop_last();
        assert(unique_ids(d)) by {
            assert forall|i: int, j: int|
                0 <= i < d.len() && 0 <= j < d.len() && i != j implies (#[trigger] d[i]).metadata.id@
                != (#[trigger] d[j]).metadata.id@ by {
                assert(d[i] == s[i] && d[j] == s[j]);
            }
        }
        lemma_lookup_unique(d, id);
        assert forall|i: int|
            0 <= i < s.len() && (#[trigger] s[i]).metadata.id@ == id implies entries_lookup(s, id)
                == Some(s[i]) by {
            if i < s.len() - 1 {
                assert(d[i] == s[i]);
                assert(s.last() == s[s.len() - 1]);
            }
        }
        if forall|i: int| 0 <= i < s.len() ==> (#[trigger] s[i]).metadata.id@ != id {
            assert(s.last() == s[s.len() - 1]);
            assert forall|i: int| 0 <= i < d.len() implies (#[trigger] d[i]).metadata.id@ != id by {
                assert(d[i] == s[i]);
            }
        }
    }
}

/// The store of keys.
#[derive(Debug)]
pub struct KeyManager {
    keys: Vec<KeyEntry>,
}

impl KeyManager {
    /// The store's invariant: ids are unique and every key is 32 bytes.
    pub closed spec fn wf(&self) -> bool {
        &&& unique_ids(self.keys@)
        &&& forall|i: int| 0 <= i < self.keys@.len() ==> (#[trigger] self.keys@[i]).key_data@.len() == KEY_LEN
    }

    /// The key stored under `id`, if any.
    pub closed spec fn entry(&self, id: Seq<char>) -> Option<KeyRecord> {
        records_lookup(self.keys@, id)
    }

    /// How many keys the store holds.
    pub closed spec fn count(&self) -> nat {
        self.keys@.len()
    }

    /// An empty store.
    pub fn new() -> (r: KeyManager)
        ensures
            r.wf(),
            r.count() == 0,
            forall|id: Seq<char>| #[trigger] r.entry(id) is None,
    {
        KeyManager { keys: Vec::new() }
    }

    fn position(&self, id: &str) -> (r: Option<usize>)
        ensures
            r matches Some(i) ==> i < self.keys@.len() && self.keys@[i as int].metadata.id@ == id@,
            r is None ==> forall|i: int| 0 <= i < self.keys@.len() ==> (#[trigger] self.keys@[i]).metadata.id@ != id@,
    {
        let mut i: usize = 0;
        while i < self.keys.len()
            invariant
                i <= self.keys@.len(),
                forall|j: int| 0 <= j < i ==> (#[trigger] self.keys@[j]).metadata.id@ != id@,
            decreases self.keys@.len() - i,
        {
            if str_eq(self.keys[i].metadata.id.as_str(), id) {
                return Some(i);
            }
            i = i + 1;
        }
        None
    }

    /// Stores `e`, replacing a key with the same id.
    fn put(&mut self, e: KeyEntry)
        requires
            old(self).wf(),
            e.key_data@.len() == KEY_LEN,
        ensures
            final(self).wf(),
            final(self).entry(e.metadata.id@) == Some(record_of(e)),
            forall|k: Seq<char>| k != e.metadata.id@ ==> #[trigger] final(self).entry(k) == old(self).entry(k),
    {
        let ghost id = e.metadata.id@;
        let ghost old_keys = self.keys@;
        match self.position(e.metadata.id.as_str()) {
            Some(i) => {
                self.keys.set(i, e);
                proof {
                    let s = self.keys@;
                    assert(unique_ids(s)) by {
                        assert forall|a: int, b: int|
                            0 <= a < s.len() && 0 <= b < s.len() && a != b implies (#[trigger] s[a]).metadata.id@
                            != (#[trigger] s[b]).metadata.id@ by {
                            assert(old_keys[a].metadata.id@ != old_keys[b].metadata.id@);
                        }
                    }
                    lemma_lookup_unique(s, id);
                    assert(s[i as int] == e);
                    assert forall|k: Seq<char>| k != id implies #[trigger] self.entry(k) == old(self).entry(k) by {
                        lemma_lookup_unique(s, k);
                        lemma_lookup_unique(old_keys, k);
                        if exists|j: int| 0 <= j < s.len() && (#[trigger] s[j]).metadata.id@ == k {
                            let j = choose|j: int| 0 <= j < s.len() && (#[trigger] s[j]).metadata.id@ == k;
                            assert(s[j] == old_keys[j]);
                        } else {
                            assert forall|j: int| 0 <= j < old_keys.len() implies (#[trigger] old_keys[j]).metadata.id@ != k by {
                                if j != i {
                                    assert(s[j] == old_keys[j]);
                                }
                            }
                        }
                    }
                }
            },
            None => {
                self.keys.push(e);
                proof {
                    let s = self.keys@;
                    assert(s.drop_last() =~= old_keys);
                    assert(unique_ids(s)) by {
                        assert forall|a: int, b: int|
                            0 <= a < s.len() && 0 <= b < s.len() && a != b implies (#[trigger] s[a]).metadata.id@
                            != (#[trigger] s[b]).metadata.id@ by {
                            if a < old_keys.len() && b < old_keys.len() {
                                assert(s[a] == old_keys[a] && s[b] == old_keys[b]);
                            } else if a < old_keys.len() {
                                assert(s[a] == old_keys[a]);
                            } else {
                                assert(s[b] == old_keys[b]);
                            }
                        }
                    }
                    assert forall|k: Seq<char>| k != id implies #[trigger] self.entry(k) == old(self).entry(k) by {}
                }
            },
        }
        assert forall|j: int| 0 <= j < self.keys@.len() implies (#[trigger] self.keys@[j]).key_data@.len() == KEY_LEN by {
            if j < old_keys.len() && self.keys@[j] != e {
                assert(self.keys@[j] == old_keys[j]);
            }
        }
    }
    /// Removes the key under `id`, if any; gives whether there was one.
    fn remove_id(&mut self, id: &str) -> (r: bool)
        requires
            old(self).wf(),
        ensures
            final(self).wf(),
            r == (old(self).entry(id@) is Some),
            final(self).entry(id@) is None,
            forall|k: Seq<char>| k != id@ ==> #[trigger] final(self).entry(k) == old(self).entry(k),
            final(self).count() == if r { old(self).count() - 1 } else { old(self).count() as int },
    {
        let ghost old_keys = self.keys@;
        proof {
            lemma_lookup_unique(old_keys, id@);
        }
        match self.position(id) {
            Some(i) => {
                self.keys.remove(i);
                proof {
                    let s = self.keys@;
                    assert(s =~= old_keys.remove(i as int));
                    assert(forall|j: int| 0 <= j < s.len() ==> #[trigger] s[j] == old_keys[if j < i { j } else { j + 1 }]);
                    assert(unique_ids(s)) by {
                        assert forall|a: int, b: int|
                            0 <= a < s.len() && 0 <= b < s.len() && a != b implies (#[trigger] s[a]).metadata.id@
                            != (#[trigger] s[b]).metadata.id@ by {
                            let a2 = if a < i { a } else { a + 1 };
                            let b2 = if b < i { b } else { b + 1 };
                            assert(old_keys[a2].metadata.id@ != old_keys[b2].metadata.id@);
                        }
                    }
                    lemma_lookup_unique(s, id@);
                    assert forall|j: int| 0 <= j < s.len() implies (#[trigger] s[j]).metadata.id@ != id@ by {
                        let j2 = if j < i { j } else { j + 1 };
                        assert(old_keys[j2].metadata.id@ != old_keys[i as int].metadata.id@);
                    }
                    assert forall|k: Seq<char>| k != id@ implies #[trigger] self.entry(k) == old(self).entry(k) by {
                        lemma_lookup_unique(s, k);
                        lemma_lookup_unique(old_keys, k);
                        if exists|j: int| 0 <= j < old_keys.len() && (#[trigger] old_keys[j]).metadata.id@ == k {
                            let j = choose|j: int| 0 <= j < old_keys.len() && (#[trigger] old_keys[j]).metadata.id@ == k;
                            assert(j != i);
                            let j2 = if j < i { j } else { j - 1 };
                            assert(s[j2] == old_keys[j]);
                        } else {
                            assert forall|j: int| 0 <= j < s.len() implies (#[trigger] s[j]).metadata.id@ != k by {
                                let j2 = if j < i { j } else { j + 1 };
                                assert(s[j] == old_keys[j2]);
                            }
                        }
                    }
                    assert forall|j: int| 0 <= j < s.len() implies (#[trigger] s[j]).key_data@.len() == KEY_LEN by {
                        let j2 = if j < i { j } else { j + 1 };
                        assert(s[j] == old_keys[j2]);
                    }
                }
                true
            },
            None => false,
        }
    }

    /// Stores a key with the given fields, created at `now` (seconds).
    fn store_at(
        &mut self,
        id: String,
        key_type: KeyType,
        key_data: Vec<u8>,
        description: String,
        ttl_days: Option<u64>,
        now: u64,
    )
        requires
            old(self).wf(),
            key_data@.len() == KEY_LEN,
        ensures
            final(self).wf(),
            final(self).entry(id@) == Some(
                KeyRecord {
                    key_type,
                    created_at: now,
                    expires_at: expiry(now, ttl_days),
                    description: description@,
                    key_data: key_data@,
                },
            ),
            forall|k: Seq<char>| k != id@ ==> #[trigger] final(self).entry(k) == old(self).entry(k),
    {
        let expires_at = expires_after(now, ttl_days);
        self.put(
            KeyEntry {
                metadata: KeyMetadata { id, key_type, created_at: now, expires_at, description },
                key_data,
            },
        );
    }

    /// Imports a key created at `now` (seconds); every key type takes 32 bytes.
    pub fn import_key_at(
        &mut self,
        id: &str,
        key_type: KeyType,
        key_data: &[u8],
        description: &str,
        ttl_days: Option<u64>,
        now: u64,
    ) -> (r: Result<(), SecurityError>)
        requires
            old(self).wf(),
        ensures
            final(self).wf(),
            r is Ok <==> key_data@.len() == KEY_LEN,
            r matches Err(e) ==> e == SecurityError::KeyError && *final(self) == *old(self),
            r is Ok ==> final(self).entry(id@) == Some(
                KeyRecord {
                    key_type,
                    created_at: now,
                    expires_at: expiry(now, ttl_days),
                    description: description@,
                    key_data: key_data@,
                },
            ),
            forall|k: Seq<char>| k != id@ ==> #[trigger] final(self).entry(k) == old(self).entry(k),
    {
        if key_data.len() != KEY_LEN {
            return Err(SecurityError::KeyError);
        }
        let data = crate::wire::copy_range(key_data, 0, key_data.len());
        assert(data@ =~= key_data@);
        self.store_at(String::from_str(id), key_type, data, String::from_str(description), ttl_days, now);
        Ok(())
    }

    /// Imports a key created now.
    pub fn import_key(
        &mut self,
        id: &str,
        key_type: KeyType,
        key_data: &[u8],
        description: &str,
        ttl_days: Option<u64>,
    ) -> (r: Result<(), SecurityError>)
        requires
            old(self).wf(),
        ensures
            final(self).wf(),
            r is Ok <==> key_data@.len() == KEY_LEN,
            r matches Err(e) ==> e == SecurityError::KeyError && *final(self) == *old(self),
            r is Ok ==> (final(self).entry(id@) matches Some(k) && k.key_type == key_type && k.key_data
                == key_data@ && k.description == description@ && k.expires_at == expiry(k.created_at, ttl_days)),
            forall|k: Seq<char>| k != id@ ==> #[trigger] final(self).entry(k) == old(self).entry(k),
    {
        self.import_key_at(id, key_type, key_data, description, ttl_days, now_secs())
    }

    /// The key under `id` if it has type `key_type` and has not expired at
    /// `now` (seconds).
    pub fn get_key_at(&self, id: &str, key_type: KeyType, now: u64) -> (r: Result<Vec<u8>, SecurityError>)
        requires
            self.wf(),
        ensures
            r is Ok <==> usable(self.entry(id@), key_type, now),
            r matches Ok(d) ==> (self.entry(id@) matches Some(k) && d@ == k.key_data),
            r matches Ok(d) ==> d@.len() == KEY_LEN,
            r matches Err(e) ==> e == SecurityError::KeyError,
    {
        proof {
            lemma_lookup_unique(self.keys@, id@);
        }
        match self.position(id) {
            None => Err(SecurityError::KeyError),
            Some(i) => {
                let entry = &self.keys[i];
                if entry.metadata.key_type != key_type {
                    return Err(SecurityError::KeyError);
                }
                if let Some(expires_at) = entry.metadata.expires_at {
                    if now > expires_at {
                        return Err(SecurityError::KeyError);
                    }
                }
                Ok(crate::protocols::clone_bytes(&entry.key_data))
            },
        }
    }

    /// The encryption key under `id`, unless missing, of another type or
    /// expired at `now` (seconds).
    pub fn get_encryption_key_at(&self, id: &str, now: u64) -> (r: Result<Vec<u8>, SecurityError>)
        requires
            self.wf(),
        ensures
            r is Ok <==> usable(self.entry(id@), KeyType::Encryption, now),
            r matches Ok(d) ==> (self.entry(id@) matches Some(k) && d@ == k.key_data),
            r matches Ok(d) ==> d@.len() == KEY_LEN,
            r matches Err(e) ==> e == SecurityError::KeyError,
    {
        self.get_key_at(id, KeyType::Encryption, now)
    }

    /// The signing seed under `id`, unless missing, of another type or
    /// expired at `now` (seconds).
    pub fn get_signing_key_at(&self, id: &str, now: u64) -> (r: Result<Vec<u8>, SecurityError>)
        requires
            self.wf(),
        ensures
            r is Ok <==> usable(self.entry(id@), KeyType::Signing, now),
            r matches Ok(d) ==> (self.entry(id@) matches Some(k) && d@ == k.key_data),
            r matches Ok(d) ==> d@.len() == KEY_LEN,
            r matches Err(e) ==> e == SecurityError::KeyError,
    {
        self.get_key_at(id, KeyType::Signing, now)
    }

    /// The verification key under `id`, unless missing, of another type or
    /// expired at `now` (seconds).
    pub fn get_verification_key_at(&self, id: &str, now: u64) -> (r: Result<Vec<u8>, SecurityError>)
        requires
            self.wf(),
        ensures
            r is Ok <==> usable(self.entry(id@), KeyType::Verification, now),
            r matches Ok(d) ==> (self.entry(id@) matches Some(k) && d@ == k.key_data),
            r matches Ok(d) ==> d@.len() == KEY_LEN,
            r matches Err(e) ==> e == SecurityError::KeyError,
    {
        self.get_key_at(id, KeyType::Verification, now)
    }

    /// The encryption key under `id`, checked against the current time.
    pub fn get_encryption_key(&self, id: &str) -> (r: Result<Vec<u8>, SecurityError>)
        requires
            self.wf(),
        ensures
            r matches Ok(d) ==> (self.entry(id@) matches Some(k) && k.key_type == KeyType::Encryption
                && d@ == k.key_data),
            r matches Err(e) ==> e == SecurityError::KeyError,
            self.entry(id@) matches Some(k) && k.key_type == KeyType::Encryption && k.expires_at is None
                ==> r is Ok,
    {
        self.get_encryption_key_at(id, now_secs())
    }

    /// The signing seed under `id`, checked against the current time.
    pub fn get_signing_key(&self, id: &str) -> (r: Result<Vec<u8>, SecurityError>)
        requires
            self.wf(),
        ensures
            r matches Ok(d) ==> (self.entry(id@) matches Some(k) && k.key_type == KeyType::Signing
                && d@ == k.key_data),
            r matches Err(e) ==> e == SecurityError::KeyError,
            self.entry(id@) matches Some(k) && k.key_type == KeyType::Signing && k.expires_at is None
                ==> r is Ok,
    {
        self.get_signing_key_at(id, now_secs())
    }

    /// The verification key under `id`, checked against the current time.
    pub fn get_verification_key(&self, id: &str) -> (r: Result<Vec<u8>, SecurityError>)
        requires
            self.wf(),
        ensures
            r matches Ok(d) ==> (self.entry(id@) matches Some(k) && k.key_type == KeyType::Verification
                && d@ == k.key_data),
            r matches Err(e) ==> e == SecurityError::KeyError,
            self.entry(id@) matches Some(k) && k.key_type == KeyType::Verification && k.expires_at
                is None ==> r is Ok,
    {
        self.get_verification_key_at(id, now_secs())
    }

    /// The metadata of every key, one record per id.
    pub fn list_keys(&self) -> (r: Vec<KeyMetadata>)
        requires
            self.wf(),
        ensures
            r@.len() == self.count(),
            forall|i: int|
                0 <= i < r@.len() ==> (#[trigger] self.entry(r@[i].id@) matches Some(k) && k.key_type
                    == r@[i].key_type && k.created_at == r@[i].created_at && k.expires_at
                    == r@[i].expires_at && k.description == r@[i].description@),
            forall|i: int, j: int|
                0 <= i < r@.len() && 0 <= j < r@.len() && i != j ==> (#[trigger] r@[i]).id@ != (
                #[trigger] r@[j]).id@,
            forall|id: Seq<char>|
                #[trigger] self.entry(id) is Some ==> exists|i: int| 0 <= i < r@.len() && r@[i].id@ == id,
    {
        let mut r: Vec<KeyMetadata> = Vec::new();
        let mut i: usize = 0;
        while i < self.keys.len()
            invariant
                self.wf(),
                i <= self.keys@.len(),
                r@.len() == i,
                forall|j: int|
                    0 <= j < i ==> (#[trigger] r@[j]).id@ == self.keys@[j].metadata.id@ && r@[j].key_type
                        == self.keys@[j].metadata.key_type && r@[j].created_at
                        == self.keys@[j].metadata.created_at && r@[j].expires_at
                        == self.keys@[j].metadata.expires_at && r@[j].description@
                        == self.keys@[j].metadata.description@,
            decreases self.keys@.len() - i,
        {
            r.push(self.keys[i].metadata.clone());
            i = i + 1;
        }
        proof {
            assert forall|i: int|
                0 <= i < r@.len() implies (#[trigger] self.entry(r@[i].id@) matches Some(k) && k.key_type
                    == r@[i].key_type && k.created_at == r@[i].created_at && k.expires_at
                    == r@[i].expires_at && k.description == r@[i].description@) by {
                lemma_lookup_unique(self.keys@, r@[i].id@);
            }
            assert forall|id: Seq<char>| #[trigger] self.entry(id) is Some implies exists|i: int|
                0 <= i < r@.len() && r@[i].id@ == id by {
                lemma_lookup_unique(self.keys@, id);
                if forall|i: int| 0 <= i < self.keys@.len() ==> (#[trigger] self.keys@[i]).metadata.id@ != id {
                } else {
                    let i = choose|i: int| 0 <= i < self.keys@.len() && (#[trigger] self.keys@[i]).metadata.id@ == id;
                    assert(r@[i].id@ == id);
                }
            }
        }
        r
    }

    /// Deletes the key under `id`; fails when there is none.
    pub fn delete_key(&mut self, id: &str) -> (r: Result<(), SecurityError>)
        requires
            old(self).wf(),
        ensures
            final(self).wf(),
            r is Ok <==> old(self).entry(id@) is Some,
            r matches Err(e) ==> e == SecurityError::KeyError,
            final(self).entry(id@) is None,
            forall|k: Seq<char>| k != id@ ==> #[trigger] final(self).entry(k) == old(self).entry(k),
    {
        if self.remove_id(id) {
            Ok(())
        } else {
            Err(SecurityError::KeyError)
        }
    }
}


fn expires_after(now: u64, ttl_days: Option<u64>) -> (r: Option<u64>)
    ensures
        r == expiry(now, ttl_days),
{
    match ttl_days {
        Some(d) => {
            if d > (u64::MAX - now) / SECS_PER_DAY {
                assert(now + d * SECS_PER_DAY > u64::MAX) by (nonlinear_arith)
                    requires d > (u64::MAX - now) / 86400, now <= u64::MAX;
                Some(u64::MAX)
            } else {
                assert(now + d * SECS_PER_DAY <= u64::MAX) by (nonlinear_arith)
                    requires d <= (u64::MAX - now) / 86400, now <= u64::MAX;
                Some(now + d * SECS_PER_DAY)
            }
        },
        None => None,
    }
}

/// Whether `km` holds, under `id`, an encryption key of 32 bytes with the given
/// description and a lifetime of `ttl_days` from its creation.
pub open spec fn encryption_installed(km: KeyManager, id: Seq<char>, description: Seq<char>, ttl_days: Option<u64>) -> bool {
    km.entry(id) matches Some(k) && k.key_type == KeyType::Encryption && k.key_data.len() == KEY_LEN
        && k.description == description && k.expires_at == expiry(k.created_at, ttl_days)
}

/// Whether `km` holds an Ed25519 pair under `<base>-signing` and
/// `<base>-verify`: a 32-byte seed and its public key, created together with
/// the given lifetime, described as `<description> (signing)` and
/// `<description> (verification)`.
pub open spec fn keypair_installed(km: KeyManager, base: Seq<char>, description: Seq<char>, ttl_days: Option<u64>) -> bool {
    &&& km.entry(signing_id(base)) matches Some(s)
    &&& km.entry(verify_id(base)) matches Some(v)
    &&& s.key_type == KeyType::Signing
    &&& v.key_type == KeyType::Verification
    &&& s.key_data.len() == crypto::ED25519_PRIVATE_KEY_SIZE
    &&& v.key_data == crypto::ed25519_public(s.key_data)
    &&& v.key_data.len() == crypto::ED25519_PUBLIC_KEY_SIZE
    &&& s.created_at == v.created_at
    &&& s.expires_at == expiry(s.created_at, ttl_days)
    &&& v.expires_at == s.expires_at
    &&& s.description == signing_description(description)
    &&& v.description == verify_description(description)
}

/// The two ids of a key pair differ.
pub proof fn lemma_pair_ids_differ(base: Seq<char>)
    ensures
        signing_id(base) != verify_id(base),
{
    reveal_strlit("-signing");
    reveal_strlit("-verify");
    assert(signing_id(base).len() != verify_id(base).len());
}

/// Ids of pairs under different bases never meet.
pub proof fn lemma_pair_ids_distinct(a: Seq<char>, b: Seq<char>)
    ensures
        signing_id(a) != verify_id(b),
        signing_id(a) == signing_id(b) ==> a == b,
        verify_id(a) == verify_id(b) ==> a == b,
{
    reveal_strlit("-signing");
    reveal_strlit("-verify");
    let (sa, vb) = (signing_id(a), verify_id(b));
    if sa == vb {
        assert(sa[sa.len() - 1] == 'g');
        assert(vb[vb.len() - 1] == 'y');
    }
    if signing_id(a) == signing_id(b) {
        assert(signing_id(a).len() == a.len() + 8 && signing_id(b).len() == b.len() + 8);
        assert(a.len() == b.len());
        assert(a =~= signing_id(a).subrange(0, a.len() as int));
        assert(b =~= signing_id(b).subrange(0, b.len() as int));
    }
    if verify_id(a) == verify_id(b) {
        assert(verify_id(a).len() == a.len() + 7 && verify_id(b).len() == b.len() + 7);
        assert(a.len() == b.len());
        assert(a =~= verify_id(a).subrange(0, a.len() as int));
        assert(b =~= verify_id(b).subrange(0, b.len() as int));
    }
}

/// After a key pair is generated, both halves can be fetched as long as they
/// have not expired, and the verification key is the public key of the
/// signing seed, so that what one signs the other accepts.
pub proof fn law_keypair_counterparts(
    km: KeyManager,
    base: Seq<char>,
    description: Seq<char>,
    ttl_days: Option<u64>,
    now: u64,
)
    requires
        keypair_installed(km, base, description, ttl_days),
        km.entry(signing_id(base)) matches Some(s) && !expired(s.expires_at, now),
    ensures
        usable(km.entry(signing_id(base)), KeyType::Signing, now),
        usable(km.entry(verify_id(base)), KeyType::Verification, now),
        km.entry(verify_id(base))->Some_0.key_data == crypto::ed25519_public(
            km.entry(signing_id(base))->Some_0.key_data,
        ),
        km.entry(signing_id(base))->Some_0.key_data.len() == crypto::ED25519_PRIVATE_KEY_SIZE,
        km.entry(verify_id(base))->Some_0.key_data.len() == crypto::ED25519_PUBLIC_KEY_SIZE,
{
}

/// `base` followed by `suffix`.
fn suffixed(base: &str, suffix: &str) -> (r: String)
    ensures
        r@ == base@ + suffix@,
{
    let mut r = String::from_str(base);
    push_str(&mut r, suffix);
    r
}

impl KeyManager {
    /// Stores the pair (`seed`, `public`) under `<base>-signing` and
    /// `<base>-verify`, created at `now` (seconds).
    pub fn install_keypair_at(
        &mut self,
        base: &str,
        description: &str,
        ttl_days: Option<u64>,
        seed: Vec<u8>,
        public: Vec<u8>,
        now: u64,
    )
        requires
            old(self).wf(),
            seed@.len() == crypto::ED25519_PRIVATE_KEY_SIZE,
            public@ == crypto::ed25519_public(seed@),
            public@.len() == crypto::ED25519_PUBLIC_KEY_SIZE,
        ensures
            final(self).wf(),
            keypair_installed(*final(self), base@, description@, ttl_days),
            final(self).entry(signing_id(base@))->Some_0.key_data == seed@,
            final(self).entry(signing_id(base@))->Some_0.created_at == now,
            forall|k: Seq<char>|
                k != signing_id(base@) && k != verify_id(base@) ==> #[trigger] final(self).entry(k)
                    == old(self).entry(k),
    {
        proof {
            lemma_pair_ids_differ(base@);
        }
        self.store_at(
            suffixed(base, "-signing"),
            KeyType::Signing,
            seed,
            suffixed(description, " (signing)"),
            ttl_days,
            now,
        );
        let ghost after_first = *self;
        self.store_at(
            suffixed(base, "-verify"),
            KeyType::Verification,
            public,
            suffixed(description, " (verification)"),
            ttl_days,
            now,
        );
        assert(self.entry(signing_id(base@)) == after_first.entry(signing_id(base@)));
    }

    /// Generates a fresh encryption key under `id`, replacing any key there.
    pub fn generate_encryption_key(&mut self, id: &str, description: &str, ttl_days: Option<u64>) -> (r: Result<(), SecurityError>)
        requires
            old(self).wf(),
        ensures
            final(self).wf(),
            r matches Err(e) ==> e == SecurityError::KeyError && *final(self) == *old(self),
            r is Ok ==> encryption_installed(*final(self), id@, description@, ttl_days),
            forall|k: Seq<char>| k != id@ ==> #[trigger] final(self).entry(k) == old(self).entry(k),
    {
        match crypto::generate_encryption_key() {
            Ok(key) => {
                self.store_at(String::from_str(id), KeyType::Encryption, key, String::from_str(description), ttl_days, now_secs());
                Ok(())
            },
            Err(_) => Err(SecurityError::KeyError),
        }
    }

    /// Generates a fresh Ed25519 pair under `<id>-signing` and `<id>-verify`.
    pub fn generate_keypair(&mut self, id: &str, description: &str, ttl_days: Option<u64>) -> (r: Result<(), SecurityError>)
        requires
            old(self).wf(),
        ensures
            final(self).wf(),
            r matches Err(e) ==> e == SecurityError::KeyError && *final(self) == *old(self),
            r is Ok ==> keypair_installed(*final(self), id@, description@, ttl_days),
            forall|k: Seq<char>|
                k != signing_id(id@) && k != verify_id(id@) ==> #[trigger] final(self).entry(k)
                    == old(self).entry(k),
    {
        match crypto::generate_signing_keypair() {
            Ok((seed, public)) => {
                self.install_keypair_at(id, description, ttl_days, seed, public, now_secs());
                Ok(())
            },
            Err(_) => Err(SecurityError::KeyError),
        }
    }

    /// Generates a new encryption key under `new_id`, then, if asked, deletes
    /// the key under `old_id`. The new key stays even where the deletion fails.
    pub fn rotate_encryption_key(
        &mut self,
        old_id: &str,
        new_id: &str,
        description: &str,
        ttl_days: Option<u64>,
        delete_old: bool,
    ) -> (r: Result<(), SecurityError>)
        requires
            old(self).wf(),
        ensures
            final(self).wf(),
            r matches Err(e) ==> e == SecurityError::KeyError,
            forall|k: Seq<char>|
                k != new_id@ && !(delete_old && k == old_id@) ==> #[trigger] final(self).entry(k)
                    == old(self).entry(k),
            r is Ok && delete_old ==> final(self).entry(old_id@) is None,
            r is Ok && (!delete_old || old_id@ != new_id@) ==> encryption_installed(
                *final(self),
                new_id@,
                description@,
                ttl_days,
            ),
            !delete_old && r is Err ==> *final(self) == *old(self),
            r is Err ==> *final(self) == *old(self) || encryption_installed(
                *final(self),
                new_id@,
                description@,
                ttl_days,
            ),
            delete_old && old_id@ != new_id@ && old(self).entry(old_id@) is None ==> r is Err,
    {
        self.generate_encryption_key(new_id, description, ttl_days)?;
        if delete_old {
            self.delete_key(old_id)?;
        }
        Ok(())
    }

    /// Generates a new pair under `new_id`, then, if asked, deletes the
    /// halves of the pair under `old_id` that are there.
    pub fn rotate_keypair(
        &mut self,
        old_id: &str,
        new_id: &str,
        description: &str,
        ttl_days: Option<u64>,
        delete_old: bool,
    ) -> (r: Result<(), SecurityError>)
        requires
            old(self).wf(),
        ensures
            final(self).wf(),
            r matches Err(e) ==> e == SecurityError::KeyError && *final(self) == *old(self),
            r is Ok && (!delete_old || old_id@ != new_id@) ==> keypair_installed(
                *final(self),
                new_id@,
                description@,
                ttl_days,
            ),
            r is Ok && delete_old ==> final(self).entry(signing_id(old_id@)) is None
                && final(self).entry(verify_id(old_id@)) is None,
            forall|k: Seq<char>|
                k != signing_id(new_id@) && k != verify_id(new_id@) && !(delete_old && (k
                    == signing_id(old_id@) || k == verify_id(old_id@))) ==> #[trigger] final(self).entry(k)
                    == old(self).entry(k),
    {
        self.generate_keypair(new_id, description, ttl_days)?;
        proof {
            lemma_pair_ids_distinct(old_id@, new_id@);
            lemma_pair_ids_distinct(new_id@, old_id@);
        }
        if delete_old {
            let old_signing = suffixed(old_id, "-signing");
            let old_verify = suffixed(old_id, "-verify");
            let _ = self.delete_key(old_signing.as_str());
            let _ = self.delete_key(old_verify.as_str());
        }
        Ok(())
    }
}

/// The byte of a key type.
pub open spec fn key_type_byte(t: KeyType) -> u8 {
    match t {
        KeyType::Encryption => 0,
        KeyType::Signing => 1,
        KeyType::Verification => 2,
    }
}

/// A key type as one byte.
pub open spec fn type_field(t: KeyType) -> Seq<u8> {
    seq![key_type_byte(t)]
}

/// An optional time: a tag byte, then eight bytes.
pub open spec fn opt_time_field(t: Option<u64>) -> Seq<u8> {
    match t {
        Some(v) => seq![1u8] + be64_bytes(v),
        None => seq![0u8],
    }
}

/// The first part of the encoding of a stored key: its id, type and
/// creation time.
pub open spec fn head_bytes(id: Seq<char>, t: KeyType, created_at: u64) -> Seq<u8> {
    chars_field(id) + type_field(t) + be64_bytes(created_at)
}

/// The second part of the encoding of a stored key: its expiry, description
/// and key bytes.
pub open spec fn tail_bytes(expires_at: Option<u64>, description: Seq<char>, key_data: Seq<u8>) -> Seq<u8> {
    opt_time_field(expires_at) + chars_field(description) + bytes_field(key_data)
}

/// The encoding of one stored key.
pub open spec fn record_bytes(id: Seq<char>, k: KeyRecord) -> Seq<u8> {
    head_bytes(id, k.key_type, k.created_at) + tail_bytes(k.expires_at, k.description, k.key_data)
}

spec fn entry_bytes(e: KeyEntry) -> Seq<u8> {
    record_bytes(e.metadata.id@, record_of(e))
}

spec fn entries_bytes(s: Seq<KeyEntry>) -> Seq<u8>
    decreases s.len(),
{
    if s.len() == 0 {
        Seq::empty()
    } else {
        entries_bytes(s.drop_last()) + entry_bytes(s.last())
    }
}

fn put_entry(out: &mut Vec<u8>, e: &KeyEntry)
    ensures
        final(out)@ == old(out)@ + entry_bytes(*e),
{
    put_chars(out, e.metadata.id.as_str());
    out.push(
        match e.metadata.key_type {
            KeyType::Encryption => 0,
            KeyType::Signing => 1,
            KeyType::Verification => 2,
        },
    );
    push_u64(out, e.metadata.created_at);
    match e.metadata.expires_at {
        Some(v) => {
            out.push(1);
            push_u64(out, v);
        },
        None => {
            out.push(0);
        },
    }
    put_chars(out, e.metadata.description.as_str());
    put_bytes(out, e.key_data.as_slice());
    assert(final(out)@ =~= old(out)@ + entry_bytes(*e));
}

impl KeyManager {
    /// The encoding of the whole store: the number of keys, then each key.
    pub closed spec fn store_bytes(&self) -> Seq<u8> {
        be64_bytes(self.keys@.len() as u64) + entries_bytes(self.keys@)
    }

    /// The encoding of the whole store, for persisting it.
    pub fn to_bytes(&self) -> (r: Vec<u8>)
        ensures
            r@ == self.store_bytes(),
    {
        let mut out: Vec<u8> = Vec::new();
        push_u64(&mut out, self.keys.len() as u64);
        let ghost head = out@;
        let mut i: usize = 0;
        while i < self.keys.len()
            invariant
                i <= self.keys@.len(),
                out@ == head + entries_bytes(self.keys@.subrange(0, i as int)),
            decreases self.keys@.len() - i,
        {
            put_entry(&mut out, &self.keys[i]);
            proof {
                let q = self.keys@.subrange(0, i + 1);
                assert(q.drop_last() =~= self.keys@.subrange(0, i as int));
                assert(q.last() == self.keys@[i as int]);
                assert(out@ =~= head + entries_bytes(q));
            }
            i = i + 1;
        }
        assert(self.keys@.subrange(0, self.keys@.len() as int) =~= self.keys@);
        out
    }
}

fn take_u64(b: &[u8], pos: usize) -> (r: Option<(u64, usize)>)
    ensures
        forall|v: u64|
            holds_at(b@, pos as int, #[trigger] be64_bytes(v)) ==> r == Some((v, (pos + 8) as usize)),
{
    proof {
        reveal(holds_at);
    }
    if pos > b.len() || b.len() - pos < 8 {
        proof {
            assert forall|v: u64| !holds_at(b@, pos as int, #[trigger] be64_bytes(v)) by {
                crate::wire::lemma_be64_round_trip(v);
            }
        }
        return None;
    }
    let v = read_u64(b, pos);
    proof {
        assert forall|w: u64| holds_at(b@, pos as int, #[trigger] be64_bytes(w)) implies v == w by {
            crate::wire::lemma_be64_round_trip(w);
            crate::codec::lemma_be64_window(b@, pos as int, w);
        }
    }
    Some((v, pos + 8))
}

fn take_key_type(b: &[u8], pos: usize) -> (r: Option<(KeyType, usize)>)
    ensures
        forall|t: KeyType|
            holds_at(b@, pos as int, #[trigger] type_field(t)) ==> r == Some((t, (pos + 1) as usize)),
{
    proof {
        reveal(holds_at);
    }
    if pos >= b.len() {
        return None;
    }
    let v = b[pos];
    proof {
        assert forall|t: KeyType| holds_at(b@, pos as int, #[trigger] type_field(t)) implies v == key_type_byte(t) by {
            assert(b@.subrange(pos as int, pos + 1)[0] == b@[pos as int]);
            assert(type_field(t)[0] == key_type_byte(t));
        }
    }
    match v {
        0 => Some((KeyType::Encryption, pos + 1)),
        1 => Some((KeyType::Signing, pos + 1)),
        2 => Some((KeyType::Verification, pos + 1)),
        _ => None,
    }
}

fn take_opt_time(b: &[u8], pos: usize) -> (r: Option<(Option<u64>, usize)>)
    ensures
        forall|t: Option<u64>|
            holds_at(b@, pos as int, #[trigger] opt_time_field(t)) ==> r == Some((t, (pos + opt_time_field(t).len()) as usize)),
{
    proof {
        reveal(holds_at);
    }
    if pos >= b.len() {
        return None;
    }
    let tag = b[pos];
    proof {
        assert forall|t: Option<u64>| holds_at(b@, pos as int, #[trigger] opt_time_field(t)) implies tag == opt_time_field(t)[0] by {
            assert(b@.subrange(pos as int, pos + opt_time_field(t).len())[0] == b@[pos as int]);
        }
    }
    if tag == 0 {
        Some((None, pos + 1))
    } else if tag == 1 {
        let r = take_u64(b, pos + 1);
        proof {
            assert forall|t: Option<u64>| holds_at(b@, pos as int, #[trigger] opt_time_field(t)) implies t is Some && r == Some((t->Some_0, (pos + 9) as usize)) by {
                if let Some(v) = t {
                    crate::wire::lemma_be64_round_trip(v);
                    crate::codec::lemma_holds_concat(b@, pos as int, seq![1u8], be64_bytes(v));
                }
            }
        }
        match r {
            Some((v, q)) => Some((Some(v), q)),
            None => None,
        }
    } else {
        None
    }
}

proof fn lemma_head_layout(b: Seq<u8>, pos: int, id: Seq<char>, t: KeyType, c: u64)
    requires
        holds_at(b, pos, head_bytes(id, t, c)),
    ensures
        holds_at(b, pos, chars_field(id)),
        holds_at(b, pos + chars_field(id).len(), type_field(t)),
        holds_at(b, pos + chars_field(id).len() + 1, be64_bytes(c)),
        head_bytes(id, t, c).len() == chars_field(id).len() + 9,
        pos + head_bytes(id, t, c).len() <= b.len(),
{
    crate::wire::lemma_be64_round_trip(c);
    crate::codec::lemma_holds_within(b, pos, head_bytes(id, t, c));
    let a1 = chars_field(id);
    let a2 = a1 + type_field(t);
    lemma_holds_concat(b, pos, a2, be64_bytes(c));
    lemma_holds_concat(b, pos, a1, type_field(t));
}

proof fn lemma_tail_layout(b: Seq<u8>, pos: int, o: Option<u64>, d: Seq<char>, k: Seq<u8>)
    requires
        holds_at(b, pos, tail_bytes(o, d, k)),
    ensures
        holds_at(b, pos, opt_time_field(o)),
        holds_at(b, pos + opt_time_field(o).len(), chars_field(d)),
        holds_at(b, pos + opt_time_field(o).len() + chars_field(d).len(), bytes_field(k)),
        tail_bytes(o, d, k).len() == opt_time_field(o).len() + chars_field(d).len() + bytes_field(k).len(),
        pos + tail_bytes(o, d, k).len() <= b.len(),
{
    crate::codec::lemma_holds_within(b, pos, tail_bytes(o, d, k));
    let a1 = opt_time_field(o);
    let a2 = a1 + chars_field(d);
    lemma_holds_concat(b, pos, a2, bytes_field(k));
    lemma_holds_concat(b, pos, a1, chars_field(d));
}

proof fn lemma_record_layout(b: Seq<u8>, pos: int, id: Seq<char>, k: KeyRecord)
    requires
        holds_at(b, pos, record_bytes(id, k)),
    ensures
        holds_at(b, pos, head_bytes(id, k.key_type, k.created_at)),
        holds_at(b, pos + head_bytes(id, k.key_type, k.created_at).len(), tail_bytes(k.expires_at, k.description, k.key_data)),
        record_bytes(id, k).len() == head_bytes(id, k.key_type, k.created_at).len() + tail_bytes(k.expires_at, k.description, k.key_data).len(),
{
    lemma_holds_concat(b, pos, head_bytes(id, k.key_type, k.created_at), tail_bytes(k.expires_at, k.description, k.key_data));
}

proof fn lemma_type_unique(b: Seq<u8>, pos: int, t1: KeyType, t2: KeyType)
    requires
        holds_at(b, pos, type_field(t1)),
        holds_at(b, pos, type_field(t2)),
    ensures
        t1 == t2,
{
    reveal(holds_at);
    assert(b.subrange(pos, pos + 1)[0] == b[pos]);
    assert(type_field(t1)[0] == key_type_byte(t1));
    assert(type_field(t2)[0] == key_type_byte(t2));
}

proof fn lemma_opt_time_unique(b: Seq<u8>, pos: int, o1: Option<u64>, o2: Option<u64>)
    requires
        holds_at(b, pos, opt_time_field(o1)),
        holds_at(b, pos, opt_time_field(o2)),
    ensures
        o1 == o2,
{
    reveal(holds_at);
    assert(b.subrange(pos, pos + opt_time_field(o1).len())[0] == b[pos]);
    assert(b.subrange(pos, pos + opt_time_field(o2).len())[0] == b[pos]);
    if let (Some(v1), Some(v2)) = (o1, o2) {
        crate::wire::lemma_be64_round_trip(v1);
        crate::wire::lemma_be64_round_trip(v2);
        lemma_holds_concat(b, pos, seq![1u8], be64_bytes(v1));
        lemma_holds_concat(b, pos, seq![1u8], be64_bytes(v2));
        lemma_be64_unique(b, pos + 1, v1, v2);
    }
}

/// Two stored keys encoded at the same place are the same key.
proof fn lemma_record_unique(b: Seq<u8>, pos: int, id1: Seq<char>, k1: KeyRecord, id2: Seq<char>, k2: KeyRecord)
    requires
        holds_at(b, pos, record_bytes(id1, k1)),
        holds_at(b, pos, record_bytes(id2, k2)),
        b.len() <= u64::MAX,
    ensures
        id1 == id2,
        k1 == k2,
{
    lemma_record_layout(b, pos, id1, k1);
    lemma_record_layout(b, pos, id2, k2);
    lemma_head_layout(b, pos, id1, k1.key_type, k1.created_at);
    lemma_head_layout(b, pos, id2, k2.key_type, k2.created_at);
    lemma_chars_field_unique(b, pos, id1, id2);
    let p1 = pos + chars_field(id1).len();
    lemma_type_unique(b, p1, k1.key_type, k2.key_type);
    lemma_be64_unique(b, p1 + 1, k1.created_at, k2.created_at);
    let t = pos + head_bytes(id1, k1.key_type, k1.created_at).len();
    lemma_tail_layout(b, t, k1.expires_at, k1.description, k1.key_data);
    lemma_tail_layout(b, t, k2.expires_at, k2.description, k2.key_data);
    lemma_opt_time_unique(b, t, k1.expires_at, k2.expires_at);
    let p4 = t + opt_time_field(k1.expires_at).len();
    lemma_chars_field_unique(b, p4, k1.description, k2.description);
    let p5 = p4 + chars_field(k1.description).len();
    lemma_bytes_field_unique(b, p5, k1.key_data, k2.key_data);
}

fn take_head(b: &[u8], pos: usize, Ghost(id0): Ghost<Seq<char>>, Ghost(t0): Ghost<KeyType>, Ghost(c0): Ghost<u64>) -> (r: Option<(String, KeyType, u64, usize)>)
    ensures
        holds_at(b@, pos as int, head_bytes(id0, t0, c0)) ==> (r matches Some((id, t, c, q)) && id@ == id0
            && t == t0 && c == c0 && q == pos + head_bytes(id0, t0, c0).len()),
{
    let n = b.len();
    proof {
        if holds_at(b@, pos as int, head_bytes(id0, t0, c0)) {
            lemma_head_layout(b@, pos as int, id0, t0, c0);
            assert(b@.len() == n);
        }
    }
    let (id, at1) = take_chars(b, pos)?;
    let (key_type, at2) = take_key_type(b, at1)?;
    let (created_at, at3) = take_u64(b, at2)?;
    Some((id, key_type, created_at, at3))
}

fn take_tail(b: &[u8], pos: usize, Ghost(o0): Ghost<Option<u64>>, Ghost(d0): Ghost<Seq<char>>, Ghost(k0): Ghost<Seq<u8>>) -> (r: Option<(Option<u64>, String, Vec<u8>, usize)>)
    ensures
        holds_at(b@, pos as int, tail_bytes(o0, d0, k0)) ==> (r matches Some((o, d, k, q)) && o == o0
            && d@ == d0 && k@ == k0 && q == pos + tail_bytes(o0, d0, k0).len()),
{
    let n = b.len();
    proof {
        if holds_at(b@, pos as int, tail_bytes(o0, d0, k0)) {
            lemma_tail_layout(b@, pos as int, o0, d0, k0);
            assert(b@.len() == n);
        }
    }
    let (expires_at, at1) = take_opt_time(b, pos)?;
    let (description, at2) = take_chars(b, at1)?;
    let (key_data, at3) = take_bytes(b, at2)?;
    Some((expires_at, description, key_data, at3))
}

/// Decodes one stored key at `pos`; where the encoding of `id0` and `k0`
/// stands there, gives back exactly that key.
fn take_entry(b: &[u8], pos: usize, Ghost(id0): Ghost<Seq<char>>, Ghost(k0): Ghost<KeyRecord>) -> (r: Option<(KeyEntry, usize)>)
    ensures
        r matches Some((e, _)) ==> e.key_data@.len() == KEY_LEN,
        holds_at(b@, pos as int, record_bytes(id0, k0)) && k0.key_data.len() == KEY_LEN ==> (r matches Some((e, q))
            && e.metadata.id@ == id0 && record_of(e) == k0 && q == pos + record_bytes(id0, k0).len()),
{
    proof {
        if holds_at(b@, pos as int, record_bytes(id0, k0)) {
            lemma_record_layout(b@, pos as int, id0, k0);
        }
    }
    let (id, key_type, created_at, at1) = take_head(b, pos, Ghost(id0), Ghost(k0.key_type), Ghost(k0.created_at))?;
    let (expires_at, description, key_data, at2) = take_tail(b, at1, Ghost(k0.expires_at), Ghost(k0.description), Ghost(k0.key_data))?;
    if key_data.len() != KEY_LEN {
        return None;
    }
    Some((KeyEntry { metadata: KeyMetadata { id, key_type, created_at, expires_at, description }, key_data }, at2))
}

/// The encodings of the first `i` keys are a prefix of the encodings of all.
proof fn lemma_entries_prefix(s: Seq<KeyEntry>, i: int)
    requires
        0 <= i <= s.len(),
    ensures
        entries_bytes(s.subrange(0, i)).len() <= entries_bytes(s).len(),
        entries_bytes(s).subrange(0, entries_bytes(s.subrange(0, i)).len() as int) == entries_bytes(s.subrange(0, i)),
    decreases s.len(),
{
    if i == s.len() {
        assert(s.subrange(0, i) =~= s);
        assert(entries_bytes(s).subrange(0, entries_bytes(s).len() as int) =~= entries_bytes(s));
    } else {
        let d = s.drop_last();
        lemma_entries_prefix(d, i);
        assert(d.subrange(0, i) =~= s.subrange(0, i));
        let p = entries_bytes(s.subrange(0, i));
        assert(entries_bytes(s) == entries_bytes(d) + entry_bytes(s.last()));
        assert(entries_bytes(s).subrange(0, p.len() as int) =~= entries_bytes(d).subrange(0, p.len() as int));
    }
}

/// Each stored key takes at least one byte.
proof fn lemma_entries_len(s: Seq<KeyEntry>)
    ensures
        entries_bytes(s).len() >= s.len(),
    decreases s.len(),
{
    if s.len() > 0 {
        lemma_entries_len(s.drop_last());
        crate::wire::lemma_be64_round_trip(s.last().metadata.id@.len() as u64);
    }
}

/// Where the encoding of key `i` stands once the encoding of all keys is
/// found at `base`.
proof fn lemma_entry_at(b: Seq<u8>, base: int, s: Seq<KeyEntry>, i: int)
    requires
        0 <= i < s.len(),
        holds_at(b, base, entries_bytes(s)),
    ensures
        entries_bytes(s.subrange(0, i + 1)) == entries_bytes(s.subrange(0, i)) + entry_bytes(s[i]),
        holds_at(b, base + entries_bytes(s.subrange(0, i)).len(), entry_bytes(s[i])),
{
    let q = s.subrange(0, i + 1);
    assert(q.drop_last() =~= s.subrange(0, i));
    assert(q.last() == s[i]);
    lemma_entries_prefix(s, i + 1);
    let whole = entries_bytes(s);
    let pj = entries_bytes(q).len() as int;
    assert(whole =~= entries_bytes(q) + whole.subrange(pj, whole.len() as int));
    lemma_holds_concat(b, base, entries_bytes(q), whole.subrange(pj, whole.len() as int));
    lemma_holds_concat(b, base, entries_bytes(s.subrange(0, i)), entry_bytes(s[i]));
}

/// Keys that agree index by index in id and record give the same lookups.
proof fn lemma_lookup_congruent(s0: Seq<KeyEntry>, s1: Seq<KeyEntry>)
    requires
        s0.len() == s1.len(),
        forall|j: int| 0 <= j < s0.len() ==> (#[trigger] s0[j]).metadata.id@ == s1[j].metadata.id@
            && record_of(s0[j]) == record_of(s1[j]),
    ensures
        forall|id: Seq<char>| #[trigger] records_lookup(s0, id) == records_lookup(s1, id),
    decreases s0.len(),
{
    if s0.len() > 0 {
        let (d0, d1) = (s0.drop_last(), s1.drop_last());
        assert forall|j: int| 0 <= j < d0.len() implies (#[trigger] d0[j]).metadata.id@ == d1[j].metadata.id@
            && record_of(d0[j]) == record_of(d1[j]) by {
            assert(d0[j] == s0[j] && d1[j] == s1[j]);
        }
        lemma_lookup_congruent(d0, d1);
        assert(s0.last() == s0[s0.len() - 1] && s1.last() == s1[s1.len() - 1]);
        assert forall|id: Seq<char>| #[trigger] records_lookup(s0, id) == records_lookup(s1, id) by {
            assert(records_lookup(d0, id) == records_lookup(d1, id));
        }
    }
}

/// Two key sequences whose encodings stand at the same place agree on their
/// first `i` keys.
proof fn lemma_prefix_agree(b: Seq<u8>, s0: Seq<KeyEntry>, s1: Seq<KeyEntry>, i: int)
    requires
        holds_at(b, 8, entries_bytes(s0)),
        holds_at(b, 8, entries_bytes(s1)),
        0 <= i <= s0.len(),
        s0.len() == s1.len(),
        b.len() <= u64::MAX,
    ensures
        entries_bytes(s0.subrange(0, i)).len() == entries_bytes(s1.subrange(0, i)).len(),
        forall|j: int| 0 <= j < i ==> (#[trigger] s0[j]).metadata.id@ == s1[j].metadata.id@
            && record_of(s0[j]) == record_of(s1[j]),
    decreases i,
{
    if i == 0 {
        assert(s0.subrange(0, 0) =~= s1.subrange(0, 0));
    } else {
        lemma_prefix_agree(b, s0, s1, i - 1);
        lemma_entry_at(b, 8, s0, i - 1);
        lemma_entry_at(b, 8, s1, i - 1);
        lemma_record_unique(
            b,
            8 + entries_bytes(s0.subrange(0, i - 1)).len() as int,
            s0[i - 1].metadata.id@,
            record_of(s0[i - 1]),
            s1[i - 1].metadata.id@,
            record_of(s1[i - 1]),
        );
    }
}

impl KeyManager {
    /// Whether `b` is the encoding of this store.
    #[verifier::opaque]
    pub open spec fn encoded_by(&self, b: Seq<u8>) -> bool {
        self.wf() && b == self.store_bytes()
    }

    /// What `to_bytes` writes for a store is an encoding of it, so that
    /// `from_bytes` reads back the same key under every id.
    pub proof fn lemma_store_encodes(&self)
        requires
            self.wf(),
        ensures
            self.encoded_by(self.store_bytes()),
    {
        reveal(KeyManager::encoded_by);
    }

    proof fn lemma_encoded_layout(&self, b: Seq<u8>)
        requires
            self.encoded_by(b),
            b.len() <= u64::MAX,
        ensures
            self.wf(),
            holds_at(b, 0, be64_bytes(self.keys@.len() as u64)),
            holds_at(b, 8, entries_bytes(self.keys@)),
            self.keys@.len() + 8 <= b.len(),
            b.len() == 8 + entries_bytes(self.keys@).len(),
    {
        reveal(KeyManager::encoded_by);
        crate::wire::lemma_be64_round_trip(self.keys@.len() as u64);
        crate::codec::lemma_holds_whole(b);
        assert(b == be64_bytes(self.keys@.len() as u64) + entries_bytes(self.keys@));
        lemma_holds_concat(b, 0, be64_bytes(self.keys@.len() as u64), entries_bytes(self.keys@));
        crate::codec::lemma_holds_within(b, 8, entries_bytes(self.keys@));
        lemma_entries_len(self.keys@);
    }

    /// Two stores with the same encoding hold the same key under every id.
    proof fn lemma_encoding_unique(&self, other: KeyManager, b: Seq<u8>)
        requires
            self.encoded_by(b),
            other.encoded_by(b),
            b.len() <= u64::MAX,
        ensures
            forall|id: Seq<char>| #[trigger] self.entry(id) == other.entry(id),
    {
        self.lemma_encoded_layout(b);
        other.lemma_encoded_layout(b);
        crate::codec::lemma_be64_unique(b, 0, self.keys@.len() as u64, other.keys@.len() as u64);
        lemma_prefix_agree(b, self.keys@, other.keys@, self.keys@.len() as int);
        lemma_lookup_congruent(self.keys@, other.keys@);
    }

    /// Decodes the key at `pos` into the store. Where `on` holds, the
    /// encoding of key `ti` of `ts` stands at `pos` and the store holds the
    /// keys before it; the store then holds key `ti` as well.
    fn decode_next(&mut self, b: &[u8], pos: usize, Ghost(on): Ghost<bool>, Ghost(ts): Ghost<Seq<KeyEntry>>, Ghost(ti): Ghost<int>) -> (r: Option<usize>)
        requires
            old(self).wf(),
            on ==> 0 <= ti < ts.len(),
            on ==> holds_at(b@, pos as int, entry_bytes(ts[ti])),
            on ==> ts[ti].key_data@.len() == KEY_LEN,
            on ==> forall|id: Seq<char>| #[trigger] old(self).entry(id) == records_lookup(ts.subrange(0, ti), id),
        ensures
            final(self).wf(),
            on ==> (r matches Some(q) && q == pos + entry_bytes(ts[ti]).len()
                && forall|id: Seq<char>| #[trigger] final(self).entry(id) == records_lookup(ts.subrange(0, ti + 1), id)),
    {
        let ghost gid: Seq<char> = if on { ts[ti].metadata.id@ } else { arbitrary() };
        let ghost grec: KeyRecord = if on { record_of(ts[ti]) } else { arbitrary() };
        match take_entry(b, pos, Ghost(gid), Ghost(grec)) {
            Some((e, q)) => {
                self.put(e);
                proof {
                    if on {
                        let s1 = ts.subrange(0, ti + 1);
                        assert(s1.drop_last() =~= ts.subrange(0, ti));
                        assert(s1.last() == ts[ti]);
                        assert forall|id: Seq<char>| #[trigger] self.entry(id) == records_lookup(s1, id) by {}
                    }
                }
                Some(q)
            },
            None => None,
        }
    }

    /// A store read back from bytes that `to_bytes` wrote: the encoding of
    /// any store decodes to a store that holds the same key under every id.
    /// Malformed bytes, a key that is not 32 bytes long and trailing bytes
    /// fail with `Parse`; a key id that occurs twice keeps its later key.
    #[verifier::spinoff_prover]
    #[verifier::rlimit(100)]
    pub fn from_bytes(b: &[u8]) -> (r: Result<KeyManager, GatewayError>)
        ensures
            r matches Ok(km) ==> km.wf(),
            r matches Err(e) ==> e == GatewayError::Parse,
            forall|km0: KeyManager|
                #[trigger] km0.encoded_by(b@) ==> (r matches Ok(km) && forall|id: Seq<char>|
                    #[trigger] km.entry(id) == km0.entry(id)),
    {
        let n = b.len();
        let ghost bs = b@;
        let ghost found = exists|km0: KeyManager| #[trigger] km0.encoded_by(bs);
        let ghost t: KeyManager = if found {
            choose|km0: KeyManager| #[trigger] km0.encoded_by(bs)
        } else {
            arbitrary()
        };
        let ghost ts: Seq<KeyEntry> = t.keys@;
        proof {
            assert(bs.len() == n);
            if found {
                t.lemma_encoded_layout(bs);
            }
        }
        let (count, mut pos) = match take_u64(b, 0) {
            Some(x) => x,
            None => {
                return Err(GatewayError::Parse);
            },
        };
        let mut km = KeyManager::new();
        let mut i: u64 = 0;
        proof {
            assert(ts.subrange(0, 0) =~= Seq::<KeyEntry>::empty());
            assert(entries_bytes(Seq::<KeyEntry>::empty()).len() == 0);
            if found {
                assert(count == ts.len() as u64);
                assert(count as int == ts.len());
                assert forall|id: Seq<char>| #[trigger] km.entry(id) == records_lookup(ts.subrange(0, 0), id) by {}
            }
        }
        while i < count
            invariant
                km.wf(),
                i <= count,
                bs == b@,
                n == b@.len(),
                found == (exists|km0: KeyManager| #[trigger] km0.encoded_by(bs)),
                found ==> t.encoded_by(bs) && ts == t.keys@ && t.wf(),
                found ==> count as int == ts.len(),
                found ==> holds_at(bs, 8, entries_bytes(ts)),
                found ==> pos as int == 8 + entries_bytes(ts.subrange(0, i as int)).len(),
                found ==> forall|id: Seq<char>| #[trigger] km.entry(id) == records_lookup(ts.subrange(0, i as int), id),
            decreases count - i,
        {
            proof {
                if found {
                    lemma_entry_at(bs, 8, ts, i as int);
                    assert(t.keys@[i as int].key_data@.len() == KEY_LEN);
                }
            }
            pos = match km.decode_next(b, pos as usize, Ghost(found), Ghost(ts), Ghost(i as int)) {
                Some(q) => q,
                None => {
                    return Err(GatewayError::Parse);
                },
            };
            i = i + 1;
        }
        proof {
            if found {
                assert(ts.subrange(0, ts.len() as int) =~= ts);
                assert(pos as int == n);
            }
        }
        if pos != n {
            return Err(GatewayError::Parse);
        }
        proof {
            assert forall|km0: KeyManager| #[trigger] km0.encoded_by(bs) implies forall|id: Seq<char>|
                #[trigger] km.entry(id) == km0.entry(id) by {
                t.lemma_encoding_unique(km0, bs);
                assert forall|id: Seq<char>| #[trigger] km.entry(id) == km0.entry(id) by {
                    assert(km.entry(id) == records_lookup(ts, id));
                    assert(t.entry(id) == records_lookup(ts, id));
                }
            }
        }
        Ok(km)
    }
}

} // verus!
