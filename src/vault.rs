//! The vault: secrets sealed by a cipher and kept in a store.

use vstd::prelude::*;

use crate::cipher::{nonce_of, DecryptError, EncryptError, Encryption, NONCE_LEN, TAG_LEN};
use crate::storage::{entry, lists_keys, texts, value_of, Storage, StorageError};

verus! {

/// How `delete` treats the entry.
#[derive(Debug, Clone, Copy, PartialEq, Eq, Structural)]
pub enum DeleteMode {
    /// Report whether the entry exists; change nothing.
    DryRun,
    /// Remove the entry.
    Force,
}

/// What `delete` did.
#[derive(Debug, Clone, Copy, PartialEq, Eq, Structural)]
pub enum DeleteOutcome {
    /// Nothing was changed; `exists` tells whether a secret of that name is stored.
    WouldDelete { exists: bool },
    /// The entry is gone (or was never there).
    Deleted,
}

/// Why a vault operation failed.
#[derive(Debug, PartialEq, Eq)]
pub enum VaultError {
    /// The value could not be sealed.
    Encrypt(EncryptError),
    /// The stored blob does not open under this key and name.
    Decrypt(DecryptError),
    /// The store failed.
    Backend(StorageError),
    /// A secret needs a non-empty name.
    EmptyName,
}

/// Named secrets sealed by `E` at rest in `S`.
pub struct SecretVault<E: Encryption, S: Storage> {
    cipher: E,
    storage: S,
}

impl<E: Encryption, S: Storage> SecretVault<E, S> {
    /// The cipher that seals the values.
    pub closed spec fn cipher(&self) -> E {
        self.cipher
    }

    /// The store that keeps the sealed values.
    pub closed spec fn storage(&self) -> S {
        self.storage
    }

    /// The sealed values, by secret name.
    pub open spec fn blobs(&self) -> Map<Seq<char>, Seq<u8>> {
        self.storage().entries()
    }

    /// What reading the secret `name` gives: `Ok(None)` when there is none,
    /// else its plaintext, or why its blob does not open.
    pub open spec fn lookup(&self, name: Seq<char>) -> Result<Option<Seq<u8>>, DecryptError> {
        self.read_outcome(name, entry(self.blobs(), name))
    }

    /// What reading the secret `name` gives when the store answers `found`:
    /// `Ok(None)` for no blob, else what the blob opens to.
    pub open spec fn read_outcome(&self, name: Seq<char>, found: Option<Seq<u8>>) -> Result<Option<Seq<u8>>, DecryptError> {
        match found {
            None => Ok(None),
            Some(b) => match self.cipher().opens(name, b) {
                Ok(p) => Ok(Some(p)),
                Err(e) => Err(e),
            },
        }
    }

    /// `after` is `before` with `plaintext` sealed under `name`, and every
    /// other entry as it was. The stored blob is a nonce followed by the
    /// cipher's sealing of `plaintext` under it; the plaintext itself is
    /// not stored.
    pub open spec fn stored(before: Self, after: Self, name: Seq<char>, plaintext: Seq<u8>) -> bool {
        &&& after.cipher() == before.cipher()
        &&& after.blobs().contains_key(name)
        &&& after.blobs()[name].len() == NONCE_LEN + plaintext.len() + TAG_LEN
        &&& after.blobs()[name] == nonce_of(after.blobs()[name])
            + after.cipher().sealing(name, nonce_of(after.blobs()[name]), plaintext)
        &&& after.cipher().opens(name, after.blobs()[name]) == Ok::<Seq<u8>, DecryptError>(plaintext)
        &&& after.blobs().remove(name) == before.blobs().remove(name)
    }

    /// `after` and `outcome` are what a successful `delete` of `name` in
    /// `mode` makes of `before`.
    pub open spec fn removed(before: Self, after: Self, name: Seq<char>, mode: DeleteMode, outcome: DeleteOutcome) -> bool {
        &&& after.cipher() == before.cipher()
        &&& match mode {
            DeleteMode::DryRun => after.storage() == before.storage()
                && outcome == (DeleteOutcome::WouldDelete { exists: before.blobs().contains_key(name) }),
            DeleteMode::Force => after.blobs() == before.blobs().remove(name)
                && outcome == DeleteOutcome::Deleted,
        }
    }

    /// A vault over `cipher` and `storage`.
    pub fn new(cipher: E, storage: S) -> (r: Self)
        ensures
            r.cipher() == cipher,
            r.storage() == storage,
    {
        SecretVault { cipher, storage }
    }

    /// Seals `plaintext` for `name` and stores it, replacing any earlier
    /// value of that name. An empty name is refused.
    pub fn put(&mut self, name: &str, plaintext: &[u8]) -> (r: Result<(), VaultError>)
        ensures
            final(self).cipher() == old(self).cipher(),
            r == Err::<(), VaultError>(VaultError::EmptyName) <==> name@.len() == 0,
            r == Err::<(), VaultError>(VaultError::Encrypt(EncryptError::MessageTooLong))
                <==> name@.len() > 0 && !old(self).cipher().accepts(plaintext@.len()),
            match r {
                Ok(()) => Self::stored(*old(self), *final(self), name@, plaintext@),
                Err(VaultError::Encrypt(e)) => final(self).storage() == old(self).storage()
                    && (e == EncryptError::MessageTooLong || e == EncryptError::RandomUnavailable),
                Err(VaultError::EmptyName) => final(self).storage() == old(self).storage(),
                Err(VaultError::Backend(_)) => true,
                Err(VaultError::Decrypt(_)) => false,
            },
    {
        if name.is_empty() {
            return Err(VaultError::EmptyName);
        }
        let blob = match self.cipher.encrypt(name, plaintext) {
            Ok(b) => b,
            Err(e) => return Err(VaultError::Encrypt(e)),
        };
        match self.storage.put(name, blob.as_slice()) {
            Ok(()) => {
                assert(self.blobs().remove(name@) =~= old(self).blobs().remove(name@));
                Ok(())
            },
            Err(e) => Err(VaultError::Backend(e)),
        }
    }

    /// The plaintext of the secret `name`, or `None` when there is none.
    /// A blob that does not open is an error, never a plaintext.
    pub fn get(&self, name: &str) -> (r: Result<Option<Vec<u8>>, VaultError>)
        ensures
            match r {
                Ok(v) => self.lookup(name@) == Ok::<Option<Seq<u8>>, DecryptError>(value_of(v)),
                Err(VaultError::Decrypt(e)) => self.lookup(name@) == Err::<Option<Seq<u8>>, DecryptError>(e),
                Err(VaultError::Backend(_)) => true,
                Err(_) => false,
            },
    {
        self.get_from(name, self.storage.get(name))
    }

    /// Finishes reading the secret `name` from the store's answer `fetched`:
    /// a store failure is passed on as it is; a found blob is opened.
    pub fn get_from(&self, name: &str, fetched: Result<Option<Vec<u8>>, StorageError>) -> (r: Result<Option<Vec<u8>>, VaultError>)
        ensures
            match fetched {
                Err(e) => r == Err::<Option<Vec<u8>>, VaultError>(VaultError::Backend(e)),
                Ok(found) => match r {
                    Ok(v) => self.read_outcome(name@, value_of(found)) == Ok::<Option<Seq<u8>>, DecryptError>(value_of(v)),
                    Err(VaultError::Decrypt(e)) => self.read_outcome(name@, value_of(found)) == Err::<Option<Seq<u8>>, DecryptError>(e),
                    Err(_) => false,
                },
            },
    {
        match fetched {
            Ok(found) => self.open_found(name, found),
            Err(e) => Err(VaultError::Backend(e)),
        }
    }

    /// Opens what the store holds under `name` (`None`: nothing), without
    /// ever returning unauthenticated plaintext.
    pub fn open_found(&self, name: &str, found: Option<Vec<u8>>) -> (r: Result<Option<Vec<u8>>, VaultError>)
        ensures
            match r {
                Ok(v) => self.read_outcome(name@, value_of(found)) == Ok::<Option<Seq<u8>>, DecryptError>(value_of(v)),
                Err(VaultError::Decrypt(e)) => self.read_outcome(name@, value_of(found)) == Err::<Option<Seq<u8>>, DecryptError>(e),
                Err(_) => false,
            },
    {
        match found {
            None => Ok(None),
            Some(blob) => match self.cipher.decrypt(name, blob.as_slice()) {
                Ok(p) => Ok(Some(p)),
                Err(e) => Err(VaultError::Decrypt(e)),
            },
        }
    }

    /// The names of all stored secrets, in the store's order. Nothing is
    /// decrypted.
    pub fn list(&self) -> (r: Result<Vec<String>, VaultError>)
        ensures
            match r {
                Ok(names) => lists_keys(texts(names@), self.blobs()),
                Err(e) => e is Backend,
            },
    {
        match self.storage.list() {
            Ok(names) => Ok(names),
            Err(e) => Err(VaultError::Backend(e)),
        }
    }

    /// Deletes the secret `name` (`Force`), or only reports whether it
    /// exists (`DryRun`). Deleting a missing secret is no error.
    pub fn delete(&mut self, name: &str, mode: DeleteMode) -> (r: Result<DeleteOutcome, VaultError>)
        ensures
            final(self).cipher() == old(self).cipher(),
            mode == DeleteMode::DryRun ==> final(self).storage() == old(self).storage(),
            match r {
                Ok(outcome) => Self::removed(*old(self), *final(self), name@, mode, outcome),
                Err(e) => e is Backend,
            },
    {
        match mode {
            DeleteMode::DryRun => dry_run_outcome(self.storage.get(name)),
            DeleteMode::Force => forced_outcome(self.storage.delete(name)),
        }
    }
}

/// What a dry-run delete reports from the store's answer `found`: whether a
/// blob exists, never its contents; a store failure is passed on as it is.
pub fn dry_run_outcome(found: Result<Option<Vec<u8>>, StorageError>) -> (r: Result<DeleteOutcome, VaultError>)
    ensures
        match found {
            Ok(f) => r == Ok::<DeleteOutcome, VaultError>(DeleteOutcome::WouldDelete { exists: f is Some }),
            Err(e) => r == Err::<DeleteOutcome, VaultError>(VaultError::Backend(e)),
        },
{
    match found {
        Ok(f) => Ok(DeleteOutcome::WouldDelete { exists: f.is_some() }),
        Err(e) => Err(VaultError::Backend(e)),
    }
}

/// What a forced delete reports from the store's answer `done`; a store
/// failure is passed on as it is.
pub fn forced_outcome(done: Result<(), StorageError>) -> (r: Result<DeleteOutcome, VaultError>)
    ensures
        match done {
            Ok(()) => r == Ok::<DeleteOutcome, VaultError>(DeleteOutcome::Deleted),
            Err(e) => r == Err::<DeleteOutcome, VaultError>(VaultError::Backend(e)),
        },
{
    match done {
        Ok(()) => Ok(DeleteOutcome::Deleted),
        Err(e) => Err(VaultError::Backend(e)),
    }
}

/// Reading a secret right after storing it gives back exactly what was
/// stored, and every other secret reads as before. Storing again under the
/// same name therefore replaces the value.
pub proof fn lemma_put_then_get<E: Encryption, S: Storage>(
    before: SecretVault<E, S>,
    after: SecretVault<E, S>,
    name: Seq<char>,
    plaintext: Seq<u8>,
)
    requires
        SecretVault::stored(before, after, name, plaintext),
    ensures
        after.lookup(name) == Ok::<Option<Seq<u8>>, DecryptError>(Some(plaintext)),
        forall|other: Seq<char>| other != name ==> #[trigger] after.lookup(other) == before.lookup(other),
{
    assert forall|other: Seq<char>| other != name implies #[trigger] after.lookup(other) == before.lookup(other) by {
        assert(after.blobs().remove(name).contains_key(other) == after.blobs().contains_key(other));
        assert(before.blobs().remove(name).contains_key(other) == before.blobs().contains_key(other));
        if after.blobs().contains_key(other) {
            assert(after.blobs().remove(name)[other] == after.blobs()[other]);
            assert(before.blobs().remove(name)[other] == before.blobs()[other]);
        }
    }
}

/// After a forced delete the secret reads as absent and no listing of the
/// vault names it.
pub proof fn lemma_delete_then_get<E: Encryption, S: Storage>(
    before: SecretVault<E, S>,
    after: SecretVault<E, S>,
    name: Seq<char>,
    outcome: DeleteOutcome,
)
    requires
        SecretVault::removed(before, after, name, DeleteMode::Force, outcome),
    ensures
        after.lookup(name) == Ok::<Option<Seq<u8>>, DecryptError>(None),
        forall|names: Seq<Seq<char>>| #[trigger] lists_keys(names, after.blobs()) ==> !names.contains(name),
{
    assert forall|names: Seq<Seq<char>>| #[trigger] lists_keys(names, after.blobs()) implies !names.contains(name) by {
        if names.contains(name) {
            let i = choose|i: int| 0 <= i < names.len() && names[i] == name;
            assert(after.blobs().contains_key(names[i]));
        }
    }
}

/// A dry-run delete changes nothing: every secret, the one named included,
/// reads afterwards exactly as before.
pub proof fn lemma_dry_run_keeps<E: Encryption, S: Storage>(
    before: SecretVault<E, S>,
    after: SecretVault<E, S>,
    name: Seq<char>,
    outcome: DeleteOutcome,
)
    requires
        SecretVault::removed(before, after, name, DeleteMode::DryRun, outcome),
    ensures
        forall|n: Seq<char>| #[trigger] after.lookup(n) == before.lookup(n),
{
}

} // verus!
