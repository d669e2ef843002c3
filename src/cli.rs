//! The vault's commands and what running one reports. Parsing the command
//! line and printing the report are left to the program around the library.

use vstd::prelude::*;
use vstd::utf8::encode_utf8;

use crate::cipher::{DecryptError, EncryptError, Encryption};
use crate::storage::{lists_keys, texts, Storage};
use crate::vault::{DeleteMode, DeleteOutcome, SecretVault, VaultError};

verus! {

/// A command line: a command, or none (then the program shows its help).
pub struct Cli {
    pub command: Option<Command>,
}

/// One vault operation.
pub enum Command {
    /// Store a new secret.
    Put(PutArgs),
    /// Retrieve a secret.
    Get(GetArgs),
    /// List all secrets.
    List,
    /// Delete a secret.
    Delete(DeleteArgs),
}

/// The secret to store.
pub struct PutArgs {
    /// Name of the secret to store.
    pub key: String,
    /// Value of the secret to store.
    pub value: String,
}

/// The secret to read.
pub struct GetArgs {
    /// Name of the secret to get.
    pub key: String,
}

/// The secret to delete, and whether to delete it or only say so.
pub struct DeleteArgs {
    /// Name of the secret to delete.
    pub key: String,
    /// Dry run or forced deletion.
    pub mode: DeleteMode,
}

/// What running a command found or did.
pub enum Report {
    /// The secret was stored.
    Stored,
    /// The secret's value.
    Value(Vec<u8>),
    /// No secret of that name is stored.
    Missing,
    /// The names of all stored secrets.
    Names(Vec<String>),
    /// What deleting did, or would have done.
    Delete(DeleteOutcome),
}

impl Command {
    /// Runs the command against `vault`, each operation as the vault defines it.
    pub fn run<E: Encryption, S: Storage>(&self, vault: &mut SecretVault<E, S>) -> (r: Result<Report, VaultError>)
        ensures
            final(vault).cipher() == old(vault).cipher(),
            match self {
                Command::Put(a) => {
                    &&& (r == Err::<Report, VaultError>(VaultError::EmptyName) <==> a.key@.len() == 0)
                    &&& (r == Err::<Report, VaultError>(VaultError::Encrypt(EncryptError::MessageTooLong))
                        <==> a.key@.len() > 0 && !old(vault).cipher().accepts(encode_utf8(a.value@).len()))
                    &&& match r {
                        Ok(rep) => rep is Stored
                            && SecretVault::stored(*old(vault), *final(vault), a.key@, encode_utf8(a.value@)),
                        Err(VaultError::EmptyName) => final(vault).storage() == old(vault).storage(),
                        Err(VaultError::Encrypt(e)) => final(vault).storage() == old(vault).storage()
                            && (e == EncryptError::MessageTooLong || e == EncryptError::RandomUnavailable),
                        Err(VaultError::Backend(_)) => true,
                        Err(VaultError::Decrypt(_)) => false,
                    }
                },
                Command::Get(a) => *final(vault) == *old(vault) && match r {
                    Ok(Report::Value(v)) => old(vault).lookup(a.key@) == Ok::<Option<Seq<u8>>, DecryptError>(Some(v@)),
                    Ok(Report::Missing) => old(vault).lookup(a.key@) == Ok::<Option<Seq<u8>>, DecryptError>(None),
                    Err(VaultError::Decrypt(e)) => old(vault).lookup(a.key@) == Err::<Option<Seq<u8>>, DecryptError>(e),
                    Err(VaultError::Backend(_)) => true,
                    _ => false,
                },
                Command::List => *final(vault) == *old(vault) && match r {
                    Ok(Report::Names(names)) => lists_keys(texts(names@), old(vault).blobs()),
                    Err(VaultError::Backend(_)) => true,
                    _ => false,
                },
                Command::Delete(a) => match r {
                    Ok(Report::Delete(outcome)) => SecretVault::removed(*old(vault), *final(vault), a.key@, a.mode, outcome),
                    Err(VaultError::Backend(_)) => a.mode == DeleteMode::Force
                        || final(vault).storage() == old(vault).storage(),
                    _ => false,
                },
            },
    {
        match self {
            Command::Put(a) => match vault.put(a.key.as_str(), a.value.as_str().as_bytes()) {
                Ok(()) => Ok(Report::Stored),
                Err(e) => Err(e),
            },
            Command::Get(a) => match vault.get(a.key.as_str()) {
                Ok(Some(v)) => Ok(Report::Value(v)),
                Ok(None) => Ok(Report::Missing),
                Err(e) => Err(e),
            },
            Command::List => match vault.list() {
                Ok(names) => Ok(Report::Names(names)),
                Err(e) => Err(e),
            },
            Command::Delete(a) => match vault.delete(a.key.as_str(), a.mode) {
                Ok(outcome) => Ok(Report::Delete(outcome)),
                Err(e) => Err(e),
            },
        }
    }
}

} // verus!
