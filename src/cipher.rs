//! Authenticated encryption of single values, bound to the secret's name.
//!
//! A sealed value (a blob) is laid out as `nonce || ciphertext || tag`: a
//! fresh random 12-byte nonce, the ciphertext, which is as long as the
//! plaintext, and a 16-byte authentication tag over the ciphertext and the
//! secret's name.

use chacha20poly1305::aead::{Aead, KeyInit, Payload};
use chacha20poly1305::{ChaCha20Poly1305, Nonce};
use vstd::prelude::*;
use vstd::utf8::encode_utf8;

use crate::keys::{Key, KEY_LEN};
use crate::random::random_bytes;

verus! {

/// Length in bytes of the nonce at the front of every blob.
pub const NONCE_LEN: usize = 12;

/// Length in bytes of the authentication tag at the end of every blob.
pub const TAG_LEN: usize = 16;

/// Plaintexts of this many bytes or more cannot be sealed: ChaCha20 counts
/// 64-byte keystream blocks in 32 bits and spends block 0 on the Poly1305
/// key, which leaves 2^32 - 2 blocks, 64 * (2^32 - 2) bytes, for the message.
pub const SEAL_LIMIT: u64 = 274877906817;

/// Why a value could not be sealed.
#[derive(Debug, Clone, Copy, PartialEq, Eq, Structural)]
pub enum EncryptError {
    /// The plaintext is too long for the cipher.
    MessageTooLong,
    /// No nonce could be drawn: the secure random source failed.
    RandomUnavailable,
}

/// Why a blob could not be opened.
#[derive(Debug, Clone, Copy, PartialEq, Eq, Structural)]
pub enum DecryptError {
    /// The blob is shorter than a nonce and a tag together.
    Truncated,
    /// The tag does not authenticate the blob under this key and name.
    Tamper,
}

/// The output of ChaCha20-Poly1305 sealing `msg` under `key`, `nonce` and the
/// associated data `aad`: ciphertext followed by tag.
pub uninterp spec fn chacha_seal(key: Seq<u8>, nonce: Seq<u8>, aad: Seq<u8>, msg: Seq<u8>) -> Seq<u8>;

/// The outcome of ChaCha20-Poly1305 opening `ct` (ciphertext followed by tag)
/// under `key`, `nonce` and the associated data `aad`.
pub uninterp spec fn chacha_open(key: Seq<u8>, nonce: Seq<u8>, aad: Seq<u8>, ct: Seq<u8>) -> Option<Seq<u8>>;

/// Relies on `Aead::encrypt` of `ChaCha20Poly1305` with a `Payload` of message
/// and associated data: on a message short enough for the keystream it
/// succeeds, the output is the ciphertext followed by a 16-byte tag, and
/// `Aead::decrypt` gives the message back under the same key, nonce and data.
/// Longer messages are kept out: past the keystream the stream cipher panics.
#[verifier::external_body]
fn seal(key: &[u8], nonce: &[u8], aad: &[u8], msg: &[u8]) -> (r: Option<Vec<u8>>)
    requires
        key@.len() == KEY_LEN,
        nonce@.len() == NONCE_LEN,
        msg@.len() < SEAL_LIMIT,
    ensures
        r is Some,
        r matches Some(c) ==> {
            &&& c@ == chacha_seal(key@, nonce@, aad@, msg@)
            &&& c@.len() == msg@.len() + TAG_LEN
            &&& chacha_open(key@, nonce@, aad@, c@) == Some(msg@)
        },
{
    let cipher = ChaCha20Poly1305::new(chacha20poly1305::Key::from_slice(key));
    cipher.encrypt(Nonce::from_slice(nonce), Payload { msg, aad }).ok()
}

/// Relies on `Aead::decrypt` of `ChaCha20Poly1305` with a `Payload` of
/// ciphertext and associated data: it yields a plaintext only when the tag
/// authenticates the ciphertext and data; that plaintext is `ct` without its
/// 16-byte tag, and sealing it under the same key, nonce and data gives back
/// exactly `ct`. Conversely, every sealing of a plaintext opens to that
/// plaintext. Ciphertexts whose body is too long for the keystream are kept
/// out: on an authentic one the stream cipher panics.
#[verifier::external_body]
fn open(key: &[u8], nonce: &[u8], aad: &[u8], ct: &[u8]) -> (r: Option<Vec<u8>>)
    requires
        key@.len() == KEY_LEN,
        nonce@.len() == NONCE_LEN,
        ct@.len() < SEAL_LIMIT + TAG_LEN,
    ensures
        forall|q: Seq<u8>| q.len() < SEAL_LIMIT && #[trigger] chacha_seal(key@, nonce@, aad@, q) == ct@
            ==> r is Some && r->0@ == q,
        match r {
            Some(p) => chacha_open(key@, nonce@, aad@, ct@) == Some(p@)
                && chacha_seal(key@, nonce@, aad@, p@) == ct@
                && p@.len() + TAG_LEN == ct@.len(),
            None => chacha_open(key@, nonce@, aad@, ct@) is None,
        },
{
    let cipher = ChaCha20Poly1305::new(chacha20poly1305::Key::from_slice(key));
    cipher.decrypt(Nonce::from_slice(nonce), Payload { msg: ct, aad }).ok()
}

/// The associated data that binds a blob to the secret's name: its UTF-8 bytes.
pub open spec fn name_aad(name: Seq<char>) -> Seq<u8> {
    encode_utf8(name)
}

/// What opening `blob` under `key` for the secret `name` gives.
pub open spec fn chacha_opens(key: Seq<u8>, name: Seq<char>, blob: Seq<u8>) -> Result<Seq<u8>, DecryptError> {
    if blob.len() < NONCE_LEN + TAG_LEN {
        Err(DecryptError::Truncated)
    } else if blob.len() >= NONCE_LEN + TAG_LEN + SEAL_LIMIT {
        Err(DecryptError::Tamper)
    } else {
        match chacha_open(key, blob.subrange(0, NONCE_LEN as int), name_aad(name), blob.subrange(NONCE_LEN as int, blob.len() as int)) {
            Some(p) => Ok(p),
            None => Err(DecryptError::Tamper),
        }
    }
}

/// A decryption result seen through the views of its bytes.
pub open spec fn opened(r: Result<Vec<u8>, DecryptError>) -> Result<Seq<u8>, DecryptError> {
    match r {
        Ok(p) => Ok(p@),
        Err(e) => Err(e),
    }
}

/// `blob` is `nonce || sealed` for the nonce at its front.
pub open spec fn nonce_of(blob: Seq<u8>) -> Seq<u8> {
    blob.subrange(0, NONCE_LEN as int)
}

/// An authenticated cipher that seals values for named secrets. A blob is
/// the nonce followed by the cipher's sealing of the plaintext under that
/// nonce, with the secret's name bound in.
pub trait Encryption {
    /// What decrypting `blob` for the secret `name` gives.
    spec fn opens(&self, name: Seq<char>, blob: Seq<u8>) -> Result<Seq<u8>, DecryptError>;

    /// The cipher's sealing (ciphertext and tag) of `plaintext` for the
    /// secret `name` under `nonce`.
    spec fn sealing(&self, name: Seq<char>, nonce: Seq<u8>, plaintext: Seq<u8>) -> Seq<u8>;

    /// Whether a plaintext of `len` bytes can be sealed.
    spec fn accepts(&self, len: nat) -> bool;

    /// Seals `plaintext` for the secret `name` under a fresh random nonce.
    /// The blob is that nonce followed by the sealing, and it opens, under
    /// the same name, to exactly `plaintext`. Besides a plaintext the cipher
    /// does not accept, only a failing random source makes it fail.
    fn encrypt(&self, name: &str, plaintext: &[u8]) -> (r: Result<Vec<u8>, EncryptError>)
        ensures
            r == Err::<Vec<u8>, EncryptError>(EncryptError::MessageTooLong) <==> !self.accepts(plaintext@.len()),
            r matches Err(e) ==> e == EncryptError::MessageTooLong || e == EncryptError::RandomUnavailable,
            r matches Ok(blob) ==> {
                &&& blob@.len() == NONCE_LEN + plaintext@.len() + TAG_LEN
                &&& blob@ == nonce_of(blob@) + self.sealing(name@, nonce_of(blob@), plaintext@)
                &&& self.opens(name@, blob@) == Ok::<Seq<u8>, DecryptError>(plaintext@)
            };

    /// Opens `blob` for the secret `name`. A blob that opens is exactly the
    /// sealing, under its own nonce, of the plaintext it yields; nothing
    /// else opens, and no unauthenticated plaintext is ever returned. Every
    /// such sealing of an acceptable plaintext opens to that plaintext.
    fn decrypt(&self, name: &str, blob: &[u8]) -> (r: Result<Vec<u8>, DecryptError>)
        ensures
            opened(r) == self.opens(name@, blob@),
            blob@.len() < NONCE_LEN + TAG_LEN ==> r == Err::<Vec<u8>, DecryptError>(DecryptError::Truncated),
            r matches Ok(p) ==> {
                &&& blob@.len() == NONCE_LEN + p@.len() + TAG_LEN
                &&& blob@ == nonce_of(blob@) + self.sealing(name@, nonce_of(blob@), p@)
            },
            forall|p: Seq<u8>|
                self.accepts(p.len()) && blob@.len() == NONCE_LEN + p.len() + TAG_LEN
                    && #[trigger] self.sealing(name@, nonce_of(blob@), p) == blob@.subrange(NONCE_LEN as int, blob@.len() as int)
                ==> opened(r) == Ok::<Seq<u8>, DecryptError>(p);
}

/// ChaCha20-Poly1305 under one key, with the name of each secret as
/// associated data.
pub struct ChaCha20Poly1305Encryption {
    key: Key,
}

impl ChaCha20Poly1305Encryption {
    /// The key this cipher seals under.
    pub closed spec fn key_bytes(&self) -> Seq<u8> {
        self.key@
    }

    /// A cipher that seals under `key`.
    pub fn new(key: Key) -> (r: ChaCha20Poly1305Encryption)
        ensures
            r.key_bytes() == key@,
    {
        ChaCha20Poly1305Encryption { key }
    }

    /// Seals `plaintext` for the secret `name` under the given `nonce`: the
    /// blob is `nonce` followed by the ChaCha20-Poly1305 sealing with the
    /// name's bytes as associated data. Fails exactly when the plaintext is
    /// too long.
    pub fn encrypt_with_nonce(&self, name: &str, nonce: &[u8], plaintext: &[u8]) -> (r: Result<Vec<u8>, EncryptError>)
        requires
            nonce@.len() == NONCE_LEN,
        ensures
            r is Ok <==> plaintext@.len() < SEAL_LIMIT,
            r matches Err(e) ==> e == EncryptError::MessageTooLong,
            r matches Ok(blob) ==> {
                &&& blob@ == nonce@ + chacha_seal(self.key_bytes(), nonce@, name_aad(name@), plaintext@)
                &&& blob@.len() == NONCE_LEN + plaintext@.len() + TAG_LEN
                &&& self.opens(name@, blob@) == Ok::<Seq<u8>, DecryptError>(plaintext@)
            },
    {
        if plaintext.len() as u64 >= SEAL_LIMIT {
            return Err(EncryptError::MessageTooLong);
        }
        let key = self.key.as_bytes();
        let aad = name.as_bytes();
        match seal(key, nonce, aad, plaintext) {
            None => Err(EncryptError::MessageTooLong),
            Some(sealed) => {
                let mut blob: Vec<u8> = vstd::slice::slice_to_vec(nonce);
                let mut sealed = sealed;
                let ghost body = sealed@;
                blob.append(&mut sealed);
                proof {
                    assert(blob@ =~= nonce@ + body);
                    assert(blob@.subrange(0, NONCE_LEN as int) =~= nonce@);
                    assert(blob@.subrange(NONCE_LEN as int, blob@.len() as int) =~= body);
                }
                Ok(blob)
            },
        }
    }
}

impl Encryption for ChaCha20Poly1305Encryption {
    open spec fn opens(&self, name: Seq<char>, blob: Seq<u8>) -> Result<Seq<u8>, DecryptError> {
        chacha_opens(self.key_bytes(), name, blob)
    }

    open spec fn sealing(&self, name: Seq<char>, nonce: Seq<u8>, plaintext: Seq<u8>) -> Seq<u8> {
        chacha_seal(self.key_bytes(), nonce, name_aad(name), plaintext)
    }

    open spec fn accepts(&self, len: nat) -> bool {
        len < SEAL_LIMIT
    }

    fn encrypt(&self, name: &str, plaintext: &[u8]) -> (r: Result<Vec<u8>, EncryptError>) {
        if plaintext.len() as u64 >= SEAL_LIMIT {
            return Err(EncryptError::MessageTooLong);
        }
        match random_bytes(NONCE_LEN) {
            None => Err(EncryptError::RandomUnavailable),
            Some(nonce) => {
                let r = self.encrypt_with_nonce(name, nonce.as_slice(), plaintext);
                proof {
                    if r is Ok {
                        assert(nonce_of(r->Ok_0@) =~= nonce@);
                    }
                }
                r
            },
        }
    }

    fn decrypt(&self, name: &str, blob: &[u8]) -> (r: Result<Vec<u8>, DecryptError>) {
        if blob.len() < NONCE_LEN + TAG_LEN {
            return Err(DecryptError::Truncated);
        }
        if blob.len() as u64 >= (NONCE_LEN + TAG_LEN) as u64 + SEAL_LIMIT {
            return Err(DecryptError::Tamper);
        }
        let key = self.key.as_bytes();
        let aad = name.as_bytes();
        let (nonce, sealed) = blob.split_at(NONCE_LEN);
        match open(key, nonce, aad, sealed) {
            Some(p) => {
                assert(blob@ =~= nonce@ + sealed@);
                Ok(p)
            },
            None => Err(DecryptError::Tamper),
        }
    }
}

} // verus!
