//! The vault's symmetric key and the decision of where it comes from.

use vstd::prelude::*;

use crate::random::random_bytes;

verus! {

/// Length in bytes of a ChaCha20-Poly1305 key.
pub const KEY_LEN: usize = 32;

/// Why the key could not be had.
#[derive(Debug, Clone, Copy, PartialEq, Eq, Structural)]
pub enum KeyError {
    /// The key file exists but does not hold exactly `KEY_LEN` bytes.
    Corrupt { found_len: usize },
    /// The operating system's secure random source failed.
    RandomUnavailable,
    /// Another process reported storing a key, yet no key file is there.
    Vanished,
}

/// Symmetric key material: always exactly `KEY_LEN` bytes.
pub struct Key {
    bytes: Vec<u8>,
}

impl View for Key {
    type V = Seq<u8>;

    closed spec fn view(&self) -> Seq<u8> {
        self.bytes@
    }
}

impl Key {
    #[verifier::type_invariant]
    spec fn inv(&self) -> bool {
        self.bytes@.len() == KEY_LEN
    }

    /// Takes `bytes` as a key, refusing material of the wrong length.
    pub fn from_bytes(bytes: &[u8]) -> (r: Result<Key, KeyError>)
        ensures
            match r {
                Ok(k) => bytes@.len() == KEY_LEN && k@ == bytes@,
                Err(e) => bytes@.len() != KEY_LEN && e == (KeyError::Corrupt { found_len: bytes@.len() as usize }),
            },
    {
        if bytes.len() != KEY_LEN {
            return Err(KeyError::Corrupt { found_len: bytes.len() });
        }
        let mut v: Vec<u8> = Vec::with_capacity(KEY_LEN);
        let mut i: usize = 0;
        while i < bytes.len()
            invariant
                i <= bytes@.len(),
                v@ == bytes@.subrange(0, i as int),
            decreases bytes@.len() - i,
        {
            v.push(bytes[i]);
            i += 1;
        }
        assert(v@ =~= bytes@);
        Ok(Key { bytes: v })
    }

    /// A fresh key drawn from the operating system's secure random source.
    /// Fails only when the random source does.
    pub fn generate() -> (r: Result<Key, KeyError>)
        ensures
            match r {
                Ok(k) => k@.len() == KEY_LEN,
                Err(e) => e == KeyError::RandomUnavailable,
            },
    {
        match random_bytes(KEY_LEN) {
            Some(bytes) => Key::from_bytes(bytes.as_slice()),
            None => Err(KeyError::RandomUnavailable),
        }
    }

    /// The raw key bytes, as they are stored in the key file.
    pub fn as_bytes(&self) -> (r: &[u8])
        ensures
            r@ == self@,
            r@.len() == KEY_LEN,
    {
        proof { use_type_invariant(self); }
        self.bytes.as_slice()
    }
}

/// What to do about the key, given what the key file holds.
pub enum KeyPlan {
    /// The file holds a well-formed key: use it.
    Use(Key),
    /// There is no key file yet: draw a fresh key and store it.
    Generate,
}

/// The bytes of an optional slice.
pub open spec fn bytes_of(b: Option<&[u8]>) -> Option<Seq<u8>> {
    match b {
        Some(s) => Some(s@),
        None => None,
    }
}

/// The decision on what the key file holds (`None`: there is no file):
/// `Ok(Some(k))` to use the stored key `k`, `Ok(None)` to draw and store a
/// fresh one.
pub open spec fn key_plan(existing: Option<Seq<u8>>) -> Result<Option<Seq<u8>>, KeyError> {
    match existing {
        None => Ok(None),
        Some(b) => if b.len() == KEY_LEN {
            Ok(Some(b))
        } else {
            Err(KeyError::Corrupt { found_len: b.len() as usize })
        },
    }
}

/// A plan seen through the view of its key.
pub open spec fn plan_view(r: Result<KeyPlan, KeyError>) -> Result<Option<Seq<u8>>, KeyError> {
    match r {
        Ok(KeyPlan::Use(k)) => Ok(Some(k@)),
        Ok(KeyPlan::Generate) => Ok(None),
        Err(e) => Err(e),
    }
}

/// Decides, from what the key file holds (`None`: there is no file), whether
/// to use the stored key or to generate one. Material of the wrong length is
/// refused, never padded or cut.
pub fn plan_key(existing: Option<&[u8]>) -> (r: Result<KeyPlan, KeyError>)
    ensures
        plan_view(r) == key_plan(bytes_of(existing)),
{
    match existing {
        None => Ok(KeyPlan::Generate),
        Some(bytes) => match Key::from_bytes(bytes) {
            Ok(k) => Ok(KeyPlan::Use(k)),
            Err(e) => Err(e),
        },
    }
}

/// The key to use after storing a fresh key lost the race to another
/// process: the one that process stored, read back as `winner` (`None`: no
/// file after all).
pub fn key_after_lost_race(winner: Option<&[u8]>) -> (r: Result<Key, KeyError>)
    ensures
        match bytes_of(winner) {
            None => r == Err::<Key, KeyError>(KeyError::Vanished),
            Some(b) => match r {
                Ok(k) => key_plan(Some(b)) == Ok::<Option<Seq<u8>>, KeyError>(Some(k@)),
                Err(e) => key_plan(Some(b)) == Err::<Option<Seq<u8>>, KeyError>(e),
            },
        },
{
    match winner {
        None => Err(KeyError::Vanished),
        Some(bytes) => Key::from_bytes(bytes),
    }
}

/// The key that loading returns when the key file holds `existing` and
/// `fresh` is the key that would be drawn if none is stored.
pub open spec fn loaded_key(existing: Option<Seq<u8>>, fresh: Seq<u8>) -> Result<Seq<u8>, KeyError> {
    match key_plan(existing) {
        Ok(Some(k)) => Ok(k),
        Ok(None) => Ok(fresh),
        Err(e) => Err(e),
    }
}

/// What the key file holds after loading from `existing`, drawing `fresh`
/// if no key was stored.
pub open spec fn key_file_after(existing: Option<Seq<u8>>, fresh: Seq<u8>) -> Option<Seq<u8>> {
    match key_plan(existing) {
        Ok(None) => Some(fresh),
        _ => existing,
    }
}

/// Loading the key twice in a row gives the same result, whatever key the
/// second load would have drawn: the first load either found a key, which
/// stays, or stored the one it drew, which the second load then reads. The
/// second load leaves the key file as the first left it.
pub proof fn lemma_load_twice_same_key(existing: Option<Seq<u8>>, first: Seq<u8>, second: Seq<u8>)
    requires
        first.len() == KEY_LEN,
        second.len() == KEY_LEN,
    ensures
        loaded_key(key_file_after(existing, first), second) == loaded_key(existing, first),
        key_file_after(key_file_after(existing, first), second) == key_file_after(existing, first),
{
}

} // verus!
