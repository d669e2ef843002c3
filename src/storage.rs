//! The durable keyed store that holds the sealed values, and its sled backend.

use vstd::prelude::*;
use vstd::utf8::{decode_utf8, encode_utf8, valid_utf8};

verus! {

broadcast use vstd::utf8::encode_utf8_decode_utf8;

/// Why the store could not do what was asked.
#[derive(Debug, PartialEq, Eq)]
pub enum StorageError {
    /// The backend failed; the message is its own.
    Backend(String),
    /// The store holds a key that is not valid UTF-8, so it names no secret.
    NonUtf8Key,
}

/// The entry under `key`, if there is one.
pub open spec fn entry(m: Map<Seq<char>, Seq<u8>>, key: Seq<char>) -> Option<Seq<u8>> {
    if m.contains_key(key) {
        Some(m[key])
    } else {
        None
    }
}

/// An optional value seen through the view of its bytes.
pub open spec fn value_of(v: Option<Vec<u8>>) -> Option<Seq<u8>> {
    match v {
        Some(b) => Some(b@),
        None => None,
    }
}

/// The texts of a sequence of strings.
pub open spec fn texts(v: Seq<String>) -> Seq<Seq<char>> {
    v.map_values(|s: String| s@)
}

/// `names` lists each key of `m` exactly once, and nothing else.
pub open spec fn lists_keys(names: Seq<Seq<char>>, m: Map<Seq<char>, Seq<u8>>) -> bool {
    &&& names.no_duplicates()
    &&& forall|i: int| 0 <= i < names.len() ==> m.contains_key(#[trigger] names[i])
    &&& forall|k: Seq<char>| #[trigger] m.contains_key(k) ==> exists|i: int| 0 <= i < names.len() && names[i] == k
}

/// A durable keyed byte store. Every change is durable once it returns `Ok`.
/// After an error the entries are whatever the backend left.
pub trait Storage {
    /// The entries of the store, by key.
    spec fn entries(&self) -> Map<Seq<char>, Seq<u8>>;

    /// Stores `value` under `key`, replacing any earlier value.
    fn put(&mut self, key: &str, value: &[u8]) -> (r: Result<(), StorageError>)
        ensures
            r is Ok ==> final(self).entries() == old(self).entries().insert(key@, value@);

    /// The value under `key`, if any.
    fn get(&self, key: &str) -> (r: Result<Option<Vec<u8>>, StorageError>)
        ensures
            r matches Ok(v) ==> value_of(v) == entry(self.entries(), key@);

    /// The keys of all entries, in the backend's own order.
    fn list(&self) -> (r: Result<Vec<String>, StorageError>)
        ensures
            r matches Ok(names) ==> lists_keys(texts(names@), self.entries());

    /// Removes the entry under `key`; a missing key is no error.
    fn delete(&mut self, key: &str) -> (r: Result<(), StorageError>)
        ensures
            r is Ok ==> final(self).entries() == old(self).entries().remove(key@);
}

#[verifier::external_type_specification]
#[verifier::external_body]
pub struct ExDb(sled::Db);

#[verifier::external_type_specification]
#[verifier::external_body]
pub struct ExSledError(sled::Error);

/// The entries of a sled database, by raw key.
pub uninterp spec fn sled_entries(db: sled::Db) -> Map<Seq<u8>, Seq<u8>>;

/// Relies on `sled::open`: opens (or creates) the database at `path`.
#[verifier::external_body]
fn db_open(path: &str) -> (r: Result<sled::Db, sled::Error>) {
    sled::open(path)
}

/// Relies on `Tree::insert`: on success `value` is stored under `key`,
/// replacing any earlier value, and nothing else changes.
#[verifier::external_body]
fn db_insert(db: &mut sled::Db, key: &[u8], value: &[u8]) -> (r: Result<(), sled::Error>)
    ensures
        r is Ok ==> sled_entries(*final(db)) == sled_entries(*old(db)).insert(key@, value@),
{
    db.insert(key, value).map(|_| ())
}

/// Relies on `Tree::remove`: on success no value is stored under `key`, and
/// nothing else changes.
#[verifier::external_body]
fn db_remove(db: &mut sled::Db, key: &[u8]) -> (r: Result<(), sled::Error>)
    ensures
        r is Ok ==> sled_entries(*final(db)) == sled_entries(*old(db)).remove(key@),
{
    db.remove(key).map(|_| ())
}

/// Relies on `Tree::flush`: writes buffered changes to disk; the entries
/// stay as they are.
#[verifier::external_body]
fn db_flush(db: &sled::Db) -> (r: Result<(), sled::Error>) {
    db.flush().map(|_| ())
}

/// Relies on `Tree::get`: the value stored under `key`, if any.
#[verifier::external_body]
fn db_get(db: &sled::Db, key: &[u8]) -> (r: Result<Option<Vec<u8>>, sled::Error>)
    ensures
        r matches Ok(v) ==> match v {
            Some(b) => sled_entries(*db).contains_key(key@) && b@ == sled_entries(*db)[key@],
            None => !sled_entries(*db).contains_key(key@),
        },
{
    db.get(key).map(|v| v.map(|b| b.to_vec()))
}

/// Relies on `Tree::iter`: each stored key once, in key order.
#[verifier::external_body]
fn db_keys(db: &sled::Db) -> (r: Result<Vec<Vec<u8>>, sled::Error>)
    ensures
        r matches Ok(ks) ==> {
            &&& ks@.map_values(|k: Vec<u8>| k@).no_duplicates()
            &&& forall|i: int| 0 <= i < ks@.len() ==> sled_entries(*db).contains_key(#[trigger] ks@[i]@)
            &&& forall|k: Seq<u8>| #[trigger] sled_entries(*db).contains_key(k)
                ==> exists|i: int| 0 <= i < ks@.len() && ks@[i]@ == k
        },
{
    db.iter().map(|kv| kv.map(|(k, _)| k.to_vec())).collect()
}

/// Relies on `String::from_utf8`: it accepts exactly the valid UTF-8 byte
/// strings, and the string it makes has exactly those bytes.
#[verifier::external_body]
fn utf8_string(bytes: Vec<u8>) -> (r: Option<String>)
    ensures
        r is Some <==> valid_utf8(bytes@),
        r matches Some(s) ==> encode_utf8(s@) == bytes@,
{
    String::from_utf8(bytes).ok()
}

/// A sled error as a storage error.
fn backend_error(e: sled::Error) -> (r: StorageError)
    ensures
        r is Backend,
{
    StorageError::Backend(e.to_string())
}

/// The names spelled by raw keys, one for each key and in the same order;
/// `NonUtf8Key` when some key is not valid UTF-8.
pub fn names_of(keys: Vec<Vec<u8>>) -> (r: Result<Vec<String>, StorageError>)
    ensures
        r is Ok <==> forall|i: int| 0 <= i < keys@.len() ==> valid_utf8(#[trigger] keys@[i]@),
        r matches Ok(ns) ==> ns@.len() == keys@.len()
            && forall|i: int| 0 <= i < ns@.len() ==> encode_utf8(#[trigger] ns@[i]@) == keys@[i]@,
        r matches Err(e) ==> e == StorageError::NonUtf8Key,
{
    let mut names: Vec<String> = Vec::new();
    let mut i: usize = 0;
    while i < keys.len()
        invariant
            i <= keys@.len(),
            names@.len() == i,
            forall|j: int| 0 <= j < i ==> encode_utf8(#[trigger] names@[j]@) == keys@[j]@,
            forall|j: int| 0 <= j < i ==> valid_utf8(#[trigger] keys@[j]@),
        decreases keys@.len() - i,
    {
        let key = keys[i].clone();
        assert(key@ == keys@[i as int]@);
        match utf8_string(key) {
            Some(s) => names.push(s),
            None => return Err(StorageError::NonUtf8Key),
        }
        i += 1;
    }
    Ok(names)
}

/// The entries of a raw byte-keyed map under their UTF-8 names.
pub open spec fn by_name(raw: Map<Seq<u8>, Seq<u8>>) -> Map<Seq<char>, Seq<u8>> {
    Map::new(|k: Seq<char>| raw.contains_key(encode_utf8(k)), |k: Seq<char>| raw[encode_utf8(k)])
}

/// Storing under the bytes of a name stores under that name: distinct names
/// have distinct UTF-8 encodings.
proof fn lemma_by_name_insert(raw: Map<Seq<u8>, Seq<u8>>, k: Seq<char>, v: Seq<u8>)
    ensures
        by_name(raw.insert(encode_utf8(k), v)) == by_name(raw).insert(k, v),
{
    assert forall|n: Seq<char>| encode_utf8(n) == encode_utf8(k) implies n == k by {
        assert(decode_utf8(encode_utf8(n)) == n);
        assert(decode_utf8(encode_utf8(k)) == k);
    }
    assert(by_name(raw.insert(encode_utf8(k), v)) =~= by_name(raw).insert(k, v));
}

/// Removing under the bytes of a name removes that name alone.
proof fn lemma_by_name_remove(raw: Map<Seq<u8>, Seq<u8>>, k: Seq<char>)
    ensures
        by_name(raw.remove(encode_utf8(k))) == by_name(raw).remove(k),
{
    assert forall|n: Seq<char>| encode_utf8(n) == encode_utf8(k) implies n == k by {
        assert(decode_utf8(encode_utf8(n)) == n);
        assert(decode_utf8(encode_utf8(k)) == k);
    }
    assert(by_name(raw.remove(encode_utf8(k))) =~= by_name(raw).remove(k));
}

/// A store kept in a sled database, one entry per key.
pub struct SledStorage {
    db: sled::Db,
}

impl SledStorage {
    /// The entries of the database, by raw key bytes.
    pub closed spec fn raw_entries(&self) -> Map<Seq<u8>, Seq<u8>> {
        sled_entries(self.db)
    }

    /// Opens (or creates) the store at `path`.
    pub fn new(path: &str) -> (r: Result<SledStorage, StorageError>)
        ensures
            r matches Err(e) ==> e is Backend,
    {
        match db_open(path) {
            Ok(db) => Ok(SledStorage { db }),
            Err(e) => Err(backend_error(e)),
        }
    }
}

impl Storage for SledStorage {
    closed spec fn entries(&self) -> Map<Seq<char>, Seq<u8>> {
        by_name(sled_entries(self.db))
    }

    fn put(&mut self, key: &str, value: &[u8]) -> (r: Result<(), StorageError>) {
        let ghost before = sled_entries(self.db);
        if let Err(e) = db_insert(&mut self.db, key.as_bytes(), value) {
            return Err(backend_error(e));
        }
        if let Err(e) = db_flush(&self.db) {
            return Err(backend_error(e));
        }
        proof { lemma_by_name_insert(before, key@, value@); }
        Ok(())
    }

    fn get(&self, key: &str) -> (r: Result<Option<Vec<u8>>, StorageError>) {
        match db_get(&self.db, key.as_bytes()) {
            Ok(v) => Ok(v),
            Err(e) => Err(backend_error(e)),
        }
    }

    /// `NonUtf8Key` comes exactly when the database holds a key that is not
    /// valid UTF-8 (and the database could be read).
    fn list(&self) -> (r: Result<Vec<String>, StorageError>)
        ensures
            r matches Err(StorageError::NonUtf8Key) ==> exists|k: Seq<u8>|
                #[trigger] self.raw_entries().contains_key(k) && !valid_utf8(k),
            r is Ok ==> forall|k: Seq<u8>| #[trigger] self.raw_entries().contains_key(k) ==> valid_utf8(k),
    {
        let keys = match db_keys(&self.db) {
            Ok(ks) => ks,
            Err(e) => return Err(backend_error(e)),
        };
        let ghost raw = sled_entries(self.db);
        let ghost ks = keys@;
        let ghost kv = keys@.map_values(|k: Vec<u8>| k@);
        proof {
            assert forall|j: int| 0 <= j < ks.len() implies #[trigger] kv[j] == ks[j]@ by {}
        }
        let names = match names_of(keys) {
            Ok(ns) => ns,
            Err(e) => {
                proof {
                    let j = choose|j: int| 0 <= j < ks.len() && !valid_utf8(#[trigger] ks[j]@);
                    assert(raw.contains_key(ks[j]@));
                    assert(self.raw_entries().contains_key(ks[j]@));
                }
                return Err(e);
            },
        };
        proof {
            assert forall|j: int| 0 <= j < names@.len() implies encode_utf8(#[trigger] names@[j]@) == kv[j] by {
                assert(kv[j] == ks[j]@);
            }
            let ns = texts(names@);
            assert forall|j: int| 0 <= j < ns.len() implies #[trigger] encode_utf8(ns[j]) == kv[j] by {
                assert(ns[j] == names@[j]@);
            }
            assert forall|a: int, b: int| 0 <= a < ns.len() && 0 <= b < ns.len() && a != b implies ns[a] != ns[b] by {
                assert(kv[a] != kv[b]);
                assert(encode_utf8(ns[a]) == kv[a]);
                assert(encode_utf8(ns[b]) == kv[b]);
            }
            assert forall|j: int| 0 <= j < ns.len() implies self.entries().contains_key(#[trigger] ns[j]) by {
                assert(encode_utf8(ns[j]) == kv[j]);
                assert(raw.contains_key(kv[j]));
            }
            assert forall|k: Seq<char>| #[trigger] self.entries().contains_key(k) implies exists|j: int| 0 <= j < ns.len() && ns[j] == k by {
                assert(raw.contains_key(encode_utf8(k)));
                let j = choose|j: int| 0 <= j < ks.len() && ks[j]@ == encode_utf8(k);
                assert(kv[j] == ks[j]@);
                assert(encode_utf8(ns[j]) == kv[j]);
                assert(decode_utf8(encode_utf8(ns[j])) == ns[j]);
                assert(decode_utf8(encode_utf8(k)) == k);
            }
            assert forall|k: Seq<u8>| #[trigger] raw.contains_key(k) implies valid_utf8(k) by {
                let j = choose|j: int| 0 <= j < ks.len() && ks[j]@ == k;
                assert(kv[j] == ks[j]@);
                assert(encode_utf8(ns[j]) == kv[j]);
                vstd::utf8::encode_utf8_valid_utf8(ns[j]);
            }
        }
        Ok(names)
    }

    fn delete(&mut self, key: &str) -> (r: Result<(), StorageError>) {
        let ghost before = sled_entries(self.db);
        if let Err(e) = db_remove(&mut self.db, key.as_bytes()) {
            return Err(backend_error(e));
        }
        if let Err(e) = db_flush(&self.db) {
            return Err(backend_error(e));
        }
        proof { lemma_by_name_remove(before, key@); }
        Ok(())
    }
}

} // verus!
