use dotsec::cipher::{ChaCha20Poly1305Encryption, DecryptError, Encryption};
use dotsec::cli::{Command, DeleteArgs, GetArgs, PutArgs, Report};
use dotsec::keys::Key;
use dotsec::storage::{SledStorage, Storage, StorageError};
use dotsec::vault::{dry_run_outcome, forced_outcome, DeleteMode, DeleteOutcome, SecretVault, VaultError};
use tempfile::TempDir;

fn open_vault(dir: &TempDir, key: Key) -> SecretVault<ChaCha20Poly1305Encryption, SledStorage> {
    let path = dir.path().to_str().expect("invalid UTF-8 path");
    SecretVault::new(ChaCha20Poly1305Encryption::new(key), SledStorage::new(path).unwrap())
}

fn fresh_vault() -> (TempDir, SecretVault<ChaCha20Poly1305Encryption, SledStorage>) {
    let dir = tempfile::tempdir().expect("failed to create a temporary directory");
    let vault = open_vault(&dir, Key::generate().unwrap());
    (dir, vault)
}

#[test]
fn put_get_overwrite_delete_list() {
    let (_dir, mut vault) = fresh_vault();
    vault.put("db_password", b"s3cr3t").unwrap();
    assert_eq!(vault.get("db_password").unwrap(), Some(b"s3cr3t".to_vec()));

    vault.put("db_password", b"new").unwrap();
    assert_eq!(vault.get("db_password").unwrap(), Some(b"new".to_vec()));

    assert_eq!(vault.delete("db_password", DeleteMode::Force).unwrap(), DeleteOutcome::Deleted);
    assert_eq!(vault.get("db_password").unwrap(), None);
    assert!(!vault.list().unwrap().contains(&"db_password".to_string()));
}

#[test]
fn dry_run_changes_nothing() {
    let (_dir, mut vault) = fresh_vault();
    vault.put("x", b"original").unwrap();
    assert_eq!(
        vault.delete("x", DeleteMode::DryRun).unwrap(),
        DeleteOutcome::WouldDelete { exists: true }
    );
    assert_eq!(vault.get("x").unwrap(), Some(b"original".to_vec()));
    assert_eq!(vault.list().unwrap(), vec!["x".to_string()]);
}

#[test]
fn dry_run_of_missing_secret() {
    let (_dir, mut vault) = fresh_vault();
    assert_eq!(
        vault.delete("nothing", DeleteMode::DryRun).unwrap(),
        DeleteOutcome::WouldDelete { exists: false }
    );
}

#[test]
fn forced_delete_of_missing_secret_is_no_error() {
    let (_dir, mut vault) = fresh_vault();
    assert_eq!(vault.delete("nothing", DeleteMode::Force).unwrap(), DeleteOutcome::Deleted);
}

#[test]
fn missing_secret_reads_as_none() {
    let (_dir, vault) = fresh_vault();
    assert_eq!(vault.get("absent").unwrap(), None);
}

#[test]
fn empty_name_is_refused() {
    let (_dir, mut vault) = fresh_vault();
    assert_eq!(vault.put("", b"v"), Err(VaultError::EmptyName));
    assert_eq!(vault.list().unwrap().len(), 0);
}

#[test]
fn empty_value_round_trips() {
    let (_dir, mut vault) = fresh_vault();
    vault.put("empty", b"").unwrap();
    assert_eq!(vault.get("empty").unwrap(), Some(Vec::new()));
}

#[test]
fn other_secrets_are_untouched() {
    let (_dir, mut vault) = fresh_vault();
    vault.put("a", b"1").unwrap();
    vault.put("b", b"2").unwrap();
    vault.put("a", b"3").unwrap();
    vault.delete("a", DeleteMode::Force).unwrap();
    assert_eq!(vault.get("b").unwrap(), Some(b"2".to_vec()));
    assert_eq!(vault.list().unwrap(), vec!["b".to_string()]);
}

#[test]
fn value_stored_raw_is_sealed() {
    let dir = tempfile::tempdir().expect("failed to create a temporary directory");
    let path = dir.path().to_str().expect("invalid UTF-8 path").to_string();
    {
        let mut vault = open_vault(&dir, Key::generate().unwrap());
        vault.put("n", b"plain").unwrap();
    }
    let storage = SledStorage::new(&path).unwrap();
    let blob = storage.get("n").unwrap().unwrap();
    assert_eq!(blob.len(), 12 + 5 + 16);
    assert!(!blob.windows(5).any(|w| w == b"plain"));
}

#[test]
fn blob_moved_to_another_name_is_tamper() {
    let dir = tempfile::tempdir().expect("failed to create a temporary directory");
    let path = dir.path().to_str().expect("invalid UTF-8 path").to_string();
    let key = Key::generate().unwrap();
    let copy = Key::from_bytes(key.as_bytes()).unwrap();
    {
        let mut vault = open_vault(&dir, key);
        vault.put("a", b"value").unwrap();
    }
    {
        let mut storage = SledStorage::new(&path).unwrap();
        let blob = storage.get("a").unwrap().unwrap();
        storage.put("b", &blob).unwrap();
    }
    let vault = open_vault(&dir, copy);
    assert_eq!(vault.get("b"), Err(VaultError::Decrypt(DecryptError::Tamper)));
    assert_eq!(vault.get("a").unwrap(), Some(b"value".to_vec()));
}

#[test]
fn truncated_stored_blob_is_reported() {
    let dir = tempfile::tempdir().expect("failed to create a temporary directory");
    let path = dir.path().to_str().expect("invalid UTF-8 path").to_string();
    {
        let mut storage = SledStorage::new(&path).unwrap();
        storage.put("short", &[1u8, 2, 3]).unwrap();
    }
    let vault = open_vault(&dir, Key::generate().unwrap());
    assert_eq!(vault.get("short"), Err(VaultError::Decrypt(DecryptError::Truncated)));
}

#[test]
fn commands_run_against_the_vault() {
    let (_dir, mut vault) = fresh_vault();
    let put = Command::Put(PutArgs { key: "key".to_string(), value: "value".to_string() });
    assert!(matches!(put.run(&mut vault), Ok(Report::Stored)));

    let get = Command::Get(GetArgs { key: "key".to_string() });
    match get.run(&mut vault) {
        Ok(Report::Value(v)) => assert_eq!(v, b"value".to_vec()),
        _ => panic!("expected the stored value"),
    }

    match Command::List.run(&mut vault) {
        Ok(Report::Names(names)) => assert_eq!(names, vec!["key".to_string()]),
        _ => panic!("expected the names"),
    }

    let dry = Command::Delete(DeleteArgs { key: "key".to_string(), mode: DeleteMode::DryRun });
    assert!(matches!(
        dry.run(&mut vault),
        Ok(Report::Delete(DeleteOutcome::WouldDelete { exists: true }))
    ));

    let force = Command::Delete(DeleteArgs { key: "key".to_string(), mode: DeleteMode::Force });
    assert!(matches!(force.run(&mut vault), Ok(Report::Delete(DeleteOutcome::Deleted))));
    assert!(matches!(get.run(&mut vault), Ok(Report::Missing)));
}

#[test]
fn store_answers_are_carried_through() {
    let (_dir, vault) = fresh_vault();
    let failure = StorageError::Backend("disk gone".to_string());
    assert_eq!(
        vault.get_from("x", Err(StorageError::Backend("disk gone".to_string()))),
        Err(VaultError::Backend(failure))
    );
    assert_eq!(vault.get_from("x", Ok(None)), Ok(None));
    assert_eq!(vault.open_found("x", Some(vec![1u8; 5])), Err(VaultError::Decrypt(DecryptError::Truncated)));
    assert_eq!(vault.open_found("x", Some(vec![1u8; 40])), Err(VaultError::Decrypt(DecryptError::Tamper)));
    assert_eq!(dry_run_outcome(Ok(Some(vec![1u8]))), Ok(DeleteOutcome::WouldDelete { exists: true }));
    assert_eq!(dry_run_outcome(Ok(None)), Ok(DeleteOutcome::WouldDelete { exists: false }));
    assert_eq!(
        dry_run_outcome(Err(StorageError::NonUtf8Key)),
        Err(VaultError::Backend(StorageError::NonUtf8Key))
    );
    assert_eq!(forced_outcome(Ok(())), Ok(DeleteOutcome::Deleted));
    assert_eq!(forced_outcome(Err(StorageError::NonUtf8Key)), Err(VaultError::Backend(StorageError::NonUtf8Key)));
}

#[test]
fn found_blob_opens_to_its_plaintext() {
    let key = Key::generate().unwrap();
    let copy = Key::from_bytes(key.as_bytes()).unwrap();
    let (dir, _) = fresh_vault();
    let vault = open_vault(&dir, key);
    let blob = ChaCha20Poly1305Encryption::new(copy).encrypt("x", b"v").unwrap();
    assert_eq!(vault.open_found("x", Some(blob)), Ok(Some(b"v".to_vec())));
}
