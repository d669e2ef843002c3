use dotsec::keys::{key_after_lost_race, plan_key, Key, KeyError, KeyPlan, KEY_LEN};

#[test]
fn key_of_right_length_is_taken() {
    let bytes: Vec<u8> = (0..32u8).collect();
    let key = Key::from_bytes(&bytes).unwrap();
    assert_eq!(key.as_bytes(), &bytes[..]);
}

#[test]
fn key_of_wrong_length_is_corrupt() {
    assert_eq!(Key::from_bytes(&[7u8; 31]).err(), Some(KeyError::Corrupt { found_len: 31 }));
    assert_eq!(Key::from_bytes(&[7u8; 33]).err(), Some(KeyError::Corrupt { found_len: 33 }));
    assert_eq!(Key::from_bytes(&[]).err(), Some(KeyError::Corrupt { found_len: 0 }));
}

#[test]
fn generated_keys_have_key_length_and_differ() {
    let a = Key::generate().unwrap();
    let b = Key::generate().unwrap();
    assert_eq!(a.as_bytes().len(), KEY_LEN);
    assert_ne!(a.as_bytes(), b.as_bytes());
}

#[test]
fn missing_key_file_means_generate() {
    assert!(matches!(plan_key(None), Ok(KeyPlan::Generate)));
}

#[test]
fn stored_key_is_used() {
    let bytes = [9u8; 32];
    match plan_key(Some(&bytes)) {
        Ok(KeyPlan::Use(k)) => assert_eq!(k.as_bytes(), &bytes[..]),
        _ => panic!("expected the stored key"),
    }
}

#[test]
fn corrupt_key_file_is_refused() {
    assert!(matches!(plan_key(Some(&[1u8; 16])), Err(KeyError::Corrupt { found_len: 16 })));
}

#[test]
fn loading_twice_gives_the_same_key() {
    // first load: no file, so a key is drawn and stored
    let mut file: Option<Vec<u8>> = None;
    let first = match plan_key(file.as_deref()).unwrap() {
        KeyPlan::Use(k) => k,
        KeyPlan::Generate => {
            let k = Key::generate().unwrap();
            file = Some(k.as_bytes().to_vec());
            k
        }
    };
    // second load reads what the first stored
    let second = match plan_key(file.as_deref()).unwrap() {
        KeyPlan::Use(k) => k,
        KeyPlan::Generate => panic!("the key was stored"),
    };
    assert_eq!(first.as_bytes(), second.as_bytes());
}

#[test]
fn lost_race_uses_the_winners_key() {
    let winner = [5u8; 32];
    assert_eq!(key_after_lost_race(Some(&winner)).unwrap().as_bytes(), &winner[..]);
    assert!(matches!(key_after_lost_race(Some(&[5u8; 3])), Err(KeyError::Corrupt { found_len: 3 })));
    assert!(matches!(key_after_lost_race(None), Err(KeyError::Vanished)));
}
