use android_keyring::keys::aead_key_spec;
use android_keyring::{CorruptedData, Cred, KeyringError, MemoryBackend, Platform};

#[test]
fn golden_path() {
    let mut b = MemoryBackend::new();
    let entry1 = Cred::new("myservice", "myuser");
    let entry2 = Cred::new("myservice", "myuser2");
    let entry3 = Cred::new("myservice2", "myuser");

    entry1.set_secret(&mut b, b"test").unwrap();
    assert_eq!(entry1.get_secret(&mut b).unwrap(), b"test");
    assert!(matches!(entry2.get_secret(&mut b), Err(KeyringError::NoEntry)));
    assert!(matches!(entry3.get_secret(&mut b), Err(KeyringError::NoEntry)));

    entry2.set_secret(&mut b, b"test2").unwrap();
    assert_eq!(entry2.get_secret(&mut b).unwrap(), b"test2");

    entry3.set_secret(&mut b, b"test3").unwrap();
    assert_eq!(entry3.get_secret(&mut b).unwrap(), b"test3");
    assert_eq!(entry1.get_secret(&mut b).unwrap(), b"test");
}

#[test]
fn round_trip_assorted_plaintexts() {
    let mut b = MemoryBackend::new();
    let cred = Cred::new("svc", "usr");
    let all_bytes: Vec<u8> = (0u8..=255).collect();
    let cases: Vec<Vec<u8>> = vec![
        Vec::new(),
        vec![0u8],
        b"a password".to_vec(),
        all_bytes,
        vec![0xff; 1000],
    ];
    for case in cases {
        cred.set_secret(&mut b, &case).unwrap();
        assert_eq!(cred.get_secret(&mut b).unwrap(), case);
    }
}

#[test]
fn absence_reads_no_entry() {
    let mut b = MemoryBackend::new();
    let cred = Cred::new("never", "written");
    assert!(matches!(cred.get_secret(&mut b), Err(KeyringError::NoEntry)));
}

#[test]
fn delete_then_read_is_no_entry() {
    let mut b = MemoryBackend::new();
    let cred = Cred::new("myservice", "delete-test");
    cred.set_secret(&mut b, b"test").unwrap();
    assert_eq!(cred.get_secret(&mut b).unwrap(), b"test");
    cred.delete_credential(&mut b).unwrap();
    assert!(matches!(cred.get_secret(&mut b), Err(KeyringError::NoEntry)));
}

#[test]
fn delete_is_idempotent() {
    let mut b = MemoryBackend::new();
    let cred = Cred::new("myservice", "never-written");
    cred.delete_credential(&mut b).unwrap();
    cred.set_secret(&mut b, b"x").unwrap();
    cred.delete_credential(&mut b).unwrap();
    cred.delete_credential(&mut b).unwrap();
    assert!(matches!(cred.get_secret(&mut b), Err(KeyringError::NoEntry)));
}

#[test]
fn overwrite_replaces_whole_value() {
    let mut b = MemoryBackend::new();
    let cred = Cred::new("svc", "usr");
    cred.set_secret(&mut b, b"first value, rather long").unwrap();
    cred.set_secret(&mut b, b"2nd").unwrap();
    assert_eq!(cred.get_secret(&mut b).unwrap(), b"2nd");
}

#[test]
fn key_continuity_across_handles() {
    // Two separate handles for the same (service, user): what one stores
    // under the service key, the other reads back, in separate operations.
    let mut b = MemoryBackend::new();
    let writer = Cred::new("shared-service", "user");
    let reader = Cred::new("shared-service", "user");
    writer.set_secret(&mut b, b"payload one").unwrap();
    assert_eq!(reader.get_secret(&mut b).unwrap(), b"payload one");
    reader.set_secret(&mut b, b"payload two").unwrap();
    assert_eq!(writer.get_secret(&mut b).unwrap(), b"payload two");
}

#[test]
fn isolation_between_pairs() {
    let mut b = MemoryBackend::new();
    let ax = Cred::new("serviceA", "userX");
    let ay = Cred::new("serviceA", "userY");
    let bx = Cred::new("serviceB", "userX");

    ax.set_secret(&mut b, b"ax").unwrap();
    assert!(matches!(ay.get_secret(&mut b), Err(KeyringError::NoEntry)));
    assert!(matches!(bx.get_secret(&mut b), Err(KeyringError::NoEntry)));

    ay.set_secret(&mut b, b"ay").unwrap();
    bx.set_secret(&mut b, b"bx").unwrap();
    ax.set_secret(&mut b, b"ax2").unwrap();
    assert_eq!(ay.get_secret(&mut b).unwrap(), b"ay");
    assert_eq!(bx.get_secret(&mut b).unwrap(), b"bx");
    assert_eq!(ax.get_secret(&mut b).unwrap(), b"ax2");

    ax.delete_credential(&mut b).unwrap();
    assert_eq!(ay.get_secret(&mut b).unwrap(), b"ay");
    assert_eq!(bx.get_secret(&mut b).unwrap(), b"bx");
}

#[test]
fn missing_iv_len_on_read() {
    let mut b = MemoryBackend::new();
    let cred = Cred::new("missing-iv-len", "user");
    cred.set_secret(&mut b, b"test").unwrap();
    // Force the stored record to empty bytes.
    b.put_record("missing-iv-len", "user", &[]).unwrap();
    match cred.get_secret(&mut b) {
        Err(KeyringError::BadDataFormat(raw, reason)) => {
            assert!(raw.is_empty());
            assert_eq!(reason, CorruptedData::MissingIvLen);
        }
        x => panic!("unexpected result on corrupted get_secret(): {x:?}"),
    }
}

#[test]
fn data_too_small_on_read() {
    let mut b = MemoryBackend::new();
    let cred = Cred::new("iv-too-big", "user");
    cred.set_secret(&mut b, b"test").unwrap();
    // Truncate the stored envelope to the length byte plus twelve IV bytes.
    let mut original = b.get_record("iv-too-big", "user").unwrap().unwrap();
    original.truncate(13);
    b.put_record("iv-too-big", "user", &original).unwrap();
    match cred.get_secret(&mut b) {
        Err(KeyringError::BadDataFormat(raw, reason)) => {
            assert_eq!(raw, original);
            assert_eq!(reason, CorruptedData::DataTooSmall(12));
        }
        x => panic!("unexpected result on corrupted get_secret(): {x:?}"),
    }
}

#[test]
fn invalid_iv_len_on_read() {
    let mut b = MemoryBackend::new();
    let cred = Cred::new("invalid-iv", "user");
    cred.set_secret(&mut b, b"test").unwrap();
    // Corrupt the length byte: "test" gives 4 + 16 tag bytes of ciphertext,
    // so 4 + 12 + 16 - 1 = 31 lands in the length position.
    let mut original = b.get_record("invalid-iv", "user").unwrap().unwrap();
    original[0] = 31;
    b.put_record("invalid-iv", "user", &original).unwrap();
    match cred.get_secret(&mut b) {
        Err(KeyringError::BadDataFormat(raw, reason)) => {
            assert_eq!(raw, original);
            assert_eq!(reason, CorruptedData::InvalidIvLen(31));
        }
        x => panic!("unexpected result on corrupted get_secret(): {x:?}"),
    }
}

#[test]
fn decryption_failure_on_key_change() {
    let mut b = MemoryBackend::new();
    let cred = Cred::new("corrupted", "myuser");
    cred.set_secret(&mut b, b"test").unwrap();
    // Force a fresh key under the same alias: the stored envelope no longer
    // authenticates.
    let spec = aead_key_spec();
    b.generate_key("corrupted", &spec).unwrap();
    match cred.get_secret(&mut b) {
        Err(KeyringError::BadDataFormat(_, reason)) => {
            assert_eq!(reason, CorruptedData::DecryptionFailure);
        }
        x => panic!("unexpected result on corrupted get_secret(): {x:?}"),
    }
    // The caller decides to reset: a fresh write reads back again.
    cred.set_secret(&mut b, b"reset").unwrap();
    assert_eq!(cred.get_secret(&mut b).unwrap(), b"reset");
}

#[test]
fn repeated_writes_of_same_value() {
    // Many writers of one value on the same (service, user): commits are
    // serialized, so exactly that value is readable afterwards.
    let mut b = MemoryBackend::new();
    for _ in 0..64 {
        let entry = Cred::new("concurrent", "user");
        entry.set_secret(&mut b, b"same").unwrap();
    }
    let entry = Cred::new("concurrent", "user");
    assert_eq!(entry.get_secret(&mut b).unwrap(), b"same");
}

#[test]
fn get_credential_is_a_probe() {
    let mut b = MemoryBackend::new();
    let cred = Cred::new("svc", "usr");
    assert!(matches!(cred.get_credential(&mut b), Err(KeyringError::NoEntry)));
    cred.set_secret(&mut b, b"present").unwrap();
    assert!(matches!(cred.get_credential(&mut b), Ok(None)));
    // The probe reports corruption exactly as a read does.
    b.put_record("svc", "usr", &[]).unwrap();
    assert!(matches!(
        cred.get_credential(&mut b),
        Err(KeyringError::BadDataFormat(_, CorruptedData::MissingIvLen))
    ));
}

#[test]
fn specifiers_are_kept() {
    let cred = Cred::new("some-service", "some-user");
    let (service, user) = cred.get_specifiers().unwrap();
    assert_eq!(service, "some-service");
    assert_eq!(user, "some-user");
}
