use android_keyring::text::{decode_stored, encode_record, record_text_round_trip};

#[test]
fn encode_known_values() {
    assert_eq!(encode_record(&[]), "");
    assert_eq!(encode_record(&[0, 0, 0]), "AAAA");
    assert_eq!(encode_record(&[1, 2, 3]), "AQID");
    assert_eq!(encode_record(b"hello world~"), "aGVsbG8gd29ybGR+");
}

#[test]
fn decode_known_values() {
    assert_eq!(decode_stored(""), Some(Vec::new()));
    assert_eq!(decode_stored("AQID"), Some(vec![1, 2, 3]));
    assert_eq!(decode_stored("AAAA"), Some(vec![0, 0, 0]));
}

#[test]
fn bad_text_stands_for_no_bytes() {
    assert_eq!(decode_stored("not base64!"), None);
    assert_eq!(decode_stored("A"), None);
    // Non-canonical padding is rejected rather than guessed at.
    assert_eq!(decode_stored("AQID=="), None);
}

#[test]
fn encoding_round_trips() {
    let all_bytes: Vec<u8> = (0u8..=255).collect();
    assert_eq!(record_text_round_trip(&all_bytes), all_bytes);
    assert_eq!(record_text_round_trip(&[]), Vec::<u8>::new());
    let via_text = decode_stored(&encode_record(b"secret")).unwrap();
    assert_eq!(via_text, b"secret");
}
