use android_keyring::envelope::{parse_and_validate, serialize, CorruptedData, IV_LEN};

#[test]
fn serialize_exact_bytes() {
    let iv: Vec<u8> = (0u8..12).collect();
    let ciphertext = vec![0xde, 0xad, 0xbe, 0xef];
    let env = serialize(&iv, &ciphertext);
    let mut expected = vec![12u8];
    expected.extend_from_slice(&iv);
    expected.extend_from_slice(&ciphertext);
    assert_eq!(env, expected);
}

#[test]
fn parse_of_serialized_envelope() {
    let iv: Vec<u8> = (100u8..112).collect();
    let ciphertext = vec![7u8; 20];
    let env = serialize(&iv, &ciphertext);
    let (piv, pct) = parse_and_validate(&env).expect("well-formed envelope must parse");
    assert_eq!(piv, iv);
    assert_eq!(pct, ciphertext);
}

#[test]
fn empty_input_is_missing_iv_len() {
    assert_eq!(parse_and_validate(&[]), Err(CorruptedData::MissingIvLen));
}

#[test]
fn wrong_length_byte_is_invalid_iv_len() {
    // A length byte of 31 where the fixed IV length is 12.
    let raw = vec![31u8];
    assert_eq!(parse_and_validate(&raw), Err(CorruptedData::InvalidIvLen(31)));
}

#[test]
fn iv_only_is_data_too_small() {
    // A correct length byte and a full IV, but no ciphertext byte at all.
    let mut raw = vec![12u8];
    raw.extend_from_slice(&[0u8; 12]);
    assert_eq!(parse_and_validate(&raw), Err(CorruptedData::DataTooSmall(12)));
}

#[test]
fn short_iv_is_data_too_small() {
    let raw = vec![12u8, 1, 2, 3];
    assert_eq!(parse_and_validate(&raw), Err(CorruptedData::DataTooSmall(3)));
}

#[test]
fn minimal_envelope_parses() {
    // Twelve IV bytes and exactly one ciphertext byte: the smallest envelope.
    let mut raw = vec![12u8];
    raw.extend_from_slice(&[9u8; 12]);
    raw.push(0x42);
    let (iv, ct) = parse_and_validate(&raw).expect("minimal envelope must parse");
    assert_eq!(iv, vec![9u8; 12]);
    assert_eq!(ct, vec![0x42]);
    assert_eq!(IV_LEN, 12);
}
