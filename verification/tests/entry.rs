use dream_tutor::crypto;
use dream_tutor::errors::{EncodingError, ExtractError, FormatError};
use dream_tutor::extract;
use dream_tutor::hexcode;
use dream_tutor::ident;

#[test]
fn decode_entry_recovers_a_packed_entry() {
    // Pack one entry by hand, then reverse it.
    let payload = b"entry payload".to_vec();
    let mut packed = crypto::compress(&payload);
    crypto::encrypt_ulib(&mut packed);
    let name_hex = ident::encode("lib.lua");
    let data_hex = hexcode::hex_encode_upper(&packed);

    let (name, got) = extract::decode_entry(&name_hex, &data_hex).unwrap();
    assert_eq!(name, "lib.lua");
    assert_eq!(got, payload);
}

#[test]
fn decode_entry_rejects_bad_name_hex() {
    assert!(matches!(
        extract::decode_entry("ZZ", "00"),
        Err(ExtractError::Encoding(EncodingError::BadHex))
    ));
}

#[test]
fn decode_entry_rejects_bad_data_hex() {
    assert!(matches!(
        extract::decode_entry("61", "0"),
        Err(ExtractError::Encoding(EncodingError::BadHex))
    ));
}

#[test]
fn decode_entry_rejects_short_container() {
    // One valid hex byte deciphers to a single byte: far too short for the
    // container header.
    assert!(matches!(
        extract::decode_entry("61", "00"),
        Err(ExtractError::Format(FormatError::Truncated))
    ));
}

#[test]
fn extract_pairs_collapses_repeated_names() {
    let payload_a = b"first".to_vec();
    let payload_b = b"second".to_vec();
    let make = |payload: &Vec<u8>| {
        let mut packed = crypto::compress(payload);
        crypto::encrypt_ulib(&mut packed);
        hexcode::hex_encode_upper(&packed)
    };
    let pairs = vec![
        (ident::encode("a.lua"), make(&payload_a)),
        (ident::encode("a.lua"), make(&payload_b)),
    ];
    let bundle = extract::extract_pairs(&pairs).unwrap();
    assert_eq!(bundle.len(), 1);
    let (name, payload) = bundle.entry_at(0).unwrap();
    assert_eq!(name, "a.lua");
    assert_eq!(payload, payload_b);
}
