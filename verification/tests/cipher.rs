use dream_tutor::crypto;
use rc4::{KeyInit, StreamCipher};

#[test]
fn res_cipher_round_trip() {
    let data: Vec<u8> = b"the final artifact bytes".to_vec();
    let mut buf = data.clone();
    crypto::encrypt_res(&mut buf);
    assert_ne!(buf, data);
    crypto::decrypt_res(&mut buf);
    assert_eq!(buf, data);
}

#[test]
fn ulib_cipher_round_trip() {
    let data: Vec<u8> = b"one bundle entry".to_vec();
    let mut buf = data.clone();
    crypto::encrypt_ulib(&mut buf);
    assert_ne!(buf, data);
    crypto::decrypt_ulib(&mut buf);
    assert_eq!(buf, data);
}

#[test]
fn cipher_on_empty_data() {
    let mut buf: Vec<u8> = Vec::new();
    crypto::encrypt_res(&mut buf);
    assert!(buf.is_empty());
    crypto::encrypt_ulib(&mut buf);
    assert!(buf.is_empty());
}

#[test]
fn res_cipher_matches_rc4_with_container_key() {
    let data: Vec<u8> = b"cross-check of the container context".to_vec();
    let mut ours = data.clone();
    crypto::encrypt_res(&mut ours);

    let key: [u8; 19] = *b"_Npi_dest__cc_&%_23";
    let mut direct = data.clone();
    let mut rc4 = rc4::Rc4::<rc4::consts::U19>::new(rc4::Key::<rc4::consts::U19>::from_slice(
        &key,
    ));
    rc4.apply_keystream(&mut direct);
    assert_eq!(ours, direct);
}

#[test]
fn ulib_cipher_matches_rc4_with_entry_key() {
    let data: Vec<u8> = b"cross-check of the entry context".to_vec();
    let mut ours = data.clone();
    crypto::encrypt_ulib(&mut ours);

    let key: [u8; 14] = *b"&!!__kl_\xB2\xE2_I_0";
    let mut direct = data.clone();
    let mut rc4 = rc4::Rc4::<rc4::consts::U14>::new(rc4::Key::<rc4::consts::U14>::from_slice(
        &key,
    ));
    rc4.apply_keystream(&mut direct);
    assert_eq!(ours, direct);
}

#[test]
fn the_two_contexts_differ() {
    let data: Vec<u8> = b"same input, two keys".to_vec();
    let mut with_res = data.clone();
    crypto::encrypt_res(&mut with_res);
    let mut with_ulib = data.clone();
    crypto::encrypt_ulib(&mut with_ulib);
    assert_ne!(with_res, with_ulib);
}
