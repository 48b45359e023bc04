use dream_tutor::crypto;
use dream_tutor::errors::FormatError;

#[test]
fn codec_round_trip_plain() {
    let data: Vec<u8> = b"hello world, hello world, hello world".to_vec();
    let packed = crypto::compress(&data);
    assert_eq!(crypto::decompress(&packed), Ok(data));
}

#[test]
fn codec_round_trip_empty() {
    let data: Vec<u8> = Vec::new();
    let packed = crypto::compress(&data);
    assert_eq!(crypto::decompress(&packed), Ok(data));
}

#[test]
fn codec_round_trip_checked() {
    let data: Vec<u8> = vec![0, 1, 2, 3, 254, 255, 0, 42];
    assert_eq!(crypto::codec_round_trip(&data), data);
}

#[test]
fn compress_header_layout() {
    let data: Vec<u8> = b"abc".to_vec();
    let packed = crypto::compress(&data);
    // magic 0x033E0F0D, little endian, then the length of the data.
    assert_eq!(&packed[..4], &[0x0D, 0x0F, 0x3E, 0x03]);
    assert_eq!(&packed[4..8], &[3, 0, 0, 0]);
    assert!(packed.len() > 8);
}

#[test]
fn decompress_rejects_short_input() {
    let data: Vec<u8> = vec![0x0D, 0x0F, 0x3E, 0x03, 0x01, 0x00, 0x00];
    assert_eq!(crypto::decompress(&data), Err(FormatError::Truncated));
}

#[test]
fn decompress_rejects_bad_magic() {
    let mut data: Vec<u8> = vec![0xEF, 0xBE, 0xAD, 0xDE];
    data.extend(vec![0x00, 0x00, 0x00, 0x00]);
    data.extend(b"junk".to_vec());
    assert_eq!(crypto::decompress(&data), Err(FormatError::BadMagic(0xDEADBEEF)));
}

#[test]
fn decompress_reports_the_magic_it_saw() {
    let data: Vec<u8> = vec![0x01, 0x00, 0x00, 0x00, 0x00, 0x00, 0x00, 0x00];
    assert_eq!(crypto::decompress(&data), Err(FormatError::BadMagic(1)));
}

#[test]
fn decompress_rejects_overdeclared_size() {
    let data: Vec<u8> = b"abcdef".to_vec();
    let packed = crypto::compress(&data);
    // Rewrite the declared size to one more byte than the stream holds.
    let mut tampered = packed.clone();
    tampered[4] = 7;
    assert_eq!(crypto::decompress(&tampered), Err(FormatError::Truncated));
}

#[test]
fn decompress_reads_declared_prefix() {
    let data: Vec<u8> = b"abcdef".to_vec();
    let packed = crypto::compress(&data);
    // A smaller declared size yields exactly that prefix.
    let mut tampered = packed.clone();
    tampered[4] = 2;
    assert_eq!(crypto::decompress(&tampered), Ok(b"ab".to_vec()));
}

#[test]
fn decompress_rejects_garbage_stream() {
    let mut data: Vec<u8> = vec![0x0D, 0x0F, 0x3E, 0x03, 0x04, 0x00, 0x00, 0x00];
    data.extend(vec![0xFF, 0xFF, 0xFF, 0xFF, 0xFF, 0xFF]);
    assert_eq!(crypto::decompress(&data), Err(FormatError::CorruptStream));
}
