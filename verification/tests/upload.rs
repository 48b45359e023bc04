use dream_tutor::upload::{filename_stem, find_separator, split_upload};

fn sample_upload() -> Vec<u8> {
    let mut v = b"..\\compileplatform\\upload\\123.res".to_vec();
    v.extend(vec![0x20u8; 0xC1]);
    v.extend_from_slice(b"FILEDATA");
    v
}

#[test]
fn separator_is_found_after_the_path() {
    let v = sample_upload();
    let (p0, len) = find_separator(&v).unwrap();
    assert_eq!(p0, b"..\\compileplatform\\upload\\123.res".len());
    assert_eq!(len, 0xC1);
}

#[test]
fn split_yields_path_and_data() {
    let v = sample_upload();
    let (name, data) = split_upload(&v).unwrap();
    assert_eq!(name, b"..\\compileplatform\\upload\\123.res".to_vec());
    assert_eq!(data, b"FILEDATA".to_vec());
}

#[test]
fn short_runs_do_not_separate() {
    let mut v = b"name".to_vec();
    v.extend(vec![0x20u8; 0xC0]);
    v.extend_from_slice(b"data");
    assert_eq!(find_separator(&v), None);
    assert_eq!(split_upload(&v), None);
}

#[test]
fn trailing_run_does_not_separate() {
    let mut v = b"name".to_vec();
    v.extend(vec![0x20u8; 0x200]);
    assert_eq!(find_separator(&v), None);
}

#[test]
fn first_long_run_wins() {
    let mut v = b"a".to_vec();
    v.extend(vec![0x20u8; 0xC1]);
    v.push(b'b');
    v.extend(vec![0x20u8; 0x200]);
    v.push(b'c');
    let (p0, len) = find_separator(&v).unwrap();
    assert_eq!((p0, len), (1, 0xC1));
}

#[test]
fn stem_takes_last_component_before_first_dot() {
    assert_eq!(filename_stem(&b"..\\upload\\123.res".to_vec()), b"123".to_vec());
    assert_eq!(filename_stem(&b"plain.res".to_vec()), b"plain".to_vec());
    assert_eq!(filename_stem(&b"noext".to_vec()), b"noext".to_vec());
    assert_eq!(filename_stem(&b"a\\b\\c.d.e".to_vec()), b"c".to_vec());
    assert_eq!(filename_stem(&b"dir\\".to_vec()), b"".to_vec());
}
