use dream_tutor::errors::{BuildError, ValidationError};
use dream_tutor::extract;
use dream_tutor::lua;
use dream_tutor::request::{compile_request, CompileOption, GameType};
use dream_tutor::timestamp::{render_time, BuildTime};
use dream_tutor::GameRes;

fn sample_time() -> BuildTime {
    BuildTime::new(2023, 1, 2, 3, 4, 5)
}

fn sample_option() -> CompileOption {
    CompileOption {
        name: "user".to_string(),
        filename: "123".to_string(),
        op_safedata: true,
        op_delad: true,
        op_statistics: true,
        op_jiasu: false,
        op_keywords: "bad,words".to_string(),
        op_qudong: false,
        op_login: GameType::Offline,
        ver: 1,
    }
}

fn sample_database(script: &[u8]) -> Vec<u8> {
    // An opaque upload header, then the script itself.
    let mut file = vec![0u8; 0x200];
    file.extend_from_slice(script);
    file
}

#[test]
fn time_rendering_is_zero_padded() {
    assert_eq!(render_time(&sample_time()), "2023-01-02 03:04:05");
    assert_eq!(render_time(&BuildTime::new(999, 12, 31, 23, 59, 58)), "0999-12-31 23:59:58");
}

#[test]
fn adaptor_text_carries_the_parameters() {
    let res = GameRes::new()
        .illegal_keywords("bad,words")
        .statistics(false)
        .build_time(sample_time())
        .filename("123");
    let bytes = res.create_adaptor();
    let (text, _, _) = encoding_rs::GBK.decode(&bytes);
    assert!(text.contains("if false then"));
    assert!(text.contains("f1(0, 0, 1, \"123\", \"2023-01-02 03:04:05\")"));
    assert!(text.contains("f2(1, \"bad,words\")"));
}

#[test]
fn adaptor_text_enables_statistics() {
    let res = GameRes::new()
        .statistics(true)
        .build_time(sample_time())
        .filename("x");
    let bytes = res.create_adaptor();
    let (text, _, _) = encoding_rs::GBK.decode(&bytes);
    assert!(text.contains("if true then"));
    assert!(text.contains("f2(1, \"\")"));
}

#[test]
fn build_rejects_database_below_the_floor() {
    let file = vec![0u8; 0x1FF];
    let r = compile_request(&file, &sample_option(), sample_time());
    assert_eq!(r, Err(BuildError::Validation(ValidationError::TooSmall)));
}

#[test]
fn build_accepts_database_at_the_floor() {
    // Exactly the floor passes validation; the empty stripped script still
    // compiles, so the whole build goes through.
    let file = vec![0u8; 0x200];
    let r = compile_request(&file, &sample_option(), sample_time());
    assert!(!matches!(r, Err(BuildError::Validation(_))));
    assert!(r.is_ok());
}

#[test]
fn build_rejects_all_feature_flags_off() {
    let mut option = sample_option();
    option.op_safedata = false;
    option.op_jiasu = false;
    option.op_qudong = false;
    let file = sample_database(b"return 1");
    let r = compile_request(&file, &option, sample_time());
    assert_eq!(r, Err(BuildError::Validation(ValidationError::UnsupportedOption)));
}

#[test]
fn build_rejects_non_offline_game_type() {
    let mut option = sample_option();
    option.op_login = GameType::Login;
    let file = sample_database(b"return 1");
    let r = compile_request(&file, &option, sample_time());
    assert_eq!(r, Err(BuildError::Validation(ValidationError::UnsupportedOption)));
}

#[test]
fn build_rejects_delad_off() {
    let mut option = sample_option();
    option.op_delad = false;
    let file = sample_database(b"return 1");
    let r = compile_request(&file, &option, sample_time());
    assert_eq!(r, Err(BuildError::Validation(ValidationError::UnsupportedOption)));
}

#[test]
fn build_reports_database_syntax_errors() {
    let file = sample_database(b"this is not lua ((");
    let r = compile_request(&file, &sample_option(), sample_time());
    match r {
        Err(BuildError::DatabaseCompile(e)) => assert!(!e.message.is_empty()),
        other => panic!("expected a database compile failure, got {:?}", other),
    }
}

#[test]
fn build_then_extract_recovers_the_bundle() {
    let script: &[u8] = b"core_value = 42";
    let file = sample_database(script);
    let option = sample_option();
    let artifact = compile_request(&file, &option, sample_time()).unwrap();

    let bundle = extract::extract(&artifact).unwrap();
    assert_eq!(bundle.len(), 2);

    let (name0, payload0) = bundle.entry_at(0).unwrap();
    let (name1, payload1) = bundle.entry_at(1).unwrap();
    assert_eq!(name0, "adaptor.lua");
    assert_eq!(name1, "database.lua");

    // The recovered database payload is the compiled form of the stripped
    // script, and the adaptor payload the compiled form of the generated
    // adaptor text.
    let database_bc = lua::compile("database.lua", &script.to_vec()).unwrap();
    assert_eq!(payload1, database_bc);

    let adaptor_src = GameRes::new()
        .illegal_keywords("bad,words")
        .statistics(true)
        .build_time(sample_time())
        .filename("123")
        .create_adaptor();
    let adaptor_bc = lua::compile("adaptor.lua", &adaptor_src).unwrap();
    assert_eq!(payload0, adaptor_bc);
}

#[test]
fn extract_rejects_garbage() {
    let junk: Vec<u8> = b"not an artifact at all".to_vec();
    assert!(extract::extract(&junk).is_err());
}

#[test]
fn trailer_stripping() {
    let mut artifact = b"artifact body".to_vec();
    let body_len = artifact.len();
    artifact.extend_from_slice(&[0u8; 10]);
    let stripped = extract::strip_trailer(&artifact, 10).unwrap();
    assert_eq!(stripped.len(), body_len);
    assert_eq!(stripped, b"artifact body".to_vec());
    assert_eq!(extract::strip_trailer(&b"abc".to_vec(), 10), None);
}
