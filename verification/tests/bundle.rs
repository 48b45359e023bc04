use dream_tutor::bundle::Bundles;
use dream_tutor::crypto;
use dream_tutor::hexcode;
use dream_tutor::ident;

#[test]
fn with_adaptor_seeds_reserved_name() {
    let b = Bundles::with_adaptor(b"adaptor bytecode".to_vec());
    assert_eq!(b.len(), 1);
    let (name, payload) = b.entry_at(0).unwrap();
    assert_eq!(name, "adaptor.lua");
    assert_eq!(payload, b"adaptor bytecode".to_vec());
}

#[test]
fn reinsert_keeps_position_and_takes_last_payload() {
    // Insert [A, B, A]: emission order stays [A, B], with A's last payload.
    let mut b = Bundles::empty();
    b.insert("a.lua".to_string(), b"first".to_vec());
    b.insert("b.lua".to_string(), b"second".to_vec());
    b.insert("a.lua".to_string(), b"third".to_vec());
    assert_eq!(b.len(), 2);
    let (n0, p0) = b.entry_at(0).unwrap();
    let (n1, p1) = b.entry_at(1).unwrap();
    assert_eq!((n0.as_str(), p0), ("a.lua", b"third".to_vec()));
    assert_eq!((n1.as_str(), p1), ("b.lua", b"second".to_vec()));
}

#[test]
fn set_database_appends_when_fresh() {
    let mut b = Bundles::with_adaptor(b"ad".to_vec());
    b.set_database(b"db".to_vec());
    assert_eq!(b.len(), 2);
    let (n1, p1) = b.entry_at(1).unwrap();
    assert_eq!((n1.as_str(), p1), ("database.lua", b"db".to_vec()));
}

#[test]
fn set_database_keeps_seeded_position() {
    let mut b = Bundles::empty();
    b.insert("database.lua".to_string(), Vec::new());
    b.insert("lib.lua".to_string(), b"lib".to_vec());
    b.set_database(b"real".to_vec());
    assert_eq!(b.len(), 2);
    let (n0, p0) = b.entry_at(0).unwrap();
    assert_eq!((n0.as_str(), p0), ("database.lua", b"real".to_vec()));
}

#[test]
fn render_emits_one_statement_per_entry() {
    let mut b = Bundles::empty();
    b.insert("a".to_string(), b"xyz".to_vec());
    b.insert("b".to_string(), Vec::new());
    let script = b.render_loader_script();
    assert_eq!(script.lines().count(), 2);
    for line in script.lines() {
        assert!(line.starts_with("__U_Lib(\""));
        assert!(line.ends_with("\")"));
    }
}

#[test]
fn render_statement_layout_is_exact() {
    let payload: Vec<u8> = b"xyz".to_vec();
    let mut b = Bundles::empty();
    b.insert("a".to_string(), payload.clone());
    let script = b.render_loader_script();

    let mut packed = crypto::compress(&payload);
    crypto::encrypt_ulib(&mut packed);
    let expected = format!(
        "__U_Lib(\"{}\", \"{}\")\n",
        ident::encode("a"),
        hexcode::hex_encode_upper(&packed)
    );
    assert_eq!(script, expected);
}

#[test]
fn render_includes_zero_length_payloads() {
    let mut b = Bundles::empty();
    b.insert("empty.lua".to_string(), Vec::new());
    let script = b.render_loader_script();
    assert!(script.starts_with("__U_Lib(\""));
    assert_eq!(script.lines().count(), 1);
}
