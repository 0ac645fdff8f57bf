use vela_core::VelaError;

#[test]
fn error_display_messages() {
    let e = VelaError::InvalidWasm("bad magic".into());
    assert_eq!(e.to_string(), "invalid WASM: bad magic");

    let e = VelaError::NotComponent("expected component".into());
    assert_eq!(e.to_string(), "not a Component Model WASM: expected component");

    let e = VelaError::Io(std::io::Error::new(std::io::ErrorKind::NotFound, "missing"));
    assert!(e.to_string().contains("missing"));
}

#[test]
fn parse_error_message_has_its_prefix() {
    let err = wasmparser::Parser::new(0)
        .parse_all(&[1, 2, 3, 4, 5, 6, 7, 8])
        .find_map(|p| p.err())
        .expect("garbage should not parse");
    let e = VelaError::from(err);
    assert!(matches!(e, VelaError::Wasm(_)));
    assert!(e.to_string().starts_with("WASM parse error: "));
}

#[test]
fn io_error_converts() {
    let e = VelaError::from(std::io::Error::new(std::io::ErrorKind::Other, "disk"));
    assert_eq!(e.to_string(), "I/O error: disk");
}
