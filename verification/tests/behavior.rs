use repair_json::{repair, Builder, Error, Options, Status, Verifier};

#[test]
fn repairs_empty_and_whitespace_input() {
    assert_eq!(repair("").unwrap(), "");
    // Rewinding to offset zero keeps one byte, so one space survives.
    assert_eq!(repair("  ").unwrap(), " ");
}

#[test]
fn accepts_every_source_kind() {
    assert_eq!(repair(&b"{ \"a\": 1 }"[..]).unwrap(), "{ \"a\": 1 }");
    assert_eq!(repair(b"[1, 2".to_vec()).unwrap(), "[1, 2]");
    assert_eq!(repair(String::from("[tru")).unwrap(), "[true]");

    let mut builder = Builder::new();
    builder.update(&b'{').unwrap();
    assert_eq!(builder.completed_string().unwrap(), "{}");
}

#[test]
fn whitespace_before_the_first_brace_defeats_completion() {
    // When nothing past the leading whitespace was ever a complete value,
    // the zero-offset truncation keeps the first byte on the assumption
    // that it is the opening bracket. With whitespace there instead, the
    // closers land after a lone space: the output is not valid JSON.
    assert_eq!(repair(" {").unwrap(), " }");
    assert_eq!(repair("{").unwrap(), "{}");
}

#[test]
fn rejects_invalid_first_byte() {
    assert_eq!(repair("}"), Err(Error::Invalid));
    assert_eq!(repair("x"), Err(Error::Invalid));
    assert_eq!(repair("\u{1}"), Err(Error::Invalid));
}

#[test]
fn builder_returns_accepted_prefix_bytes() {
    let mut builder = Builder::new();
    builder.update(&r#"{ "a": 1"#).unwrap();
    assert_eq!(builder.len(), 8);
    assert!(!builder.is_empty());

    let mut builder = Builder::new();
    builder.update(&r#"{ "a": 1"#).unwrap();
    assert_eq!(builder.bytes().unwrap(), b"{ \"a\": 1".to_vec());

    let mut builder = Builder::new();
    builder.update(&"[true] ").unwrap();
    assert_eq!(builder.status(), Status::Valid);
    assert_eq!(builder.string().unwrap(), "[true] ");
}

#[test]
fn builder_latches_invalid_on_first_rejected_byte() {
    let mut builder = Builder::new();
    assert_eq!(builder.update(&"{]"), Err(Error::Invalid));
    // The accepted prefix stays, but the builder is terminal.
    assert_eq!(builder.len(), 1);
    assert_eq!(builder.update(&" "), Err(Error::Invalid));
    assert_eq!(builder.completed_string(), Err(Error::Invalid));
}

#[test]
fn builder_bytes_fail_once_invalid() {
    let mut builder = Builder::new();
    assert_eq!(builder.update(&"[nux"), Err(Error::Invalid));
    assert_eq!(builder.bytes(), Err(Error::Invalid));
}

#[test]
fn exceeded_depth_is_reported() {
    let mut builder = Builder::with_maximum_depth(1);
    assert_eq!(builder.update(&"[["), Err(Error::Exceeded));

    let mut builder = Builder::with_maximum_depth(2);
    builder.update(&"[[").unwrap();
    assert_eq!(builder.completed_string().unwrap(), "[[]]");
}

#[test]
fn utf8_error_on_non_utf8_completion() {
    let mut builder = Builder::new();
    builder.update(&vec![b'[', b'"', 0xFF]).unwrap();
    assert_eq!(builder.completed_string(), Err(Error::Utf8));

    let mut builder = Builder::new();
    builder.update(&vec![b'[', b'"', 0xFF]).unwrap();
    assert_eq!(
        builder.completed_bytes().unwrap(),
        vec![b'[', b'"', 0xFF, b'"', b']']
    );
}

#[test]
fn reset_restores_a_fresh_builder() {
    let mut builder = Builder::new();
    assert_eq!(builder.update(&"{]"), Err(Error::Invalid));
    builder.reset();
    assert_eq!(builder.len(), 0);
    assert!(builder.is_empty());
    builder.update(&r#"{ "a": [1"#).unwrap();
    assert_eq!(builder.completed_string().unwrap(), r#"{ "a": [1]}"#);
}

#[test]
fn reset_keeps_the_configured_depth() {
    let mut builder = Builder::with_maximum_depth(1);
    assert_eq!(builder.update(&"[["), Err(Error::Exceeded));
    builder.reset();
    assert_eq!(builder.update(&"[["), Err(Error::Exceeded));
}

#[test]
fn options_construct_the_same_builder() {
    let options = Options {
        maximum_depth: 2,
        initial_capacity: 16,
    };
    let mut builder = Builder::with_options(&options);
    builder.update(&"[[1").unwrap();
    assert_eq!(builder.completed_string().unwrap(), "[[1]]");

    let mut builder = Builder::with_capacity(4);
    builder.update(&r#"{ "key": "value"#).unwrap();
    assert_eq!(builder.completed_string().unwrap(), r#"{ "key": "value"}"#);
}

#[test]
fn verifier_reports_status_per_byte() {
    let mut verifier = Verifier::new();
    for byte in r#"{ "name": "annie", "value": 1 }"#.bytes() {
        verifier.update(byte).unwrap();
        if byte == b'}' {
            assert_eq!(verifier.status(), Status::Valid);
        } else {
            assert_eq!(verifier.status(), Status::Continue);
        }
    }
}

#[test]
fn verifier_keeps_state_on_rejected_byte() {
    let mut verifier = Verifier::new();
    verifier.update(b'{').unwrap();
    assert_eq!(verifier.len(), 1);
    // A rejected byte leaves the verifier as it was: probing goes on.
    assert_eq!(verifier.update(b'x'), Err(Error::Invalid));
    assert_eq!(verifier.len(), 1);
    assert_eq!(verifier.status(), Status::Continue);
    verifier.update(b'}').unwrap();
    assert_eq!(verifier.len(), 2);
    assert_eq!(verifier.status(), Status::Valid);
}

#[test]
fn verifier_rejects_mismatched_close_without_damage() {
    let mut verifier = Verifier::new();
    for byte in "[1".bytes() {
        verifier.update(byte).unwrap();
    }
    // `}` after `[1` has a rule in the table but fails on the stacks; the
    // state must survive untouched so that `]` still closes the array.
    assert_eq!(verifier.update(b'}'), Err(Error::Invalid));
    assert_eq!(verifier.len(), 2);
    verifier.update(b']').unwrap();
    assert_eq!(verifier.status(), Status::Valid);
}

#[test]
fn verifier_counts_only_accepted_bytes() {
    let mut verifier = Verifier::with_maximum_depth(1);
    verifier.update(b'[').unwrap();
    assert_eq!(verifier.update(b'['), Err(Error::Exceeded));
    assert_eq!(verifier.len(), 1);
    assert!(!verifier.is_empty());
    let mut fresh = Verifier::new();
    assert!(fresh.is_empty());
    fresh.reset();
    assert_eq!(fresh.len(), 0);
}

#[test]
fn numbers_complete_only_past_their_first_digit() {
    assert_eq!(repair(r#"{ "a": 21"#).unwrap(), r#"{ "a": 21}"#);
    assert_eq!(repair("[-12").unwrap(), "[-12]");
    // A bare zero, a dangling fraction or exponent cannot be completed in
    // place: the completer rewinds to the last known-good offset.
    assert_eq!(repair(r#"{ "a": 0"#).unwrap(), "{}");
    assert_eq!(repair("[1.5").unwrap(), "[]");
    assert_eq!(repair("[1.5 ").unwrap(), "[1.5 ]");
    assert_eq!(repair("[1e9 ").unwrap(), "[1e9 ]");
}

#[test]
fn partial_unicode_escape_is_dropped() {
    assert_eq!(repair(r#"{ "a": "\u00"#).unwrap(), "{}");
    assert_eq!(repair(r#"{ "a": "\u00e9"#).unwrap(), "{ \"a\": \"\\u00e9\"}");
}

#[test]
fn valid_documents_repair_to_themselves() {
    let cases = [
        "[null]",
        "[true, false] ",
        r#"{ "a": [1, 2.5, -3e7], "b": { "c": "d\n" } }"#,
        "[[], {}, \"\"]",
        "  [ 1 , 2 ] ",
    ];
    for case in cases {
        assert_eq!(repair(case).unwrap(), case);
    }
}
