use transcribe_cli::envelope::Envelope;

fn success_line(text: &str) -> String {
    let e = Envelope::Success {
        text: String::from(text),
    };
    e.render()
}

fn failure_line(error: &str) -> String {
    let e = Envelope::Failure {
        error: String::from(error),
    };
    e.render()
}

// The renderer must agree byte for byte with a reference JSON serializer on
// the embedded string literal.
fn reference_line(key: &str, payload: &str) -> String {
    format!("{}\"{}\":{}{}", "{", key, serde_json::to_string(payload).unwrap(), "}")
}

#[test]
fn plain_text_renders_unescaped() {
    assert_eq!(success_line("hello"), "{\"text\":\"hello\"}");
    assert_eq!(failure_line("boom"), "{\"error\":\"boom\"}");
}

#[test]
fn quotes_and_backslashes_are_escaped() {
    let payload = "say \"hi\" \\ done";
    assert_eq!(success_line(payload), reference_line("text", payload));
}

#[test]
fn short_control_escapes_match_reference() {
    let payload = "a\nb\rc\td\u{8}e\u{c}f";
    assert_eq!(success_line(payload), reference_line("text", payload));
}

#[test]
fn other_control_chars_use_u00_escapes() {
    let payload = "x\u{1}y\u{1f}z";
    let line = success_line(payload);
    assert_eq!(line, "{\"text\":\"x\\u0001y\\u001fz\"}");
    assert_eq!(line, reference_line("text", payload));
}

#[test]
fn non_ascii_text_stays_raw() {
    let payload = "caf\u{e9} \u{4f60}\u{597d}";
    assert_eq!(success_line(payload), reference_line("text", payload));
}

#[test]
fn rendered_success_parses_back_to_one_text_key() {
    let line = success_line("some \"tricky\"\ntext");
    let v: serde_json::Value = serde_json::from_str(&line).unwrap();
    let obj = v.as_object().unwrap();
    assert_eq!(obj.len(), 1);
    assert_eq!(
        obj.get("text").unwrap().as_str().unwrap(),
        "some \"tricky\"\ntext"
    );
    assert!(obj.get("error").is_none());
}

#[test]
fn rendered_failure_parses_back_to_one_error_key() {
    let line = failure_line("bad \\ path\t");
    let v: serde_json::Value = serde_json::from_str(&line).unwrap();
    let obj = v.as_object().unwrap();
    assert_eq!(obj.len(), 1);
    assert_eq!(obj.get("error").unwrap().as_str().unwrap(), "bad \\ path\t");
    assert!(obj.get("text").is_none());
}

#[test]
fn rendered_line_contains_no_newline() {
    let line = success_line("first\nsecond\rthird");
    assert!(!line.contains('\n'));
    assert!(!line.contains('\r'));
}

#[test]
fn success_and_failure_render_differently() {
    assert_ne!(success_line("same"), failure_line("same"));
}

#[test]
fn parse_inverts_render_for_success() {
    for payload in ["", "hello", "say \"hi\" \\ done", "a\nb\rc\td", "x\u{1}y\u{1f}z caf\u{e9}"] {
        let e = Envelope::Success {
            text: String::from(payload),
        };
        assert_eq!(Envelope::parse(&e.render()), Some(e));
    }
}

#[test]
fn parse_inverts_render_for_failure() {
    let e = Envelope::Failure {
        error: String::from("Model file not found: m\u{e9}.bin"),
    };
    assert_eq!(Envelope::parse(&e.render()), Some(e));
}

#[test]
fn parse_rejects_non_envelopes() {
    assert_eq!(Envelope::parse(""), None);
    assert_eq!(Envelope::parse("{}"), None);
    assert_eq!(Envelope::parse("{\"other\":\"x\"}"), None);
    assert_eq!(Envelope::parse("{\"text\":\"unterminated"), None);
    assert_eq!(Envelope::parse("{\"text\":\"bad\\q\"}"), None);
    assert_eq!(Envelope::parse("{\"text\":\"raw\"quote\"}"), None);
}
