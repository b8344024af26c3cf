use fipa_wasm_agents::codec::{Codec, CodecError, CodecRegistry, StringEncoder};

struct Named {
    name: &'static str,
    language: &'static str,
}

impl Codec for Named {
    fn language(&self) -> &str {
        self.language
    }
    fn name(&self) -> &str {
        self.name
    }
}

#[test]
fn test_codec_registry() {
    let registry: CodecRegistry<Named> = CodecRegistry::new();
    assert!(registry.list().is_empty());
}

#[test]
fn test_string_encoder() {
    let mut encoder = StringEncoder::new();
    encoder
        .concept("agent-description")
        .slot_string("name", "test-agent")
        .slot_int("priority", 5)
        .slot_bool("active", true)
        .end();

    let result = String::from_utf8(encoder.build()).unwrap();
    assert!(result.contains("agent-description"));
    assert!(result.contains(":name \"test-agent\""));
    assert!(result.contains(":priority 5"));
    assert!(result.contains(":active true"));
}

#[test]
fn test_string_encoder_nested() {
    let mut encoder = StringEncoder::new();
    encoder.concept("outer").slot_string("value", "outer-value").end();

    let result = String::from_utf8(encoder.build()).unwrap();
    assert!(result.contains("(outer"));
    assert!(result.contains(")"));
}

#[test]
fn encoder_text_is_exact_and_indented() {
    let mut e = StringEncoder::new();
    e.concept("a").concept("b").slot_int("n", -42).slot_string("q", "say \"hi\"").end().end();
    let text = String::from_utf8(e.build()).unwrap();
    assert_eq!(text, "(a\n  (b\n    :n -42\n    :q \"say \\\"hi\\\"\"\n  )\n)\n");
}

#[test]
fn encoder_end_never_goes_below_top_and_extremes_render() {
    let mut e = StringEncoder::new();
    e.end().slot_int("min", i64::MIN).slot_bool("off", false).slot_text("f", "1.5");
    let text = String::from_utf8(e.build()).unwrap();
    assert_eq!(text, ")\n:min -9223372036854775808\n:off false\n:f 1.5\n");
}

#[test]
fn registry_replaces_by_name_and_finds_by_language() {
    let mut r: CodecRegistry<Named> = CodecRegistry::new();
    r.register(Named { name: "sl", language: "fipa-sl" });
    r.register(Named { name: "json", language: "application/json" });
    r.register(Named { name: "sl", language: "fipa-sl0" });
    assert_eq!(r.list(), vec!["sl".to_string(), "json".to_string()]);
    assert_eq!(r.get("sl").unwrap().language(), "fipa-sl0");
    assert!(r.contains("json"));
    assert_eq!(r.find_by_language("application/json").unwrap().name(), "json");
    assert_eq!(r.find_by_language("sl").unwrap().name(), "sl");
    assert!(r.find_by_language("xml").is_none());
    let gone = r.remove("sl").unwrap();
    assert_eq!(gone.language(), "fipa-sl0");
    assert!(!r.contains("sl"));
    assert!(r.remove("sl").is_none());
}

#[test]
fn codec_error_messages() {
    let e = CodecError::SyntaxError { position: 12, message: "unexpected ')'".to_string() };
    assert_eq!(e.message(), "Invalid syntax at position 12: unexpected ')'");
    assert_eq!(CodecError::MissingField("name".to_string()).message(), "Missing required field: name");
}

#[test]
fn find_by_language_takes_the_first_registered_match() {
    let mut r: CodecRegistry<Named> = CodecRegistry::new();
    assert!(r.find_by_language("fipa-sl").is_none());
    r.register(Named { name: "a", language: "fipa-sl" });
    r.register(Named { name: "b", language: "fipa-sl" });
    assert_eq!(r.find_by_language("fipa-sl").unwrap().name(), "a");
    assert_eq!(r.find_by_language("b").unwrap().name(), "b");
}
