use qapi_codegen::names::{sanitize_name, reserved_words, replacement_for};
use qapi_codegen::classify::{classify, ConstructKind};
use qapi_codegen::{QemuType, JsonValue, SchemaError};

fn text(s: &str) -> JsonValue {
    JsonValue::Text(s.to_string())
}

fn obj(pairs: Vec<(&str, JsonValue)>) -> JsonValue {
    JsonValue::Object(
        pairs
            .into_iter()
            .map(|(k, v)| (k.to_string(), v))
            .collect(),
    )
}

#[test]
fn sanitize_name_replaces_separators_and_sigils() {
    assert_eq!(sanitize_name(&"blk-io".to_string()), "blk_io");
    assert_eq!(sanitize_name(&"*opt".to_string()), "opt");
    assert_eq!(sanitize_name(&"a.b".to_string()), "a_b");
    assert_eq!(sanitize_name(&"plain".to_string()), "plain");
}

#[test]
fn sanitize_name_applies_reserved_word_table() {
    assert_eq!(sanitize_name(&"type".to_string()), "qemu_type");
    assert_eq!(sanitize_name(&"in".to_string()), "qemu_in");
    assert_eq!(sanitize_name(&"abstract".to_string()), "qemu_abstract");
    assert_eq!(sanitize_name(&"String".to_string()), "qemu_string");
    assert_eq!(sanitize_name(&"str".to_string()), "String");
    assert_eq!(sanitize_name(&"int".to_string()), "i64");
    assert_eq!(sanitize_name(&"3".to_string()), "qemu_3");
    assert_eq!(sanitize_name(&"*type".to_string()), "qemu_type");
}

#[test]
fn sanitize_name_is_deterministic() {
    let a = sanitize_name(&"block-device.id".to_string());
    let b = sanitize_name(&"block-device.id".to_string());
    assert_eq!(a, b);
    assert_eq!(a, "block_device_id");
}

#[test]
fn replacement_table_misses_ordinary_names() {
    assert_eq!(replacement_for("ordinary"), None);
    assert_eq!(replacement_for("10"), None);
    assert_eq!(replacement_for("7"), Some("qemu_7".to_string()));
}

#[test]
fn reserved_words_prefixes_reserved_spellings() {
    assert_eq!(
        reserved_words(&"type".to_string()),
        Some("qemu_type".to_string())
    );
    assert_eq!(
        reserved_words(&"interface".to_string()),
        Some("qemu_interface".to_string())
    );
    assert_eq!(
        reserved_words(&"static_field".to_string()),
        Some("qemu_static_field".to_string())
    );
    assert_eq!(
        reserved_words(&"abstract".to_string()),
        Some("qemu_abstract".to_string())
    );
    assert_eq!(reserved_words(&"protocol".to_string()), None);
    assert_eq!(reserved_words(&String::new()), None);
}

#[test]
fn classifier_follows_fixed_precedence() {
    assert_eq!(
        classify(&obj(vec![("enum", text("E")), ("struct", text("S"))])),
        ConstructKind::Enum
    );
    assert_eq!(
        classify(&obj(vec![("struct", text("S")), ("include", text("f"))])),
        ConstructKind::Include
    );
    assert_eq!(
        classify(&obj(vec![("command", text("c")), ("union", text("u"))])),
        ConstructKind::Command
    );
    assert_eq!(
        classify(&obj(vec![("event", text("E"))])),
        ConstructKind::Event
    );
}

#[test]
fn classifier_is_total_on_any_tree() {
    assert_eq!(classify(&obj(vec![])), ConstructKind::Unknown);
    assert_eq!(classify(&obj(vec![("pragma", text("x"))])), ConstructKind::Unknown);
    assert_eq!(classify(&JsonValue::Null), ConstructKind::Unknown);
    assert_eq!(classify(&JsonValue::Array(vec![])), ConstructKind::Unknown);
    assert_eq!(
        classify(&obj(vec![("struct", JsonValue::Null)])),
        ConstructKind::Unknown
    );
}

#[test]
fn qemu_type_parse_reads_include_target() {
    let v = obj(vec![("include", text("other.json"))]);
    match QemuType::parse(&v) {
        Ok(QemuType::Include { name }) => assert_eq!(name, "other.json"),
        other => panic!("expected an include, got {:?}", other),
    }
    let odd = obj(vec![("include", JsonValue::Boolean(true))]);
    match QemuType::parse(&odd) {
        Ok(QemuType::Include { name }) => assert_eq!(name, ""),
        other => panic!("expected an include, got {:?}", other),
    }
}

#[test]
fn qemu_type_parse_requires_text_name() {
    let v = obj(vec![("event", JsonValue::Boolean(true))]);
    match QemuType::parse(&v) {
        Err(SchemaError::MissingRequiredKey { fragment }) => assert_eq!(fragment, "event"),
        other => panic!("expected a missing-key error, got {:?}", other),
    }
}

#[test]
fn error_descriptions_carry_the_fragment() {
    let e = SchemaError::StructuralParse {
        fragment: "{ bad".to_string(),
    };
    assert_eq!(e.describe(), "structural parse error: { bad");
    let e = SchemaError::MissingRequiredKey {
        fragment: "union".to_string(),
    };
    assert_eq!(e.describe(), "missing required key: union");
    let e = SchemaError::UnrecognizedReturnShape {
        fragment: "query".to_string(),
    };
    assert_eq!(e.describe(), "unrecognized return shape: query");
}
