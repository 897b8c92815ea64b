use qapi_codegen::remove_comments;
use qapi_codegen::comment_block;
use qapi_codegen::find_element;
use qapi_codegen::parse_sections;
use qapi_codegen::normalize::replace_quotes;
use qapi_codegen::parse::parse_element;
use qapi_codegen::JsonValue;
use qapi_codegen::QemuType;
use qapi_codegen::SchemaError;

#[test]
fn test_remove_comments() {
    let input = r#"{ 'union': 'ChardevBackend', 'data': { 'file'   : 'ChardevFile',
                                       'serial' : 'ChardevHostdev',
                                       'parallel': 'ChardevHostdev',
                                       'pipe'   : 'ChardevHostdev',
                                       'socket' : 'ChardevSocket',
                                       'udp'    : 'ChardevUdp',
                                       'pty'    : 'ChardevCommon',
                                       'null'   : 'ChardevCommon',
                                       'mux'    : 'ChardevMux',
                                       'msmouse': 'ChardevCommon',
                                       'braille': 'ChardevCommon',
                                       'testdev': 'ChardevCommon',
                                       'stdio'  : 'ChardevStdio',
                                       'console': 'ChardevCommon',
                                       'spicevmc' : 'ChardevSpiceChannel',
                                       'spiceport' : 'ChardevSpicePort',
                                       'vc'     : 'ChardevVC',
                                       'ringbuf': 'ChardevRingbuf',
                                       # next one is just for compatibility
                                       'memory' : 'ChardevRingbuf' } }"#;
    println!("{}", remove_comments(input.to_string()));
}

#[test]
fn test_comment_parsing() {
    let input = r#"##
# @query-vnc:
#
# Returns information about the current VNC server
#
# Returns: @VncInfo
#
# Since: 0.14.0
##"#;
    let result = comment_block(input, 0);
    println!("test_comment_parsing Result: {:?}", result);
}

#[test]
fn remove_comments_drops_marker_through_newline() {
    assert_eq!(remove_comments("a#b\nc".to_string()), "ac");
    assert_eq!(remove_comments("no comment".to_string()), "no comment");
    assert_eq!(remove_comments(String::new()), "");
    assert_eq!(remove_comments("#only".to_string()), "");
}

#[test]
fn replace_quotes_swaps_single_for_double() {
    assert_eq!(replace_quotes("'a': 'b'"), "\"a\": \"b\"");
    assert_eq!(replace_quotes("none"), "none");
}

#[test]
fn find_element_scans_one_balanced_element() {
    let r = find_element("{ {} } rest").unwrap();
    assert_eq!(r.0, "{ {} }");
    assert_eq!(r.1, 6);
    assert!(find_element("{ 'open'").is_none());
    assert!(find_element("").is_none());
    assert!(find_element("no braces at all").is_none());
}

#[test]
fn parse_element_builds_value_trees() {
    let v = parse_element("{\"a\": 1, \"b\": [true, null]}").unwrap();
    assert_eq!(
        v,
        JsonValue::Object(vec![
            ("a".to_string(), JsonValue::Number("1".to_string())),
            (
                "b".to_string(),
                JsonValue::Array(vec![JsonValue::Boolean(true), JsonValue::Null])
            ),
        ])
    );
}

#[test]
fn parse_element_repeated_key_last_wins() {
    let v = parse_element("{\"a\": 1, \"a\": 2}").unwrap();
    assert_eq!(
        v,
        JsonValue::Object(vec![("a".to_string(), JsonValue::Number("2".to_string()))])
    );
}

#[test]
fn parse_element_rejects_malformed_text() {
    match parse_element("{\"a\": }") {
        Err(SchemaError::StructuralParse { fragment }) => {
            assert_eq!(fragment, "{\"a\": }");
        }
        other => panic!("expected a structural error, got {:?}", other),
    }
}

#[test]
fn sectionizer_counts_balanced_elements() {
    let input = "# header\n{ 'struct': 'A', 'data': {} }\n{ 'enum': 'B', 'data': [] }\n";
    let sections = parse_sections(input).unwrap();
    assert_eq!(sections.len(), 2);
    assert!(matches!(sections[0].qemu_type, QemuType::Struct(_)));
    assert!(matches!(sections[1].qemu_type, QemuType::Enum(_)));
    assert_eq!(parse_sections("").unwrap().len(), 0);
    assert_eq!(parse_sections("# only a preamble\n").unwrap().len(), 0);
}

#[test]
fn sectionizer_rejects_unterminated_element() {
    match parse_sections("{ 'struct': 'A'") {
        Err(SchemaError::StructuralParse { fragment }) => {
            assert_eq!(fragment, "{ 'struct': 'A'");
        }
        other => panic!("expected a structural error, got {:?}", other),
    }
}

#[test]
fn section_keeps_comment_block() {
    let input =
        "# schema-wide preamble\n{ 'enum': 'E', 'data': [] }\n# about Foo\n# second line\n{ 'struct': 'Foo', 'data': {} }";
    let sections = parse_sections(input).unwrap();
    assert_eq!(sections.len(), 2);
    assert_eq!(sections[0].description, Vec::<String>::new());
    assert_eq!(
        sections[1].description,
        vec![" about Foo".to_string(), " second line".to_string()]
    );
}

#[test]
fn embedded_comment_is_stripped_before_parsing() {
    let input = "{ 'union': 'X', 'data': { 'a': 'str', # note \n 'b': 'int' } }";
    let sections = parse_sections(input).unwrap();
    assert_eq!(sections.len(), 1);
    match &sections[0].qemu_type {
        QemuType::Union(u) => {
            assert_eq!(u.name, "X");
            assert_eq!(
                u.data,
                JsonValue::Object(vec![
                    ("a".to_string(), JsonValue::Text("str".to_string())),
                    ("b".to_string(), JsonValue::Text("int".to_string())),
                ])
            );
            assert_eq!(u.discriminator, JsonValue::Null);
        }
        other => panic!("expected a union, got {:?}", other),
    }
}
