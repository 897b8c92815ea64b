use qapi_codegen::generate_rust_definitions;
use qapi_codegen::parse_sections;
use qapi_codegen::codegen::{print_struct, print_union, print_command, print_enum, print_event,
    get_definitions};
use qapi_codegen::emit;
use qapi_codegen::{Struct, Command, Union, Event, Enum, QemuType};
use qapi_codegen::JsonValue;
use qapi_codegen::SchemaError;

#[test]
fn test_generate_definitions() {
    let url = "https://raw.githubusercontent.com/elmarco/qemu/qapi/qapi-schema.json";
    generate_rust_definitions(&url);
}

fn text(s: &str) -> JsonValue {
    JsonValue::Text(s.to_string())
}

fn obj(pairs: Vec<(&str, JsonValue)>) -> JsonValue {
    JsonValue::Object(
        pairs
            .into_iter()
            .map(|(k, v)| (k.to_string(), v))
            .collect(),
    )
}

#[test]
fn struct_scenario_emits_both_fields() {
    let input = "{ 'struct': 'Foo', 'data': { 'bar': 'str', '*baz': 'bool' } }";
    let sections = parse_sections(input).unwrap();
    assert_eq!(sections.len(), 1);
    let s = match &sections[0].qemu_type {
        QemuType::Struct(s) => s,
        other => panic!("expected a struct, got {:?}", other),
    };
    assert_eq!(s.name, "Foo");
    assert_eq!(
        s.fields,
        obj(vec![("bar", text("str")), ("*baz", text("bool"))])
    );
    assert_eq!(s.base, JsonValue::Null);
    let rendered = Struct {
        name: s.name.clone(),
        fields: s.fields.duplicate(),
        base: s.base.duplicate(),
    }
    .to_rust_string();
    assert_eq!(
        rendered,
        "\n            #[derive(Debug, RustcDecodable)]\n            pub struct Foo{\n                pub bar:String,pub baz:bool\n            }\n            "
    );
}

#[test]
fn enum_scenario_keeps_member_order() {
    let input = "{ 'enum': 'Mode', 'data': ['read', 'write'] }";
    let sections = parse_sections(input).unwrap();
    let e = match &sections[0].qemu_type {
        QemuType::Enum(e) => e,
        other => panic!("expected an enum, got {:?}", other),
    };
    assert_eq!(e.name, "Mode");
    assert_eq!(
        e.fields,
        JsonValue::Array(vec![text("read"), text("write")])
    );
    let rendered = Enum {
        name: e.name.clone(),
        fields: e.fields.duplicate(),
    }
    .to_rust_string();
    assert_eq!(
        rendered,
        "\n            #[derive(Debug,RustcDecodable)]\n            pub enum Mode {\n                read,write\n            }\n            "
    );
}

#[test]
fn union_emitter_renders_cases() {
    let u = Union {
        name: "X".to_string(),
        discriminator: JsonValue::Null,
        data: obj(vec![("a", text("str")), ("b", text("int"))]),
    };
    assert_eq!(
        u.to_rust_string(),
        "\n            #[derive(Debug,RustcDecodable)]\n            pub enum X{\n                a(String),b(f64)\n            }\n            "
    );
}

#[test]
fn union_emitter_special_cases_type_field() {
    let u = Union {
        name: "Y".to_string(),
        discriminator: JsonValue::Null,
        data: obj(vec![("type", text("str"))]),
    };
    assert!(u.to_rust_string().contains("qemu_type(String)"));
}

#[test]
fn event_emitter_renders_payload_only() {
    let e = Event {
        name: "POWERDOWN".to_string(),
        data: obj(vec![("when", text("uint64"))]),
    };
    assert_eq!(
        e.to_rust_string(),
        "\n            #[derive(Debug)]\n            pub struct POWERDOWN {\n                pub when:u64\n            }\n            "
    );
}

#[test]
fn command_wrapper_uses_wire_name_for_payload_key() {
    let c = Command {
        name: "qom-set".to_string(),
        fields: obj(vec![("type", text("str"))]),
        gen: JsonValue::Null,
        returns: JsonValue::Null,
    };
    let out = c.to_rust_string().unwrap();
    assert!(out.contains("pub qemu_type:String"));
    assert!(out.contains(
        "to_json[\"arguments\"][\"type\"] = self.qemu_type.clone().into();"
    ));
    assert!(out.contains("to_json[\"execute\"] = \"qom-set\".into();"));
}

#[test]
fn command_without_data_takes_no_arguments() {
    let c = Command {
        name: "stop".to_string(),
        fields: JsonValue::Null,
        gen: JsonValue::Null,
        returns: JsonValue::Null,
    };
    let out = c.to_rust_string().unwrap();
    assert!(out.contains("pub fn new()->stop{"));
    assert!(out.contains("pub struct stop {\n            \n        }"));
}

#[test]
fn command_bad_return_shape_is_an_error() {
    let c = Command {
        name: "query".to_string(),
        fields: JsonValue::Null,
        gen: JsonValue::Null,
        returns: JsonValue::Number("5".to_string()),
    };
    match c.to_rust_string() {
        Err(SchemaError::UnrecognizedReturnShape { fragment }) => {
            assert_eq!(fragment, "query");
        }
        other => panic!("expected an unrecognized return shape, got {:?}", other),
    }
}

#[test]
fn command_one_element_list_return_is_accepted() {
    let c = Command {
        name: "query-cpus".to_string(),
        fields: JsonValue::Null,
        gen: JsonValue::Null,
        returns: JsonValue::Array(vec![text("CpuInfo")]),
    };
    let out = c.to_rust_string().unwrap();
    assert!(out.contains("rustc_json::DecodeResult<CpuInfo>"));
}

#[test]
fn print_struct_renders_serde_declaration() {
    let v = obj(vec![("struct", text("Foo")), ("data", obj(vec![("bar", text("str"))]))]);
    assert_eq!(
        print_struct(&v).unwrap(),
        "#[derive(Debug, Deserialize, Serialize)]#[serde(rename_all = \"kebab-case\")]pub struct Foo {\tpub bar: String,}}"
    );
}

#[test]
fn print_struct_skips_text_wrapper() {
    let v = obj(vec![("struct", text("String")), ("data", obj(vec![]))]);
    assert_eq!(print_struct(&v).unwrap(), "");
}

#[test]
fn print_struct_requires_a_text_name() {
    let v = obj(vec![("struct", JsonValue::Number("5".to_string()))]);
    match print_struct(&v) {
        Err(SchemaError::MissingRequiredKey { fragment }) => {
            assert_eq!(fragment, "struct");
        }
        other => panic!("expected a missing-key error, got {:?}", other),
    }
}

#[test]
fn print_union_renames_reserved_case() {
    let v = obj(vec![
        ("union", text("U")),
        ("data", obj(vec![("in", text("str")), ("x", text("bool"))])),
    ]);
    assert_eq!(
        print_union(&v).unwrap(),
        "#[derive(Debug, Deserialize, Serialize)]pub enum U {#[serde(rename = \"in\")]\n\tqemu_in(String),\tx(bool),}}"
    );
}

#[test]
fn print_enum_camel_cases_members() {
    let v = obj(vec![
        ("enum", text("Mode")),
        ("data", JsonValue::Array(vec![text("read"), text("io-status")])),
    ]);
    assert_eq!(
        print_enum(&v).unwrap(),
        "#[derive(Debug, Deserialize, Serialize)]#[serde(rename_all = \"kebab-case\")]pub enum Mode {\tRead,\tIoStatus,}}"
    );
}

#[test]
fn print_enum_renames_numeric_member() {
    let v = obj(vec![
        ("enum", text("Depth")),
        ("data", JsonValue::Array(vec![text("1")])),
    ]);
    assert_eq!(
        print_enum(&v).unwrap(),
        "#[derive(Debug, Deserialize, Serialize)]#[serde(rename_all = \"kebab-case\")]pub enum Depth {\t#[serde(rename = \"1\")]\n\tQemu1,}}"
    );
}

#[test]
fn print_event_renders_payload_struct() {
    let v = obj(vec![("event", text("SHUTDOWN")), ("data", obj(vec![]))]);
    assert_eq!(
        print_event(&v).unwrap(),
        "#[derive(Debug, Deserialize, Serialize)]#[serde(rename_all = \"kebab-case\")]pub struct SHUTDOWN {}}"
    );
}

#[test]
fn print_command_without_data() {
    let v = obj(vec![("command", text("stop"))]);
    assert_eq!(
        print_command(&v).unwrap(),
        "pub fn stop_cmd()->Result<(), String>{let cmd = json!({{\"execute\": \"stop\"}});let ret = call_qemu(cmd)?;Ok(())}}"
    );
}

#[test]
fn print_command_with_args_and_scalar_return() {
    let v = obj(vec![
        ("command", text("add-client")),
        ("data", obj(vec![("protocol", text("str")), ("*tls", text("bool"))])),
        ("returns", text("int")),
    ]);
    assert_eq!(
        print_command(&v).unwrap(),
        "pub fn add_client_cmd(protocol: String,tls: bool)->Result<i64, String>{let cmd = json!({{\"execute\": \"add-client\",\"arguments\": {{\"protocol\": protocol,\"tls\": tls}}}});let ret = call_qemu(cmd)?;Ok(ret)}}"
    );
}

#[test]
fn print_command_payload_keys_are_wire_names() {
    let v = obj(vec![
        ("command", text("qom-set")),
        ("data", obj(vec![("type", text("str")), ("*block-id", text("str"))])),
    ]);
    let out = print_command(&v).unwrap();
    assert!(out.contains("pub fn qom_set_cmd(qemu_type: String,block_id: String)"));
    assert!(out.contains("\"arguments\": {{\"type\": qemu_type,\"block-id\": block_id}}"));
}

#[test]
fn wrong_shape_data_diagnostic_renders_the_value() {
    let v = obj(vec![("struct", text("Foo")), ("data", JsonValue::Number("5".to_string()))]);
    match print_struct(&v) {
        Err(SchemaError::MissingRequiredKey { fragment }) => {
            assert_eq!(fragment, "data: 5");
        }
        other => panic!("expected a missing-key error, got {:?}", other),
    }
    let e = obj(vec![
        ("enum", text("E")),
        ("data", JsonValue::Array(vec![JsonValue::Number("5".to_string())])),
    ]);
    match print_enum(&e) {
        Err(SchemaError::MissingRequiredKey { fragment }) => {
            assert_eq!(fragment, "data: [5]");
        }
        other => panic!("expected a missing-key error, got {:?}", other),
    }
    assert_eq!(
        generate_rust_definitions("{ 'union': 'U', 'data': 'x' }"),
        Err("missing required key: data: \"x\"".to_string())
    );
}

#[test]
fn value_tree_renders_as_diagnostic_text() {
    let v = obj(vec![
        ("a", JsonValue::Number("1".to_string())),
        ("b", JsonValue::Array(vec![text("x"), JsonValue::Null, JsonValue::Boolean(true)])),
    ]);
    assert_eq!(v.to_text(), "{\"a\": 1,\"b\": [\"x\",null,true]}");
}

#[test]
fn print_command_list_return_uses_vec() {
    let v = obj(vec![
        ("command", text("query-cpus")),
        ("returns", JsonValue::Array(vec![text("CpuInfo")])),
    ]);
    let out = print_command(&v).unwrap();
    assert!(out.contains("->Result<Vec<CpuInfo>, String>"));
}

#[test]
fn get_definitions_collects_each_element() {
    let input = "{ 'struct': 'A', 'data': {} }\n{ 'enum': 'B', 'data': [] }";
    let defs = get_definitions(input).unwrap();
    assert_eq!(defs.len(), 2);
    assert_eq!(
        defs[0],
        obj(vec![("struct", text("A")), ("data", obj(vec![]))])
    );
}

#[test]
fn generate_renders_sections_in_order() {
    let input = "{ 'struct': 'Foo', 'data': { 'bar': 'str' } }\n{ 'enum': 'Mode', 'data': ['read'] }";
    let out = generate_rust_definitions(input).unwrap();
    assert_eq!(
        out,
        "use call_qemu;#[derive(Debug, Deserialize, Serialize)]#[serde(rename_all = \"kebab-case\")]pub struct Foo {\tpub bar: String,}}#[derive(Debug, Deserialize, Serialize)]#[serde(rename_all = \"kebab-case\")]pub enum Mode {\tRead,}}"
    );
}

#[test]
fn generate_skips_include_and_unknown_sections() {
    let input = "{ 'include': 'other.json' }\n{ 'pragma': {} }";
    assert_eq!(generate_rust_definitions(input).unwrap(), "use call_qemu;");
}

#[test]
fn generate_skips_command_with_bad_return_shape() {
    let input = "{ 'command': 'c', 'returns': 5 }";
    assert_eq!(generate_rust_definitions(input).unwrap(), "use call_qemu;");
}

#[test]
fn generate_aborts_on_missing_name() {
    let input = "{ 'struct': 5 }";
    assert_eq!(
        generate_rust_definitions(input),
        Err("missing required key: struct".to_string())
    );
}

#[test]
fn generate_aborts_on_structural_error() {
    let input = "{ 'struct': }";
    match generate_rust_definitions(input) {
        Err(m) => assert!(m.starts_with("structural parse error: ")),
        Ok(out) => panic!("expected an error, got {:?}", out),
    }
}

#[test]
fn struct_base_becomes_leading_field() {
    let s = Struct {
        name: "Child".to_string(),
        fields: obj(vec![("x", text("uint32"))]),
        base: text("Parent"),
    };
    assert_eq!(
        s.to_rust_string(),
        "\n            #[derive(Debug, RustcDecodable)]\n            pub struct Child{\n                base: Parent,pub x:u32\n            }\n            "
    );
}

#[test]
fn command_gen_flag_adds_gen_field() {
    let c = Command {
        name: "migrate".to_string(),
        fields: obj(vec![("uri", text("str"))]),
        gen: JsonValue::Boolean(false),
        returns: JsonValue::Null,
    };
    let out = c.to_rust_string().unwrap();
    assert!(out.contains("pub uri:String,gen: bool"));
    assert!(out.contains("pub fn new(uri:String,gen: bool)->migrate{"));
    assert!(out.contains("uri:uri,gen: gen"));
}

#[test]
fn number_lexemes_are_kept_as_written() {
    let v = qapi_codegen::parse::parse_element("[1.5e3, -7, 0.25]").unwrap();
    assert_eq!(
        v,
        JsonValue::Array(vec![
            JsonValue::Number("1.5e3".to_string()),
            JsonValue::Number("-7".to_string()),
            JsonValue::Number("0.25".to_string()),
        ])
    );
}

#[test]
fn json_val_to_rust_maps_scalars() {
    assert_eq!(emit::json_val_to_rust(&text("uint64")), "u64");
    assert_eq!(emit::json_val_to_rust(&text("uint32")), "u32");
    assert_eq!(emit::json_val_to_rust(&text("bool")), "bool");
    assert_eq!(emit::json_val_to_rust(&text("int")), "f64");
    assert_eq!(emit::json_val_to_rust(&text("str")), "String");
    assert_eq!(emit::json_val_to_rust(&text("BlockInfo")), "String");
    assert_eq!(emit::json_val_to_rust(&JsonValue::Null), "None");
    assert_eq!(emit::json_val_to_rust(&JsonValue::Boolean(true)), "bool");
    assert_eq!(emit::json_val_to_rust(&obj(vec![])), "struct");
    assert_eq!(emit::json_val_to_rust(&JsonValue::Array(vec![])), "Vec<String>");
    assert_eq!(
        emit::json_val_to_rust(&JsonValue::Number("3".to_string())),
        "f64"
    );
    assert_eq!(qapi_codegen::codegen::json_val_to_rust(&text("int")), "i64");
}
