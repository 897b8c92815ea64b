//! The Emitter: renders each classified construct into target-language
//! declarations.  Emission is deterministic: the same construct always
//! renders to the same text.

use vstd::prelude::*;
use crate::classify::{Struct, Command, Union, Event, Enum};
use crate::error::SchemaError;
use crate::names::{sanitize_spec, sanitize_name};
use crate::strutil::{join_seqs, join_strings, str_eq};
use crate::value::{JsonValue, JsonSpec, pairs_view, items_view, lemma_object_view,
    lemma_array_view};

verus! {

/// The target-language scalar type a value tree's field maps to: the
/// dialect's scalar names map to fixed scalars, an object to a nested
/// structure marker, an array to a generic string-list marker.
pub open spec fn rust_type_of(v: JsonSpec) -> Seq<char> {
    match v {
        JsonSpec::Text(s) => if s == "uint64"@ {
            "u64"@
        } else if s == "uint32"@ {
            "u32"@
        } else if s == "bool"@ {
            "bool"@
        } else if s == "int"@ {
            "f64"@
        } else if s == "str"@ {
            "String"@
        } else {
            "String"@
        },
        JsonSpec::Number(_) => "f64"@,
        JsonSpec::Boolean(_) => "bool"@,
        JsonSpec::Null => "None"@,
        JsonSpec::Object(_) => "struct"@,
        JsonSpec::Array(_) => "Vec<String>"@,
    }
}

/// Maps a field's value tree to its target-language type, as
/// `rust_type_of` describes; total over every tree shape.
pub fn json_val_to_rust(input: &JsonValue) -> (r: String)
    ensures
        r@ == rust_type_of(input@),
{
    match input {
        JsonValue::Text(s) => {
            if str_eq(s.as_str(), "uint64") {
                String::from_str("u64")
            } else if str_eq(s.as_str(), "uint32") {
                String::from_str("u32")
            } else if str_eq(s.as_str(), "bool") {
                String::from_str("bool")
            } else if str_eq(s.as_str(), "int") {
                String::from_str("f64")
            } else {
                String::from_str("String")
            }
        },
        JsonValue::Number(_) => String::from_str("f64"),
        JsonValue::Boolean(_) => String::from_str("bool"),
        JsonValue::Null => String::from_str("None"),
        JsonValue::Object(_) => String::from_str("struct"),
        JsonValue::Array(_) => String::from_str("Vec<String>"),
    }
}

/// One `pub name:type` field line of an aggregate declaration.
pub open spec fn struct_entry(p: (Seq<char>, JsonSpec)) -> Seq<char> {
    "pub "@ + sanitize_spec(p.0) + ":"@ + rust_type_of(p.1)
}

/// The field lines a field map contributes: one per entry, in order;
/// nothing when the map is no object.
pub open spec fn struct_entries(fields: JsonSpec) -> Seq<Seq<char>> {
    match fields {
        JsonSpec::Object(pairs) => Seq::new(
            pairs.len(),
            |i: int|
                if 0 <= i < pairs.len() {
                    struct_entry(pairs[i])
                } else {
                    Seq::empty()
                },
        ),
        _ => Seq::empty(),
    }
}

/// Renders the `pub name:type` lines of a field map into `out`, in order.
fn push_struct_entries(out: &mut Vec<String>, fields: &JsonValue)
    ensures
        final(out).deep_view() == old(out).deep_view() + struct_entries(fields@),
{
    let ghost base = out.deep_view();
    match fields {
        JsonValue::Object(pairs) => {
            proof {
                lemma_object_view(*pairs);
            }
            let n = pairs.len();
            let mut i: usize = 0;
            while i < n
                invariant
                    n == pairs.len(),
                    i <= n,
                    fields@ == JsonSpec::Object(pairs_view(pairs@)),
                    out.deep_view() == base + struct_entries(fields@).take(i as int),
                decreases n - i,
            {
                let name = sanitize_name(&pairs[i].0);
                let mut f = String::from_str("pub ");
                f.append(name.as_str());
                f.append(":");
                let t = json_val_to_rust(&pairs[i].1);
                f.append(t.as_str());
                proof {
                    assert(f@ == struct_entry(pairs_view(pairs@)[i as int]));
                }
                let ghost prev_dv = out.deep_view();
                out.push(f);
                proof {
                    assert(out.deep_view() =~~= prev_dv.push(
                        struct_entry(pairs_view(pairs@)[i as int]),
                    ));
                    assert(out.deep_view() =~~= base + struct_entries(fields@).take(i + 1));
                }
                i = i + 1;
            }
            proof {
                assert(struct_entries(fields@).take(n as int) =~= struct_entries(fields@));
            }
        },
        _ => {
            proof {
                assert(out.deep_view() =~= base + struct_entries(fields@));
            }
        },
    }
}

/// The declaration text a struct construct renders to.
pub open spec fn struct_rust_spec(name: Seq<char>, fields: JsonSpec, base: JsonSpec) -> Seq<char> {
    let base_part: Seq<Seq<char>> = if base is Text {
        seq!["base: "@ + base->Text_0]
    } else {
        Seq::empty()
    };
    "\n            #[derive(Debug, RustcDecodable)]\n            pub struct "@ + sanitize_spec(name)
        + "{\n                "@ + join_seqs(base_part + struct_entries(fields), ","@)
        + "\n            }\n            "@
}

impl Struct {
    /// One aggregate type declaration; a present base type becomes an
    /// extra `base` field ahead of the payload fields.
    pub fn to_rust_string(self) -> (r: String)
        ensures
            r@ == struct_rust_spec(self.name@, self.fields@, self.base@),
    {
        let mut struct_fields: Vec<String> = Vec::new();
        match &self.base {
            JsonValue::Text(b) => {
                let mut f = String::from_str("base: ");
                f.append(b.as_str());
                struct_fields.push(f);
                proof {
                    assert(struct_fields.deep_view() =~= seq!["base: "@ + self.base@->Text_0]);
                }
            },
            _ => {
                proof {
                    assert(struct_fields.deep_view() =~= Seq::<Seq<char>>::empty());
                }
            },
        }
        push_struct_entries(&mut struct_fields, &self.fields);
        let mut out = String::from_str(
            "\n            #[derive(Debug, RustcDecodable)]\n            pub struct ",
        );
        let name = sanitize_name(&self.name);
        out.append(name.as_str());
        out.append("{\n                ");
        let joined = join_strings(&struct_fields, ",");
        out.append(joined.as_str());
        out.append("\n            }\n            ");
        out
    }
}

/// One case of a union's tagged-variant declaration, with the case's
/// mapped type as its payload; a case named `type` keeps its renamed
/// spelling without the general sanitizing path.
pub open spec fn union_entry(p: (Seq<char>, JsonSpec)) -> Seq<char> {
    if p.0 == "type"@ {
        "qemu_type("@ + rust_type_of(p.1) + ")"@
    } else {
        sanitize_spec(p.0) + "("@ + rust_type_of(p.1) + ")"@
    }
}

/// The case lines a union's data map contributes.
pub open spec fn union_entries(data: JsonSpec) -> Seq<Seq<char>> {
    match data {
        JsonSpec::Object(pairs) => Seq::new(
            pairs.len(),
            |i: int|
                if 0 <= i < pairs.len() {
                    union_entry(pairs[i])
                } else {
                    Seq::empty()
                },
        ),
        _ => Seq::empty(),
    }
}

/// The declaration text a union construct renders to: one tagged-variant
/// declaration with one case per data entry, in order; the union's own
/// name is kept as written.
pub open spec fn union_rust_spec(name: Seq<char>, data: JsonSpec) -> Seq<char> {
    "\n            #[derive(Debug,RustcDecodable)]\n            pub enum "@ + name
        + "{\n                "@ + join_seqs(union_entries(data), ","@)
        + "\n            }\n            "@
}

impl Union {
    /// One tagged-variant declaration with one case per union case, each
    /// carrying its mapped type as the payload.
    pub fn to_rust_string(self) -> (r: String)
        ensures
            r@ == union_rust_spec(self.name@, self.data@),
    {
        let mut struct_fields: Vec<String> = Vec::new();
        match &self.data {
            JsonValue::Object(pairs) => {
                proof {
                    lemma_object_view(*pairs);
                }
                let n = pairs.len();
                let mut i: usize = 0;
                while i < n
                    invariant
                        n == pairs.len(),
                        i <= n,
                        self.data@ == JsonSpec::Object(pairs_view(pairs@)),
                        struct_fields.deep_view() == union_entries(self.data@).take(i as int),
                    decreases n - i,
                {
                    let f = if str_eq(pairs[i].0.as_str(), "type") {
                        let mut f = String::from_str("qemu_type(");
                        let t = json_val_to_rust(&pairs[i].1);
                        f.append(t.as_str());
                        f.append(")");
                        f
                    } else {
                        let mut f = sanitize_name(&pairs[i].0);
                        f.append("(");
                        let t = json_val_to_rust(&pairs[i].1);
                        f.append(t.as_str());
                        f.append(")");
                        f
                    };
                    proof {
                        assert(f@ == union_entry(pairs_view(pairs@)[i as int]));
                    }
                    let ghost prev_dv = struct_fields.deep_view();
                    struct_fields.push(f);
                    proof {
                        assert(struct_fields.deep_view() =~~= prev_dv.push(
                            union_entry(pairs_view(pairs@)[i as int]),
                        ));
                        assert(struct_fields.deep_view() =~~= union_entries(self.data@).take(
                            i + 1,
                        ));
                    }
                    i = i + 1;
                }
                proof {
                    assert(union_entries(self.data@).take(n as int) =~= union_entries(
                        self.data@,
                    ));
                }
            },
            _ => {
                proof {
                    assert(struct_fields.deep_view() =~= union_entries(self.data@));
                }
            },
        }
        let mut out = String::from_str(
            "\n            #[derive(Debug,RustcDecodable)]\n            pub enum ",
        );
        out.append(self.name.as_str());
        out.append("{\n                ");
        let joined = join_strings(&struct_fields, ",");
        out.append(joined.as_str());
        out.append("\n            }\n            ");
        out
    }
}

/// The declaration text an event construct renders to: one aggregate
/// carrying only the payload fields.
pub open spec fn event_rust_spec(name: Seq<char>, data: JsonSpec) -> Seq<char> {
    "\n            #[derive(Debug)]\n            pub struct "@ + sanitize_spec(name)
        + " {\n                "@ + join_seqs(struct_entries(data), ","@)
        + "\n            }\n            "@
}

impl Event {
    /// One aggregate declaration carrying only payload fields.
    pub fn to_rust_string(self) -> (r: String)
        ensures
            r@ == event_rust_spec(self.name@, self.data@),
    {
        let mut struct_fields: Vec<String> = Vec::new();
        proof {
            assert(struct_fields.deep_view() =~= Seq::<Seq<char>>::empty());
        }
        push_struct_entries(&mut struct_fields, &self.data);
        proof {
            assert(struct_fields.deep_view() =~= struct_entries(self.data@));
        }
        let mut out = String::from_str("\n            #[derive(Debug)]\n            pub struct ");
        let name = sanitize_name(&self.name);
        out.append(name.as_str());
        out.append(" {\n                ");
        let joined = join_strings(&struct_fields, ",");
        out.append(joined.as_str());
        out.append("\n            }\n            ");
        out
    }
}

/// `s` with every optionality sigil removed.
pub open spec fn without_stars(s: Seq<char>) -> Seq<char>
    decreases s.len(),
{
    if s.len() == 0 {
        Seq::empty()
    } else {
        without_stars(s.drop_last()) + (if s.last() == '*' {
            Seq::<char>::empty()
        } else {
            seq![s.last()]
        })
    }
}

/// Removes each `*` sigil, keeping everything else: the wire name a
/// request payload uses.
pub(crate) fn strip_stars(s: &String) -> (r: String)
    ensures
        r@ == without_stars(s@),
{
    let v = s.as_str();
    let n = v.unicode_len();
    let mut buf = String::new();
    let mut i: usize = 0;
    while i < n
        invariant
            n == v@.len(),
            i <= n,
            buf@ == without_stars(v@.take(i as int)),
        decreases n - i,
    {
        let c = v.get_char(i);
        proof {
            assert(v@.take(i + 1).drop_last() =~= v@.take(i as int));
        }
        if c != '*' {
            crate::strutil::push_char(&mut buf, c);
        }
        proof {
            assert(buf@ =~= without_stars(v@.take(i + 1)));
        }
        i = i + 1;
    }
    proof {
        assert(v@.take(n as int) =~= v@);
    }
    buf
}

/// One `name:type` argument of a command's constructor.
pub open spec fn input_entry(p: (Seq<char>, JsonSpec)) -> Seq<char> {
    sanitize_spec(p.0) + ":"@ + rust_type_of(p.1)
}

/// One `name:name` line of a command's constructor body.
pub open spec fn self_entry(p: (Seq<char>, JsonSpec)) -> Seq<char> {
    sanitize_spec(p.0) + ":"@ + sanitize_spec(p.0)
}

/// One request-payload assignment of a command's `to_json` body: the
/// sanitized field is written back under its original wire name, with
/// the optionality sigil stripped.
pub open spec fn tojson_entry(p: (Seq<char>, JsonSpec)) -> Seq<char> {
    "to_json[\"arguments\"][\""@ + without_stars(p.0) + "\"] = self."@ + sanitize_spec(p.0)
        + ".clone().into();"@
}

/// The constructor arguments a command's field map contributes.
pub open spec fn input_entries(fields: JsonSpec) -> Seq<Seq<char>> {
    match fields {
        JsonSpec::Object(pairs) => Seq::new(
            pairs.len(),
            |i: int|
                if 0 <= i < pairs.len() {
                    input_entry(pairs[i])
                } else {
                    Seq::empty()
                },
        ),
        _ => Seq::empty(),
    }
}

/// The constructor body lines a command's field map contributes.
pub open spec fn self_entries(fields: JsonSpec) -> Seq<Seq<char>> {
    match fields {
        JsonSpec::Object(pairs) => Seq::new(
            pairs.len(),
            |i: int|
                if 0 <= i < pairs.len() {
                    self_entry(pairs[i])
                } else {
                    Seq::empty()
                },
        ),
        _ => Seq::empty(),
    }
}

/// The payload assignments a command's field map contributes.
pub open spec fn tojson_entries(fields: JsonSpec) -> Seq<Seq<char>> {
    match fields {
        JsonSpec::Object(pairs) => Seq::new(
            pairs.len(),
            |i: int|
                if 0 <= i < pairs.len() {
                    tojson_entry(pairs[i])
                } else {
                    Seq::empty()
                },
        ),
        _ => Seq::empty(),
    }
}

/// Renders the constructor arguments of a field map into `out`.
fn push_input_entries(out: &mut Vec<String>, fields: &JsonValue)
    ensures
        final(out).deep_view() == old(out).deep_view() + input_entries(fields@),
{
    let ghost base = out.deep_view();
    match fields {
        JsonValue::Object(pairs) => {
            proof {
                lemma_object_view(*pairs);
            }
            let n = pairs.len();
            let mut i: usize = 0;
            while i < n
                invariant
                    n == pairs.len(),
                    i <= n,
                    fields@ == JsonSpec::Object(pairs_view(pairs@)),
                    out.deep_view() == base + input_entries(fields@).take(i as int),
                decreases n - i,
            {
                let name = sanitize_name(&pairs[i].0);
                let mut f = name;
                f.append(":");
                let t = json_val_to_rust(&pairs[i].1);
                f.append(t.as_str());
                proof {
                    assert(f@ == input_entry(pairs_view(pairs@)[i as int]));
                }
                let ghost prev_dv = out.deep_view();
                out.push(f);
                proof {
                    assert(out.deep_view() =~~= prev_dv.push(
                        input_entry(pairs_view(pairs@)[i as int]),
                    ));
                    assert(out.deep_view() =~~= base + input_entries(fields@).take(i + 1));
                }
                i = i + 1;
            }
            proof {
                assert(input_entries(fields@).take(n as int) =~= input_entries(fields@));
            }
        },
        _ => {
            proof {
                assert(out.deep_view() =~= base + input_entries(fields@));
            }
        },
    }
}

/// Renders the constructor body lines of a field map into `out`.
fn push_self_entries(out: &mut Vec<String>, fields: &JsonValue)
    ensures
        final(out).deep_view() == old(out).deep_view() + self_entries(fields@),
{
    let ghost base = out.deep_view();
    match fields {
        JsonValue::Object(pairs) => {
            proof {
                lemma_object_view(*pairs);
            }
            let n = pairs.len();
            let mut i: usize = 0;
            while i < n
                invariant
                    n == pairs.len(),
                    i <= n,
                    fields@ == JsonSpec::Object(pairs_view(pairs@)),
                    out.deep_view() == base + self_entries(fields@).take(i as int),
                decreases n - i,
            {
                let name = sanitize_name(&pairs[i].0);
                let mut f = name.clone();
                f.append(":");
                f.append(name.as_str());
                proof {
                    assert(f@ == self_entry(pairs_view(pairs@)[i as int]));
                }
                let ghost prev_dv = out.deep_view();
                out.push(f);
                proof {
                    assert(out.deep_view() =~~= prev_dv.push(
                        self_entry(pairs_view(pairs@)[i as int]),
                    ));
                    assert(out.deep_view() =~~= base + self_entries(fields@).take(i + 1));
                }
                i = i + 1;
            }
            proof {
                assert(self_entries(fields@).take(n as int) =~= self_entries(fields@));
            }
        },
        _ => {
            proof {
                assert(out.deep_view() =~= base + self_entries(fields@));
            }
        },
    }
}

/// Renders the payload assignments of a field map into `out`.
fn push_tojson_entries(out: &mut Vec<String>, fields: &JsonValue)
    ensures
        final(out).deep_view() == old(out).deep_view() + tojson_entries(fields@),
{
    let ghost base = out.deep_view();
    match fields {
        JsonValue::Object(pairs) => {
            proof {
                lemma_object_view(*pairs);
            }
            let n = pairs.len();
            let mut i: usize = 0;
            while i < n
                invariant
                    n == pairs.len(),
                    i <= n,
                    fields@ == JsonSpec::Object(pairs_view(pairs@)),
                    out.deep_view() == base + tojson_entries(fields@).take(i as int),
                decreases n - i,
            {
                let wire = strip_stars(&pairs[i].0);
                let name = sanitize_name(&pairs[i].0);
                let mut f = String::from_str("to_json[\"arguments\"][\"");
                f.append(wire.as_str());
                f.append("\"] = self.");
                f.append(name.as_str());
                f.append(".clone().into();");
                proof {
                    assert(f@ == tojson_entry(pairs_view(pairs@)[i as int]));
                }
                let ghost prev_dv = out.deep_view();
                out.push(f);
                proof {
                    assert(out.deep_view() =~~= prev_dv.push(
                        tojson_entry(pairs_view(pairs@)[i as int]),
                    ));
                    assert(out.deep_view() =~~= base + tojson_entries(fields@).take(i + 1));
                }
                i = i + 1;
            }
            proof {
                assert(tojson_entries(fields@).take(n as int) =~= tojson_entries(fields@));
            }
        },
        _ => {
            proof {
                assert(out.deep_view() =~= base + tojson_entries(fields@));
            }
        },
    }
}

/// The response type a command's return specification declares: for an
/// absent specification the command's own sanitized name, for a scalar
/// name that name sanitized, for a one-element list of a name that name
/// as written; any other shape is unrecognized.
pub open spec fn returns_name(ret: JsonSpec, cmd: Seq<char>) -> Option<Seq<char>> {
    match ret {
        JsonSpec::Null => Some(sanitize_spec(cmd)),
        JsonSpec::Text(s) => Some(sanitize_spec(s)),
        JsonSpec::Array(items) => if items.len() == 1 && items[0] is Text {
            Some(items[0]->Text_0)
        } else {
            None
        },
        _ => None,
    }
}

/// The declaration text a command construct renders to: the argument
/// bundle, its constructor, the request-building `to_json` wrapper keyed
/// by the wire name, and the response-decoding contract for the resolved
/// return type.
pub open spec fn command_rust_spec(
    name: Seq<char>,
    fields: JsonSpec,
    gen: JsonSpec,
    n2: Seq<char>,
) -> Seq<char> {
    let genfield: Seq<Seq<char>> = if gen is Null {
        Seq::empty()
    } else {
        seq!["gen: bool"@]
    };
    let geninit: Seq<Seq<char>> = if gen is Null {
        Seq::empty()
    } else {
        seq!["gen: gen"@]
    };
    "\n        #[derive(Debug)]\n        pub struct "@ + sanitize_spec(name) + " {\n            "@
        + join_seqs(struct_entries(fields) + genfield, ","@)
        + "\n        }\n        impl "@ + sanitize_spec(name)
        + " {\n            pub fn new("@ + join_seqs(input_entries(fields) + genfield, ","@)
        + ")->"@ + sanitize_spec(name) + "{\n                "@ + sanitize_spec(name)
        + "{\n                    "@ + join_seqs(self_entries(fields) + geninit, ","@)
        + "\n                }\n            }\n        }\n        impl QemuCmd for "@
        + sanitize_spec(name)
        + " {\n            fn to_json(&self)->String{\n                let mut to_json = json::Value::new_object();\n                to_json[\"execute\"] = \""@
        + name
        + "\".into();\n                "@ + join_seqs(tojson_entries(fields), "\n"@)
        + "\n                to_json.dump()\n            }\n        }\n        "@
        + "\n                        fn parse_qemu_response(&self, response: &String) ->\n                        rustc_json::DecodeResult<"@
        + n2
        + ">{\n                        rustc_json::decode(&response)\n                        }\n                        "@
}

impl Command {
    /// One argument-bundle declaration, a constructor, a request-building
    /// wrapper whose payload keys are the original wire names, and a
    /// response-decoding contract for the declared or inferred return
    /// type.  A return specification that is neither absent, a scalar
    /// name, nor a one-element list of a name is unrecognized: emission
    /// for the construct is skipped with an error naming the command.
    pub fn to_rust_string(self) -> (r: Result<String, SchemaError>)
        ensures
            match returns_name(self.returns@, self.name@) {
                Some(n2) => r matches Ok(out) && out@ == command_rust_spec(
                    self.name@,
                    self.fields@,
                    self.gen@,
                    n2,
                ),
                None => r matches Err(e) && (e
                    matches SchemaError::UnrecognizedReturnShape { fragment } && fragment@
                    == self.name@),
            },
    {
        let n2 = match &self.returns {
            JsonValue::Null => sanitize_name(&self.name),
            JsonValue::Text(s) => sanitize_name(s),
            JsonValue::Array(items) => {
                proof {
                    lemma_array_view(*items);
                }
                if items.len() == 1 {
                    match &items[0] {
                        JsonValue::Text(t) => t.clone(),
                        _ => {
                            return Err(
                                SchemaError::UnrecognizedReturnShape {
                                    fragment: self.name.clone(),
                                },
                            );
                        },
                    }
                } else {
                    return Err(
                        SchemaError::UnrecognizedReturnShape { fragment: self.name.clone() },
                    );
                }
            },
            _ => {
                return Err(SchemaError::UnrecognizedReturnShape { fragment: self.name.clone() });
            },
        };
        let mut struct_fields: Vec<String> = Vec::new();
        let mut impl_input: Vec<String> = Vec::new();
        let mut impl_fields: Vec<String> = Vec::new();
        let mut to_json: Vec<String> = Vec::new();
        proof {
            assert(struct_fields.deep_view() =~= Seq::<Seq<char>>::empty());
            assert(impl_input.deep_view() =~= Seq::<Seq<char>>::empty());
            assert(impl_fields.deep_view() =~= Seq::<Seq<char>>::empty());
            assert(to_json.deep_view() =~= Seq::<Seq<char>>::empty());
        }
        push_struct_entries(&mut struct_fields, &self.fields);
        push_input_entries(&mut impl_input, &self.fields);
        push_self_entries(&mut impl_fields, &self.fields);
        push_tojson_entries(&mut to_json, &self.fields);
        if !self.gen.is_null() {
            struct_fields.push(String::from_str("gen: bool"));
            impl_input.push(String::from_str("gen: bool"));
            impl_fields.push(String::from_str("gen: gen"));
        }
        let ghost genfield: Seq<Seq<char>> = if self.gen@ is Null {
            Seq::empty()
        } else {
            seq!["gen: bool"@]
        };
        let ghost geninit: Seq<Seq<char>> = if self.gen@ is Null {
            Seq::empty()
        } else {
            seq!["gen: gen"@]
        };
        proof {
            assert(struct_fields.deep_view() =~~= struct_entries(self.fields@) + genfield);
            assert(impl_input.deep_view() =~~= input_entries(self.fields@) + genfield);
            assert(impl_fields.deep_view() =~~= self_entries(self.fields@) + geninit);
            assert(to_json.deep_view() =~~= tojson_entries(self.fields@));
        }
        let name = sanitize_name(&self.name);
        let mut out = String::from_str("\n        #[derive(Debug)]\n        pub struct ");
        out.append(name.as_str());
        out.append(" {\n            ");
        let j1 = join_strings(&struct_fields, ",");
        out.append(j1.as_str());
        out.append("\n        }\n        impl ");
        out.append(name.as_str());
        out.append(" {\n            pub fn new(");
        let j2 = join_strings(&impl_input, ",");
        out.append(j2.as_str());
        out.append(")->");
        out.append(name.as_str());
        out.append("{\n                ");
        out.append(name.as_str());
        out.append("{\n                    ");
        let j3 = join_strings(&impl_fields, ",");
        out.append(j3.as_str());
        out.append("\n                }\n            }\n        }\n        impl QemuCmd for ");
        out.append(name.as_str());
        out.append(
            " {\n            fn to_json(&self)->String{\n                let mut to_json = json::Value::new_object();\n                to_json[\"execute\"] = \"",
        );
        out.append(self.name.as_str());
        out.append("\".into();\n                ");
        let j4 = join_strings(&to_json, "\n");
        out.append(j4.as_str());
        out.append("\n                to_json.dump()\n            }\n        }\n        ");
        out.append(
            "\n                        fn parse_qemu_response(&self, response: &String) ->\n                        rustc_json::DecodeResult<",
        );
        out.append(n2.as_str());
        out.append(
            ">{\n                        rustc_json::decode(&response)\n                        }\n                        ",
        );
        Ok(out)
    }
}

/// The member lines an enumeration's data array contributes: the
/// sanitized name of each text member, in order; members that are no
/// text atoms are passed over.
pub open spec fn enum_entries(items: Seq<JsonSpec>) -> Seq<Seq<char>>
    decreases items.len(),
{
    if items.len() == 0 {
        Seq::empty()
    } else {
        let head = items[0];
        let rest = enum_entries(items.drop_first());
        if head is Text {
            seq![sanitize_spec(head->Text_0)] + rest
        } else {
            rest
        }
    }
}

/// The members of an enumeration's data tree; nothing when the data is
/// no array.
pub open spec fn enum_members(fields: JsonSpec) -> Seq<Seq<char>> {
    match fields {
        JsonSpec::Array(items) => enum_entries(items),
        _ => Seq::empty(),
    }
}

/// The declaration text an enum construct renders to.
pub open spec fn enum_rust_spec(name: Seq<char>, fields: JsonSpec) -> Seq<char> {
    "\n            #[derive(Debug,RustcDecodable)]\n            pub enum "@ + sanitize_spec(name)
        + " {\n                "@ + join_seqs(enum_members(fields), ","@)
        + "\n            }\n            "@
}

/// Splitting the member scan after `i` elements: the members of the whole
/// list are those of the first `i` elements followed by those of the
/// rest.
proof fn lemma_enum_entries_split(items: Seq<JsonSpec>, i: int)
    requires
        0 <= i <= items.len(),
    ensures
        enum_entries(items) == enum_entries(items.take(i)) + enum_entries(items.skip(i)),
    decreases i,
{
    if i == 0 {
        assert(items.take(0) =~= Seq::<JsonSpec>::empty());
        assert(items.skip(0) =~= items);
        assert(enum_entries(items.take(0)) + enum_entries(items.skip(0)) =~= enum_entries(items));
    } else {
        let head = items[0];
        lemma_enum_entries_split(items.drop_first(), i - 1);
        assert(items.take(i).drop_first() =~= items.drop_first().take(i - 1));
        assert(items.skip(i) =~= items.drop_first().skip(i - 1));
        if head is Text {
            assert(enum_entries(items.take(i)) =~= seq![sanitize_spec(head->Text_0)]
                + enum_entries(items.drop_first().take(i - 1)));
            assert(enum_entries(items) =~= enum_entries(items.take(i)) + enum_entries(
                items.skip(i),
            ));
        } else {
            assert(enum_entries(items.take(i)) =~= enum_entries(items.drop_first().take(i - 1)));
            assert(enum_entries(items) =~= enum_entries(items.take(i)) + enum_entries(
                items.skip(i),
            ));
        }
    }
}

impl Enum {
    /// One enumeration declaration whose members are the sanitized member
    /// names, in original order.
    pub fn to_rust_string(self) -> (r: String)
        ensures
            r@ == enum_rust_spec(self.name@, self.fields@),
    {
        let mut members: Vec<String> = Vec::new();
        match &self.fields {
            JsonValue::Array(items) => {
                proof {
                    lemma_array_view(*items);
                }
                let n = items.len();
                let mut i: usize = 0;
                while i < n
                    invariant
                        n == items.len(),
                        i <= n,
                        self.fields@ == JsonSpec::Array(items_view(items@)),
                        members.deep_view() == enum_entries(items_view(items@).take(i as int)),
                    decreases n - i,
                {
                    let ghost gitems = items_view(items@);
                    match &items[i] {
                        JsonValue::Text(s) => {
                            let name = sanitize_name(s);
                            members.push(name);
                        },
                        _ => {},
                    }
                    proof {
                        lemma_enum_entries_split(gitems.take(i + 1), i as int);
                        assert(gitems.take(i + 1).take(i as int) =~= gitems.take(i as int));
                        assert(gitems.take(i + 1).skip(i as int) =~= seq![gitems[i as int]]);
                        let single = seq![gitems[i as int]];
                        assert(single.drop_first() =~= Seq::<JsonSpec>::empty());
                        assert(enum_entries(Seq::<JsonSpec>::empty()) =~= Seq::<Seq<char>>::empty());
                        if gitems[i as int] is Text {
                            assert(enum_entries(single) =~~= seq![
                                sanitize_spec(gitems[i as int]->Text_0)]);
                        } else {
                            assert(enum_entries(single) =~~= Seq::<Seq<char>>::empty());
                        }
                        assert(members.deep_view() =~~= enum_entries(gitems.take(i + 1)));
                    }
                    i = i + 1;
                }
                proof {
                    assert(items_view(items@).take(n as int) =~= items_view(items@));
                }
            },
            _ => {
                proof {
                    assert(members.deep_view() =~= enum_members(self.fields@));
                }
            },
        }
        let mut out = String::from_str(
            "\n            #[derive(Debug,RustcDecodable)]\n            pub enum ",
        );
        let name = sanitize_name(&self.name);
        out.append(name.as_str());
        out.append(" {\n                ");
        let joined = join_strings(&members, ",");
        out.append(joined.as_str());
        out.append("\n            }\n            ");
        out
    }
}

} // verus!
