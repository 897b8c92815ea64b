//! The serde-flavoured code generator: renders parsed schema definitions
//! into declarations that derive serialization, and the full pipeline
//! from raw schema text to generated source.

use vstd::prelude::*;
use heck::CamelCase;
use crate::classify::{classify, classify_spec, ConstructKind};
use crate::error::{SchemaError, describe_spec};
use crate::names::{replacement_spec, replacement_for, reserved_words_spec, reserved_words};
use crate::normalize::{normalize_element, normalize_spec};
use crate::parse::{parse_element, spec_parse_text, skip_ws};
use crate::sectionize::{find_element, comment_block, scan_element, has_brace, section_body,
    lemma_scan_bounds};
use crate::strutil::{push_char, str_eq};
use crate::value::{JsonValue, JsonSpec, json_key, json_has_key, pairs_view, items_view,
    lemma_object_view, lemma_array_view, lemma_lookup_absent};

verus! {

/// The camel-case image of a name.
pub uninterp spec fn camel_of(s: Seq<char>) -> Seq<char>;

/// Relies on heck's `CamelCase::to_camel_case`: the conversion reads
/// nothing but the input characters, and an empty name stays empty.
#[verifier::external_body]
fn to_camel(s: &str) -> (r: String)
    ensures
        r@ == camel_of(s@),
        s@.len() == 0 ==> r@.len() == 0,
{
    s.to_camel_case()
}

/// A schema field name as the wire identifier the generated code uses:
/// the optionality sigil dropped, hyphens turned into underscores.
pub open spec fn wire_ident(s: Seq<char>) -> Seq<char>
    decreases s.len(),
{
    if s.len() == 0 {
        Seq::empty()
    } else {
        wire_ident(s.drop_last()) + (if s.last() == '*' {
            Seq::<char>::empty()
        } else if s.last() == '-' {
            seq!['_']
        } else {
            seq![s.last()]
        })
    }
}

/// Executable mirror of `wire_ident`.
fn wire_name(s: &String) -> (r: String)
    ensures
        r@ == wire_ident(s@),
{
    let v = s.as_str();
    let n = v.unicode_len();
    let mut buf = String::new();
    let mut i: usize = 0;
    while i < n
        invariant
            n == v@.len(),
            i <= n,
            buf@ == wire_ident(v@.take(i as int)),
        decreases n - i,
    {
        let c = v.get_char(i);
        proof {
            assert(v@.take(i + 1).drop_last() =~= v@.take(i as int));
        }
        if c == '-' {
            push_char(&mut buf, '_');
        } else if c != '*' {
            push_char(&mut buf, c);
        }
        proof {
            assert(buf@ =~= wire_ident(v@.take(i + 1)));
        }
        i = i + 1;
    }
    proof {
        assert(v@.take(n as int) =~= v@);
    }
    buf
}

/// A command name with hyphens turned into underscores, everything else
/// kept.
pub open spec fn dash_ident(s: Seq<char>) -> Seq<char> {
    s.map_values(
        |c: char|
            if c == '-' {
                '_'
            } else {
                c
            },
    )
}

/// Executable mirror of `dash_ident`.
fn dash_name(s: &String) -> (r: String)
    ensures
        r@ == dash_ident(s@),
{
    let v = s.as_str();
    let n = v.unicode_len();
    let mut buf = String::new();
    let mut i: usize = 0;
    while i < n
        invariant
            n == v@.len(),
            i <= n,
            buf@ == v@.take(i as int).map_values(
                |c: char|
                    if c == '-' {
                        '_'
                    } else {
                        c
                    },
            ),
        decreases n - i,
    {
        let c = v.get_char(i);
        if c == '-' {
            push_char(&mut buf, '_');
        } else {
            push_char(&mut buf, c);
        }
        proof {
            assert(buf@ =~= v@.take(i + 1).map_values(
                |ch: char|
                    if ch == '-' {
                        '_'
                    } else {
                        ch
                    },
            ));
        }
        i = i + 1;
    }
    proof {
        assert(v@.take(n as int) =~= v@);
    }
    buf
}

/// The target scalar type this generator maps a field's value to; the
/// dialect's `int` maps to a signed integer here.
pub open spec fn rust_type_codegen(v: JsonSpec) -> Seq<char> {
    match v {
        JsonSpec::Text(s) => if s == "uint64"@ {
            "u64"@
        } else if s == "uint32"@ {
            "u32"@
        } else if s == "bool"@ {
            "bool"@
        } else if s == "int"@ {
            "i64"@
        } else if s == "str"@ {
            "String"@
        } else {
            "String"@
        },
        JsonSpec::Number(_) => "f64"@,
        JsonSpec::Boolean(_) => "bool"@,
        JsonSpec::Null => "None"@,
        JsonSpec::Object(_) => "struct"@,
        JsonSpec::Array(_) => "Vec<String>"@,
    }
}

/// Maps a field's value tree to this generator's target type, as
/// `rust_type_codegen` describes; total over every tree shape.
pub fn json_val_to_rust(input: &JsonValue) -> (r: String)
    ensures
        r@ == rust_type_codegen(input@),
{
    match input {
        JsonValue::Text(s) => {
            if str_eq(s.as_str(), "uint64") {
                String::from_str("u64")
            } else if str_eq(s.as_str(), "uint32") {
                String::from_str("u32")
            } else if str_eq(s.as_str(), "bool") {
                String::from_str("bool")
            } else if str_eq(s.as_str(), "int") {
                String::from_str("i64")
            } else {
                String::from_str("String")
            }
        },
        JsonValue::Number(_) => String::from_str("f64"),
        JsonValue::Boolean(_) => String::from_str("bool"),
        JsonValue::Null => String::from_str("None"),
        JsonValue::Object(_) => String::from_str("struct"),
        JsonValue::Array(_) => String::from_str("Vec<String>"),
    }
}

/// The parts written one after another, with nothing between them.
pub open spec fn concat_seqs(parts: Seq<Seq<char>>) -> Seq<char>
    decreases parts.len(),
{
    if parts.len() == 0 {
        Seq::empty()
    } else {
        concat_seqs(parts.drop_last()) + parts.last()
    }
}

/// One rendered field of an aggregate declaration: a reserved wire name
/// is renamed and keeps its original spelling in a serde annotation.
pub open spec fn sfield(p: (Seq<char>, JsonSpec)) -> Seq<char> {
    let n = wire_ident(p.0);
    match reserved_words_spec(n) {
        Some(renamed) => "#[serde(rename = \""@ + n + "\")]\n\tpub "@ + renamed + ": "@
            + rust_type_codegen(p.1) + ","@,
        None => "\tpub "@ + n + ": "@ + rust_type_codegen(p.1) + ","@,
    }
}

/// The rendered fields of an object's entry list, in order.
pub open spec fn sfields(pairs: Seq<(Seq<char>, JsonSpec)>) -> Seq<Seq<char>> {
    Seq::new(
        pairs.len(),
        |i: int|
            if 0 <= i < pairs.len() {
                sfield(pairs[i])
            } else {
                Seq::empty()
            },
    )
}

/// Appends the rendered fields of an object's entries to `out`.
fn append_sfields(out: &mut String, pairs: &Vec<(String, JsonValue)>)
    ensures
        final(out)@ == old(out)@ + concat_seqs(sfields(pairs_view(pairs@))),
{
    let ghost base = out@;
    let ghost gpairs = pairs_view(pairs@);
    let n = pairs.len();
    let mut i: usize = 0;
    while i < n
        invariant
            n == pairs.len(),
            i <= n,
            gpairs == pairs_view(pairs@),
            out@ == base + concat_seqs(sfields(gpairs).take(i as int)),
        decreases n - i,
    {
        let nm = wire_name(&pairs[i].0);
        let t = json_val_to_rust(&pairs[i].1);
        match reserved_words(&nm) {
            Some(renamed) => {
                out.append("#[serde(rename = \"");
                out.append(nm.as_str());
                out.append("\")]\n\tpub ");
                out.append(renamed.as_str());
                out.append(": ");
                out.append(t.as_str());
                out.append(",");
            },
            None => {
                out.append("\tpub ");
                out.append(nm.as_str());
                out.append(": ");
                out.append(t.as_str());
                out.append(",");
            },
        }
        proof {
            assert(sfields(gpairs).take(i + 1).drop_last() =~= sfields(gpairs).take(i as int));
            assert(out@ =~= base + concat_seqs(sfields(gpairs).take(i + 1)));
        }
        i = i + 1;
    }
    proof {
        assert(sfields(gpairs).take(n as int) =~= sfields(gpairs));
    }
}

/// One rendered case of a union declaration.
pub open spec fn ufield(p: (Seq<char>, JsonSpec)) -> Seq<char> {
    let n = wire_ident(p.0);
    match reserved_words_spec(n) {
        Some(renamed) => "#[serde(rename = \""@ + n + "\")]\n\t"@ + renamed + "("@
            + rust_type_codegen(p.1) + "),"@,
        None => "\t"@ + n + "("@ + rust_type_codegen(p.1) + "),"@,
    }
}

/// The rendered cases of a union's entry list, in order.
pub open spec fn ufields(pairs: Seq<(Seq<char>, JsonSpec)>) -> Seq<Seq<char>> {
    Seq::new(
        pairs.len(),
        |i: int|
            if 0 <= i < pairs.len() {
                ufield(pairs[i])
            } else {
                Seq::empty()
            },
    )
}

/// Appends the rendered cases of a union's entries to `out`.
fn append_ufields(out: &mut String, pairs: &Vec<(String, JsonValue)>)
    ensures
        final(out)@ == old(out)@ + concat_seqs(ufields(pairs_view(pairs@))),
{
    let ghost base = out@;
    let ghost gpairs = pairs_view(pairs@);
    let n = pairs.len();
    let mut i: usize = 0;
    while i < n
        invariant
            n == pairs.len(),
            i <= n,
            gpairs == pairs_view(pairs@),
            out@ == base + concat_seqs(ufields(gpairs).take(i as int)),
        decreases n - i,
    {
        let nm = wire_name(&pairs[i].0);
        let t = json_val_to_rust(&pairs[i].1);
        match reserved_words(&nm) {
            Some(renamed) => {
                out.append("#[serde(rename = \"");
                out.append(nm.as_str());
                out.append("\")]\n\t");
                out.append(renamed.as_str());
                out.append("(");
                out.append(t.as_str());
                out.append("),");
            },
            None => {
                out.append("\t");
                out.append(nm.as_str());
                out.append("(");
                out.append(t.as_str());
                out.append("),");
            },
        }
        proof {
            assert(ufields(gpairs).take(i + 1).drop_last() =~= ufields(gpairs).take(i as int));
            assert(out@ =~= base + concat_seqs(ufields(gpairs).take(i + 1)));
        }
        i = i + 1;
    }
    proof {
        assert(ufields(gpairs).take(n as int) =~= ufields(gpairs));
    }
}

/// A printer failure: a mandatory key absent or of the wrong shape, or a
/// return specification of an unrecognized shape.
pub enum PrintErr {
    Missing(Seq<char>),
    BadReturn(Seq<char>),
}

/// The diagnostic text a printer failure renders to.
pub open spec fn print_err_msg(e: PrintErr) -> Seq<char> {
    match e {
        PrintErr::Missing(f) => "missing required key: "@ + f,
        PrintErr::BadReturn(f) => "unrecognized return shape: "@ + f,
    }
}

/// True when the exec error `e` stands for the spec failure `pe`.
pub open spec fn err_matches(e: SchemaError, pe: PrintErr) -> bool {
    &&& describe_spec(e) == print_err_msg(pe)
    &&& e is MissingRequiredKey <==> pe is Missing
    &&& e is UnrecognizedReturnShape <==> pe is BadReturn
}

/// What `print_struct` produces: a serde-deriving aggregate declaration,
/// nothing for the dialect's text wrapper, or a failure.
pub open spec fn print_struct_spec(v: JsonSpec) -> Result<Seq<char>, PrintErr> {
    if !(json_key(v, "struct"@) is Text) {
        Err(PrintErr::Missing("struct"@))
    } else {
        let name = json_key(v, "struct"@)->Text_0;
        if name == "String"@ {
            Ok(Seq::empty())
        } else if !(json_key(v, "data"@) is Object) {
            Err(PrintErr::Missing("data: "@ + crate::value::json_text(json_key(v, "data"@))))
        } else {
            Ok(
                "#[derive(Debug, Deserialize, Serialize)]"@
                    + "#[serde(rename_all = \"kebab-case\")]"@ + "pub struct "@ + name + " {"@
                    + concat_seqs(sfields(json_key(v, "data"@)->Object_0)) + "}}"@,
            )
        }
    }
}

/// Renders one struct definition with serde derives; the dialect's text
/// wrapper (a struct named `String`) is skipped.
pub fn print_struct(v: &JsonValue) -> (r: Result<String, SchemaError>)
    ensures
        match r {
            Ok(out) => print_struct_spec(v@) == Ok::<Seq<char>, PrintErr>(out@),
            Err(e) => print_struct_spec(v@) matches Err(pe) && err_matches(e, pe),
        },
{
    let name = match crate::classify::text_key(v, "struct") {
        Some(t) => t,
        None => {
            return Err(SchemaError::MissingRequiredKey { fragment: String::from_str("struct") });
        },
    };
    if str_eq(name.as_str(), "String") {
        return Ok(String::new());
    }
    let data = crate::classify::key_or_null(v, "data");
    match &data {
        JsonValue::Object(pairs) => {
            proof {
                lemma_object_view(*pairs);
            }
            let mut out = String::from_str("#[derive(Debug, Deserialize, Serialize)]");
            out.append("#[serde(rename_all = \"kebab-case\")]");
            out.append("pub struct ");
            out.append(name.as_str());
            out.append(" {");
            append_sfields(&mut out, pairs);
            out.append("}}");
            Ok(out)
        },
        _ => {
            let mut frag = String::from_str("data: ");
            let rendered = data.to_text();
            frag.append(rendered.as_str());
            Err(SchemaError::MissingRequiredKey { fragment: frag })
        },
    }
}

/// What `print_event` produces: a serde-deriving aggregate declaration
/// carrying only the event's payload fields, or a failure.
pub open spec fn print_event_spec(v: JsonSpec) -> Result<Seq<char>, PrintErr> {
    if !(json_key(v, "event"@) is Text) {
        Err(PrintErr::Missing("event"@))
    } else if !(json_key(v, "data"@) is Object) {
        Err(PrintErr::Missing("data: "@ + crate::value::json_text(json_key(v, "data"@))))
    } else {
        Ok(
            "#[derive(Debug, Deserialize, Serialize)]"@ + "#[serde(rename_all = \"kebab-case\")]"@
                + "pub struct "@ + json_key(v, "event"@)->Text_0 + " {"@ + concat_seqs(
                sfields(json_key(v, "data"@)->Object_0),
            ) + "}}"@,
        )
    }
}

/// Renders one event definition: an aggregate of the payload fields.
pub fn print_event(v: &JsonValue) -> (r: Result<String, SchemaError>)
    ensures
        match r {
            Ok(out) => print_event_spec(v@) == Ok::<Seq<char>, PrintErr>(out@),
            Err(e) => print_event_spec(v@) matches Err(pe) && err_matches(e, pe),
        },
{
    let name = match crate::classify::text_key(v, "event") {
        Some(t) => t,
        None => {
            return Err(SchemaError::MissingRequiredKey { fragment: String::from_str("event") });
        },
    };
    let data = crate::classify::key_or_null(v, "data");
    match &data {
        JsonValue::Object(pairs) => {
            proof {
                lemma_object_view(*pairs);
            }
            let mut out = String::from_str("#[derive(Debug, Deserialize, Serialize)]");
            out.append("#[serde(rename_all = \"kebab-case\")]");
            out.append("pub struct ");
            out.append(name.as_str());
            out.append(" {");
            append_sfields(&mut out, pairs);
            out.append("}}");
            Ok(out)
        },
        _ => {
            let mut frag = String::from_str("data: ");
            let rendered = data.to_text();
            frag.append(rendered.as_str());
            Err(SchemaError::MissingRequiredKey { fragment: frag })
        },
    }
}

/// What `print_union` produces: a serde-deriving tagged-variant
/// declaration with one case per data entry, or a failure.
pub open spec fn print_union_spec(v: JsonSpec) -> Result<Seq<char>, PrintErr> {
    if !(json_key(v, "union"@) is Text) {
        Err(PrintErr::Missing("union"@))
    } else if !(json_key(v, "data"@) is Object) {
        Err(PrintErr::Missing("data: "@ + crate::value::json_text(json_key(v, "data"@))))
    } else {
        Ok(
            "#[derive(Debug, Deserialize, Serialize)]"@ + "pub enum "@
                + json_key(v, "union"@)->Text_0 + " {"@ + concat_seqs(
                ufields(json_key(v, "data"@)->Object_0),
            ) + "}}"@,
        )
    }
}

/// Renders one union definition: an enum with one case per entry.
pub fn print_union(v: &JsonValue) -> (r: Result<String, SchemaError>)
    ensures
        match r {
            Ok(out) => print_union_spec(v@) == Ok::<Seq<char>, PrintErr>(out@),
            Err(e) => print_union_spec(v@) matches Err(pe) && err_matches(e, pe),
        },
{
    let name = match crate::classify::text_key(v, "union") {
        Some(t) => t,
        None => {
            return Err(SchemaError::MissingRequiredKey { fragment: String::from_str("union") });
        },
    };
    let data = crate::classify::key_or_null(v, "data");
    match &data {
        JsonValue::Object(pairs) => {
            proof {
                lemma_object_view(*pairs);
            }
            let mut out = String::from_str("#[derive(Debug, Deserialize, Serialize)]");
            out.append("pub enum ");
            out.append(name.as_str());
            out.append(" {");
            append_ufields(&mut out, pairs);
            out.append("}}");
            Ok(out)
        },
        _ => {
            let mut frag = String::from_str("data: ");
            let rendered = data.to_text();
            frag.append(rendered.as_str());
            Err(SchemaError::MissingRequiredKey { fragment: frag })
        },
    }
}

/// One rendered member of an enumeration: a member in the reserved-word
/// table is replaced, camel-cased, and keeps its original spelling in a
/// serde annotation; any other member is camel-cased as written.
pub open spec fn efield(s: Seq<char>) -> Seq<char> {
    match replacement_spec(s) {
        Some(replaced) => "\t#[serde(rename = \""@ + s + "\")]\n\t"@ + camel_of(replaced) + ","@,
        None => "\t"@ + camel_of(s) + ","@,
    }
}

/// The rendered members of an enumeration's item list; meaningful when
/// every item is a text atom.
pub open spec fn efields(items: Seq<JsonSpec>) -> Seq<Seq<char>> {
    Seq::new(
        items.len(),
        |i: int|
            if 0 <= i < items.len() && items[i] is Text {
                efield(items[i]->Text_0)
            } else {
                Seq::empty()
            },
    )
}

/// True when every member of the list is a text atom.
pub open spec fn all_text(items: Seq<JsonSpec>) -> bool {
    forall|i: int| 0 <= i < items.len() ==> items[i] is Text
}

/// What `print_enum` produces: a serde-deriving enumeration whose
/// members are camel-cased, or a failure when the name or a member is no
/// text or the data is no array.
pub open spec fn print_enum_spec(v: JsonSpec) -> Result<Seq<char>, PrintErr> {
    if !(json_key(v, "enum"@) is Text) {
        Err(PrintErr::Missing("enum"@))
    } else if !(json_key(v, "data"@) is Array) || !all_text(json_key(v, "data"@)->Array_0) {
        Err(PrintErr::Missing("data: "@ + crate::value::json_text(json_key(v, "data"@))))
    } else {
        Ok(
            "#[derive(Debug, Deserialize, Serialize)]"@ + "#[serde(rename_all = \"kebab-case\")]"@
                + "pub enum "@ + json_key(v, "enum"@)->Text_0 + " {"@ + concat_seqs(
                efields(json_key(v, "data"@)->Array_0),
            ) + "}}"@,
        )
    }
}

/// Renders one enumeration definition; members the reserved-word table
/// renames keep their wire spelling in a serde annotation.
pub fn print_enum(v: &JsonValue) -> (r: Result<String, SchemaError>)
    ensures
        match r {
            Ok(out) => print_enum_spec(v@) == Ok::<Seq<char>, PrintErr>(out@),
            Err(e) => print_enum_spec(v@) matches Err(pe) && err_matches(e, pe),
        },
{
    let name = match crate::classify::text_key(v, "enum") {
        Some(t) => t,
        None => {
            return Err(SchemaError::MissingRequiredKey { fragment: String::from_str("enum") });
        },
    };
    let data = crate::classify::key_or_null(v, "data");
    match &data {
        JsonValue::Array(items) => {
            proof {
                lemma_array_view(*items);
            }
            let ghost gitems = items_view(items@);
            let mut body = String::new();
            let n = items.len();
            let mut i: usize = 0;
            while i < n
                invariant
                    n == items.len(),
                    i <= n,
                    gitems == items_view(items@),
                    json_key(v@, "enum"@) is Text,
                    json_key(v@, "data"@) == JsonSpec::Array(gitems),
                    data@ == JsonSpec::Array(gitems),
                    forall|j: int| 0 <= j < i ==> #[trigger] gitems[j] is Text,
                    body@ == concat_seqs(efields(gitems).take(i as int)),
                decreases n - i,
            {
                match &items[i] {
                    JsonValue::Text(f) => {
                        match replacement_for(f.as_str()) {
                            Some(replaced) => {
                                body.append("\t#[serde(rename = \"");
                                body.append(f.as_str());
                                body.append("\")]\n\t");
                                let cc = to_camel(replaced.as_str());
                                body.append(cc.as_str());
                                body.append(",");
                            },
                            None => {
                                body.append("\t");
                                let cc = to_camel(f.as_str());
                                body.append(cc.as_str());
                                body.append(",");
                            },
                        }
                        proof {
                            assert(efields(gitems).take(i + 1).drop_last() =~= efields(
                                gitems,
                            ).take(i as int));
                            assert(body@ =~= concat_seqs(efields(gitems).take(i + 1)));
                        }
                    },
                    _ => {
                        proof {
                            assert(!(gitems[i as int] is Text));
                            assert(!all_text(gitems));
                        }
                        let mut frag = String::from_str("data: ");
                        let rendered = data.to_text();
                        frag.append(rendered.as_str());
                        return Err(SchemaError::MissingRequiredKey { fragment: frag });
                    },
                }
                i = i + 1;
            }
            proof {
                assert(efields(gitems).take(n as int) =~= efields(gitems));
            }
            let mut out = String::from_str("#[derive(Debug, Deserialize, Serialize)]");
            out.append("#[serde(rename_all = \"kebab-case\")]");
            out.append("pub enum ");
            out.append(name.as_str());
            out.append(" {");
            out.append(body.as_str());
            out.append("}}");
            Ok(out)
        },
        _ => {
            let mut frag = String::from_str("data: ");
            let rendered = data.to_text();
            frag.append(rendered.as_str());
            Err(SchemaError::MissingRequiredKey { fragment: frag })
        },
    }
}

/// One argument of a generated command function: the wire identifier,
/// renamed when reserved, with its target type.
pub open spec fn cmd_arg(p: (Seq<char>, JsonSpec)) -> Seq<char> {
    let n = wire_ident(p.0);
    match reserved_words_spec(n) {
        Some(renamed) => renamed + ": "@ + rust_type_codegen(p.1),
        None => n + ": "@ + rust_type_codegen(p.1),
    }
}

/// The identifier an argument is known by inside the generated function.
pub open spec fn cmd_arg_name(p: (Seq<char>, JsonSpec)) -> Seq<char> {
    let n = wire_ident(p.0);
    match reserved_words_spec(n) {
        Some(renamed) => renamed,
        None => n,
    }
}

/// The argument list a command's field map contributes.
pub open spec fn cmd_args(pairs: Seq<(Seq<char>, JsonSpec)>) -> Seq<Seq<char>> {
    Seq::new(
        pairs.len(),
        |i: int|
            if 0 <= i < pairs.len() {
                cmd_arg(pairs[i])
            } else {
                Seq::empty()
            },
    )
}

/// The request-payload entries a command's field map contributes: the
/// original wire name, with only the optionality sigil stripped, keyed
/// back to the renamed argument identifier.
pub open spec fn cmd_json_args(pairs: Seq<(Seq<char>, JsonSpec)>) -> Seq<Seq<char>> {
    Seq::new(
        pairs.len(),
        |i: int|
            if 0 <= i < pairs.len() {
                "\""@ + crate::emit::without_stars(pairs[i].0) + "\": "@ + cmd_arg_name(
                    pairs[i],
                )
            } else {
                Seq::empty()
            },
    )
}

/// The return clause of a generated command function: `()` for an absent
/// specification, a vector of the named type for a one-element list, the
/// mapped scalar for a name; any other shape is unrecognized.
pub open spec fn cmd_return(v: JsonSpec) -> Option<Seq<char>> {
    if !json_has_key(v, "returns"@) {
        Some("->Result<(), String>"@)
    } else {
        match json_key(v, "returns"@) {
            JsonSpec::Array(items) => if items.len() == 1 && items[0] is Text {
                Some("->Result<Vec<"@ + items[0]->Text_0 + ">, String>"@)
            } else {
                None
            },
            JsonSpec::Text(s) => Some(
                "->Result<"@ + (if s == "str"@ {
                    "String"@
                } else if s == "int"@ {
                    "i64"@
                } else {
                    s
                }) + ", String>"@,
            ),
            _ => None,
        }
    }
}

/// What `print_command` produces: a callable function that builds the
/// request payload under the fixed `execute` key and the original wire
/// names, or a failure.
pub open spec fn print_command_spec(v: JsonSpec) -> Result<Seq<char>, PrintErr> {
    if !(json_key(v, "command"@) is Text) {
        Err(PrintErr::Missing("command"@))
    } else {
        let name = json_key(v, "command"@)->Text_0;
        if json_has_key(v, "data"@) && !(json_key(v, "data"@) is Object) {
            Err(PrintErr::Missing("data: "@ + crate::value::json_text(json_key(v, "data"@))))
        } else {
            let pairs: Seq<(Seq<char>, JsonSpec)> = if json_has_key(v, "data"@) {
                json_key(v, "data"@)->Object_0
            } else {
                Seq::empty()
            };
            match cmd_return(v) {
                None => Err(PrintErr::BadReturn(name)),
                Some(retpart) => Ok(
                    "pub fn "@ + dash_ident(name) + "_cmd("@ + crate::strutil::join_seqs(
                        cmd_args(pairs),
                        ","@,
                    ) + ")"@ + retpart + "{"@ + "let cmd = json!({{"@ + "\"execute\": \""@ + name
                        + "\""@ + (if cmd_json_args(pairs).len() > 0 {
                        ","@ + "\"arguments\": {{"@ + crate::strutil::join_seqs(
                            cmd_json_args(pairs),
                            ","@,
                        ) + "}}"@
                    } else {
                        Seq::empty()
                    }) + "}});"@ + "let ret = call_qemu(cmd)?;"@ + (if json_has_key(
                        v,
                        "returns"@,
                    ) {
                        "Ok(ret)"@
                    } else {
                        "Ok(())"@
                    }) + "}}"@,
                ),
            }
        }
    }
}

/// Renders one command definition: a function that builds the request
/// payload and hands it to the caller's transport.  A return
/// specification of an unrecognized shape skips the construct.
#[verifier::rlimit(60)]
pub fn print_command(v: &JsonValue) -> (r: Result<String, SchemaError>)
    ensures
        match r {
            Ok(out) => print_command_spec(v@) == Ok::<Seq<char>, PrintErr>(out@),
            Err(e) => print_command_spec(v@) matches Err(pe) && err_matches(e, pe),
        },
{
    let name = match crate::classify::text_key(v, "command") {
        Some(t) => t,
        None => {
            return Err(SchemaError::MissingRequiredKey { fragment: String::from_str("command") });
        },
    };
    let mut args: Vec<String> = Vec::new();
    let mut jargs: Vec<String> = Vec::new();
    let ghost gpairs: Seq<(Seq<char>, JsonSpec)> = if json_has_key(v@, "data"@) {
        json_key(v@, "data"@)->Object_0
    } else {
        Seq::empty()
    };
    match v.key_value("data") {
        Some(w) => match w {
            JsonValue::Object(pairs) => {
                proof {
                    lemma_object_view(*pairs);
                    assert(gpairs == pairs_view(pairs@));
                }
                let n = pairs.len();
                let mut i: usize = 0;
                while i < n
                    invariant
                        n == pairs.len(),
                        i <= n,
                        gpairs == pairs_view(pairs@),
                        args.deep_view() == cmd_args(gpairs).take(i as int),
                        jargs.deep_view() == cmd_json_args(gpairs).take(i as int),
                    decreases n - i,
                {
                    let nm = wire_name(&pairs[i].0);
                    let t = json_val_to_rust(&pairs[i].1);
                    let resolved = match reserved_words(&nm) {
                        Some(renamed) => renamed,
                        None => nm,
                    };
                    proof {
                        assert(resolved@ == cmd_arg_name(gpairs[i as int]));
                    }
                    let mut a = resolved.clone();
                    a.append(": ");
                    a.append(t.as_str());
                    let wire = crate::emit::strip_stars(&pairs[i].0);
                    let mut j = String::from_str("\"");
                    j.append(wire.as_str());
                    j.append("\": ");
                    j.append(resolved.as_str());
                    proof {
                        assert(a@ == cmd_arg(gpairs[i as int]));
                        assert(j@ == "\""@ + crate::emit::without_stars(gpairs[i as int].0)
                            + "\": "@ + cmd_arg_name(gpairs[i as int]));
                    }
                    let ghost prev_a = args.deep_view();
                    let ghost prev_j = jargs.deep_view();
                    args.push(a);
                    jargs.push(j);
                    proof {
                        assert(args.deep_view() =~~= prev_a.push(cmd_arg(gpairs[i as int])));
                        assert(args.deep_view() =~~= cmd_args(gpairs).take(i + 1));
                        assert(jargs.deep_view() =~~= prev_j.push(
                            "\""@ + crate::emit::without_stars(gpairs[i as int].0) + "\": "@
                                + cmd_arg_name(gpairs[i as int]),
                        ));
                        assert(jargs.deep_view() =~~= cmd_json_args(gpairs).take(i + 1));
                    }
                    i = i + 1;
                }
                proof {
                    assert(cmd_args(gpairs).take(n as int) =~= cmd_args(gpairs));
                    assert(cmd_json_args(gpairs).take(n as int) =~= cmd_json_args(gpairs));
                }
            },
            _ => {
                let mut frag = String::from_str("data: ");
                let rendered = w.to_text();
                frag.append(rendered.as_str());
                return Err(SchemaError::MissingRequiredKey { fragment: frag });
            },
        },
        None => {
            proof {
                match v@ {
                    JsonSpec::Object(vp) => {
                        lemma_lookup_absent(vp, "data"@);
                    },
                    _ => {},
                }
                assert(args.deep_view() =~~= cmd_args(gpairs));
                assert(jargs.deep_view() =~~= cmd_json_args(gpairs));
            }
        },
    }
    let has_returns = match v.key_value("returns") {
        Some(_) => true,
        None => false,
    };
    let retpart: String = match v.key_value("returns") {
        None => String::from_str("->Result<(), String>"),
        Some(w) => match w {
            JsonValue::Array(items) => {
                proof {
                    lemma_array_view(*items);
                }
                if items.len() == 1 {
                    match &items[0] {
                        JsonValue::Text(t) => {
                            let mut rp = String::from_str("->Result<Vec<");
                            rp.append(t.as_str());
                            rp.append(">, String>");
                            rp
                        },
                        _ => {
                            return Err(
                                SchemaError::UnrecognizedReturnShape { fragment: name.clone() },
                            );
                        },
                    }
                } else {
                    return Err(SchemaError::UnrecognizedReturnShape { fragment: name.clone() });
                }
            },
            JsonValue::Text(s) => {
                let mapped: String = if str_eq(s.as_str(), "str") {
                    String::from_str("String")
                } else if str_eq(s.as_str(), "int") {
                    String::from_str("i64")
                } else {
                    s.clone()
                };
                let mut rp = String::from_str("->Result<");
                rp.append(mapped.as_str());
                rp.append(", String>");
                rp
            },
            _ => {
                return Err(SchemaError::UnrecognizedReturnShape { fragment: name.clone() });
            },
        },
    };
    let dashed = dash_name(&name);
    let mut out = String::from_str("pub fn ");
    out.append(dashed.as_str());
    out.append("_cmd(");
    let ja = crate::strutil::join_strings(&args, ",");
    out.append(ja.as_str());
    out.append(")");
    out.append(retpart.as_str());
    out.append("{");
    out.append("let cmd = json!({{");
    out.append("\"execute\": \"");
    out.append(name.as_str());
    out.append("\"");
    if !jargs.is_empty() {
        out.append(",");
        out.append("\"arguments\": {{");
        let jj = crate::strutil::join_strings(&jargs, ",");
        out.append(jj.as_str());
        out.append("}}");
    }
    out.append("}});");
    out.append("let ret = call_qemu(cmd)?;");
    if has_returns {
        out.append("Ok(ret)");
    } else {
        out.append("Ok(())");
    }
    out.append("}}");
    proof {
        let expected = print_command_spec(v@)->Ok_0;
        assert(out@ =~= expected);
    }
    Ok(out)
}

/// The value trees of the schema's elements in order, or the diagnostic
/// of the first element that never closes or fails to parse.
pub open spec fn defs_spec(s: Seq<char>, pos: int) -> Result<Seq<JsonSpec>, Seq<char>>
    decreases s.len() - pos when 0 <= pos <= s.len()
{
    let b = section_body(s, pos);
    match scan_element(s.skip(b), 0, 0) {
        Some(e) => {
            let elem = s.skip(b).subrange(0, e);
            match spec_parse_text(normalize_spec(elem)) {
                Some(tree) => {
                    let nxt = crate::sectionize::section_next(s, pos);
                    if pos < nxt <= s.len() {
                        match defs_spec(s, nxt) {
                            Ok(rest) => Ok(seq![tree] + rest),
                            Err(m) => Err(m),
                        }
                    } else {
                        Err("structural parse error: "@ + normalize_spec(elem))
                    }
                },
                None => Err("structural parse error: "@ + normalize_spec(elem)),
            }
        },
        None => if has_brace(s, b) {
            Err("structural parse error: "@ + s.skip(b))
        } else {
            Ok(Seq::empty())
        },
    }
}

/// Extracts every element of the schema text as a parsed value tree, in
/// order: comment blocks are dropped, each element is normalized and
/// parsed.  The first unterminated or unparseable element aborts the run
/// with its diagnostic.
pub fn get_definitions(schema: &str) -> (r: Result<Vec<JsonValue>, String>)
    ensures
        match r {
            Ok(defs) => defs_spec(schema@, 0) == Ok::<Seq<JsonSpec>, Seq<char>>(
                items_view(defs@),
            ),
            Err(m) => defs_spec(schema@, 0) == Err::<Seq<JsonSpec>, Seq<char>>(m@),
        },
{
    let n = schema.unicode_len();
    let mut defs: Vec<JsonValue> = Vec::new();
    let mut pos: usize = 0;
    proof {
        assert(items_view(defs@) =~= Seq::<JsonSpec>::empty());
    }
    loop
        invariant
            pos <= n,
            n == schema@.len(),
            match defs_spec(schema@, pos as int) {
                Ok(rest) => defs_spec(schema@, 0) == Ok::<Seq<JsonSpec>, Seq<char>>(
                    items_view(defs@) + rest,
                ),
                Err(m) => defs_spec(schema@, 0) == Err::<Seq<JsonSpec>, Seq<char>>(m),
            },
        decreases n - pos,
    {
        let (_comments, body) = comment_block(schema, pos);
        let rest = schema.substring_char(body, n);
        proof {
            assert(rest@ =~= schema@.skip(body as int));
        }
        match find_element(rest) {
            Some((element, used)) => {
                proof {
                    lemma_scan_bounds(rest@, 0, 0);
                }
                let clean = normalize_element(element);
                match parse_element(clean.as_str()) {
                    Ok(tree) => {
                        let ghost prev = items_view(defs@);
                        let ghost gtree = tree@;
                        defs.push(tree);
                        proof {
                            assert(items_view(defs@) =~~= prev.push(gtree));
                        }
                        let next = skip_ws(schema, body + used);
                        proof {
                            let grest = defs_spec(schema@, next as int);
                            if grest is Ok {
                                assert(prev.push(gtree) + grest->Ok_0 =~= prev + (seq![gtree]
                                    + grest->Ok_0));
                            }
                        }
                        pos = next;
                    },
                    Err(e) => {
                        let msg = e.describe();
                        return Err(msg);
                    },
                }
            },
            None => {
                if crate::sectionize::skip_to_brace(schema, body) {
                    let mut msg = String::from_str("structural parse error: ");
                    msg.append(rest);
                    return Err(msg);
                } else {
                    proof {
                        assert(items_view(defs@) + Seq::<JsonSpec>::empty() =~= items_view(
                            defs@,
                        ));
                    }
                    return Ok(defs);
                }
            },
        }
    }
}

/// The generated source for a list of value trees: each object renders
/// by its construct shape, include and unknown sections render nothing,
/// a command whose return shape is unrecognized is skipped, and any
/// other failure aborts with its diagnostic.  A definition that is no
/// object at all aborts the run.
pub open spec fn gen_body(trees: Seq<JsonSpec>) -> Result<Seq<char>, Seq<char>>
    decreases trees.len(),
{
    if trees.len() == 0 {
        Ok(Seq::empty())
    } else {
        let head = trees[0];
        let rest = gen_body(trees.drop_first());
        if !(head is Object) {
            Err("unknown value: "@ + crate::value::json_text(head))
        } else {
            match classify_spec(head) {
                ConstructKind::Include => rest,
                ConstructKind::Unknown => rest,
                ConstructKind::Enum => match print_enum_spec(head) {
                    Ok(t) => match rest {
                        Ok(rt) => Ok(t + rt),
                        Err(m) => Err(m),
                    },
                    Err(pe) => Err(print_err_msg(pe)),
                },
                ConstructKind::Command => match print_command_spec(head) {
                    Ok(t) => match rest {
                        Ok(rt) => Ok(t + rt),
                        Err(m) => Err(m),
                    },
                    Err(PrintErr::BadReturn(_)) => rest,
                    Err(pe) => Err(print_err_msg(pe)),
                },
                ConstructKind::Union => match print_union_spec(head) {
                    Ok(t) => match rest {
                        Ok(rt) => Ok(t + rt),
                        Err(m) => Err(m),
                    },
                    Err(pe) => Err(print_err_msg(pe)),
                },
                ConstructKind::Struct => match print_struct_spec(head) {
                    Ok(t) => match rest {
                        Ok(rt) => Ok(t + rt),
                        Err(m) => Err(m),
                    },
                    Err(pe) => Err(print_err_msg(pe)),
                },
                ConstructKind::Event => match print_event_spec(head) {
                    Ok(t) => match rest {
                        Ok(rt) => Ok(t + rt),
                        Err(m) => Err(m),
                    },
                    Err(pe) => Err(print_err_msg(pe)),
                },
            }
        }
    }
}

/// What the full pipeline produces for the schema text: the fixed import
/// line followed by each definition's rendering, or the first fatal
/// diagnostic.
pub open spec fn gen_spec(s: Seq<char>) -> Result<Seq<char>, Seq<char>> {
    match defs_spec(s, 0) {
        Ok(trees) => match gen_body(trees) {
            Ok(t) => Ok("use call_qemu;"@ + t),
            Err(m) => Err(m),
        },
        Err(m) => Err(m),
    }
}

/// Runs the full pipeline: splits the schema text into elements, parses
/// each into a value tree, classifies it, and renders the generated
/// source in input order.  A command with an unrecognized return shape
/// is skipped; every other failure aborts the run with its diagnostic.
pub fn generate_rust_definitions(schema: &str) -> (r: Result<String, String>)
    ensures
        match r {
            Ok(out) => gen_spec(schema@) == Ok::<Seq<char>, Seq<char>>(out@),
            Err(m) => gen_spec(schema@) == Err::<Seq<char>, Seq<char>>(m@),
        },
{
    let defs = match get_definitions(schema) {
        Ok(d) => d,
        Err(m) => {
            return Err(m);
        },
    };
    let ghost gtrees = items_view(defs@);
    let mut output = String::from_str("use call_qemu;");
    let n = defs.len();
    let mut i: usize = 0;
    proof {
        assert(gtrees.skip(0) =~= gtrees);
    }
    while i < n
        invariant
            n == defs.len(),
            i <= n,
            gtrees == items_view(defs@),
            defs_spec(schema@, 0) == Ok::<Seq<JsonSpec>, Seq<char>>(gtrees),
            match gen_body(gtrees.skip(i as int)) {
                Ok(t) => gen_body(gtrees) matches Ok(whole) && "use call_qemu;"@ + whole
                    == output@ + t,
                Err(m) => gen_body(gtrees) == Err::<Seq<char>, Seq<char>>(m),
            },
        decreases n - i,
    {
        proof {
            assert(gtrees.skip(i as int)[0] == gtrees[i as int]);
            assert(gtrees.skip(i as int).drop_first() =~= gtrees.skip(i + 1));
            assert(defs@[i as int]@ == gtrees[i as int]);
        }
        let d = &defs[i];
        match d {
            JsonValue::Object(_) => {
                match classify(d) {
                    ConstructKind::Struct => match print_struct(d) {
                        Ok(t) => {
                            output.append(t.as_str());
                        },
                        Err(e) => {
                            return Err(e.describe());
                        },
                    },
                    ConstructKind::Command => match print_command(d) {
                        Ok(t) => {
                            output.append(t.as_str());
                        },
                        Err(e) => match e {
                            SchemaError::UnrecognizedReturnShape { fragment: _ } => {},
                            _ => {
                                return Err(e.describe());
                            },
                        },
                    },
                    ConstructKind::Enum => match print_enum(d) {
                        Ok(t) => {
                            output.append(t.as_str());
                        },
                        Err(e) => {
                            return Err(e.describe());
                        },
                    },
                    ConstructKind::Union => match print_union(d) {
                        Ok(t) => {
                            output.append(t.as_str());
                        },
                        Err(e) => {
                            return Err(e.describe());
                        },
                    },
                    ConstructKind::Event => match print_event(d) {
                        Ok(t) => {
                            output.append(t.as_str());
                        },
                        Err(e) => {
                            return Err(e.describe());
                        },
                    },
                    ConstructKind::Include => {},
                    ConstructKind::Unknown => {},
                }
            },
            _ => {
                let rendered = d.to_text();
                let mut msg = String::from_str("unknown value: ");
                msg.append(rendered.as_str());
                return Err(msg);
            },
        }
        i = i + 1;
    }
    proof {
        assert(gtrees.skip(n as int) =~= Seq::<JsonSpec>::empty());
        assert(output@ + Seq::<char>::empty() =~= output@);
    }
    Ok(output)
}

} // verus!
