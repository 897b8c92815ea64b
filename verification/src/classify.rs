//! The Construct Classifier: inspects a value tree's top-level keys and
//! produces one of the construct shapes, in a fixed precedence order, and
//! the per-shape field extraction.

use vstd::prelude::*;
use crate::value::{JsonValue, JsonSpec, json_key, json_has_key, lemma_lookup_absent};
use crate::error::SchemaError;

verus! {

/// The seven construct shapes a section can take.
#[derive(Debug, PartialEq, Eq, Clone, Copy)]
pub enum ConstructKind {
    Include,
    Enum,
    Command,
    Union,
    Struct,
    Event,
    Unknown,
}

/// The shape of a value tree, decided by the first non-null discriminator
/// key in the fixed precedence order `include`, `enum`, `command`,
/// `union`, `struct`, `event`; anything else is `Unknown`.
pub open spec fn classify_spec(v: JsonSpec) -> ConstructKind {
    if !(json_key(v, "include"@) is Null) {
        ConstructKind::Include
    } else if !(json_key(v, "enum"@) is Null) {
        ConstructKind::Enum
    } else if !(json_key(v, "command"@) is Null) {
        ConstructKind::Command
    } else if !(json_key(v, "union"@) is Null) {
        ConstructKind::Union
    } else if !(json_key(v, "struct"@) is Null) {
        ConstructKind::Struct
    } else if !(json_key(v, "event"@) is Null) {
        ConstructKind::Event
    } else {
        ConstructKind::Unknown
    }
}

/// Classification is total: every value tree, object or not, falls under
/// exactly one of the seven construct shapes, and classification never
/// fails.
pub proof fn lemma_classifier_total(v: JsonSpec)
    ensures
        classify_spec(v) == ConstructKind::Include || classify_spec(v) == ConstructKind::Enum
            || classify_spec(v) == ConstructKind::Command || classify_spec(v)
            == ConstructKind::Union || classify_spec(v) == ConstructKind::Struct || classify_spec(
            v,
        ) == ConstructKind::Event || classify_spec(v) == ConstructKind::Unknown,
{
}

/// True when `v` stores `Null` under `k`, stores nothing there, or is no
/// object at all: the probe the classifier uses.
pub fn key_is_null(v: &JsonValue, k: &str) -> (r: bool)
    ensures
        r == (json_key(v@, k@) is Null),
{
    match v.key_value(k) {
        Some(w) => w.is_null(),
        None => {
            proof {
                match v@ {
                    JsonSpec::Object(pairs) => {
                        lemma_lookup_absent(pairs, k@);
                    },
                    _ => {},
                }
            }
            true
        },
    }
}

/// The text stored under `k`, when `v` is an object holding a text atom
/// there.
pub fn text_key(v: &JsonValue, k: &str) -> (r: Option<String>)
    ensures
        match r {
            Some(t) => json_key(v@, k@) == JsonSpec::Text(t@),
            None => !(json_key(v@, k@) is Text),
        },
{
    match v.key_value(k) {
        Some(w) => match w.as_text() {
            Some(s) => Some(s.clone()),
            None => None,
        },
        None => {
            proof {
                match v@ {
                    JsonSpec::Object(pairs) => {
                        lemma_lookup_absent(pairs, k@);
                    },
                    _ => {},
                }
            }
            None
        },
    }
}

/// A copy of the value stored under `k`, or `Null` when `v` stores
/// nothing there or is no object: the dialect's key access.
pub fn key_or_null(v: &JsonValue, k: &str) -> (r: JsonValue)
    ensures
        r@ == json_key(v@, k@),
{
    match v.key_value(k) {
        Some(w) => w.duplicate(),
        None => {
            proof {
                match v@ {
                    JsonSpec::Object(pairs) => {
                        lemma_lookup_absent(pairs, k@);
                    },
                    _ => {},
                }
            }
            JsonValue::Null
        },
    }
}

/// Decides a value tree's construct shape; total, per `classify_spec`.
pub fn classify(input: &JsonValue) -> (r: ConstructKind)
    ensures
        r == classify_spec(input@),
{
    if !key_is_null(input, "include") {
        ConstructKind::Include
    } else if !key_is_null(input, "enum") {
        ConstructKind::Enum
    } else if !key_is_null(input, "command") {
        ConstructKind::Command
    } else if !key_is_null(input, "union") {
        ConstructKind::Union
    } else if !key_is_null(input, "struct") {
        ConstructKind::Struct
    } else if !key_is_null(input, "event") {
        ConstructKind::Event
    } else {
        ConstructKind::Unknown
    }
}

/// An aggregate type: a name, a field map, and an optional base type.
#[derive(Debug, PartialEq)]
pub struct Struct {
    pub name: String,
    pub fields: JsonValue,
    pub base: JsonValue,
}

/// A callable command: a name, an argument map, a generator flag, and an
/// optional return specification.
#[derive(Debug, PartialEq)]
pub struct Command {
    pub name: String,
    pub fields: JsonValue,
    pub gen: JsonValue,
    pub returns: JsonValue,
}

/// A discriminated union: a name, a discriminator field, and a case map.
#[derive(Debug, PartialEq)]
pub struct Union {
    pub name: String,
    pub discriminator: JsonValue,
    pub data: JsonValue,
}

/// An event: a name and a payload field map.
#[derive(Debug, PartialEq)]
pub struct Event {
    pub name: String,
    pub data: JsonValue,
}

/// An enumeration: a name and an ordered member list.
#[derive(Debug, PartialEq)]
pub struct Enum {
    pub name: String,
    pub fields: JsonValue,
}

/// A documentation block distilled from a section's comments.
#[derive(Debug, Eq, PartialEq)]
pub struct Description {
    pub name: String,
    pub parameters: Option<Vec<(String, String)>>,
    pub returns: Option<String>,
    pub version_since: String,
}

/// The classified shape of one section.
#[derive(Debug, PartialEq)]
pub enum QemuType {
    Struct(Struct),
    Command(Command),
    Enum(Enum),
    Include { name: String },
    Event(Event),
    Union(Union),
    Unknown,
}

/// The include target: the text the `include` key itself stores, or the
/// empty name when that key holds no text.
pub open spec fn include_target(v: JsonSpec) -> Seq<char> {
    if json_key(v, "include"@) is Text {
        json_key(v, "include"@)->Text_0
    } else {
        Seq::empty()
    }
}

impl Struct {
    /// Reads a struct's name, field map and base type from a tree
    /// classified as a struct; the name must be a text atom.
    pub fn parse(input: &JsonValue) -> (r: Result<Struct, SchemaError>)
        ensures
            match r {
                Ok(c) => {
                    &&& json_key(input@, "struct"@) == JsonSpec::Text(c.name@)
                    &&& c.fields@ == json_key(input@, "data"@)
                    &&& c.base@ == json_key(input@, "base"@)
                },
                Err(e) => !(json_key(input@, "struct"@) is Text) && (e
                    matches SchemaError::MissingRequiredKey { fragment } && fragment@
                    == "struct"@),
            },
    {
        match text_key(input, "struct") {
            Some(name) => Ok(
                Struct {
                    name,
                    fields: key_or_null(input, "data"),
                    base: key_or_null(input, "base"),
                },
            ),
            None => Err(SchemaError::MissingRequiredKey { fragment: String::from_str("struct") }),
        }
    }
}

impl Command {
    /// Reads a command's name, argument map, generator flag and return
    /// specification; the name must be a text atom.
    pub fn parse(input: &JsonValue) -> (r: Result<Command, SchemaError>)
        ensures
            match r {
                Ok(c) => {
                    &&& json_key(input@, "command"@) == JsonSpec::Text(c.name@)
                    &&& c.gen@ == json_key(input@, "gen"@)
                    &&& c.fields@ == json_key(input@, "data"@)
                    &&& c.returns@ == json_key(input@, "returns"@)
                },
                Err(e) => !(json_key(input@, "command"@) is Text) && (e
                    matches SchemaError::MissingRequiredKey { fragment } && fragment@
                    == "command"@),
            },
    {
        match text_key(input, "command") {
            Some(name) => Ok(
                Command {
                    name,
                    gen: key_or_null(input, "gen"),
                    fields: key_or_null(input, "data"),
                    returns: key_or_null(input, "returns"),
                },
            ),
            None => Err(SchemaError::MissingRequiredKey { fragment: String::from_str("command") }),
        }
    }
}

impl Union {
    /// Reads a union's name, discriminator and case map; the name must be
    /// a text atom.
    pub fn parse(input: &JsonValue) -> (r: Result<Union, SchemaError>)
        ensures
            match r {
                Ok(c) => {
                    &&& json_key(input@, "union"@) == JsonSpec::Text(c.name@)
                    &&& c.discriminator@ == json_key(input@, "discriminator"@)
                    &&& c.data@ == json_key(input@, "data"@)
                },
                Err(e) => !(json_key(input@, "union"@) is Text) && (e
                    matches SchemaError::MissingRequiredKey { fragment } && fragment@ == "union"@),
            },
    {
        match text_key(input, "union") {
            Some(name) => Ok(
                Union {
                    name,
                    discriminator: key_or_null(input, "discriminator"),
                    data: key_or_null(input, "data"),
                },
            ),
            None => Err(SchemaError::MissingRequiredKey { fragment: String::from_str("union") }),
        }
    }
}

impl Event {
    /// Reads an event's name and payload map; the name must be a text
    /// atom.
    pub fn parse(input: &JsonValue) -> (r: Result<Event, SchemaError>)
        ensures
            match r {
                Ok(c) => {
                    &&& json_key(input@, "event"@) == JsonSpec::Text(c.name@)
                    &&& c.data@ == json_key(input@, "data"@)
                },
                Err(e) => !(json_key(input@, "event"@) is Text) && (e
                    matches SchemaError::MissingRequiredKey { fragment } && fragment@ == "event"@),
            },
    {
        match text_key(input, "event") {
            Some(name) => Ok(Event { name, data: key_or_null(input, "data") }),
            None => Err(SchemaError::MissingRequiredKey { fragment: String::from_str("event") }),
        }
    }
}

impl Enum {
    /// Reads an enumeration's name and member list; the name must be a
    /// text atom.
    pub fn parse(input: &JsonValue) -> (r: Result<Enum, SchemaError>)
        ensures
            match r {
                Ok(c) => {
                    &&& json_key(input@, "enum"@) == JsonSpec::Text(c.name@)
                    &&& c.fields@ == json_key(input@, "data"@)
                },
                Err(e) => !(json_key(input@, "enum"@) is Text) && (e
                    matches SchemaError::MissingRequiredKey { fragment } && fragment@ == "enum"@),
            },
    {
        match text_key(input, "enum") {
            Some(name) => Ok(Enum { name, fields: key_or_null(input, "data") }),
            None => Err(SchemaError::MissingRequiredKey { fragment: String::from_str("enum") }),
        }
    }
}

/// What `QemuType::parse` returns for each classification of the input:
/// the construct with its fields read out, `Unknown` kept silently, or a
/// missing-key error where the discriminating name is no text atom.
pub open spec fn qemu_type_spec(v: JsonSpec, r: Result<QemuType, SchemaError>) -> bool {
    match classify_spec(v) {
        ConstructKind::Include => r matches Ok(QemuType::Include { name }) && name@
            == include_target(v),
        ConstructKind::Enum => match r {
            Ok(qt) => qt matches QemuType::Enum(c) && json_key(v, "enum"@) == JsonSpec::Text(
                c.name@,
            ) && c.fields@ == json_key(v, "data"@),
            Err(e) => !(json_key(v, "enum"@) is Text) && e is MissingRequiredKey,
        },
        ConstructKind::Command => match r {
            Ok(qt) => qt matches QemuType::Command(c) && json_key(v, "command"@)
                == JsonSpec::Text(c.name@) && c.gen@ == json_key(v, "gen"@) && c.fields@
                == json_key(v, "data"@) && c.returns@ == json_key(v, "returns"@),
            Err(e) => !(json_key(v, "command"@) is Text) && e is MissingRequiredKey,
        },
        ConstructKind::Union => match r {
            Ok(qt) => qt matches QemuType::Union(c) && json_key(v, "union"@) == JsonSpec::Text(
                c.name@,
            ) && c.discriminator@ == json_key(v, "discriminator"@) && c.data@ == json_key(
                v,
                "data"@,
            ),
            Err(e) => !(json_key(v, "union"@) is Text) && e is MissingRequiredKey,
        },
        ConstructKind::Struct => match r {
            Ok(qt) => qt matches QemuType::Struct(c) && json_key(v, "struct"@)
                == JsonSpec::Text(c.name@) && c.fields@ == json_key(v, "data"@) && c.base@
                == json_key(v, "base"@),
            Err(e) => !(json_key(v, "struct"@) is Text) && e is MissingRequiredKey,
        },
        ConstructKind::Event => match r {
            Ok(qt) => qt matches QemuType::Event(c) && json_key(v, "event"@) == JsonSpec::Text(
                c.name@,
            ) && c.data@ == json_key(v, "data"@),
            Err(e) => !(json_key(v, "event"@) is Text) && e is MissingRequiredKey,
        },
        ConstructKind::Unknown => r matches Ok(QemuType::Unknown),
    }
}

impl QemuType {
    /// Classifies a value tree and reads the fields of its shape, in the
    /// fixed precedence order; an unclassifiable tree is `Unknown`, never
    /// an error.
    pub fn parse(input: &JsonValue) -> (r: Result<QemuType, SchemaError>)
        ensures
            qemu_type_spec(input@, r),
    {
        match classify(input) {
            ConstructKind::Include => {
                let name = match text_key(input, "include") {
                    Some(t) => t,
                    None => String::new(),
                };
                Ok(QemuType::Include { name })
            },
            ConstructKind::Enum => match Enum::parse(input) {
                Ok(c) => Ok(QemuType::Enum(c)),
                Err(e) => Err(e),
            },
            ConstructKind::Command => match Command::parse(input) {
                Ok(c) => Ok(QemuType::Command(c)),
                Err(e) => Err(e),
            },
            ConstructKind::Union => match Union::parse(input) {
                Ok(c) => Ok(QemuType::Union(c)),
                Err(e) => Err(e),
            },
            ConstructKind::Struct => match Struct::parse(input) {
                Ok(c) => Ok(QemuType::Struct(c)),
                Err(e) => Err(e),
            },
            ConstructKind::Event => match Event::parse(input) {
                Ok(c) => Ok(QemuType::Event(c)),
                Err(e) => Err(e),
            },
            ConstructKind::Unknown => Ok(QemuType::Unknown),
        }
    }
}

} // verus!
