//! Parser and code generator for a QAPI-style machine-description schema.
//!
//! The input dialect is a relaxed, comment-annotated, single-quoted JSON
//! variant.  The pipeline splits the raw text into brace-balanced sections,
//! strips embedded comments, normalizes quoting, parses each element into a
//! generic value tree, classifies it as one of the schema construct shapes,
//! and renders target-language declarations from the result.

pub mod strutil;
pub mod value;
pub mod names;
pub mod normalize;
pub mod error;
pub mod parse;
pub mod classify;
pub mod sectionize;
pub mod emit;
pub mod codegen;

pub use classify::{Struct, Command, Union, Event, Enum, QemuType, Description, ConstructKind};
pub use codegen::generate_rust_definitions;
pub use error::SchemaError;
pub use normalize::remove_comments;
pub use sectionize::{Section, parse_sections, find_element, comment_block};
pub use value::JsonValue;
