//! The error taxonomy of the pipeline: structural parse failures, missing
//! mandatory keys, and unrecognized return-type shapes.  Every error
//! carries the offending text fragment for diagnostics.

use vstd::prelude::*;

verus! {

/// An error raised while parsing or emitting one section.
#[derive(Debug, PartialEq, Eq)]
pub enum SchemaError {
    /// The element's text is not a value of the dialect; fatal for the run.
    StructuralParse { fragment: String },
    /// A classified variant's mandatory key is absent or has the wrong
    /// shape; fatal for the section.
    MissingRequiredKey { fragment: String },
    /// A command's return specification is neither a scalar name nor a
    /// one-element list; emission for the construct is skipped.
    UnrecognizedReturnShape { fragment: String },
}

/// The diagnostic line `describe` renders for an error.
pub open spec fn describe_spec(e: SchemaError) -> Seq<char> {
    match e {
        SchemaError::StructuralParse { fragment } => "structural parse error: "@ + fragment@,
        SchemaError::MissingRequiredKey { fragment } => "missing required key: "@ + fragment@,
        SchemaError::UnrecognizedReturnShape { fragment } => "unrecognized return shape: "@
            + fragment@,
    }
}

impl SchemaError {
    /// A human-readable diagnostic holding the offending fragment.
    pub fn describe(&self) -> (r: String)
        ensures
            r@ == describe_spec(*self),
    {
        match self {
            SchemaError::StructuralParse { fragment } => {
                let mut out = String::from_str("structural parse error: ");
                out.append(fragment.as_str());
                out
            },
            SchemaError::MissingRequiredKey { fragment } => {
                let mut out = String::from_str("missing required key: ");
                out.append(fragment.as_str());
                out
            },
            SchemaError::UnrecognizedReturnShape { fragment } => {
                let mut out = String::from_str("unrecognized return shape: ");
                out.append(fragment.as_str());
                out
            },
        }
    }
}

} // verus!
