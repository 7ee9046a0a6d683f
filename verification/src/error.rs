//! The error boundary of the pipeline: one opaque, send-safe error value
//! wrapping either a format library's own failure or the root-shape error
//! that this pipeline owns.

use vstd::prelude::*;
use vstd::string::StringExecFns;
use crate::value::clone_origin;

verus! {

/// The offending kind found where a table was expected, carrying the value
/// for diagnostics. `Float` carries the 64 bits of the IEEE 754 double
/// representation.
pub enum Unexpected {
    Unit,
    Bool(bool),
    I64(i64),
    I128(i128),
    U64(u64),
    U128(u128),
    Float(u64),
    Str(String),
    Sequence,
}

/// Mathematical model of an offending kind.
pub enum UnexpectedModel {
    Unit,
    Bool(bool),
    I64(i64),
    I128(i128),
    U64(u64),
    U128(u128),
    Float(u64),
    Str(Seq<char>),
    Sequence,
}

impl Unexpected {
    /// The mathematical model of this offending kind.
    pub open spec fn model(self) -> UnexpectedModel {
        match self {
            Unexpected::Unit => UnexpectedModel::Unit,
            Unexpected::Bool(b) => UnexpectedModel::Bool(b),
            Unexpected::I64(v) => UnexpectedModel::I64(v),
            Unexpected::I128(v) => UnexpectedModel::I128(v),
            Unexpected::U64(v) => UnexpectedModel::U64(v),
            Unexpected::U128(v) => UnexpectedModel::U128(v),
            Unexpected::Float(bits) => UnexpectedModel::Float(bits),
            Unexpected::Str(s) => UnexpectedModel::Str(s@),
            Unexpected::Sequence => UnexpectedModel::Sequence,
        }
    }

    /// The short name of this kind, as used in diagnostics.
    pub open spec fn name_spec(self) -> Seq<char> {
        match self {
            Unexpected::Unit => "unit value"@,
            Unexpected::Bool(_) => "boolean"@,
            Unexpected::I64(_) => "64-bit integer"@,
            Unexpected::I128(_) => "128-bit integer"@,
            Unexpected::U64(_) => "64-bit unsigned integer"@,
            Unexpected::U128(_) => "128-bit unsigned integer"@,
            Unexpected::Float(_) => "floating point"@,
            Unexpected::Str(_) => "string"@,
            Unexpected::Sequence => "sequence"@,
        }
    }

    /// The short name of this kind, for error messages.
    pub fn kind_name(&self) -> (r: String)
        ensures
            r@ == self.name_spec(),
    {
        match self {
            Unexpected::Unit => String::from_str("unit value"),
            Unexpected::Bool(_) => String::from_str("boolean"),
            Unexpected::I64(_) => String::from_str("64-bit integer"),
            Unexpected::I128(_) => String::from_str("128-bit integer"),
            Unexpected::U64(_) => String::from_str("64-bit unsigned integer"),
            Unexpected::U128(_) => String::from_str("128-bit unsigned integer"),
            Unexpected::Float(_) => String::from_str("floating point"),
            Unexpected::Str(_) => String::from_str("string"),
            Unexpected::Sequence => String::from_str("sequence"),
        }
    }
}

/// A failure of one parse call: either a failure that a format library (or a
/// secondary probe) reported, or the root-shape error owned by this
/// pipeline, carrying the offending kind and the origin label.
pub enum ConfigError {
    Message(String),
    InvalidRootShape { origin: Option<String>, unexpected: Unexpected },
}

impl ConfigError {
    /// The root-shape error for a document whose root has the given
    /// offending kind.
    pub fn invalid_root(uri: Option<&String>, unexpected: Unexpected) -> (r: ConfigError)
        ensures
            r == (ConfigError::InvalidRootShape { origin: clone_origin(uri), unexpected }),
    {
        let origin: Option<String> = match uri {
            Some(u) => Some(u.clone()),
            None => None,
        };
        ConfigError::InvalidRootShape { origin, unexpected }
    }

    /// The diagnostic text of this error.
    pub open spec fn describe_spec(self) -> Seq<char> {
        match self {
            ConfigError::Message(m) => m@,
            ConfigError::InvalidRootShape { origin, unexpected } => {
                let head = "expected a table at the document root, found a "@
                    + unexpected.name_spec();
                match origin {
                    Some(o) => head + ", in source "@ + o@,
                    None => head,
                }
            },
        }
    }

    /// Renders the diagnostic text of this error.
    pub fn describe(&self) -> (r: String)
        ensures
            r@ == self.describe_spec(),
    {
        match self {
            ConfigError::Message(m) => m.clone(),
            ConfigError::InvalidRootShape { origin, unexpected } => {
                let mut s = String::from_str("expected a table at the document root, found a ");
                let name = unexpected.kind_name();
                s.append(name.as_str());
                match origin {
                    Some(o) => {
                        s.append(", in source ");
                        s.append(o.as_str());
                    },
                    None => {},
                }
                proof {
                    assert(s@ =~= self.describe_spec());
                }
                s
            },
        }
    }
}

} // verus!
