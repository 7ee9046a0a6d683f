//! The format boundary: the contract a format adapter satisfies, the
//! root-shape validation that every parsed document must pass, and the
//! pipeline that takes one self-describing document to its root table.

use vstd::prelude::*;
use vstd::string::StringExecFns;
use crate::error::{ConfigError, Unexpected, UnexpectedModel};
use crate::normalize::{from_parsed_value, normalize_spec};
use crate::probe::{FormatCaps, ProbeError, probe, probe_spec};
use crate::raw::RawValue;
use crate::value::{KindModel, Table, Value, ValueKind, clone_origin, origin_model, uri_model};

verus! {

/// Describes a format of configuration source data.
///
/// An implementation converts one raw document into configuration values.
/// There can be various formats, some provided by a library, some defined by
/// its users; an adapter is free to use any concrete syntax, but must funnel
/// its intermediate representation through the ordered probe (or reproduce
/// behaviorally identical results), so that every format yields the same
/// canonical tree.
pub trait Format {
    /// Parses the provided content into configuration values.
    ///
    /// The optional URI names the source associated with this content and is
    /// attached to every value produced, to facilitate debugging.
    fn parse(&self, uri: Option<&String>, text: &str) -> Result<Table, ConfigError>;
}

/// The offending kind reported when a document's root is not a table.
pub open spec fn root_unexpected(k: ValueKind) -> Unexpected {
    match k {
        ValueKind::Nil => Unexpected::Unit,
        ValueKind::Boolean(v) => Unexpected::Bool(v),
        ValueKind::I64(v) => Unexpected::I64(v),
        ValueKind::I128(v) => Unexpected::I128(v),
        ValueKind::U64(v) => Unexpected::U64(v),
        ValueKind::U128(v) => Unexpected::U128(v),
        ValueKind::Float(v) => Unexpected::Float(v),
        ValueKind::String(v) => Unexpected::Str(v),
        ValueKind::Array(_) => Unexpected::Sequence,
        ValueKind::Table(_) => Unexpected::Unit,
    }
}

/// The model of the offending kind reported when a root is not a table.
pub open spec fn root_unexpected_model(k: KindModel) -> UnexpectedModel {
    match k {
        KindModel::Nil => UnexpectedModel::Unit,
        KindModel::Boolean(v) => UnexpectedModel::Bool(v),
        KindModel::I64(v) => UnexpectedModel::I64(v),
        KindModel::I128(v) => UnexpectedModel::I128(v),
        KindModel::U64(v) => UnexpectedModel::U64(v),
        KindModel::U128(v) => UnexpectedModel::U128(v),
        KindModel::Float(v) => UnexpectedModel::Float(v),
        KindModel::Str(s) => UnexpectedModel::Str(s),
        KindModel::Array(_) => UnexpectedModel::Sequence,
        KindModel::Table(_) => UnexpectedModel::Unit,
    }
}

/// What root validation returns: the table itself when the root is a table,
/// else the root-shape error naming the offending kind and carrying the
/// origin label.
pub open spec fn extract_root_spec(uri: Option<&String>, value: Value) -> Result<
    Table,
    ConfigError,
> {
    match value.kind {
        ValueKind::Table(map) => Ok(map),
        k => Err(
            ConfigError::InvalidRootShape { origin: clone_origin(uri), unexpected: root_unexpected(k) },
        ),
    }
}

/// Fails with a proper error if the root of a document is not a table.
pub fn extract_root_table(uri: Option<&String>, value: Value) -> (r: Result<Table, ConfigError>)
    ensures
        r == extract_root_spec(uri, value),
{
    match value.kind {
        ValueKind::Table(map) => Ok(map),
        ValueKind::Nil => Err(ConfigError::invalid_root(uri, Unexpected::Unit)),
        ValueKind::Array(_value) => Err(ConfigError::invalid_root(uri, Unexpected::Sequence)),
        ValueKind::Boolean(value) => Err(ConfigError::invalid_root(uri, Unexpected::Bool(value))),
        ValueKind::I64(value) => Err(ConfigError::invalid_root(uri, Unexpected::I64(value))),
        ValueKind::I128(value) => Err(ConfigError::invalid_root(uri, Unexpected::I128(value))),
        ValueKind::U64(value) => Err(ConfigError::invalid_root(uri, Unexpected::U64(value))),
        ValueKind::U128(value) => Err(ConfigError::invalid_root(uri, Unexpected::U128(value))),
        ValueKind::Float(value) => Err(ConfigError::invalid_root(uri, Unexpected::Float(value))),
        ValueKind::String(value) => Err(ConfigError::invalid_root(uri, Unexpected::Str(value))),
    }
}

/// Takes one self-describing document to its root table: the ordered probe
/// reads it into the intermediate model, normalization lowers that into a
/// canonical value carrying the origin label, and root validation requires
/// the result to be a table. The returned error is either the probe's own
/// (a mapping not representable as a table) or the root-shape error.
pub fn parse_document(uri: Option<&String>, caps: FormatCaps, raw: &RawValue) -> (r: Result<
    Table,
    ConfigError,
>)
    ensures
        ({
            match probe_spec(caps, raw.model()) {
                Err(_) => r matches Err(e) && e matches ConfigError::Message(m) && m@
                    == "not representable as a table"@,
                Ok(pm) => {
                    let vm = normalize_spec(uri_model(uri), pm);
                    match vm.kind {
                        KindModel::Table(es) => r matches Ok(t) && t.model() == es,
                        _ => r matches Err(e) && e matches ConfigError::InvalidRootShape {
                            origin,
                            unexpected,
                        } && origin_model(origin) == uri_model(uri) && unexpected.model()
                            == root_unexpected_model(vm.kind),
                    }
                },
            }
        }),
{
    match probe(caps, raw) {
        Err(_) => Err(ConfigError::Message(String::from_str("not representable as a table"))),
        Ok(parsed) => {
            let value = from_parsed_value(uri, parsed);
            extract_root_table(uri, value)
        },
    }
}

} // verus!
