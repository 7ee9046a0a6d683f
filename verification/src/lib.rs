//! Normalization pipeline for configuration documents.
//!
//! Heterogeneous serialized formats (JSON-like, YAML-like, TOML-like) are
//! lowered into one canonical, origin-tagged value tree. A format adapter
//! deserializes raw text into a self-describing [`raw::RawValue`]; the
//! ordered probe in [`probe`] commits each raw node to the first matching
//! variant of the ambiguous intermediate [`parsed::ParsedValue`]; the
//! normalization pass in [`normalize`] lowers that intermediate into the
//! canonical [`value::Value`], attaching the same origin label to every
//! node; and [`format::extract_root_table`] enforces that the document root
//! is a keyed table.

pub mod decimal;
pub mod error;
pub mod format;
pub mod laws;
pub mod normalize;
pub mod parsed;
pub mod probe;
pub mod raw;
pub mod value;
