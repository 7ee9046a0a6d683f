//! The self-describing raw value that a format adapter hands to the
//! pipeline. A format library reads the concrete syntax and reports each
//! node with its own tag (which integer width and signedness it chose, map
//! or sequence, and so on); this type records that report as plain values,
//! so the ordered probe can be stated and checked over it.

use vstd::prelude::*;

verus! {

/// A key of a native mapping, before re-keying to a string.
///
/// Numeric keys are re-keyed by rendering their decimal text; a key that is
/// neither string-like nor numeric is `Other` and makes the document fail
/// as not representable as a table.
pub enum RawKey {
    Str(String),
    Int(i64),
    Uint(u64),
    Other,
}

/// One self-describing node of a deserialized document.
///
/// `Float` carries the 64 bits of the IEEE 754 double representation.
/// `Datetime` carries the canonical text rendering that the producing
/// format library gives its native date/time value; whether it is admitted
/// as a string is decided by the probe's capability switch.
pub enum RawValue {
    Bool(bool),
    I64(i64),
    I128(i128),
    U64(u64),
    U128(u128),
    Float(u64),
    Str(String),
    Char(char),
    Datetime(String),
    Sequence(Vec<RawValue>),
    Mapping(Vec<(RawKey, RawValue)>),
    Null,
}

/// Mathematical model of a native-mapping key.
pub enum RawKeyModel {
    Str(Seq<char>),
    Int(i64),
    Uint(u64),
    Other,
}

/// Mathematical model of a raw node.
pub enum RawModel {
    Bool(bool),
    I64(i64),
    I128(i128),
    U64(u64),
    U128(u128),
    Float(u64),
    Str(Seq<char>),
    Char(char),
    Datetime(Seq<char>),
    Sequence(Seq<RawModel>),
    Mapping(Seq<(RawKeyModel, RawModel)>),
    Null,
}

impl RawKey {
    /// The mathematical model of this key.
    pub open spec fn model(self) -> RawKeyModel {
        match self {
            RawKey::Str(s) => RawKeyModel::Str(s@),
            RawKey::Int(v) => RawKeyModel::Int(v),
            RawKey::Uint(v) => RawKeyModel::Uint(v),
            RawKey::Other => RawKeyModel::Other,
        }
    }
}

impl RawValue {
    /// The mathematical model of this raw node.
    pub open spec fn model(self) -> RawModel
        decreases self,
    {
        match self {
            RawValue::Bool(b) => RawModel::Bool(b),
            RawValue::I64(v) => RawModel::I64(v),
            RawValue::I128(v) => RawModel::I128(v),
            RawValue::U64(v) => RawModel::U64(v),
            RawValue::U128(v) => RawModel::U128(v),
            RawValue::Float(bits) => RawModel::Float(bits),
            RawValue::Str(s) => RawModel::Str(s@),
            RawValue::Char(c) => RawModel::Char(c),
            RawValue::Datetime(s) => RawModel::Datetime(s@),
            RawValue::Sequence(items) => RawModel::Sequence(raw_values_model(items@)),
            RawValue::Mapping(entries) => RawModel::Mapping(raw_entries_model(entries@)),
            RawValue::Null => RawModel::Null,
        }
    }
}

/// The models of a sequence of raw nodes, element by element.
pub open spec fn raw_values_model(s: Seq<RawValue>) -> Seq<RawModel>
    decreases s,
{
    if s.len() == 0 {
        Seq::empty()
    } else {
        raw_values_model(s.drop_last()).push(s.last().model())
    }
}

/// The models of a sequence of native-mapping entries, entry by entry.
pub open spec fn raw_entries_model(s: Seq<(RawKey, RawValue)>) -> Seq<(RawKeyModel, RawModel)>
    decreases s,
{
    if s.len() == 0 {
        Seq::empty()
    } else {
        raw_entries_model(s.drop_last()).push((s.last().0.model(), s.last().1.model()))
    }
}

pub proof fn lemma_raw_values_model_index(s: Seq<RawValue>, i: int)
    requires
        0 <= i < s.len(),
    ensures
        raw_values_model(s).len() == s.len(),
        raw_values_model(s)[i] == s[i].model(),
    decreases s,
{
    lemma_raw_values_model_len(s);
    if i < s.len() - 1 {
        lemma_raw_values_model_index(s.drop_last(), i);
    }
}

pub proof fn lemma_raw_values_model_len(s: Seq<RawValue>)
    ensures
        raw_values_model(s).len() == s.len(),
    decreases s,
{
    if s.len() > 0 {
        lemma_raw_values_model_len(s.drop_last());
    }
}

pub proof fn lemma_raw_entries_model_len(s: Seq<(RawKey, RawValue)>)
    ensures
        raw_entries_model(s).len() == s.len(),
    decreases s,
{
    if s.len() > 0 {
        lemma_raw_entries_model_len(s.drop_last());
    }
}

pub proof fn lemma_raw_entries_model_index(s: Seq<(RawKey, RawValue)>, i: int)
    requires
        0 <= i < s.len(),
    ensures
        raw_entries_model(s).len() == s.len(),
        raw_entries_model(s)[i] == (s[i].0.model(), s[i].1.model()),
    decreases s,
{
    lemma_raw_entries_model_len(s);
    if i < s.len() - 1 {
        lemma_raw_entries_model_index(s.drop_last(), i);
    }
}

} // verus!
