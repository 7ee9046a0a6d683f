//! The canonical value model: a tagged union of scalar kinds, an
//! insertion-ordered keyed table, and a sequence, each node carrying an
//! optional origin label for diagnostics.

use vstd::prelude::*;

verus! {

/// Mathematical model of a canonical value kind.
///
/// A table is modelled as the sequence of its entries in insertion order;
/// well-formed tables have pairwise distinct keys (see [`entries_unique`]).
/// A floating-point value is carried as the 64 bits of its IEEE 754
/// representation, which pins the value exactly without doing any
/// floating-point arithmetic.
pub enum KindModel {
    Nil,
    Boolean(bool),
    I64(i64),
    I128(i128),
    U64(u64),
    U128(u128),
    Float(u64),
    Str(Seq<char>),
    Table(Seq<(Seq<char>, ValueModel)>),
    Array(Seq<ValueModel>),
}

/// Mathematical model of a canonical value: a kind plus the optional origin
/// label of the source document it was produced from.
pub struct ValueModel {
    pub origin: Option<Seq<char>>,
    pub kind: KindModel,
}

/// A canonical configuration value: a [`ValueKind`] paired with the optional
/// origin label of the document it came from. The origin is attached once at
/// construction and carries no semantic weight.
pub struct Value {
    pub kind: ValueKind,
    pub origin: Option<String>,
}

/// The closed tagged union of canonical value shapes.
///
/// Numeric variants are never silently reinterpreted: a value parsed as an
/// unsigned 64-bit integer stays `U64` unless a downstream coercion is asked
/// for explicitly. The `Float` variant stores the 64 bits of the IEEE 754
/// double representation.
pub enum ValueKind {
    Nil,
    Boolean(bool),
    I64(i64),
    I128(i128),
    U64(u64),
    U128(u128),
    Float(u64),
    String(String),
    Table(Table),
    Array(Vec<Value>),
}

/// An insertion-ordered table of string keys to values, with unique keys.
pub struct Table {
    pub entries: Vec<(String, Value)>,
}

/// Model of an optional origin label.
pub open spec fn origin_model(o: Option<String>) -> Option<Seq<char>> {
    match o {
        Some(s) => Some(s@),
        None => None,
    }
}

impl Value {
    /// The mathematical model of this value.
    pub open spec fn model(self) -> ValueModel
        decreases self,
    {
        ValueModel { origin: origin_model(self.origin), kind: self.kind.model() }
    }
}

impl ValueKind {
    /// The mathematical model of this kind.
    pub open spec fn model(self) -> KindModel
        decreases self,
    {
        match self {
            ValueKind::Nil => KindModel::Nil,
            ValueKind::Boolean(b) => KindModel::Boolean(b),
            ValueKind::I64(v) => KindModel::I64(v),
            ValueKind::I128(v) => KindModel::I128(v),
            ValueKind::U64(v) => KindModel::U64(v),
            ValueKind::U128(v) => KindModel::U128(v),
            ValueKind::Float(bits) => KindModel::Float(bits),
            ValueKind::String(s) => KindModel::Str(s@),
            ValueKind::Table(t) => KindModel::Table(t.model()),
            ValueKind::Array(items) => KindModel::Array(values_model(items@)),
        }
    }
}

impl Table {
    /// The mathematical model of this table: its entries in insertion order.
    pub open spec fn model(self) -> Seq<(Seq<char>, ValueModel)>
        decreases self,
    {
        entries_model(self.entries@)
    }
}

/// The models of a sequence of values, element by element.
pub open spec fn values_model(s: Seq<Value>) -> Seq<ValueModel>
    decreases s,
{
    if s.len() == 0 {
        Seq::empty()
    } else {
        values_model(s.drop_last()).push(s.last().model())
    }
}

/// The models of a sequence of table entries, entry by entry.
pub open spec fn entries_model(s: Seq<(String, Value)>) -> Seq<(Seq<char>, ValueModel)>
    decreases s,
{
    if s.len() == 0 {
        Seq::empty()
    } else {
        entries_model(s.drop_last()).push((s.last().0@, s.last().1.model()))
    }
}

/// The keys of a sequence of table entries are pairwise distinct.
pub open spec fn entries_unique<M>(s: Seq<(Seq<char>, M)>) -> bool {
    forall|i: int, j: int| 0 <= i < j < s.len() ==> s[i].0 != s[j].0
}

/// Ordered-map insertion over modelled entries: an existing key keeps its
/// position and its stored key and takes the new value; a new key is
/// appended.
pub open spec fn entry_insert_model<M>(s: Seq<(Seq<char>, M)>, k: Seq<char>, v: M) -> Seq<
    (Seq<char>, M),
> {
    if exists|i: int| 0 <= i < s.len() && s[i].0 == k {
        let i = choose|i: int| 0 <= i < s.len() && s[i].0 == k;
        s.update(i, (s[i].0, v))
    } else {
        s.push((k, v))
    }
}

/// Ordered-map insertion keeps the keys pairwise distinct.
pub proof fn lemma_entry_insert_model_unique<M>(s: Seq<(Seq<char>, M)>, k: Seq<char>, v: M)
    requires
        entries_unique(s),
    ensures
        entries_unique(entry_insert_model(s, k, v)),
{
    if exists|i: int| 0 <= i < s.len() && s[i].0 == k {
        let i = choose|i: int| 0 <= i < s.len() && s[i].0 == k;
        let t = s.update(i, (s[i].0, v));
        assert forall|a: int| 0 <= a < t.len() implies #[trigger] t[a].0 == s[a].0 by {}
    } else {
        let t = s.push((k, v));
        assert forall|a: int, b: int| 0 <= a < b < t.len() implies t[a].0 != t[b].0 by {
            if b < s.len() {
                assert(s[a].0 != s[b].0);
            } else {
                assert(!(0 <= a < s.len() && s[a].0 == k));
            }
        }
    }
}

pub proof fn lemma_values_model_len(s: Seq<Value>)
    ensures
        values_model(s).len() == s.len(),
    decreases s,
{
    if s.len() > 0 {
        lemma_values_model_len(s.drop_last());
    }
}

pub proof fn lemma_values_model_index(s: Seq<Value>, i: int)
    requires
        0 <= i < s.len(),
    ensures
        values_model(s).len() == s.len(),
        values_model(s)[i] == s[i].model(),
    decreases s,
{
    lemma_values_model_len(s);
    if i < s.len() - 1 {
        lemma_values_model_index(s.drop_last(), i);
    }
}

pub proof fn lemma_entries_model_len(s: Seq<(String, Value)>)
    ensures
        entries_model(s).len() == s.len(),
    decreases s,
{
    if s.len() > 0 {
        lemma_entries_model_len(s.drop_last());
    }
}

pub proof fn lemma_entries_model_index(s: Seq<(String, Value)>, i: int)
    requires
        0 <= i < s.len(),
    ensures
        entries_model(s).len() == s.len(),
        entries_model(s)[i] == (s[i].0@, s[i].1.model()),
    decreases s,
{
    lemma_entries_model_len(s);
    if i < s.len() - 1 {
        lemma_entries_model_index(s.drop_last(), i);
    }
}

impl Value {
    /// Pairs a kind with a cloned copy of the optional origin label.
    pub fn new(uri: Option<&String>, kind: ValueKind) -> (r: Value)
        ensures
            r.kind == kind,
            r.origin == clone_origin(uri),
    {
        let origin: Option<String> = match uri {
            Some(u) => Some(u.clone()),
            None => None,
        };
        Value { kind, origin }
    }
}

/// The owned origin that cloning an optional origin reference yields.
pub open spec fn clone_origin(uri: Option<&String>) -> Option<String> {
    match uri {
        Some(u) => Some(*u),
        None => None,
    }
}

/// Model of an optional origin reference.
pub open spec fn uri_model(uri: Option<&String>) -> Option<Seq<char>> {
    match uri {
        Some(u) => Some(u@),
        None => None,
    }
}

} // verus!
