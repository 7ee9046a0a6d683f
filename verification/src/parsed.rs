//! The ambiguous intermediate model: the transient variant type that a
//! document is read into before normalization. The order of its variants is
//! the mandatory probing order — an ambiguous reader commits to the first
//! variant that matches, so the order is a correctness invariant, not an
//! optimization.

use vstd::prelude::*;

verus! {

/// The ambiguous intermediate value, in mandatory probing order: Boolean,
/// I64, I128, U64, U128, Float, String, Table, Array, Option, and Nil as the
/// unconditional catch-all that is attempted last.
///
/// The `Float` variant carries the 64 bits of the IEEE 754 double
/// representation. A table is an insertion-ordered list of entries with
/// unique keys.
pub enum ParsedValue {
    Boolean(bool),
    I64(i64),
    I128(i128),
    U64(u64),
    U128(u128),
    Float(u64),
    String(String),
    Table(Vec<(String, ParsedValue)>),
    Array(Vec<ParsedValue>),
    Option(Option<Box<ParsedValue>>),
    Nil,
}

/// Mathematical model of an intermediate value.
pub enum ParsedModel {
    Boolean(bool),
    I64(i64),
    I128(i128),
    U64(u64),
    U128(u128),
    Float(u64),
    Str(Seq<char>),
    Table(Seq<(Seq<char>, ParsedModel)>),
    Array(Seq<ParsedModel>),
    Option(Option<Box<ParsedModel>>),
    Nil,
}

impl ParsedValue {
    /// The mathematical model of this intermediate value.
    pub open spec fn model(self) -> ParsedModel
        decreases self,
    {
        match self {
            ParsedValue::Boolean(b) => ParsedModel::Boolean(b),
            ParsedValue::I64(v) => ParsedModel::I64(v),
            ParsedValue::I128(v) => ParsedModel::I128(v),
            ParsedValue::U64(v) => ParsedModel::U64(v),
            ParsedValue::U128(v) => ParsedModel::U128(v),
            ParsedValue::Float(bits) => ParsedModel::Float(bits),
            ParsedValue::String(s) => ParsedModel::Str(s@),
            ParsedValue::Table(entries) => ParsedModel::Table(parsed_entries_model(entries@)),
            ParsedValue::Array(items) => ParsedModel::Array(parsed_values_model(items@)),
            ParsedValue::Option(o) => ParsedModel::Option(
                match o {
                    Some(b) => Some(Box::new((*b).model())),
                    None => None,
                },
            ),
            ParsedValue::Nil => ParsedModel::Nil,
        }
    }
}

/// The models of a sequence of intermediate values, element by element.
pub open spec fn parsed_values_model(s: Seq<ParsedValue>) -> Seq<ParsedModel>
    decreases s,
{
    if s.len() == 0 {
        Seq::empty()
    } else {
        parsed_values_model(s.drop_last()).push(s.last().model())
    }
}

/// The models of a sequence of intermediate table entries, entry by entry.
pub open spec fn parsed_entries_model(s: Seq<(String, ParsedValue)>) -> Seq<(Seq<char>, ParsedModel)>
    decreases s,
{
    if s.len() == 0 {
        Seq::empty()
    } else {
        parsed_entries_model(s.drop_last()).push((s.last().0@, s.last().1.model()))
    }
}

pub proof fn lemma_parsed_values_model_len(s: Seq<ParsedValue>)
    ensures
        parsed_values_model(s).len() == s.len(),
    decreases s,
{
    if s.len() > 0 {
        lemma_parsed_values_model_len(s.drop_last());
    }
}

pub proof fn lemma_parsed_values_model_index(s: Seq<ParsedValue>, i: int)
    requires
        0 <= i < s.len(),
    ensures
        parsed_values_model(s).len() == s.len(),
        parsed_values_model(s)[i] == s[i].model(),
    decreases s,
{
    lemma_parsed_values_model_len(s);
    if i < s.len() - 1 {
        lemma_parsed_values_model_index(s.drop_last(), i);
    }
}

pub proof fn lemma_parsed_values_model_push(s: Seq<ParsedValue>, v: ParsedValue)
    ensures
        parsed_values_model(s.push(v)) == parsed_values_model(s).push(v.model()),
{
    assert(s.push(v).drop_last() =~= s);
    assert(s.push(v).last() == v);
}

pub proof fn lemma_parsed_entries_model_len(s: Seq<(String, ParsedValue)>)
    ensures
        parsed_entries_model(s).len() == s.len(),
    decreases s,
{
    if s.len() > 0 {
        lemma_parsed_entries_model_len(s.drop_last());
    }
}

pub proof fn lemma_parsed_entries_model_index(s: Seq<(String, ParsedValue)>, i: int)
    requires
        0 <= i < s.len(),
    ensures
        parsed_entries_model(s).len() == s.len(),
        parsed_entries_model(s)[i] == (s[i].0@, s[i].1.model()),
    decreases s,
{
    lemma_parsed_entries_model_len(s);
    if i < s.len() - 1 {
        lemma_parsed_entries_model_index(s.drop_last(), i);
    }
}

pub proof fn lemma_parsed_entries_model_push(s: Seq<(String, ParsedValue)>, e: (String, ParsedValue))
    ensures
        parsed_entries_model(s.push(e)) == parsed_entries_model(s).push((e.0@, e.1.model())),
{
    assert(s.push(e).drop_last() =~= s);
    assert(s.push(e).last() == e);
}

} // verus!
