//! The normalization pass: recursively lowers the ambiguous intermediate
//! into the canonical value, attaching the same origin label to every node
//! produced within one call. The pass is total: it never fails on any
//! constructible intermediate tree.

use vstd::prelude::*;
use crate::parsed::{ParsedModel, ParsedValue, parsed_entries_model, parsed_values_model,
    lemma_parsed_entries_model_index, lemma_parsed_values_model_index};
use crate::value::{KindModel, Table, Value, ValueKind, ValueModel, entries_model, values_model,
    lemma_entries_model_index, lemma_values_model_index, uri_model};

verus! {

/// What normalization makes of one intermediate value: the same origin on
/// the node and on every node below it, and the kind given by
/// [`normalize_kind_spec`].
pub open spec fn normalize_spec(origin: Option<Seq<char>>, p: ParsedModel) -> ValueModel
    decreases p, 1int,
{
    ValueModel { origin, kind: normalize_kind_spec(origin, p) }
}

/// The canonical kind of one intermediate value: scalars map one to one,
/// tables and arrays are transformed entrywise in order, a present optional
/// value contributes its own kind, and an absent one becomes `Nil`.
pub open spec fn normalize_kind_spec(origin: Option<Seq<char>>, p: ParsedModel) -> KindModel
    decreases p, 0int,
{
    match p {
        ParsedModel::Nil => KindModel::Nil,
        ParsedModel::Boolean(b) => KindModel::Boolean(b),
        ParsedModel::I64(v) => KindModel::I64(v),
        ParsedModel::I128(v) => KindModel::I128(v),
        ParsedModel::U64(v) => KindModel::U64(v),
        ParsedModel::U128(v) => KindModel::U128(v),
        ParsedModel::Float(bits) => KindModel::Float(bits),
        ParsedModel::Str(s) => KindModel::Str(s),
        ParsedModel::Table(es) => KindModel::Table(normalize_entries_spec(origin, es)),
        ParsedModel::Array(vs) => KindModel::Array(normalize_values_spec(origin, vs)),
        ParsedModel::Option(o) => match o {
            Some(inner) => normalize_kind_spec(origin, *inner),
            None => KindModel::Nil,
        },
    }
}

/// Normalization of a sequence of intermediate values, element by element.
pub open spec fn normalize_values_spec(origin: Option<Seq<char>>, s: Seq<ParsedModel>) -> Seq<
    ValueModel,
>
    decreases s, 0int,
{
    if s.len() == 0 {
        Seq::empty()
    } else {
        normalize_values_spec(origin, s.drop_last()).push(normalize_spec(origin, s.last()))
    }
}

/// Normalization of a sequence of table entries: keys are kept in order,
/// each entry's value is normalized.
pub open spec fn normalize_entries_spec(
    origin: Option<Seq<char>>,
    s: Seq<(Seq<char>, ParsedModel)>,
) -> Seq<(Seq<char>, ValueModel)>
    decreases s, 0int,
{
    if s.len() == 0 {
        Seq::empty()
    } else {
        normalize_entries_spec(origin, s.drop_last()).push(
            (s.last().0, normalize_spec(origin, s.last().1)),
        )
    }
}

pub proof fn lemma_normalize_values_spec_len(origin: Option<Seq<char>>, s: Seq<ParsedModel>)
    ensures
        normalize_values_spec(origin, s).len() == s.len(),
    decreases s,
{
    if s.len() > 0 {
        lemma_normalize_values_spec_len(origin, s.drop_last());
    }
}

pub proof fn lemma_normalize_values_spec_index(origin: Option<Seq<char>>, s: Seq<ParsedModel>, i: int)
    requires
        0 <= i < s.len(),
    ensures
        normalize_values_spec(origin, s).len() == s.len(),
        normalize_values_spec(origin, s)[i] == normalize_spec(origin, s[i]),
    decreases s,
{
    lemma_normalize_values_spec_len(origin, s);
    if i < s.len() - 1 {
        lemma_normalize_values_spec_index(origin, s.drop_last(), i);
    }
}

pub proof fn lemma_normalize_entries_spec_len(
    origin: Option<Seq<char>>,
    s: Seq<(Seq<char>, ParsedModel)>,
)
    ensures
        normalize_entries_spec(origin, s).len() == s.len(),
    decreases s,
{
    if s.len() > 0 {
        lemma_normalize_entries_spec_len(origin, s.drop_last());
    }
}

pub proof fn lemma_normalize_entries_spec_index(
    origin: Option<Seq<char>>,
    s: Seq<(Seq<char>, ParsedModel)>,
    i: int,
)
    requires
        0 <= i < s.len(),
    ensures
        normalize_entries_spec(origin, s).len() == s.len(),
        normalize_entries_spec(origin, s)[i] == (s[i].0, normalize_spec(origin, s[i].1)),
    decreases s,
{
    lemma_normalize_entries_spec_len(origin, s);
    if i < s.len() - 1 {
        lemma_normalize_entries_spec_index(origin, s.drop_last(), i);
    }
}

/// Lowers one intermediate value into a canonical value, attaching the given
/// origin label to every node produced.
pub fn from_parsed_value(uri: Option<&String>, value: ParsedValue) -> (r: Value)
    ensures
        r.model() == normalize_spec(uri_model(uri), value.model()),
{
    from_parsed_ref(uri, &value)
}

/// Recursive worker for [`from_parsed_value`].
fn from_parsed_ref(uri: Option<&String>, value: &ParsedValue) -> (r: Value)
    ensures
        r.model() == normalize_spec(uri_model(uri), value.model()),
    decreases value, 1int,
{
    let kind = normalized_kind(uri, value);
    Value::new(uri, kind)
}

/// Recursively computes the canonical kind of one intermediate value.
#[verifier::loop_isolation(false)]
fn normalized_kind(uri: Option<&String>, value: &ParsedValue) -> (k: ValueKind)
    ensures
        k.model() == normalize_kind_spec(uri_model(uri), value.model()),
    decreases value, 0int,
{
    match value {
        ParsedValue::Nil => ValueKind::Nil,
        ParsedValue::Boolean(b) => ValueKind::Boolean(*b),
        ParsedValue::I64(v) => ValueKind::I64(*v),
        ParsedValue::I128(v) => ValueKind::I128(*v),
        ParsedValue::U64(v) => ValueKind::U64(*v),
        ParsedValue::U128(v) => ValueKind::U128(*v),
        ParsedValue::Float(bits) => ValueKind::Float(*bits),
        ParsedValue::String(s) => ValueKind::String(s.clone()),
        ParsedValue::Table(entries) => {
            let ghost em = parsed_entries_model(entries@);
            proof {
                crate::parsed::lemma_parsed_entries_model_len(entries@);
            }
            let mut out: Vec<(String, Value)> = Vec::new();
            let mut i: usize = 0;
            while i < entries.len()
                invariant
                    i <= entries.len(),
                    em == parsed_entries_model(entries@),
                    em.len() == entries@.len(),
                    out@.len() == i,
                    forall|j: int|
                        0 <= j < i ==> #[trigger] entries_model(out@)[j] == (
                            em[j].0,
                            normalize_spec(uri_model(uri), em[j].1),
                        ),
                decreases entries.len() - i,
            {
                proof {
                    lemma_parsed_entries_model_index(entries@, i as int);
                    assert(decreases_to!(*value => entries@[i as int].1)) by {
                        assert(decreases_to!(*value => value->Table_0));
                        assert(value->Table_0 == *entries);
                        assert(decreases_to!(*entries => entries@));
                        assert(decreases_to!(entries@ => entries@[i as int]));
                        assert(decreases_to!(entries@[i as int] => entries@[i as int].1));
                    }
                }
                let ghost prev = out@;
                let key = entries[i].0.clone();
                let v = from_parsed_ref(uri, &entries[i].1);
                out.push((key, v));
                proof {
                    assert forall|j: int| 0 <= j < i + 1 implies #[trigger] entries_model(out@)[j]
                        == (em[j].0, normalize_spec(uri_model(uri), em[j].1)) by {
                        lemma_entries_model_index(out@, j);
                        if j < i {
                            lemma_entries_model_index(prev, j);
                            assert(out@[j] == prev[j]);
                        }
                    }
                }
                i += 1;
            }
            proof {
                assert(entries_model(out@) =~= normalize_entries_spec(uri_model(uri), em)) by {
                    crate::value::lemma_entries_model_len(out@);
                    lemma_normalize_entries_spec_len(uri_model(uri), em);
                    assert forall|j: int| 0 <= j < em.len() implies entries_model(out@)[j]
                        == normalize_entries_spec(uri_model(uri), em)[j] by {
                        lemma_normalize_entries_spec_index(uri_model(uri), em, j);
                    }
                }
            }
            ValueKind::Table(Table { entries: out })
        },
        ParsedValue::Array(items) => {
            let ghost vm = parsed_values_model(items@);
            proof {
                crate::parsed::lemma_parsed_values_model_len(items@);
            }
            let mut out: Vec<Value> = Vec::new();
            let mut i: usize = 0;
            while i < items.len()
                invariant
                    i <= items.len(),
                    vm == parsed_values_model(items@),
                    vm.len() == items@.len(),
                    out@.len() == i,
                    forall|j: int|
                        0 <= j < i ==> #[trigger] values_model(out@)[j] == normalize_spec(
                            uri_model(uri),
                            vm[j],
                        ),
                decreases items.len() - i,
            {
                proof {
                    lemma_parsed_values_model_index(items@, i as int);
                    assert(decreases_to!(*value => items@[i as int])) by {
                        assert(decreases_to!(*value => value->Array_0));
                        assert(value->Array_0 == *items);
                        assert(decreases_to!(*items => items@));
                        assert(decreases_to!(items@ => items@[i as int]));
                    }
                }
                let ghost prev = out@;
                let v = from_parsed_ref(uri, &items[i]);
                out.push(v);
                proof {
                    assert forall|j: int| 0 <= j < i + 1 implies #[trigger] values_model(out@)[j]
                        == normalize_spec(uri_model(uri), vm[j]) by {
                        lemma_values_model_index(out@, j);
                        if j < i {
                            lemma_values_model_index(prev, j);
                            assert(out@[j] == prev[j]);
                        }
                    }
                }
                i += 1;
            }
            proof {
                assert(values_model(out@) =~= normalize_values_spec(uri_model(uri), vm)) by {
                    crate::value::lemma_values_model_len(out@);
                    lemma_normalize_values_spec_len(uri_model(uri), vm);
                    assert forall|j: int| 0 <= j < vm.len() implies values_model(out@)[j]
                        == normalize_values_spec(uri_model(uri), vm)[j] by {
                        lemma_normalize_values_spec_index(uri_model(uri), vm, j);
                    }
                }
            }
            ValueKind::Array(out)
        },
        ParsedValue::Option(o) => match o {
            Some(inner) => normalized_kind(uri, &**inner),
            None => ValueKind::Nil,
        },
    }
}

} // verus!
