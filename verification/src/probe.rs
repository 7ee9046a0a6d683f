//! The ordered probe: commits each self-describing raw node to the first
//! matching variant of the ambiguous intermediate model. The primary order
//! is the variant order of [`ParsedValue`]; string-like and map-like nodes
//! are resolved by a secondary probe whose optional steps are switched by
//! the registered format capabilities.

use vstd::prelude::*;
use crate::decimal::{dec_of_int, dec_of_nat, i64_decimal, push_char, u64_decimal};
use crate::parsed::{ParsedModel, ParsedValue, lemma_parsed_entries_model_len,
    lemma_parsed_entries_model_push, lemma_parsed_values_model_push, parsed_entries_model,
    parsed_values_model};
use crate::raw::{RawKey, RawKeyModel, RawModel, RawValue, lemma_raw_entries_model_index,
    lemma_raw_entries_model_len, lemma_raw_values_model_index, lemma_raw_values_model_len,
    raw_entries_model, raw_values_model};
use crate::value::{entries_unique, entry_insert_model, lemma_entry_insert_model_unique};

verus! {

/// Which optional promotions a format registers with the probe: admitting a
/// native date/time value as its canonical text, and admitting a native
/// mapping by re-keying it to string keys.
#[derive(Clone, Copy)]
pub struct FormatCaps {
    pub datetime_text: bool,
    pub native_mapping: bool,
}

/// The one failure the probe itself owns: a native mapping is not
/// representable as a table, because a key is neither string-like nor
/// numeric.
pub enum ProbeError {
    NotATable,
}

/// The string that re-keying renders for a native-mapping key: a
/// string-like key itself, the decimal text of a numeric key, nothing for
/// any other key.
pub open spec fn key_text(k: RawKeyModel) -> Option<Seq<char>> {
    match k {
        RawKeyModel::Str(s) => Some(s),
        RawKeyModel::Int(v) => Some(dec_of_int(v as int)),
        RawKeyModel::Uint(v) => Some(dec_of_nat(v as int)),
        RawKeyModel::Other => None,
    }
}

/// Every key of a mapping is already string-like, so the mapping has the
/// literal ordered-map shape.
pub open spec fn keys_all_str(s: Seq<(RawKeyModel, RawModel)>) -> bool {
    forall|i: int| 0 <= i < s.len() ==> s[i].0 is Str
}

/// What the probe makes of one raw node: the first matching variant, in the
/// mandatory order Boolean, I64, I128, U64, U128, Float, String, Table,
/// Array, Option, Nil. The width and signedness of a numeric node are
/// preserved exactly. A mapping matches the table variant when it has the
/// literal shape (all keys string-like) or when the native-mapping
/// capability is registered; re-keying it may fail, and that failure is the
/// document's, not retried with later variants.
pub open spec fn probe_spec(caps: FormatCaps, r: RawModel) -> Result<ParsedModel, ProbeError>
    decreases r,
{
    match r {
        RawModel::Bool(b) => Ok(ParsedModel::Boolean(b)),
        RawModel::I64(v) => Ok(ParsedModel::I64(v)),
        RawModel::I128(v) => Ok(ParsedModel::I128(v)),
        RawModel::U64(v) => Ok(ParsedModel::U64(v)),
        RawModel::U128(v) => Ok(ParsedModel::U128(v)),
        RawModel::Float(bits) => Ok(ParsedModel::Float(bits)),
        RawModel::Str(s) => Ok(ParsedModel::Str(s)),
        RawModel::Char(c) => Ok(ParsedModel::Str(seq![c])),
        RawModel::Datetime(s) => if caps.datetime_text {
            Ok(ParsedModel::Str(s))
        } else {
            Ok(ParsedModel::Nil)
        },
        RawModel::Mapping(entries) => if keys_all_str(entries) || caps.native_mapping {
            match probe_map_spec(caps, entries) {
                Ok(es) => Ok(ParsedModel::Table(es)),
                Err(e) => Err(e),
            }
        } else {
            Ok(ParsedModel::Nil)
        },
        RawModel::Sequence(items) => match probe_seq_spec(caps, items) {
            Ok(ps) => Ok(ParsedModel::Array(ps)),
            Err(e) => Err(e),
        },
        RawModel::Null => Ok(ParsedModel::Option(None)),
    }
}

/// The probe over a sequence of raw nodes, element by element; the first
/// failure is the whole sequence's.
pub open spec fn probe_seq_spec(caps: FormatCaps, s: Seq<RawModel>) -> Result<
    Seq<ParsedModel>,
    ProbeError,
>
    decreases s,
{
    if s.len() == 0 {
        Ok(Seq::empty())
    } else {
        match probe_seq_spec(caps, s.drop_last()) {
            Err(e) => Err(e),
            Ok(pre) => match probe_spec(caps, s.last()) {
                Err(e) => Err(e),
                Ok(p) => Ok(pre.push(p)),
            },
        }
    }
}

/// The probe over a mapping's entries: each key is re-keyed to its string
/// text, each value is probed, and the pair is inserted with ordered-map
/// semantics; the first failure is the whole mapping's.
pub open spec fn probe_map_spec(caps: FormatCaps, s: Seq<(RawKeyModel, RawModel)>) -> Result<
    Seq<(Seq<char>, ParsedModel)>,
    ProbeError,
>
    decreases s,
{
    if s.len() == 0 {
        Ok(Seq::empty())
    } else {
        match probe_map_spec(caps, s.drop_last()) {
            Err(e) => Err(e),
            Ok(pre) => match key_text(s.last().0) {
                None => Err(ProbeError::NotATable),
                Some(k) => match probe_spec(caps, s.last().1) {
                    Err(e) => Err(e),
                    Ok(p) => Ok(entry_insert_model(pre, k, p)),
                },
            },
        }
    }
}

/// A failed prefix decides the probe of the whole sequence.
proof fn lemma_probe_seq_spec_prefix_err(caps: FormatCaps, s: Seq<RawModel>, i: int)
    requires
        0 <= i <= s.len(),
        probe_seq_spec(caps, s.take(i)) is Err,
    ensures
        probe_seq_spec(caps, s) == probe_seq_spec(caps, s.take(i)),
    decreases s.len() - i,
{
    if i == s.len() {
        assert(s.take(i) =~= s);
    } else {
        assert(s.take(i + 1).drop_last() =~= s.take(i));
        lemma_probe_seq_spec_prefix_err(caps, s, i + 1);
    }
}

/// A failed prefix decides the probe of the whole mapping.
proof fn lemma_probe_map_spec_prefix_err(caps: FormatCaps, s: Seq<(RawKeyModel, RawModel)>, i: int)
    requires
        0 <= i <= s.len(),
        probe_map_spec(caps, s.take(i)) is Err,
    ensures
        probe_map_spec(caps, s) == probe_map_spec(caps, s.take(i)),
    decreases s.len() - i,
{
    if i == s.len() {
        assert(s.take(i) =~= s);
    } else {
        assert(s.take(i + 1).drop_last() =~= s.take(i));
        lemma_probe_map_spec_prefix_err(caps, s, i + 1);
    }
}

/// An Ok probe of a mapping's entries has pairwise distinct keys.
pub proof fn lemma_probe_map_spec_unique(caps: FormatCaps, s: Seq<(RawKeyModel, RawModel)>)
    ensures
        probe_map_spec(caps, s) matches Ok(es) ==> entries_unique(es),
    decreases s,
{
    if s.len() > 0 {
        lemma_probe_map_spec_unique(caps, s.drop_last());
        if probe_map_spec(caps, s) matches Ok(es) {
            let pre = probe_map_spec(caps, s.drop_last())->Ok_0;
            let k = key_text(s.last().0)->Some_0;
            let p = probe_spec(caps, s.last().1)->Ok_0;
            lemma_entry_insert_model_unique(pre, k, p);
        }
    }
}

/// The model of an exec probe result.
pub open spec fn probe_result_model(r: Result<ParsedValue, ProbeError>) -> Result<
    ParsedModel,
    ProbeError,
> {
    match r {
        Ok(p) => Ok(p.model()),
        Err(e) => Err(e),
    }
}

/// Inserts one entry into an insertion-ordered table with unique keys: an
/// existing key keeps its position and stored key and takes the new value,
/// a new key is appended.
#[verifier::loop_isolation(false)]
fn entry_insert(entries: &mut Vec<(String, ParsedValue)>, key: String, value: ParsedValue)
    requires
        entries_unique(parsed_entries_model(old(entries)@)),
    ensures
        parsed_entries_model(final(entries)@) == entry_insert_model(
            parsed_entries_model(old(entries)@),
            key@,
            value.model(),
        ),
        entries_unique(parsed_entries_model(final(entries)@)),
{
    let ghost em0 = parsed_entries_model(entries@);
    proof {
        lemma_parsed_entries_model_len(entries@);
    }
    let mut j: usize = 0;
    while j < entries.len()
        invariant
            j <= entries.len(),
            entries@ == old(entries)@,
            forall|t: int| 0 <= t < j ==> #[trigger] em0[t].0 != key@,
        decreases entries.len() - j,
    {
        proof {
            crate::parsed::lemma_parsed_entries_model_index(entries@, j as int);
        }
        if entries[j].0 == key {
            let ghost prev = entries@;
            let pair = entries.remove(j);
            entries.insert(j, (pair.0, value));
            proof {
                assert(entries@ =~= prev.update(j as int, (prev[j as int].0, value)));
                let em1 = parsed_entries_model(entries@);
                lemma_parsed_entries_model_len(entries@);
                assert(em1 =~= em0.update(j as int, (em0[j as int].0, value.model()))) by {
                    assert forall|t: int| 0 <= t < em1.len() implies em1[t] == em0.update(
                        j as int,
                        (em0[j as int].0, value.model()),
                    )[t] by {
                        crate::parsed::lemma_parsed_entries_model_index(entries@, t);
                        crate::parsed::lemma_parsed_entries_model_index(prev, t);
                    }
                }
                // the chosen index of the model-level insertion is exactly j
                assert(0 <= j < em0.len() && em0[j as int].0 == key@);
                let c = choose|i: int| 0 <= i < em0.len() && em0[i].0 == key@;
                assert(em0[c].0 == key@);
                assert(c == j as int);
                lemma_entry_insert_model_unique(em0, key@, value.model());
            }
            return;
        }
        j += 1;
    }
    let ghost prev = entries@;
    entries.push((key, value));
    proof {
        lemma_parsed_entries_model_push(prev, (key, value));
        assert(!(exists|i: int| 0 <= i < em0.len() && em0[i].0 == key@));
        lemma_entry_insert_model_unique(em0, key@, value.model());
    }
}

/// Probes one raw node, committing it to the first matching variant of the
/// intermediate model in the mandatory order.
#[verifier::loop_isolation(false)]
pub fn probe(caps: FormatCaps, raw: &RawValue) -> (r: Result<ParsedValue, ProbeError>)
    ensures
        probe_result_model(r) == probe_spec(caps, raw.model()),
    decreases raw,
{
    match raw {
        RawValue::Bool(b) => Ok(ParsedValue::Boolean(*b)),
        RawValue::I64(v) => Ok(ParsedValue::I64(*v)),
        RawValue::I128(v) => Ok(ParsedValue::I128(*v)),
        RawValue::U64(v) => Ok(ParsedValue::U64(*v)),
        RawValue::U128(v) => Ok(ParsedValue::U128(*v)),
        RawValue::Float(bits) => Ok(ParsedValue::Float(*bits)),
        RawValue::Str(s) => Ok(ParsedValue::String(s.clone())),
        RawValue::Char(c) => {
            let mut s = String::new();
            push_char(&mut s, *c);
            proof {
                assert(s@ =~= seq![*c]);
            }
            Ok(ParsedValue::String(s))
        },
        RawValue::Datetime(s) => {
            if caps.datetime_text {
                Ok(ParsedValue::String(s.clone()))
            } else {
                Ok(ParsedValue::Nil)
            }
        },
        RawValue::Null => Ok(ParsedValue::Option(None)),
        RawValue::Sequence(items) => {
            let ghost rm = raw_values_model(items@);
            proof {
                lemma_raw_values_model_len(items@);
            }
            let mut out: Vec<ParsedValue> = Vec::new();
            let mut i: usize = 0;
            while i < items.len()
                invariant
                    i <= items.len(),
                    out@.len() == i,
                    probe_seq_spec(caps, rm.take(i as int)) == Ok::<Seq<ParsedModel>, ProbeError>(
                        parsed_values_model(out@),
                    ),
                decreases items.len() - i,
            {
                proof {
                    lemma_raw_values_model_index(items@, i as int);
                    assert(decreases_to!(*raw => items@[i as int])) by {
                        assert(decreases_to!(*raw => raw->Sequence_0));
                        assert(raw->Sequence_0 == *items);
                        assert(decreases_to!(*items => items@));
                        assert(decreases_to!(items@ => items@[i as int]));
                    }
                    assert(rm.take(i as int + 1).drop_last() =~= rm.take(i as int));
                    assert(rm.take(i as int + 1).last() == rm[i as int]);
                }
                match probe(caps, &items[i]) {
                    Err(e) => {
                        proof {
                            lemma_probe_seq_spec_prefix_err(caps, rm, i as int + 1);
                        }
                        return Err(e);
                    },
                    Ok(p) => {
                        let ghost prev = out@;
                        out.push(p);
                        proof {
                            lemma_parsed_values_model_push(prev, p);
                        }
                    },
                }
                i += 1;
            }
            proof {
                assert(rm.take(items@.len() as int) =~= rm);
            }
            Ok(ParsedValue::Array(out))
        },
        RawValue::Mapping(entries) => {
            let ghost em = raw_entries_model(entries@);
            proof {
                lemma_raw_entries_model_len(entries@);
            }
            // secondary probe, first step: the literal ordered-map shape,
            // which asks every key to be string-like already
            let mut literal = true;
            let mut j: usize = 0;
            while j < entries.len()
                invariant
                    j <= entries.len(),
                    literal ==> (forall|t: int| 0 <= t < j ==> #[trigger] em[t].0 is Str),
                    !literal ==> !keys_all_str(em),
                decreases entries.len() - j,
            {
                proof {
                    lemma_raw_entries_model_index(entries@, j as int);
                }
                match &entries[j].0 {
                    RawKey::Str(_) => {},
                    _ => {
                        literal = false;
                        proof {
                            assert(!(em[j as int].0 is Str));
                            assert(!keys_all_str(em));
                        }
                    },
                }
                j += 1;
            }
            proof {
                if literal {
                    assert(keys_all_str(em));
                }
            }
            // secondary probe, second step: the registered native-mapping
            // capability, which re-keys numeric keys as decimal text
            if literal || caps.native_mapping {
                let mut out: Vec<(String, ParsedValue)> = Vec::new();
                let mut i: usize = 0;
                while i < entries.len()
                    invariant
                        i <= entries.len(),
                        probe_map_spec(caps, em.take(i as int)) == Ok::<
                            Seq<(Seq<char>, ParsedModel)>,
                            ProbeError,
                        >(parsed_entries_model(out@)),
                        entries_unique(parsed_entries_model(out@)),
                    decreases entries.len() - i,
                {
                    proof {
                        lemma_raw_entries_model_index(entries@, i as int);
                        assert(decreases_to!(*raw => entries@[i as int].1)) by {
                            assert(decreases_to!(*raw => raw->Mapping_0));
                            assert(raw->Mapping_0 == *entries);
                            assert(decreases_to!(*entries => entries@));
                            assert(decreases_to!(entries@ => entries@[i as int]));
                            assert(decreases_to!(entries@[i as int] => entries@[i as int].1));
                        }
                        assert(em.take(i as int + 1).drop_last() =~= em.take(i as int));
                        assert(em.take(i as int + 1).last() == em[i as int]);
                    }
                    let key: String = match &entries[i].0 {
                        RawKey::Str(s) => s.clone(),
                        RawKey::Int(v) => i64_decimal(*v),
                        RawKey::Uint(v) => u64_decimal(*v),
                        RawKey::Other => {
                            proof {
                                lemma_probe_map_spec_prefix_err(caps, em, i as int + 1);
                            }
                            return Err(ProbeError::NotATable);
                        },
                    };
                    match probe(caps, &entries[i].1) {
                        Err(e) => {
                            proof {
                                lemma_probe_map_spec_prefix_err(caps, em, i as int + 1);
                            }
                            return Err(e);
                        },
                        Ok(p) => {
                            entry_insert(&mut out, key, p);
                        },
                    }
                    i += 1;
                }
                proof {
                    assert(em.take(entries@.len() as int) =~= em);
                }
                Ok(ParsedValue::Table(out))
            } else {
                // no variant before the catch-all matches this mapping
                Ok(ParsedValue::Nil)
            }
        },
    }
}

} // verus!
