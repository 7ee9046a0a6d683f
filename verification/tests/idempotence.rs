use config::normalize::from_parsed_value;
use config::parsed::ParsedValue;
use config::raw::{RawKey, RawValue};
use config::format::parse_document;
use config::probe::FormatCaps;
use config::value::{Table, Value, ValueKind};

// Reads a canonical value's underlying data back as an intermediate value,
// as a second normalization pass would receive it.
fn embed(kind: &ValueKind) -> ParsedValue {
    match kind {
        ValueKind::Nil => ParsedValue::Nil,
        ValueKind::Boolean(b) => ParsedValue::Boolean(*b),
        ValueKind::I64(v) => ParsedValue::I64(*v),
        ValueKind::I128(v) => ParsedValue::I128(*v),
        ValueKind::U64(v) => ParsedValue::U64(*v),
        ValueKind::U128(v) => ParsedValue::U128(*v),
        ValueKind::Float(bits) => ParsedValue::Float(*bits),
        ValueKind::String(s) => ParsedValue::String(s.clone()),
        ValueKind::Table(t) => ParsedValue::Table(
            t.entries.iter().map(|(k, v)| (k.clone(), embed(&v.kind))).collect(),
        ),
        ValueKind::Array(items) => {
            ParsedValue::Array(items.iter().map(|v| embed(&v.kind)).collect())
        }
    }
}

fn value_eq(a: &Value, b: &Value) -> bool {
    a.origin == b.origin && kind_eq(&a.kind, &b.kind)
}

fn kind_eq(a: &ValueKind, b: &ValueKind) -> bool {
    match (a, b) {
        (ValueKind::Nil, ValueKind::Nil) => true,
        (ValueKind::Boolean(x), ValueKind::Boolean(y)) => x == y,
        (ValueKind::I64(x), ValueKind::I64(y)) => x == y,
        (ValueKind::I128(x), ValueKind::I128(y)) => x == y,
        (ValueKind::U64(x), ValueKind::U64(y)) => x == y,
        (ValueKind::U128(x), ValueKind::U128(y)) => x == y,
        (ValueKind::Float(x), ValueKind::Float(y)) => x == y,
        (ValueKind::String(x), ValueKind::String(y)) => x == y,
        (ValueKind::Table(x), ValueKind::Table(y)) => {
            x.entries.len() == y.entries.len()
                && x.entries
                    .iter()
                    .zip(y.entries.iter())
                    .all(|((ka, va), (kb, vb))| ka == kb && value_eq(va, vb))
        }
        (ValueKind::Array(x), ValueKind::Array(y)) => {
            x.len() == y.len() && x.iter().zip(y.iter()).all(|(va, vb)| value_eq(va, vb))
        }
        _ => false,
    }
}

fn sample_table() -> Table {
    let raw = RawValue::Mapping(vec![
        (RawKey::Uint(42), RawValue::U64(7)),
        (
            RawKey::Str(String::from("nested")),
            RawValue::Mapping(vec![(RawKey::Str(String::from("flag")), RawValue::Bool(true))]),
        ),
        (
            RawKey::Str(String::from("list")),
            RawValue::Sequence(vec![RawValue::Str(String::from("s")), RawValue::Null]),
        ),
    ]);
    let uri = String::from("doc");
    parse_document(Some(&uri), FormatCaps { datetime_text: false, native_mapping: true }, &raw)
        .unwrap_or_else(|_| panic!("expected a table"))
}

#[test]
fn normalizing_canonical_data_again_is_identical() {
    let uri = String::from("doc");
    let t = sample_table();
    for (key, v) in &t.entries {
        let again = from_parsed_value(Some(&uri), embed(&v.kind));
        assert!(value_eq(v, &again), "entry {key} changed under a second normalization");
    }
}

#[test]
fn normalizing_whole_tree_again_keeps_key_order_and_origin() {
    let uri = String::from("doc");
    let t = sample_table();
    let whole = Value::new(Some(&uri), ValueKind::Table(t));
    let again = from_parsed_value(Some(&uri), embed(&whole.kind));
    assert!(value_eq(&whole, &again));
}
