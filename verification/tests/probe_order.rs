use config::decimal::{i64_decimal, u64_decimal};
use config::parsed::ParsedValue;
use config::probe::{FormatCaps, ProbeError, probe};
use config::raw::{RawKey, RawValue};

fn caps_all() -> FormatCaps {
    FormatCaps { datetime_text: true, native_mapping: true }
}

fn caps_none() -> FormatCaps {
    FormatCaps { datetime_text: false, native_mapping: false }
}

#[test]
fn scalars_keep_width_and_signedness() {
    assert!(matches!(probe(caps_none(), &RawValue::Bool(true)), Ok(ParsedValue::Boolean(true))));
    assert!(matches!(probe(caps_none(), &RawValue::I64(-7)), Ok(ParsedValue::I64(-7))));
    assert!(matches!(probe(caps_none(), &RawValue::U64(7)), Ok(ParsedValue::U64(7))));
    assert!(matches!(
        probe(caps_none(), &RawValue::U64(u64::MAX)),
        Ok(ParsedValue::U64(u64::MAX))
    ));
    assert!(matches!(
        probe(caps_none(), &RawValue::I128(i128::MIN)),
        Ok(ParsedValue::I128(i128::MIN))
    ));
    assert!(matches!(
        probe(caps_none(), &RawValue::U128(u128::MAX)),
        Ok(ParsedValue::U128(u128::MAX))
    ));
    let bits = 2.5f64.to_bits();
    match probe(caps_none(), &RawValue::Float(bits)) {
        Ok(ParsedValue::Float(b)) => assert_eq!(b, bits),
        _ => panic!("expected a float"),
    }
}

#[test]
fn probe_is_deterministic_across_repeated_calls() {
    let raw = RawValue::U64(5);
    for _ in 0..3 {
        assert!(matches!(probe(caps_none(), &raw), Ok(ParsedValue::U64(5))));
    }
}

#[test]
fn char_promotes_to_one_character_string() {
    match probe(caps_none(), &RawValue::Char('x')) {
        Ok(ParsedValue::String(s)) => assert_eq!(s, "x"),
        _ => panic!("expected a string"),
    }
}

#[test]
fn datetime_promotes_only_with_capability() {
    let raw = RawValue::Datetime(String::from("1979-05-27T07:32:00Z"));
    match probe(caps_all(), &raw) {
        Ok(ParsedValue::String(s)) => assert_eq!(s, "1979-05-27T07:32:00Z"),
        _ => panic!("expected the canonical text"),
    }
    // without the capability nothing before the catch-all matches
    assert!(matches!(probe(caps_none(), &raw), Ok(ParsedValue::Nil)));
}

#[test]
fn null_matches_the_option_variant_before_nil() {
    assert!(matches!(probe(caps_none(), &RawValue::Null), Ok(ParsedValue::Option(None))));
}

#[test]
fn sequence_probes_each_element() {
    let raw = RawValue::Sequence(vec![
        RawValue::Str(String::from("a")),
        RawValue::Null,
        RawValue::I64(3),
    ]);
    match probe(caps_none(), &raw) {
        Ok(ParsedValue::Array(items)) => {
            assert_eq!(items.len(), 3);
            assert!(matches!(&items[0], ParsedValue::String(s) if s == "a"));
            assert!(matches!(items[1], ParsedValue::Option(None)));
            assert!(matches!(items[2], ParsedValue::I64(3)));
        }
        _ => panic!("expected an array"),
    }
}

#[test]
fn mapping_literal_shape_needs_no_capability() {
    let raw = RawValue::Mapping(vec![(RawKey::Str(String::from("k")), RawValue::U64(1))]);
    match probe(caps_none(), &raw) {
        Ok(ParsedValue::Table(entries)) => {
            assert_eq!(entries.len(), 1);
            assert_eq!(entries[0].0, "k");
            assert!(matches!(entries[0].1, ParsedValue::U64(1)));
        }
        _ => panic!("expected a table"),
    }
}

#[test]
fn mapping_bad_key_is_not_retried_with_later_variants() {
    let raw = RawValue::Mapping(vec![(RawKey::Other, RawValue::U64(1))]);
    assert!(matches!(probe(caps_all(), &raw), Err(ProbeError::NotATable)));
}

#[test]
fn decimal_text_of_unsigned() {
    assert_eq!(u64_decimal(0), "0");
    assert_eq!(u64_decimal(9), "9");
    assert_eq!(u64_decimal(10), "10");
    assert_eq!(u64_decimal(12345), "12345");
    assert_eq!(u64_decimal(u64::MAX), "18446744073709551615");
}

#[test]
fn decimal_text_of_signed() {
    assert_eq!(i64_decimal(0), "0");
    assert_eq!(i64_decimal(42), "42");
    assert_eq!(i64_decimal(-42), "-42");
    assert_eq!(i64_decimal(i64::MIN), "-9223372036854775808");
    assert_eq!(i64_decimal(i64::MAX), "9223372036854775807");
}
