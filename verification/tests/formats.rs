use config::error::{ConfigError, Unexpected};
use config::format::parse_document;
use config::probe::FormatCaps;
use config::raw::{RawKey, RawValue};
use config::value::{Table, ValueKind};

// These tests drive the verified pipeline from raw document text through the
// real format libraries, converting each library's self-describing value
// into the pipeline's raw model, as an adapter does.

fn yaml_to_raw(v: serde_yaml::Value) -> RawValue {
    match v {
        serde_yaml::Value::Null => RawValue::Null,
        serde_yaml::Value::Bool(b) => RawValue::Bool(b),
        serde_yaml::Value::Number(n) => {
            if let Some(i) = n.as_i64() {
                RawValue::I64(i)
            } else if let Some(u) = n.as_u64() {
                RawValue::U64(u)
            } else {
                RawValue::Float(n.as_f64().unwrap_or(f64::NAN).to_bits())
            }
        }
        serde_yaml::Value::String(s) => RawValue::Str(s),
        serde_yaml::Value::Sequence(items) => {
            RawValue::Sequence(items.into_iter().map(yaml_to_raw).collect())
        }
        serde_yaml::Value::Mapping(m) => RawValue::Mapping(
            m.into_iter().map(|(k, val)| (yaml_key_to_raw(k), yaml_to_raw(val))).collect(),
        ),
        serde_yaml::Value::Tagged(t) => yaml_to_raw(t.value),
    }
}

fn yaml_key_to_raw(k: serde_yaml::Value) -> RawKey {
    match k {
        serde_yaml::Value::String(s) => RawKey::Str(s),
        serde_yaml::Value::Number(n) => {
            if let Some(i) = n.as_i64() {
                RawKey::Int(i)
            } else if let Some(u) = n.as_u64() {
                RawKey::Uint(u)
            } else {
                RawKey::Str(n.to_string())
            }
        }
        _ => RawKey::Other,
    }
}

fn parse_yaml(uri: Option<&String>, text: &str) -> Result<Table, ConfigError> {
    let doc: serde_yaml::Value =
        serde_yaml::from_str(text).map_err(|e| ConfigError::Message(e.to_string()))?;
    let raw = yaml_to_raw(doc);
    parse_document(uri, FormatCaps { datetime_text: false, native_mapping: true }, &raw)
}

fn toml_to_raw(v: toml::Value) -> RawValue {
    match v {
        toml::Value::String(s) => RawValue::Str(s),
        toml::Value::Integer(i) => RawValue::I64(i),
        toml::Value::Float(f) => RawValue::Float(f.to_bits()),
        toml::Value::Boolean(b) => RawValue::Bool(b),
        toml::Value::Datetime(d) => RawValue::Datetime(d.to_string()),
        toml::Value::Array(items) => {
            RawValue::Sequence(items.into_iter().map(toml_to_raw).collect())
        }
        toml::Value::Table(t) => RawValue::Mapping(
            t.into_iter().map(|(k, val)| (RawKey::Str(k), toml_to_raw(val))).collect(),
        ),
    }
}

fn parse_toml(uri: Option<&String>, text: &str) -> Result<Table, ConfigError> {
    let doc: toml::Value =
        toml::from_str(text).map_err(|e| ConfigError::Message(e.to_string()))?;
    let raw = toml_to_raw(doc);
    parse_document(uri, FormatCaps { datetime_text: true, native_mapping: false }, &raw)
}

#[test]
fn yaml_flow_document_end_to_end() {
    let uri = String::from("inline");
    let t = parse_yaml(Some(&uri), "{\"a\": 1, \"b\": {\"c\": true}}")
        .unwrap_or_else(|_| panic!("expected a table"));
    assert_eq!(t.entries.len(), 2);
    assert_eq!(t.entries[0].0, "a");
    assert!(matches!(t.entries[0].1.kind, ValueKind::I64(1)));
    assert_eq!(t.entries[0].1.origin, Some(String::from("inline")));
    match &t.entries[1].1.kind {
        ValueKind::Table(inner) => {
            assert_eq!(inner.entries[0].0, "c");
            assert!(matches!(inner.entries[0].1.kind, ValueKind::Boolean(true)));
            assert_eq!(inner.entries[0].1.origin, Some(String::from("inline")));
        }
        _ => panic!("expected a nested table"),
    }
}

#[test]
fn yaml_numeric_keys_are_rekeyed() {
    let t = parse_yaml(None, "42: seven\nx: 1\n").unwrap_or_else(|_| panic!("expected a table"));
    assert_eq!(t.entries.len(), 2);
    assert_eq!(t.entries[0].0, "42");
    assert!(matches!(&t.entries[0].1.kind, ValueKind::String(s) if s == "seven"));
    assert_eq!(t.entries[1].0, "x");
}

#[test]
fn yaml_root_scalar_fails() {
    match parse_yaml(None, "true") {
        Err(ConfigError::InvalidRootShape { unexpected, .. }) => {
            assert!(matches!(unexpected, Unexpected::Bool(true)));
        }
        _ => panic!("expected a root-shape error"),
    }
}

#[test]
fn yaml_large_unsigned_stays_unsigned() {
    // 2^63 does not fit a signed 64-bit integer
    let t = parse_yaml(None, "big: 9223372036854775808\n")
        .unwrap_or_else(|_| panic!("expected a table"));
    assert!(matches!(t.entries[0].1.kind, ValueKind::U64(9223372036854775808)));
}

#[test]
fn toml_document_end_to_end() {
    let uri = String::from("conf.toml");
    let t = parse_toml(Some(&uri), "n = -3\nok = true\n[sub]\nname = \"hi\"\n")
        .unwrap_or_else(|_| panic!("expected a table"));
    assert_eq!(t.entries[0].0, "n");
    assert!(matches!(t.entries[0].1.kind, ValueKind::I64(-3)));
    assert_eq!(t.entries[1].0, "ok");
    assert!(matches!(t.entries[1].1.kind, ValueKind::Boolean(true)));
    match &t.entries[2].1.kind {
        ValueKind::Table(inner) => {
            assert!(matches!(&inner.entries[0].1.kind, ValueKind::String(s) if s == "hi"));
            assert_eq!(inner.entries[0].1.origin, Some(String::from("conf.toml")));
        }
        _ => panic!("expected a nested table"),
    }
}

#[test]
fn toml_datetime_promotes_to_its_canonical_text() {
    let t = parse_toml(None, "when = 1979-05-27T07:32:00Z\n")
        .unwrap_or_else(|_| panic!("expected a table"));
    assert_eq!(t.entries[0].0, "when");
    assert!(matches!(&t.entries[0].1.kind, ValueKind::String(s) if s == "1979-05-27T07:32:00Z"));
}
