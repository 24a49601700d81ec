use graphsynth::cells::{reflective_get, RawCell};
use graphsynth::numeral::parse_i64;
use graphsynth::scalar::{accessor_kind, col_type, AccessorKind, ScalarKind};

#[test]
fn maps_boolean_family() {
    assert_eq!(col_type("bool"), ScalarKind::Boolean);
}

#[test]
fn maps_character_families() {
    assert_eq!(col_type("varchar"), ScalarKind::Text);
    assert_eq!(col_type("char(n)"), ScalarKind::Text);
    assert_eq!(col_type("text"), ScalarKind::Text);
    assert_eq!(col_type("name"), ScalarKind::Text);
    assert_eq!(col_type("char"), ScalarKind::Text);
}

#[test]
fn maps_integer_families() {
    assert_eq!(col_type("int2"), ScalarKind::Integer);
    assert_eq!(col_type("smallserial"), ScalarKind::Integer);
    assert_eq!(col_type("smallint"), ScalarKind::Integer);
    assert_eq!(col_type("integer"), ScalarKind::Integer);
    assert_eq!(col_type("int"), ScalarKind::Integer);
    assert_eq!(col_type("int4"), ScalarKind::Integer);
    assert_eq!(col_type("serial"), ScalarKind::Integer);
    assert_eq!(col_type("int8"), ScalarKind::Integer);
    assert_eq!(col_type("bigserial"), ScalarKind::Integer);
    assert_eq!(col_type("bigint"), ScalarKind::Integer);
}

#[test]
fn maps_float_families() {
    assert_eq!(col_type("float4"), ScalarKind::Float);
    assert_eq!(col_type("real"), ScalarKind::Float);
    assert_eq!(col_type("float8"), ScalarKind::Float);
    assert_eq!(col_type("double precision"), ScalarKind::Float);
}

#[test]
fn maps_timestamps_to_text() {
    assert_eq!(col_type("timestamp"), ScalarKind::Text);
    assert_eq!(col_type("timestamptz"), ScalarKind::Text);
}

#[test]
fn unrecognized_type_degrades_to_text() {
    assert_eq!(col_type("uuid"), ScalarKind::Text);
    assert_eq!(col_type("jsonb"), ScalarKind::Text);
    assert_eq!(col_type(""), ScalarKind::Text);
}

#[test]
fn dispatch_picks_typed_accessors() {
    assert_eq!(accessor_kind("bool"), AccessorKind::BoolRead);
    assert_eq!(accessor_kind("varchar"), AccessorKind::TextRead);
    assert_eq!(accessor_kind("char(n)"), AccessorKind::TextRead);
    assert_eq!(accessor_kind("text"), AccessorKind::TextRead);
    assert_eq!(accessor_kind("name"), AccessorKind::TextRead);
    assert_eq!(accessor_kind("char"), AccessorKind::CharRead);
    assert_eq!(accessor_kind("int2"), AccessorKind::SmallIntRead);
    assert_eq!(accessor_kind("smallserial"), AccessorKind::SmallIntRead);
    assert_eq!(accessor_kind("smallint"), AccessorKind::SmallIntRead);
    assert_eq!(accessor_kind("integer"), AccessorKind::IntRead);
    assert_eq!(accessor_kind("int"), AccessorKind::IntRead);
    assert_eq!(accessor_kind("int4"), AccessorKind::IntRead);
    assert_eq!(accessor_kind("serial"), AccessorKind::IntRead);
    assert_eq!(accessor_kind("int8"), AccessorKind::BigIntRead);
    assert_eq!(accessor_kind("bigserial"), AccessorKind::BigIntRead);
    assert_eq!(accessor_kind("bigint"), AccessorKind::BigIntRead);
    assert_eq!(accessor_kind("float4"), AccessorKind::Float4Read);
    assert_eq!(accessor_kind("real"), AccessorKind::Float4Read);
    assert_eq!(accessor_kind("float8"), AccessorKind::Float8Read);
    assert_eq!(accessor_kind("double precision"), AccessorKind::Float8Read);
    assert_eq!(accessor_kind("timestamp"), AccessorKind::TimestampRead);
    assert_eq!(accessor_kind("timestamptz"), AccessorKind::TimestampRead);
    assert_eq!(accessor_kind("uuid"), AccessorKind::UnknownRead);
}

// coercing a synthetic value of each mapped native type yields a text that
// the declared scalar kind accepts without error
#[test]
fn coerced_value_parses_under_declared_kind() {
    let cases: Vec<(&str, RawCell)> = vec![
        ("bool", RawCell::Boolean(true)),
        ("varchar", RawCell::Text(String::from("abc"))),
        ("char", RawCell::CharByte(-7)),
        ("int2", RawCell::SmallInt(-32768)),
        ("int4", RawCell::Integer(2147483647)),
        ("int8", RawCell::BigInt(-9223372036854775808)),
        ("timestamptz", RawCell::Timestamp { secs: 0, nanos: 0 }),
        ("uuid", RawCell::Unrecognized),
    ];
    for (native, cell) in cases {
        let text = reflective_get(native, &cell);
        match col_type(native) {
            ScalarKind::Boolean => {
                assert!(text == "true" || text == "false");
            }
            ScalarKind::Integer => {
                assert!(parse_i64(&text).is_some());
            }
            ScalarKind::Float => {
                assert!(text.parse::<f64>().is_ok());
            }
            ScalarKind::Text => {
                // every text is acceptable under the textual kind
            }
        }
    }
}

#[test]
fn coerced_float_text_parses_as_float() {
    let text = reflective_get("float4", &RawCell::FloatText(String::from("1.5")));
    assert_eq!(text, "1.5");
    assert!(text.parse::<f64>().is_ok());
}
