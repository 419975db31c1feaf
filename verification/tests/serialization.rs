use influxdb_client::decimal::{i64_to_string, u64_to_string};
use influxdb_client::escape::{
    escape_field_value_string, escape_measurement, escape_tag_and_field_keys,
};
use influxdb_client::models::{InfluxError, Point, Precision, Timestamp, Value};
use influxdb_client::traits::PointSerialize;

#[test]
fn escape_measurement_escapes_commas_and_spaces() {
    assert_eq!(escape_measurement("temp,a b"), "temp\\,a\\ b");
    assert_eq!(escape_measurement("plain"), "plain");
    assert_eq!(escape_measurement(""), "");
    assert_eq!(escape_measurement("a=b"), "a=b");
}

#[test]
fn escape_keys_escapes_commas_equals_and_spaces() {
    assert_eq!(escape_tag_and_field_keys("a,b=c d"), "a\\,b\\=c\\ d");
    assert_eq!(escape_tag_and_field_keys("plain"), "plain");
    assert_eq!(escape_tag_and_field_keys("a\"b"), "a\"b");
}

#[test]
fn escape_string_value_escapes_quotes_and_backslashes() {
    assert_eq!(escape_field_value_string("a\"b"), "a\\\"b");
    assert_eq!(escape_field_value_string("a\\b"), "a\\\\b");
    assert_eq!(escape_field_value_string("a,b= c"), "a,b= c");
}

#[test]
fn decimal_rendering_of_unsigned_values() {
    assert_eq!(u64_to_string(0), "0");
    assert_eq!(u64_to_string(7), "7");
    assert_eq!(u64_to_string(1622547800), "1622547800");
    assert_eq!(u64_to_string(u64::MAX), "18446744073709551615");
}

#[test]
fn decimal_rendering_of_signed_values() {
    assert_eq!(i64_to_string(0), "0");
    assert_eq!(i64_to_string(42), "42");
    assert_eq!(i64_to_string(-7), "-7");
    assert_eq!(i64_to_string(i64::MIN), "-9223372036854775808");
    assert_eq!(i64_to_string(i64::MAX), "9223372036854775807");
}

#[test]
fn value_formatting_per_variant() {
    assert_eq!(Value::Int(42).format(), "42");
    assert_eq!(Value::Int(-7).format(), "-7");
    assert_eq!(Value::Bool(true).format(), "true");
    assert_eq!(Value::Bool(false).format(), "false");
    assert_eq!(Value::Str("a\"b".to_string()).format(), "\"a\\\"b\"");
    assert_eq!(Value::Float(format!("{}", 0.64f64)).format(), "0.64");
}

#[test]
fn value_from_u64_wraps_into_signed_range() {
    assert_eq!(Value::from_u64(5).format(), "5");
    assert_eq!(Value::from_u64(i64::MAX as u64).format(), "9223372036854775807");
    assert_eq!(Value::from_u64(u64::MAX).format(), "-1");
    assert_eq!(Value::from_u64(9223372036854775808u64).format(), "-9223372036854775808");
}

#[test]
fn timestamp_stringification() {
    assert_eq!(Timestamp::Int(1622547800).to_string(), "1622547800");
    assert_eq!(Timestamp::Int(-5).to_string(), "-5");
    assert_eq!(Timestamp::Str("five past noon".to_string()).to_string(), "five past noon");
    assert_eq!(Timestamp::default().to_string(), "0");
}

#[test]
fn timestamp_debug_rendering() {
    assert_eq!(
        Timestamp::Str("abc".to_string()).debug_text(),
        Some("StrTimestamp(abc)".to_string())
    );
    assert_eq!(
        Timestamp::Int(0).debug_text(),
        Some("IntTimestamp(1970-01-01 00:00:00)".to_string())
    );
    assert_eq!(
        Timestamp::Int(1622547800).debug_text(),
        Some("IntTimestamp(2021-06-01 11:43:20)".to_string())
    );
}

#[test]
fn full_point_with_tag_field_and_timestamp() {
    let line = Point::new("cpu".to_string())
        .tag("host".to_string(), "server01".to_string())
        .field("value".to_string(), Value::Float(format!("{}", 0.64f64)))
        .timestamp(Timestamp::Int(1622547800))
        .serialize_with_timestamp(None);
    assert_eq!(line, "cpu,host=server01 value=0.64 1622547800");
}

#[test]
fn measurement_and_string_field_are_escaped() {
    let line = Point::new("temp,a b".to_string())
        .field("x".to_string(), Value::Str("a\"b".to_string()))
        .serialize();
    assert_eq!(line, "temp\\,a\\ b x=\"a\\\"b\"");
}

#[test]
fn no_tags_means_no_comma_before_first_space() {
    let line = Point::new("cpu".to_string())
        .field("value".to_string(), Value::Int(1))
        .serialize();
    assert_eq!(line, "cpu value=1");
    let before_space: &str = line.split(' ').next().unwrap();
    assert!(!before_space.contains(','));
}

#[test]
fn multiple_tags_and_fields_are_comma_joined() {
    let line = Point::new("m".to_string())
        .tag("a".to_string(), "1".to_string())
        .tag("b".to_string(), "2".to_string())
        .field("x".to_string(), Value::Int(3))
        .field("y".to_string(), Value::Bool(true))
        .serialize();
    assert_eq!(line, "m,a=1,b=2 x=3,y=true");
}

#[test]
fn point_without_fields_serializes_to_degenerate_line() {
    let line = Point::new("m".to_string())
        .tag("a".to_string(), "b".to_string())
        .serialize();
    assert_eq!(line, "m,a=b");
}

#[test]
fn timestamp_override_appends_space_and_digits() {
    let p = Point::new("m".to_string()).field("x".to_string(), Value::Int(1));
    let base = p.serialize();
    let with_ts = p.serialize_with_timestamp(Some(Timestamp::Int(99)));
    assert_eq!(with_ts, format!("{} {}", base, 99));
}

#[test]
fn timestamp_fallback_uses_point_timestamp_then_zero() {
    let p = Point::new("m".to_string()).field("x".to_string(), Value::Int(1));
    assert_eq!(p.serialize_with_timestamp(None), "m x=1 0");
    let p = p.timestamp(Timestamp::Int(123));
    assert_eq!(p.serialize_with_timestamp(None), "m x=1 123");
    let p = p.timestamp(Timestamp::Str("later".to_string()));
    assert_eq!(p.serialize_with_timestamp(None), "m x=1 later");
}

#[test]
fn serialize_is_idempotent_on_an_unmutated_point() {
    let p = Point::new("cpu".to_string())
        .tag("host".to_string(), "server01".to_string())
        .field("value".to_string(), Value::Int(2));
    assert_eq!(p.serialize(), p.serialize());
    assert_eq!(
        p.serialize_with_timestamp(Some(Timestamp::Int(7))),
        p.serialize_with_timestamp(Some(Timestamp::Int(7)))
    );
}

#[test]
fn tag_keys_and_values_are_escaped() {
    let line = Point::new("m".to_string())
        .tag("a,b= c".to_string(), "d e".to_string())
        .field("f g".to_string(), Value::Int(1))
        .serialize();
    assert_eq!(line, "m,a\\,b\\=\\ c=d\\ e f\\ g=1");
}

#[test]
fn precision_codes() {
    assert_eq!(Precision::NS.to_string(), "ns");
    assert_eq!(Precision::US.to_string(), "us");
    assert_eq!(Precision::MS.to_string(), "ms");
    assert_eq!(Precision::S.to_string(), "s");
}

#[test]
fn error_messages_carry_variant_prefix_and_text() {
    assert!(InfluxError::InvalidSyntax("bad".to_string())
        .message()
        .contains("Invalid syntax: bad"));
    assert_eq!(
        InfluxError::InvalidCredentials("no token".to_string()).message(),
        "Invalid credentials: no token"
    );
    assert_eq!(InfluxError::Forbidden("org".to_string()).message(), "Forbidden: org");
    assert_eq!(InfluxError::Unknown("odd".to_string()).message(), "Unknown error: odd");
    assert_eq!(
        InfluxError::Network("connection refused".to_string()).message(),
        "Network error: connection refused"
    );
}
