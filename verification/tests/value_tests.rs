use grc20::pb;
use grc20::value::{u64_to_decimal, value_round_trip, Value, ValueType};

#[test]
fn decimal_rendering() {
    assert_eq!(u64_to_decimal(0), "0");
    assert_eq!(u64_to_decimal(7), "7");
    assert_eq!(u64_to_decimal(123), "123");
    assert_eq!(u64_to_decimal(18446744073709551615), "18446744073709551615");
}

#[test]
fn value_constructors() {
    assert_eq!(Value::text("hi".into()).value_type, ValueType::Text);
    let n = Value::number_from_u64(456);
    assert_eq!(n.value, "456");
    assert_eq!(n.value_type, ValueType::Number);
    assert_eq!(Value::checkbox(true).value, "true");
    assert_eq!(Value::checkbox(false).value, "false");
    assert_eq!(Value::url("u".into()).value_type, ValueType::Url);
    assert_eq!(Value::time("1970-01-01T00:00:00+00:00".into()).value_type, ValueType::Time);
    assert_eq!(Value::point("1,2".into()).value_type, ValueType::Point);
}

#[test]
fn wire_round_trip_for_every_type() {
    let values = vec![
        Value::text("t".into()),
        Value::number("42".into()),
        Value::checkbox(true),
        Value::url("https".into()),
        Value::time("1970-01-01T00:00:00+00:00".into()),
        Value::point("3,4".into()),
    ];
    for v in values {
        let back = value_round_trip(&v).expect("round trip succeeds");
        assert_eq!(back, v);
    }
}

#[test]
fn unknown_wire_tag_is_rejected() {
    let wire = pb::Value { value_type: 0, value: "x".into() };
    assert!(Value::from_wire(&wire).is_err());
    let wire = pb::Value { value_type: 99, value: "x".into() };
    assert!(Value::from_wire(&wire).is_err());
}

#[test]
fn wire_enum_names() {
    assert_eq!(pb::OpType::SetTriple.as_str_name(), "SET_TRIPLE");
    assert_eq!(pb::OpType::from_str_name("DELETE_TRIPLE"), Some(pb::OpType::DeleteTriple));
    assert_eq!(pb::OpType::from_str_name("BOGUS"), None);
    assert_eq!(pb::ValueType::Checkbox.as_str_name(), "CHECKBOX");
    assert_eq!(pb::ValueType::from_str_name("POINT"), Some(pb::ValueType::Point));
    assert_eq!(pb::ActionType::AddEdit.as_str_name(), "ADD_EDIT");
    assert_eq!(pb::ActionType::from_str_name("IMPORT_SPACE"), Some(pb::ActionType::ImportSpace));
    assert_eq!(pb::ActionType::from_str_name(""), None);
}

#[test]
fn wire_enum_tags() {
    assert_eq!(pb::OpType::of_tag(1), Some(pb::OpType::SetTriple));
    assert_eq!(pb::OpType::of_tag(99), None);
    assert_eq!(pb::OpType::SetTriple.tag(), 1);
    assert_eq!(pb::ValueType::of_tag(0), Some(pb::ValueType::Unknown));
    assert_eq!(pb::ValueType::Time.tag(), 5);
    assert_eq!(pb::ActionType::of_tag(4), Some(pb::ActionType::ImportSpace));
    assert_eq!(pb::ActionType::RemoveMember.tag(), 9);
}

#[test]
fn timestamp_rendering_uses_the_calendar() {
    let epoch = grc20::time::timestamp_rfc3339(0).expect("epoch renders");
    assert_eq!(epoch, "1970-01-01T00:00:00+00:00");
    let later = grc20::time::timestamp_rfc3339(86400).expect("day one renders");
    assert_eq!(later, "1970-01-02T00:00:00+00:00");
}
