use cqlsh_rs::fmt::{apply, fmt, fmt_duration, fmt_opt};
use cqlsh_rs::value::{Duration, Value};

#[test]
fn test_duration() {
    let value = Value::Duration(Duration {
        months: 234,
        days: 23,
        nanoseconds: 2849774297494,
    });

    assert_eq!(fmt(&value), "19y6mo3w2d47m29s774ms297us41ns");

    let value = Value::Duration(Duration {
        months: 3,
        days: 0,
        nanoseconds: 3545646435,
    });

    assert_eq!(fmt(&value), "3mo3s545ms646us36ns");

    let value = Value::Duration(Duration {
        months: 12,
        days: 0,
        nanoseconds: 400000,
    });

    assert_eq!(fmt(&value), "1y400us");
}

#[test]
fn duration_zero_is_empty() {
    let d = Duration { months: 0, days: 0, nanoseconds: 0 };
    assert_eq!(fmt_duration(&d), "");
}

#[test]
fn duration_negative_components_are_emitted() {
    // Only zero-valued units are omitted; a negative value keeps its
    // sign and is emitted like any other.
    let d = Duration { months: -5, days: -3, nanoseconds: -100 };
    assert_eq!(fmt_duration(&d), "-5mo-3d-8ns");
    let d = Duration { months: 13, days: -1, nanoseconds: 0 };
    assert_eq!(fmt_duration(&d), "1y1mo-1d");
}

#[test]
fn duration_weeks_and_days() {
    let d = Duration { months: 0, days: 23, nanoseconds: 0 };
    assert_eq!(fmt_duration(&d), "3w2d");
}

#[test]
fn scalar_unquoted_at_top_level_quoted_nested() {
    let v = Value::Text(String::from("abc"));
    assert_eq!(fmt(&v), "abc");
    let list = Value::List(vec![Value::Text(String::from("abc"))]);
    assert_eq!(fmt(&list), "{'abc'}");
    let n = Value::Int(7);
    assert_eq!(fmt(&n), "7");
    let list = Value::List(vec![Value::Int(7)]);
    assert_eq!(fmt(&list), "{'7'}");
}

#[test]
fn null_renders_at_every_depth() {
    assert_eq!(fmt_opt(&None), "null");
    let tuple = Value::Tuple(vec![None]);
    assert_eq!(fmt(&tuple), "{null}");
    let udt = Value::UserDefinedType(vec![(String::from("f"), None)]);
    assert_eq!(fmt(&udt), "{f: null}");
    // A tuple nested in a list is quoted like a scalar; the null inside
    // it still renders as the bare literal.
    let deep = Value::List(vec![Value::Tuple(vec![None, Some(Value::Int(1))])]);
    assert_eq!(fmt(&deep), "{'{null, '1'}'}");
}

#[test]
fn list_separator_count() {
    let list = Value::List(vec![Value::Int(1), Value::Int(2), Value::Int(3)]);
    let text = fmt(&list);
    assert_eq!(text, "{'1', '2', '3'}");
    assert_eq!(text.matches(", ").count(), 2);
    let single = Value::List(vec![Value::Int(1)]);
    assert_eq!(fmt(&single), "{'1'}");
}

#[test]
fn list_separators_are_positional() {
    // The separator is decided by position, never by comparing an
    // element against the last one: elements equal to the final element
    // still get their separator, and n elements carry exactly n - 1.
    let list = Value::List(vec![Value::Int(5), Value::Int(5)]);
    assert_eq!(fmt(&list), "{'5', '5'}");
    let list = Value::List(vec![Value::Int(5), Value::Int(5), Value::Int(6)]);
    assert_eq!(fmt(&list), "{'5', '5', '6'}");
    let tuple = Value::Tuple(vec![Some(Value::Int(1)), Some(Value::Int(1))]);
    assert_eq!(fmt(&tuple), "{'1', '1'}");
    let set = Value::OrderedSet(vec![Value::Text(String::from("a")), Value::Text(String::from("a"))]);
    assert_eq!(fmt(&set), "{'a', 'a'}");
}

#[test]
fn empty_containers_render_as_braces() {
    assert_eq!(fmt(&Value::List(vec![])), "{}");
    assert_eq!(fmt(&Value::OrderedSet(vec![])), "{}");
    assert_eq!(fmt(&Value::Mapping(vec![])), "{}");
    assert_eq!(fmt(&Value::Tuple(vec![])), "{}");
    assert_eq!(fmt(&Value::UserDefinedType(vec![])), "{}");
}

#[test]
fn map_renders_pairs_in_insertion_order() {
    let m = Value::Mapping(vec![
        (Value::Text(String::from("k")), Value::Int(1)),
        (Value::Text(String::from("l")), Value::Int(2)),
    ]);
    assert_eq!(fmt(&m), "{'k': '1', 'l': '2'}");
}

#[test]
fn map_separators_are_positional() {
    // One entry's value may equal another entry's key without any
    // separator being dropped.
    let m = Value::Mapping(vec![
        (Value::Text(String::from("a")), Value::Text(String::from("b"))),
        (Value::Text(String::from("b")), Value::Text(String::from("c"))),
    ]);
    assert_eq!(fmt(&m), "{'a': 'b', 'b': 'c'}");
}

#[test]
fn map_duplicate_keys_pass_through() {
    // Key uniqueness is assumed upstream and not re-checked: a
    // duplicated key renders twice, in insertion order.
    let m = Value::Mapping(vec![
        (Value::Text(String::from("k")), Value::Int(1)),
        (Value::Text(String::from("k")), Value::Int(2)),
    ]);
    assert_eq!(fmt(&m), "{'k': '1', 'k': '2'}");
}

#[test]
fn udt_field_names_are_not_quoted() {
    let udt = Value::UserDefinedType(vec![
        (String::from("a"), Some(Value::Int(1))),
        (String::from("b"), Some(Value::Text(String::from("x")))),
    ]);
    assert_eq!(fmt(&udt), "{a: '1', b: 'x'}");
}

#[test]
fn nested_containers_are_unquoted() {
    let inner = Value::List(vec![Value::Int(1), Value::Int(2)]);
    let outer = Value::List(vec![inner, Value::Int(3)]);
    assert_eq!(fmt(&outer), "{{'1', '2'}, '3'}");
    let m = Value::Mapping(vec![(
        Value::Text(String::from("k")),
        Value::OrderedSet(vec![Value::Int(9)]),
    )]);
    assert_eq!(fmt(&m), "{'k': {'9'}}");
}

#[test]
fn scalar_forms() {
    assert_eq!(fmt(&Value::Boolean(true)), "true");
    assert_eq!(fmt(&Value::Boolean(false)), "false");
    assert_eq!(fmt(&Value::Blob(vec![1, 2, 3])), "<blob>");
    assert_eq!(fmt(&Value::Empty), "");
    assert_eq!(fmt(&Value::Ascii(String::from("plain"))), "plain");
    assert_eq!(fmt(&Value::Date(String::from("2015-05-03"))), "2015-05-03");
    assert_eq!(
        fmt(&Value::Uuid(String::from("550e8400-e29b-41d4-a716-446655440000"))),
        "550e8400-e29b-41d4-a716-446655440000"
    );
    assert_eq!(fmt(&Value::Inet(String::from("127.0.0.1"))), "127.0.0.1");
    assert_eq!(fmt(&Value::Decimal(String::from("3.25"))), "3.25");
    assert_eq!(fmt(&Value::Double(String::from("1.5"))), "1.5");
}

#[test]
fn integer_forms() {
    assert_eq!(fmt(&Value::Int(0)), "0");
    assert_eq!(fmt(&Value::Int(-42)), "-42");
    assert_eq!(fmt(&Value::BigInt(9223372036854775807)), "9223372036854775807");
    assert_eq!(fmt(&Value::BigInt(i64::MIN)), "-9223372036854775808");
    assert_eq!(fmt(&Value::SmallInt(-300)), "-300");
    assert_eq!(fmt(&Value::TinyInt(i8::MIN)), "-128");
    assert_eq!(fmt(&Value::Counter(17)), "17");
}

#[test]
fn apply_hands_the_closure_an_empty_string() {
    let out = apply(|mut s: String| {
        s.push_str("built");
        s
    });
    assert_eq!(out, "built");
    let out = apply(|s: String| s);
    assert_eq!(out, "");
}
