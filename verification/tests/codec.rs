//! The scalar value model and the per-type field codec.

use tymigrawr::{CrudField, Error, FieldMap, FloatBits, IsCrudField, Value, ValueType};

#[test]
fn value_accessors_return_the_active_variant() {
    assert_eq!(Value::Integer(42).as_i64(), Some(42));
    assert_eq!(Value::Text("x".to_string()).as_i64(), None);
    assert_eq!(Value::Float(1.5f64.to_bits()).as_float_bits(), Some(1.5f64.to_bits()));
    assert_eq!(Value::Integer(1).as_float_bits(), None);
    assert_eq!(
        Value::Text("hello".to_string()).as_string().map(|s| s.as_str()),
        Some("hello")
    );
    assert_eq!(Value::Null.as_string(), None);
    assert_eq!(
        Value::Bytes(vec![1, 2, 3]).as_bytes().map(|b| b.clone()),
        Some(vec![1, 2, 3])
    );
    assert_eq!(Value::Integer(1).as_bytes(), None);
}

#[test]
fn value_equality_is_by_contents() {
    assert_eq!(Value::Integer(5), Value::Integer(5));
    assert_ne!(Value::Integer(5), Value::Integer(6));
    assert_eq!(Value::Text("a".to_string()), Value::Text("a".to_string()));
    assert_ne!(Value::Text("a".to_string()), Value::Text("b".to_string()));
    assert_eq!(Value::Bytes(vec![9]), Value::Bytes(vec![9]));
    assert_ne!(Value::Bytes(vec![9]), Value::Bytes(vec![9, 9]));
    assert_eq!(Value::Null, Value::Null);
    assert_ne!(Value::Null, Value::Integer(0));
}

#[test]
fn scalar_codecs_round_trip() {
    let i: i64 = -7;
    assert_eq!(i64::maybe_from_value(&IsCrudField::into_value(&i)), Some(-7));

    let small: i32 = 123456;
    assert_eq!(i32::maybe_from_value(&IsCrudField::into_value(&small)), Some(123456));

    let u: u32 = 4_000_000_000;
    assert_eq!(
        u32::maybe_from_value(&IsCrudField::into_value(&u)).unwrap(),
        4_000_000_000
    );

    let s = "tymigrawr".to_string();
    assert_eq!(
        String::maybe_from_value(&IsCrudField::into_value(&s)),
        Some("tymigrawr".to_string())
    );

    let b: Vec<u8> = vec![0, 1, 255];
    assert_eq!(
        <Vec<u8> as IsCrudField>::maybe_from_value(&IsCrudField::into_value(&b)),
        Some(vec![0, 1, 255])
    );

    let f = FloatBits { bits: 2.25f64.to_bits() };
    assert_eq!(
        <FloatBits as IsCrudField>::maybe_from_value(&IsCrudField::into_value(&f)),
        Some(f)
    );
}

#[test]
fn narrowing_rejects_out_of_range_values() {
    assert_eq!(i32::maybe_from_value(&Value::Integer(i64::from(i32::MAX) + 1)), None);
    assert_eq!(i32::maybe_from_value(&Value::Integer(i64::from(i32::MIN) - 1)), None);

    let too_big = u32::maybe_from_value(&Value::Integer(i64::from(u32::MAX) + 1));
    assert!(matches!(too_big, Err(Error::FieldConversion(_))));
    let negative = u32::maybe_from_value(&Value::Integer(-1));
    assert!(matches!(negative, Err(Error::FieldConversion(_))));
    let not_an_integer = u32::maybe_from_value(&Value::Text("66".to_string()));
    assert!(matches!(not_an_integer, Err(Error::FieldConversion(_))));
}

#[test]
fn mismatched_kinds_read_as_absent() {
    assert_eq!(i64::maybe_from_value(&Value::Text("1".to_string())), None);
    assert_eq!(String::maybe_from_value(&Value::Integer(1)), None);
    assert_eq!(<Vec<u8> as IsCrudField>::maybe_from_value(&Value::Null), None);
    assert_eq!(<FloatBits as IsCrudField>::maybe_from_value(&Value::Integer(1)), None);
}

#[test]
fn descriptors_declare_their_kinds() {
    assert_eq!(<i64 as IsCrudField>::field().ty, ValueType::Integer);
    assert_eq!(<i32 as IsCrudField>::field().ty, ValueType::Integer);
    assert_eq!(<u32 as IsCrudField>::field().ty, ValueType::Integer);
    assert_eq!(<String as IsCrudField>::field().ty, ValueType::Text);
    assert_eq!(<FloatBits as IsCrudField>::field().ty, ValueType::Float);
    assert_eq!(<Vec<u8> as IsCrudField>::field().ty, ValueType::Bytes);
    assert!(!<i64 as IsCrudField>::field().nullable);
}

#[test]
fn optional_fields_are_nullable_and_wrap_their_inner_codec() {
    let field = <Option<i64> as IsCrudField>::field();
    assert_eq!(field.ty, ValueType::Integer);
    assert!(field.nullable);

    let present: Option<i64> = Some(11);
    assert_eq!(IsCrudField::into_value(&present), Value::Integer(11));
    let absent: Option<i64> = None;
    assert_eq!(IsCrudField::into_value(&absent), Value::Null);

    assert_eq!(
        <Option<i64> as IsCrudField>::maybe_from_value(&Value::Integer(11)),
        Some(Some(11))
    );
    assert_eq!(
        <Option<i64> as IsCrudField>::maybe_from_value(&Value::Null),
        Some(None)
    );
    assert_eq!(
        <Option<i64> as IsCrudField>::maybe_from_value(&Value::Text("x".to_string())),
        None
    );

    assert_eq!(
        <Option<i64> as IsCrudField>::maybe_from_value(&IsCrudField::into_value(&present)),
        Some(present)
    );
    assert_eq!(
        <Option<i64> as IsCrudField>::maybe_from_value(&IsCrudField::into_value(&absent)),
        Some(absent)
    );
}

#[test]
fn field_maps_hold_one_value_per_name() {
    let mut m = FieldMap::new();
    m.insert("id".to_string(), Value::Integer(1));
    m.insert("name".to_string(), Value::Text("a".to_string()));
    assert_eq!(m.get("id"), Some(&Value::Integer(1)));
    assert_eq!(m.get("name"), Some(&Value::Text("a".to_string())));
    assert_eq!(m.get("missing"), None);
    assert!(m.contains_key("id"));
    assert!(!m.contains_key("missing"));

    m.insert("id".to_string(), Value::Integer(2));
    assert_eq!(m.get("id"), Some(&Value::Integer(2)));

    let mut names = m.names();
    names.sort();
    assert_eq!(names, vec!["id".to_string(), "name".to_string()]);
}

#[test]
fn default_descriptor_is_a_plain_integer() {
    let field = CrudField::default();
    assert_eq!(field.name, "");
    assert_eq!(field.ty, ValueType::Integer);
    assert!(!field.nullable);
    assert!(!field.primary_key);
    assert!(!field.auto_increment);
}

#[test]
fn errors_describe_themselves() {
    assert_eq!(
        Error::MissingField("id".to_string()).describe(),
        "missing field id"
    );
    assert_eq!(Error::MissingPrimaryKey.describe(), "missing primary key");
    assert_eq!(
        Error::FieldConversion("age".to_string()).describe(),
        "field conversion: age"
    );
}
