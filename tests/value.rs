use ronf::{CannotConvert, Table, Value};

fn table_of(entries: Vec<(&str, Value)>) -> Table {
    let mut t = Table::new();
    for (k, v) in entries {
        t.insert(k.to_string(), v);
    }
    t
}

fn float(f: f64) -> Value {
    Value::Float(f.to_bits())
}

#[test]
fn test_value_new() {
    let value = Value::new(Value::Null);
    assert_eq!(value, Value::Null);
}

#[test]
fn test_value_get() {
    let value = Value::new(Value::Null);
    assert_eq!(value.get("key"), None);
}

#[test]
fn test_value_get_table() {
    let map = table_of(vec![("key", Value::String("value".to_string()))]);
    let value = Value::new(Value::Table(map));
    assert_eq!(value.get("key"), Some(&Value::String("value".to_string())));
}

#[test]
fn test_value_get_not_found() {
    let value = Value::new(Value::Null);
    assert_eq!(value.get("key"), None);
}

#[test]
fn test_value_is_table() {
    let value = Value::new(Value::Null);
    assert!(!value.is_table());
    let map = table_of(vec![("key", Value::String("value".to_string()))]);
    let value = Value::new(Value::Table(map));
    assert!(value.is_table());
}

#[test]
fn test_value_get_mut() {
    let map = table_of(vec![("key", Value::String("value".to_string()))]);
    let mut value = Value::new(Value::Table(map));
    assert_eq!(
        value.get_mut("key"),
        Some(&mut Value::String("value".to_string()))
    );
}

#[test]
fn test_value_get_mut_not_found() {
    let mut value = Value::new(Value::Null);
    assert_eq!(value.get_mut("key"), None);
}

#[test]
fn get_mut_changes_in_place() {
    let map = table_of(vec![("a", Value::Int(1)), ("b", Value::Int(2))]);
    let mut value = Value::Table(map);
    *value.get_mut("a").unwrap() = Value::Int(10);
    assert_eq!(value.get("a"), Some(&Value::Int(10)));
    let t = value.as_table().unwrap();
    assert_eq!(t.entry_at(0).0, "a");
    assert_eq!(t.entry_at(1).0, "b");
}

#[test]
fn as_table_and_as_array() {
    let mut value = Value::Array(vec![Value::Int(1)]);
    assert!(value.as_table().is_none());
    assert_eq!(value.as_array(), Some(&vec![Value::Int(1)]));
    value.as_array_mut().unwrap().push(Value::Bool(true));
    assert_eq!(value, Value::Array(vec![Value::Int(1), Value::Bool(true)]));
    let mut value = Value::Table(Table::new());
    assert!(value.as_array().is_none());
    value
        .as_table_mut()
        .unwrap()
        .insert("k".to_string(), Value::Null);
    assert_eq!(value.get("k"), Some(&Value::Null));
    assert_eq!(Value::default(), Value::Null);
}

#[test]
fn test_value_from_bool() {
    assert_eq!(Value::from(true), Value::Bool(true));
}

#[test]
fn test_value_from_map() {
    let value = Table::new();
    let expected = Value::Table(value.clone());
    assert_eq!(Value::from(value), expected);
}

#[test]
fn test_value_from_string() {
    assert_eq!(
        Value::from("test".to_string()),
        Value::String("test".to_string())
    );
}

#[test]
fn test_value_from_str() {
    assert_eq!(Value::from("test"), Value::String("test".to_string()));
}

#[test]
fn test_value_from_i128() {
    let value: i128 = 1;
    assert_eq!(Value::from(value), Value::Int(1));
}

#[test]
fn test_value_from_i64() {
    let value: i64 = 1;
    assert_eq!(Value::from(value), Value::Int(1));
}

#[test]
fn test_value_from_i32() {
    let value: i32 = 1;
    assert_eq!(Value::from(value), Value::Int(1));
}

#[test]
fn test_value_from_i16() {
    let value: i16 = 1;
    assert_eq!(Value::from(value), Value::Int(1));
}

#[test]
fn test_value_from_i8() {
    let value: i8 = 1;
    assert_eq!(Value::from(value), Value::Int(1));
}

#[test]
fn test_value_from_u128() {
    let value: u128 = 1;
    assert_eq!(Value::from(value), Value::Int(1));
}

#[test]
fn test_value_from_u64() {
    let value: u64 = 1;
    assert_eq!(Value::from(value), Value::Int(1));
}

#[test]
fn test_value_from_u32() {
    let value: u32 = 1;
    assert_eq!(Value::from(value), Value::Int(1));
}

#[test]
fn test_value_from_u16() {
    let value: u16 = 1;
    assert_eq!(Value::from(value), Value::Int(1));
}

#[test]
fn test_value_from_u8() {
    let value: u8 = 1;
    assert_eq!(Value::from(value), Value::Int(1));
}

#[test]
fn test_value_from_vec() {
    let value = vec![Value::String("test".to_string())];
    let expected = Value::Array(vec![Value::String("test".to_string())]);
    assert_eq!(Value::from(value), expected);
}

#[test]
fn test_value_from_array() {
    let value: &[Value] = &[Value::String("test".to_string())];
    let expected = Value::Array(vec![Value::String("test".to_string())]);
    assert_eq!(Value::from(value), expected);
}

#[test]
fn test_value_from_none() {
    let value: Option<String> = None;
    assert_eq!(Value::from(value), Value::Null);
    let value: Option<String> = Some("test".to_string());
    assert_eq!(Value::from(value), Value::String("test".to_string()));
}

#[test]
fn from_wide_integers_keeps_low_bits() {
    assert_eq!(Value::from(u64::MAX), Value::Int(-1));
    assert_eq!(Value::from(1i128 << 64), Value::Int(0));
}

#[test]
fn test_value_try_into_string() {
    let result = Value::String("test".to_string()).try_into_string();
    assert_ne!(result, Err(CannotConvert::new("String", "String")));
    assert_eq!(result, Ok("test".to_string()));

    let result = Value::Null.try_into_string();
    assert_ne!(result, Err(CannotConvert::new("None", "String")));
    assert_eq!(result, Ok("null".to_string()));

    let result = Value::Array(vec![]).try_into_string();
    assert_eq!(result, Err(CannotConvert::new("Array", "String")));
    assert_ne!(result, Ok("".to_string()));

    let result = Value::Int(42).try_into_string();
    assert_eq!(result, Ok("42".to_string()));
    assert_ne!(result, Err(CannotConvert::new("Int", "String")));

    let result = Value::Bool(true).try_into_string();
    assert_eq!(result, Ok("true".to_string()));
    assert_ne!(result, Err(CannotConvert::new("Bool", "String")));

    let result = Value::Table(Table::new()).try_into_string();
    assert_eq!(result, Err(CannotConvert::new("Table", "String")));
    assert_ne!(result, Ok("".to_string()));
}

#[test]
fn test_value_try_into_i64() {
    assert_eq!(Value::Int(1).try_into_int(), Ok(1));
    assert_eq!(Value::String("1".to_string()).try_into_int(), Ok(1));
    assert_eq!(
        Value::String("1y".to_string()).try_into_int(),
        Err(CannotConvert::new("String", "Int"))
    );
    assert_eq!(Value::Null.try_into_int(), Ok(0));
    assert_eq!(
        Value::Array(vec![]).try_into_int(),
        Err(CannotConvert::new("Array", "Int"))
    );
    assert_eq!(float(42.0).try_into_int(), Ok(42));
    assert_eq!(Value::Bool(true).try_into_int(), Ok(1));
    assert_eq!(Value::Bool(false).try_into_int(), Ok(0));
    assert_eq!(
        Value::Table(Table::new()).try_into_int(),
        Err(CannotConvert::new("Table", "Int"))
    );
}

#[test]
fn test_value_try_into_bool() {
    assert_eq!(Value::String("true".to_string()).try_into_bool(), Ok(true));
    assert_eq!(Value::String("True".to_string()).try_into_bool(), Ok(true));
    assert_eq!(Value::String("false".to_string()).try_into_bool(), Ok(false));
    assert_eq!(Value::Null.try_into_bool(), Ok(false));
    assert_eq!(
        Value::Array(vec![]).try_into_bool(),
        Err(CannotConvert::new("Array", "Bool"))
    );
    assert_eq!(float(1.0).try_into_bool(), Ok(true));
    assert_eq!(float(0.0).try_into_bool(), Ok(false));
    assert_eq!(Value::Int(1).try_into_bool(), Ok(true));
    assert_eq!(Value::Int(0).try_into_bool(), Ok(false));
    assert_eq!(Value::Bool(true).try_into_bool(), Ok(true));
    assert_eq!(Value::Bool(false).try_into_bool(), Ok(false));
    assert_eq!(
        Value::Table(Table::new()).try_into_bool(),
        Err(CannotConvert::new("Table", "Bool"))
    );
}

#[test]
fn test_value_try_into_vec() {
    let value = Value::Array(vec![Value::String("test".to_string())]);
    assert_eq!(
        value.try_into_array(),
        Ok(vec![Value::String("test".to_string())])
    );
    assert_eq!(Value::Null.try_into_array(), Ok(vec![]));
    assert_eq!(
        Value::String("test".to_string()).try_into_array(),
        Err(CannotConvert::new("String", "Array"))
    );
    assert_eq!(
        Value::Table(Table::new()).try_into_array(),
        Err(CannotConvert::new("Table", "Array"))
    );
    assert_eq!(
        Value::Bool(true).try_into_array(),
        Err(CannotConvert::new("Bool", "Array"))
    );
    assert_eq!(
        float(1.0).try_into_array(),
        Err(CannotConvert::new("Float", "Array"))
    );
    assert_eq!(
        Value::Int(1).try_into_array(),
        Err(CannotConvert::new("Int", "Array"))
    );
}

#[test]
fn test_value_try_into_array() {
    let value = Value::Array(vec![Value::String("test".to_string())]);
    assert_eq!(
        value.try_into_array(),
        Ok(vec![Value::String("test".to_string())])
    );
    assert_eq!(Value::Null.try_into_array(), Ok(vec![]));
    assert_eq!(
        Value::String("test".to_string()).try_into_array(),
        Err(CannotConvert::new("String", "Array"))
    );
}

#[test]
fn test_value_try_into_map() {
    assert_eq!(Value::Table(Table::new()).try_into_table(), Ok(Table::new()));
    assert_eq!(Value::Null.try_into_table(), Ok(Table::new()));
    assert_eq!(
        Value::String("test".to_string()).try_into_table(),
        Err(CannotConvert::new("String", "Table"))
    );
    assert_eq!(
        Value::Array(vec![]).try_into_table(),
        Err(CannotConvert::new("Array", "Table"))
    );
    assert_eq!(
        Value::Bool(true).try_into_table(),
        Err(CannotConvert::new("Bool", "Table"))
    );
    assert_eq!(
        float(3.1).try_into_table(),
        Err(CannotConvert::new("Float", "Table"))
    );
    assert_eq!(
        Value::Int(1).try_into_table(),
        Err(CannotConvert::new("Int", "Table"))
    );
}

#[test]
fn int_text_round_trips() {
    for n in [0i64, 7, -7, 10, -10, 1234567890, i64::MAX, i64::MIN] {
        let text = Value::Int(n).try_into_string().unwrap();
        assert_eq!(text, n.to_string());
        assert_eq!(Value::String(text).try_into_int(), Ok(n));
    }
}

#[test]
fn bool_text_round_trips() {
    for b in [true, false] {
        let text = Value::Bool(b).try_into_string().unwrap();
        assert_eq!(Value::String(text).try_into_bool(), Ok(b));
    }
}

#[test]
fn int_text_edges() {
    assert_eq!(Value::String("+5".to_string()).try_into_int(), Ok(5));
    assert_eq!(Value::String("-0".to_string()).try_into_int(), Ok(0));
    assert_eq!(
        Value::String("9223372036854775807".to_string()).try_into_int(),
        Ok(i64::MAX)
    );
    assert_eq!(
        Value::String("-9223372036854775808".to_string()).try_into_int(),
        Ok(i64::MIN)
    );
    for bad in ["", "+", "-", " 1", "1 ", "9223372036854775808", "-9223372036854775809", "1_0", "0x1"] {
        assert_eq!(
            Value::String(bad.to_string()).try_into_int(),
            Err(CannotConvert::new("String", "Int")),
            "{bad}"
        );
    }
}

#[test]
fn float_truncates_toward_zero() {
    assert_eq!(float(2.9).try_into_int(), Ok(2));
    assert_eq!(float(-2.9).try_into_int(), Ok(-2));
    assert_eq!(float(0.5).try_into_int(), Ok(0));
    assert_eq!(float(-0.0).try_into_int(), Ok(0));
    assert_eq!(float(1e300).try_into_int(), Ok(i64::MAX));
    assert_eq!(float(-1e300).try_into_int(), Ok(i64::MIN));
    assert_eq!(float(f64::INFINITY).try_into_int(), Ok(i64::MAX));
    assert_eq!(float(f64::NEG_INFINITY).try_into_int(), Ok(i64::MIN));
    assert_eq!(float(f64::NAN).try_into_int(), Ok(0));
    assert_eq!(float(9007199254740993.0).try_into_int(), Ok(9007199254740992));
    assert_eq!(float(-9223372036854775808.0).try_into_int(), Ok(i64::MIN));
    assert_eq!(float(4611686018427387904.0).try_into_int(), Ok(4611686018427387904));
    assert_eq!(float(5e-324).try_into_int(), Ok(0));
}

#[test]
fn float_truthiness() {
    assert_eq!(float(-0.0).try_into_bool(), Ok(false));
    assert_eq!(float(f64::NAN).try_into_bool(), Ok(true));
    assert_eq!(float(-3.5).try_into_bool(), Ok(true));
    assert_eq!(float(5e-324).try_into_bool(), Ok(true));
}

#[test]
fn string_truthiness_is_case_insensitive() {
    for t in ["t", "T", "TRUE", "tRuE", "1"] {
        assert_eq!(Value::String(t.to_string()).try_into_bool(), Ok(true), "{t}");
    }
    for f in ["", "yes", "0", "true ", "f"] {
        assert_eq!(Value::String(f.to_string()).try_into_bool(), Ok(false), "{f}");
    }
}

#[test]
fn kind_names() {
    assert_eq!(Value::Null.kind_name(), "None");
    assert_eq!(float(1.0).kind_name(), "Float");
    assert_eq!(
        CannotConvert::new("Array", "Bool").to_string(),
        "Cannot convert Array to Bool"
    );
}
