use chrono::{DateTime, NaiveDate, NaiveDateTime, NaiveTime, Utc};
use omnia::orm::{
    as_binary, as_bool, as_i32, as_i64, as_json, as_string, as_timestamp, is_null, row_field,
    value_to_datatype, values_to_datatypes, DataType, Expected, FetchValue, Field, Join, JoinKind,
    OrmError, Row, SqlValue,
};

fn row(fields: Vec<(&str, DataType)>) -> Row {
    Row {
        fields: fields
            .into_iter()
            .map(|(name, value)| Field { name: name.to_string(), value })
            .collect(),
        index: "0".to_string(),
    }
}

#[test]
fn value_to_wasi_numeric_types() {
    let val_bool = value_to_datatype(SqlValue::Bool(Some(true))).unwrap();
    assert!(matches!(val_bool, DataType::Boolean(Some(true))));

    let val_int = value_to_datatype(SqlValue::Int(Some(42))).unwrap();
    assert!(matches!(val_int, DataType::Int32(Some(42))));

    let val_bigint = value_to_datatype(SqlValue::BigInt(Some(999))).unwrap();
    assert!(matches!(val_bigint, DataType::Int64(Some(999))));

    let val_tiny = value_to_datatype(SqlValue::TinyInt(Some(10))).unwrap();
    assert!(matches!(val_tiny, DataType::Int32(Some(10))));

    let val_small = value_to_datatype(SqlValue::SmallInt(Some(1000))).unwrap();
    assert!(matches!(val_small, DataType::Int32(Some(1000))));

    let val_tiny_u = value_to_datatype(SqlValue::TinyUnsigned(Some(10))).unwrap();
    assert!(matches!(val_tiny_u, DataType::Uint32(Some(10))));

    let val_small_u = value_to_datatype(SqlValue::SmallUnsigned(Some(500))).unwrap();
    assert!(matches!(val_small_u, DataType::Uint32(Some(500))));

    let val_unsigned = value_to_datatype(SqlValue::Unsigned(Some(1000))).unwrap();
    assert!(matches!(val_unsigned, DataType::Uint32(Some(1000))));

    let val_big_u = value_to_datatype(SqlValue::BigUnsigned(Some(10000))).unwrap();
    assert!(matches!(val_big_u, DataType::Uint64(Some(10000))));

    let val_f32 = value_to_datatype(SqlValue::Float(Some(std::f32::consts::PI.to_bits()))).unwrap();
    assert!(
        matches!(val_f32, DataType::Float(Some(v)) if (f32::from_bits(v) - std::f32::consts::PI).abs() < 0.01)
    );

    let val_f64 = value_to_datatype(SqlValue::Double(Some(std::f64::consts::E.to_bits()))).unwrap();
    assert!(
        matches!(val_f64, DataType::Double(Some(v)) if (f64::from_bits(v) - std::f64::consts::E).abs() < 0.001)
    );
}

#[test]
fn value_to_wasi_string_types() {
    let val_string = value_to_datatype(SqlValue::Text(Some("test".to_string()))).unwrap();
    if let DataType::Str(Some(s)) = &val_string {
        assert_eq!(s, "test");
    } else {
        panic!("Expected string");
    }

    let val_char = value_to_datatype(SqlValue::Char(Some('A'))).unwrap();
    if let DataType::Str(Some(s)) = &val_char {
        assert_eq!(s, "A");
    } else {
        panic!("Expected string from char");
    }
}

#[test]
fn value_to_wasi_binary_types() {
    let val = value_to_datatype(SqlValue::Bytes(Some(vec![1, 2, 3]))).unwrap();
    if let DataType::Binary(Some(b)) = &val {
        assert_eq!(b, &vec![1, 2, 3]);
    } else {
        panic!("Expected binary");
    }
}

#[test]
fn value_to_wasi_datetime_types() {
    let date = NaiveDate::from_ymd_opt(2024, 1, 15).unwrap();
    let val_date = value_to_datatype(SqlValue::ChronoDate(Some(date))).unwrap();
    if let DataType::Date(Some(s)) = &val_date {
        assert_eq!(s, "2024-01-15");
    } else {
        panic!("Expected date string");
    }

    let time = NaiveTime::from_hms_opt(10, 30, 45).unwrap();
    let val_time = value_to_datatype(SqlValue::ChronoTime(Some(time))).unwrap();
    if let DataType::Time(Some(s)) = &val_time {
        assert!(s.starts_with("10:30:45"));
    } else {
        panic!("Expected time string");
    }

    let dt = NaiveDateTime::parse_from_str("2024-01-15 10:30:45", "%Y-%m-%d %H:%M:%S").unwrap();
    let val_dt = value_to_datatype(SqlValue::ChronoDateTime(Some(dt))).unwrap();
    if let DataType::Timestamp(Some(s)) = &val_dt {
        assert!(s.starts_with("2024-01-15"));
    } else {
        panic!("Expected timestamp string");
    }

    let dt_utc: DateTime<Utc> = "2024-01-15T10:30:45Z".parse().unwrap();
    let val_dt_utc = value_to_datatype(SqlValue::ChronoDateTimeUtc(Some(dt_utc.naive_utc()))).unwrap();
    if let DataType::Timestamp(Some(s)) = &val_dt_utc {
        assert!(s.contains("2024-01-15"));
        assert!(s.contains("10:30:45"));
    } else {
        panic!("Expected timestamp string");
    }
}

#[test]
fn value_to_wasi_null_variants() {
    let val_bool = value_to_datatype(SqlValue::Bool(None)).unwrap();
    assert!(matches!(val_bool, DataType::Boolean(None)));

    let val_int = value_to_datatype(SqlValue::Int(None)).unwrap();
    assert!(matches!(val_int, DataType::Int32(None)));

    let val_bigint = value_to_datatype(SqlValue::BigInt(None)).unwrap();
    assert!(matches!(val_bigint, DataType::Int64(None)));

    let val_string = value_to_datatype(SqlValue::Text(None)).unwrap();
    assert!(matches!(val_string, DataType::Str(None)));
}

#[test]
fn unsupported_values_are_refused() {
    assert!(matches!(value_to_datatype(SqlValue::Unsupported), Err(OrmError::UnsupportedValue)));
    let all = values_to_datatypes(vec![SqlValue::Int(Some(1)), SqlValue::Unsupported]);
    assert!(matches!(all, Err(OrmError::UnsupportedValue)));
    let ok = values_to_datatypes(vec![SqlValue::Int(Some(1)), SqlValue::Text(Some("a".into()))]).unwrap();
    assert_eq!(ok.len(), 2);
    assert!(matches!(ok[0], DataType::Int32(Some(1))));
    assert!(matches!(&ok[1], DataType::Str(Some(s)) if s == "a"));
}

#[test]
fn as_type_conversion_errors() {
    let result = as_bool(&DataType::Int32(Some(1)));
    result.unwrap_err();

    let result = as_i32(&DataType::Str(Some("not a number".to_string())));
    result.unwrap_err();

    let result = as_i64(&DataType::Boolean(Some(true)));
    result.unwrap_err();

    let result = as_string(&DataType::Int32(Some(42)));
    result.unwrap_err();

    let result = as_binary(&DataType::Str(Some("not binary".to_string())));
    result.unwrap_err();

    let result = as_timestamp(&DataType::Timestamp(Some("invalid date".to_string())));
    assert!(result.is_err());
    assert!(result.unwrap_err().message().contains("unsupported timestamp"));

    let result = as_json(&DataType::Str(Some("not json".to_string())));
    result.unwrap_err();
}

#[test]
fn error_messages() {
    assert_eq!(OrmError::MissingColumn("x".to_string()).message(), "missing column 'x'");
    assert_eq!(OrmError::UnexpectedType(Expected::Boolean).message(), "expected boolean data type");
    assert_eq!(OrmError::UnexpectedType(Expected::Json).message(), "expected json compatible data type");
    assert_eq!(
        OrmError::UnsupportedDate("d".to_string()).message(),
        "unsupported date: d; expected \"%Y-%m-%d\" format"
    );
}

#[test]
fn entity_from_row_field_missing() {
    let row = row(vec![("id", DataType::Int64(Some(1)))]);
    let result = String::fetch(&row, "name");
    assert!(result.is_err());
    let err = result.err().unwrap();
    assert!(err.message().contains("missing column"));
}

#[test]
fn entity_with_datetime_fallback_format() {
    let row = row(vec![
        ("id", DataType::Int64(Some(1))),
        ("occurred_at", DataType::Timestamp(Some("2024-01-15 10:30:45.123".to_string()))),
    ]);
    assert_eq!(i64::fetch(&row, "id").unwrap(), 1);
    let occurred_at = NaiveDateTime::fetch(&row, "occurred_at").unwrap();
    assert_eq!(occurred_at.format("%Y-%m-%d %H:%M:%S").to_string(), "2024-01-15 10:30:45");
}

#[test]
fn entity_with_datetime_invalid_format() {
    let row = row(vec![
        ("id", DataType::Int64(Some(1))),
        ("occurred_at", DataType::Timestamp(Some("not a valid date".to_string()))),
    ]);
    let result = NaiveDateTime::fetch(&row, "occurred_at");
    assert!(result.is_err());
    assert!(result.unwrap_err().message().contains("unsupported timestamp"));
}

#[test]
fn entity_from_row_field_type_mismatch() {
    let row = row(vec![
        ("id", DataType::Int64(Some(1))),
        ("count", DataType::Str(Some("not_a_number".to_string()))),
    ]);
    let result = i32::fetch(&row, "count");
    result.unwrap_err();
}

#[test]
fn entity_with_multiple_fields() {
    let row = row(vec![
        ("bool_field", DataType::Boolean(Some(true))),
        ("i32_field", DataType::Int32(Some(42))),
        ("i64_field", DataType::Int64(Some(1000))),
        ("u32_field", DataType::Uint32(Some(100))),
        ("u64_field", DataType::Uint64(Some(2000))),
        ("f32_field", DataType::Float(Some(3.14f32.to_bits()))),
        ("f64_field", DataType::Double(Some(2.718f64.to_bits()))),
        ("string_field", DataType::Str(Some("test".to_string()))),
        ("bytes_field", DataType::Binary(Some(vec![1, 2, 3]))),
        ("json_field", DataType::Binary(Some(br#"{"key":"value","count":42}"#.to_vec()))),
        ("dt_field", DataType::Timestamp(Some("2024-01-15T10:30:45Z".to_string()))),
    ]);

    assert!(bool::fetch(&row, "bool_field").unwrap());
    assert_eq!(i32::fetch(&row, "i32_field").unwrap(), 42);
    assert_eq!(i64::fetch(&row, "i64_field").unwrap(), 1000);
    assert_eq!(u32::fetch(&row, "u32_field").unwrap(), 100);
    assert_eq!(u64::fetch(&row, "u64_field").unwrap(), 2000);
    let f32_bits = omnia::orm::as_f32_bits(row_field(&row, "f32_field").unwrap()).unwrap();
    assert_eq!(f32::from_bits(f32_bits), 3.14);
    let f64_bits = omnia::orm::as_f64_bits(row_field(&row, "f64_field").unwrap()).unwrap();
    assert_eq!(f64::from_bits(f64_bits), 2.718);
    assert_eq!(String::fetch(&row, "string_field").unwrap(), "test");
    assert_eq!(Vec::<u8>::fetch(&row, "bytes_field").unwrap(), vec![1, 2, 3]);
    let json_field = Vec::<u8>::fetch(&row, "json_field").unwrap();
    assert_eq!(json_field, br#"{"key":"value","count":42}"#.to_vec());
    let dt = NaiveDateTime::fetch(&row, "dt_field").unwrap();
    assert_eq!(dt.format("%Y-%m-%d").to_string(), "2024-01-15");

    let json: serde_json::Value = serde_json::from_slice(&json_field).unwrap();
    assert_eq!(json["key"], "value");
    assert_eq!(json["count"], 42);
    let json = serde_json::Value::fetch(&row, "json_field").unwrap();
    assert_eq!(json["count"], 42);
}

#[test]
fn entity_with_multiple_optional_fields() {
    let row = row(vec![
        ("bool_field", DataType::Boolean(None)),
        ("i32_field", DataType::Int32(None)),
        ("i64_field", DataType::Int64(None)),
        ("u32_field", DataType::Uint32(None)),
        ("u64_field", DataType::Uint64(None)),
        ("f32_field", DataType::Float(None)),
        ("f64_field", DataType::Double(None)),
        ("string_field", DataType::Str(None)),
        ("bytes_field", DataType::Binary(None)),
        ("dt_field", DataType::Timestamp(None)),
    ]);

    assert_eq!(Option::<bool>::fetch(&row, "bool_field").unwrap(), None);
    assert_eq!(Option::<i32>::fetch(&row, "i32_field").unwrap(), None);
    assert_eq!(Option::<i64>::fetch(&row, "i64_field").unwrap(), None);
    assert_eq!(Option::<u32>::fetch(&row, "u32_field").unwrap(), None);
    assert_eq!(Option::<u64>::fetch(&row, "u64_field").unwrap(), None);
    assert!(is_null(row_field(&row, "f32_field").unwrap()));
    assert!(is_null(row_field(&row, "f64_field").unwrap()));
    assert_eq!(Option::<String>::fetch(&row, "string_field").unwrap(), None);
    assert_eq!(Option::<Vec<u8>>::fetch(&row, "bytes_field").unwrap(), None);
    assert_eq!(Option::<NaiveDateTime>::fetch(&row, "dt_field").unwrap(), None);
}

#[test]
fn optional_fetch_of_present_and_missing_columns() {
    let row = row(vec![("a", DataType::Int32(Some(5))), ("b", DataType::Str(Some("x".into())))]);
    assert_eq!(Option::<i32>::fetch(&row, "a").unwrap(), Some(5));
    assert!(matches!(
        Option::<i32>::fetch(&row, "zzz"),
        Err(OrmError::MissingColumn(c)) if c == "zzz"
    ));
    assert!(Option::<i32>::fetch(&row, "b").is_err());
}

#[test]
fn first_matching_field_wins() {
    let row = row(vec![("a", DataType::Int32(Some(1))), ("a", DataType::Int32(Some(2)))]);
    assert_eq!(i32::fetch(&row, "a").unwrap(), 1);
}

#[test]
fn dates_parse_or_refuse() {
    let row = row(vec![
        ("d", DataType::Date(Some("2024-01-15".to_string()))),
        ("bad", DataType::Date(Some("15/01/2024".to_string()))),
    ]);
    assert_eq!(NaiveDate::fetch(&row, "d").unwrap(), NaiveDate::from_ymd_opt(2024, 1, 15).unwrap());
    assert!(matches!(NaiveDate::fetch(&row, "bad"), Err(OrmError::UnsupportedDate(_))));
}

#[test]
fn joins_record_kind_table_and_alias() {
    let j = Join::left("users", "cond");
    assert_eq!(j.kind(), JoinKind::Left);
    assert_eq!(j.table(), "users");
    assert_eq!(j.alias_name(), None);
    let j = j.alias("u");
    assert_eq!(j.alias_name(), Some("u"));
    assert_eq!(*j.on(), "cond");
    assert_eq!(Join::new("t", 1).kind(), JoinKind::Inner);
    assert_eq!(Join::inner("t", 1).kind(), JoinKind::Inner);
    assert_eq!(Join::right("t", 1).kind(), JoinKind::Right);
    assert_eq!(Join::full("t", 1).kind(), JoinKind::Full);
}
