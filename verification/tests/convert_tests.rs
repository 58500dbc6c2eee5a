use sqlited::convert::{FromSql, FromSqlError, ToSql};
use sqlited::value::{SqlType, SqlValue};

fn int_of(v: Result<SqlValue, sqlited::convert::ToSqlError>) -> i64 {
    match v {
        Ok(SqlValue::Integer(i)) => i,
        _ => panic!("expected an integer"),
    }
}

#[test]
fn integers_round_trip() {
    assert_eq!(int_of(42i32.to_sql()), 42);
    assert_eq!(i32::from_sql(&SqlValue::Integer(42)).unwrap(), 42);
    assert_eq!(i64::from_sql(&SqlValue::Integer(-7)).unwrap(), -7);
    assert_eq!(u8::from_sql(&SqlValue::Integer(255)).unwrap(), 255);
    assert_eq!(int_of(true.to_sql()), 1);
    assert_eq!(bool::from_sql(&SqlValue::Integer(0)).unwrap(), false);
    assert_eq!(bool::from_sql(&SqlValue::Integer(5)).unwrap(), true);
}

#[test]
fn u64_round_trips_above_i64() {
    let x: u64 = u64::MAX;
    let stored = x.to_sql();
    let v = match stored {
        Ok(v) => v,
        Err(_) => panic!("u64 converts"),
    };
    assert_eq!(u64::from_sql(&v).unwrap(), x);
}

#[test]
fn out_of_range_integer_is_refused() {
    match i8::from_sql(&SqlValue::Integer(300)) {
        Err(FromSqlError::InvalidType(m)) => assert_eq!(m, "Integer value 300 out of range for i8"),
        _ => panic!("expected a range error"),
    }
}

#[test]
fn wrong_storage_class_is_refused() {
    match i64::from_sql(&SqlValue::Text(b"12".to_vec())) {
        Err(FromSqlError::InvalidType(m)) => assert_eq!(m, "Expected INTEGER, got Text([49, 50])"),
        _ => panic!("expected a type error"),
    }
    match String::from_sql(&SqlValue::Blob(vec![])) {
        Err(FromSqlError::InvalidType(m)) => assert_eq!(m, "Expected TEXT, got Blob([])"),
        _ => panic!("expected a type error"),
    }
    match bool::from_sql(&SqlValue::Null) {
        Err(FromSqlError::InvalidType(m)) => assert_eq!(m, "Expected INTEGER, got Null"),
        _ => panic!("expected a type error"),
    }
    match u64::from_sql(&SqlValue::Text(vec![7])) {
        Err(FromSqlError::InvalidType(m)) => assert_eq!(m, "Expected INTEGER for u64, got Text([7])"),
        _ => panic!("expected a type error"),
    }
}

#[test]
fn strings_round_trip() {
    let s = String::from("héllo");
    let v = s.to_sql().unwrap_or(SqlValue::Null);
    assert_eq!(String::from_sql(&v).unwrap(), "héllo");
    match String::from_sql(&SqlValue::Text(vec![0xff, 0xfe])) {
        Err(FromSqlError::InvalidType(m)) => assert_eq!(m, "Invalid UTF-8 string"),
        _ => panic!("expected invalid UTF-8"),
    }
}

#[test]
fn option_maps_null() {
    assert_eq!(Option::<i32>::from_sql(&SqlValue::Null).unwrap(), None);
    assert_eq!(Option::<i32>::from_sql(&SqlValue::Integer(3)).unwrap(), Some(3));
    let none: Option<i32> = None;
    match none.to_sql() {
        Ok(SqlValue::Null) => {}
        _ => panic!("None is NULL"),
    }
}

#[test]
fn sql_types_reported() {
    assert!(5i32.sql_type() == SqlType::Integer);
    assert!(String::from("a").sql_type() == SqlType::Text);
}

#[test]
fn blob_reads_as_raw_bytes() {
    let b = <Vec<u8> as FromSql>::from_sql(&SqlValue::Blob(vec![1, 2, 3])).unwrap();
    assert_eq!(b, vec![1, 2, 3]);
    let raw: &[u8] = &[9, 8];
    let stored = raw.to_sql().unwrap();
    assert_eq!(<Vec<u8> as FromSql>::from_sql(&stored).unwrap(), vec![9, 8]);
    match <Vec<u8> as FromSql>::from_sql(&SqlValue::Text(b"x".to_vec())) {
        Err(FromSqlError::InvalidType(m)) => assert_eq!(m, "Invalid type"),
        _ => panic!("not a blob"),
    }
}
