use sqlited::convert::{FromSql, FromSqlError, ToSql};
use sqlited::pubkey::Pubkey;
use sqlited::time::{Timestamp, UtcDateTime};
use sqlited::value::SqlValue;

#[test]
fn timestamps_from_seconds_or_millis() {
    let t = Timestamp::from_sql(&SqlValue::Integer(1431648000)).unwrap();
    assert_eq!(t.timestamp(), 1431648000);
    let t = Timestamp::from_sql(&SqlValue::Integer(100_000_000_000_000)).unwrap();
    assert_eq!(t.timestamp(), 100_000_000_000);
    assert_eq!(t.timestamp_subsec_nanos(), 0);
    match Timestamp::from_sql(&SqlValue::Text(b"x".to_vec())) {
        Err(FromSqlError::InvalidType(m)) => assert_eq!(m, "Invalid type for Timestamp conversion"),
        _ => panic!("text is no timestamp"),
    }
}

#[test]
fn timestamp_written_as_seconds() {
    let t = Timestamp::from_parts(1431648000, 500).unwrap();
    match t.to_sql() {
        Ok(SqlValue::Integer(i)) => assert_eq!(i, 1431648000),
        _ => panic!("integer"),
    }
    assert!(Timestamp::from_parts(i64::MAX, 0).is_none());
}

#[test]
fn datetimes_as_text() {
    let d = UtcDateTime::from_sql(&SqlValue::Text(b"2015-05-15T00:00:00Z".to_vec())).unwrap();
    assert_eq!(d.timestamp(), 1431648000);
    assert_eq!(d.to_rfc3339(), "2015-05-15T00:00:00+00:00");
    let d = UtcDateTime::from_sql(&SqlValue::Text(b"2015-05-15 00:00:00".to_vec())).unwrap();
    assert_eq!(d.timestamp(), 1431648000);
    let d = UtcDateTime::from_sql(&SqlValue::Text(b"2015-05-15 00:00:00.250".to_vec())).unwrap();
    assert_eq!(d.timestamp_subsec_nanos(), 250_000_000);
    assert!(UtcDateTime::from_sql(&SqlValue::Text(b"yesterday".to_vec())).is_err());
    match d.to_sql() {
        Ok(SqlValue::Text(b)) => assert_eq!(String::from_utf8(b).unwrap(), "2015-05-15T00:00:00.250+00:00"),
        _ => panic!("text"),
    }
}

#[test]
fn pubkeys_as_base58_text() {
    let k = Pubkey::new_from_array([0u8; 32]);
    assert_eq!(k.to_string(), "11111111111111111111111111111111");
    match k.to_sql() {
        Ok(SqlValue::Text(b)) => assert_eq!(b, b"11111111111111111111111111111111".to_vec()),
        _ => panic!("text"),
    }
    let back = Pubkey::from_sql(&SqlValue::Text(b"11111111111111111111111111111111".to_vec())).unwrap();
    assert_eq!(back.bytes, [0u8; 32]);
    match Pubkey::from_sql(&SqlValue::Text(b"0OIl".to_vec())) {
        Err(FromSqlError::InvalidType(m)) => assert_eq!(m, "Invalid Pubkey format"),
        _ => panic!("not a key"),
    }
    match Pubkey::from_sql(&SqlValue::Integer(1)) {
        Err(FromSqlError::InvalidType(m)) => assert_eq!(m, "Expected TEXT for Pubkey, got Integer(1)"),
        _ => panic!("not text"),
    }
}

#[test]
fn pubkey_read_back_after_write() {
    let mut bytes = [0u8; 32];
    for (i, b) in bytes.iter_mut().enumerate() {
        *b = (i as u8).wrapping_mul(37).wrapping_add(5);
    }
    let k = Pubkey::new_from_array(bytes);
    let stored = k.to_sql().unwrap();
    let back = Pubkey::from_sql(&stored).unwrap();
    assert_eq!(back.bytes, bytes);
    let zeros = Pubkey::new_from_array([0u8; 32]);
    let back0 = Pubkey::from_sql(&zeros.to_sql().unwrap()).unwrap();
    assert_eq!(back0.bytes, [0u8; 32]);
}

#[test]
fn datetime_read_back_after_write() {
    for (secs, nanos) in [(0i64, 0u32), (1_700_000_000, 123_456_789), (-1_000_000, 5_000_000), (253_402_300_799, 999_000)] {
        let d = UtcDateTime::from_parts(secs, nanos).unwrap();
        let back = UtcDateTime::from_sql(&d.to_sql().unwrap()).unwrap();
        assert_eq!(back.timestamp(), secs);
        assert_eq!(back.timestamp_subsec_nanos(), nanos);
    }
}

#[test]
fn datetime_text_that_is_not_utf8() {
    match UtcDateTime::from_sql(&SqlValue::Text(vec![0xff, 0x41])) {
        Err(FromSqlError::InvalidType(m)) => assert_eq!(
            m,
            "Underlying error during Timestamp conversion: invalid utf-8 sequence of 1 bytes from index 0"
        ),
        _ => panic!("not utf-8"),
    }
    match UtcDateTime::from_sql(&SqlValue::Text(vec![0x32, 0xe2, 0x82])) {
        Err(FromSqlError::InvalidType(m)) => assert_eq!(
            m,
            "Underlying error during Timestamp conversion: incomplete utf-8 byte sequence from index 1"
        ),
        _ => panic!("not utf-8"),
    }
}
