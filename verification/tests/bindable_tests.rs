use sqlited::bindable::{sql_type_from_name, text_of_variant, variant_from_integer, variant_from_text, ConversionError};
use sqlited::table_info::build_insert_statement;
use sqlited::value::{SqlType, SqlValue};

#[test]
fn text_variants() {
    let labels = ["Horizontal", "Vertical"];
    assert_eq!(variant_from_text(&labels, &SqlValue::Text(b"Vertical".to_vec())).unwrap(), 1);
    assert!(matches!(variant_from_text(&labels, &SqlValue::Text(b"Other".to_vec())), Err(ConversionError::InvalidType)));
    assert!(matches!(variant_from_text(&labels, &SqlValue::Integer(1)), Err(ConversionError::InvalidType)));
    match variant_from_text(&labels, &SqlValue::Text(vec![0x56, 0xc0, 0x80])) {
        Err(ConversionError::Other(m)) => assert_eq!(m, "invalid utf-8 sequence of 1 bytes from index 1"),
        _ => panic!("not utf-8"),
    }
    match text_of_variant("Horizontal") {
        SqlValue::Text(b) => assert_eq!(b, b"Horizontal".to_vec()),
        _ => panic!("text"),
    }
}

#[test]
fn integer_variants() {
    let numbers = [0i64, 10, 11];
    assert_eq!(variant_from_integer(&numbers, "Level", &SqlValue::Integer(10)).unwrap(), 1);
    match variant_from_integer(&numbers, "Level", &SqlValue::Integer(5)) {
        Err(ConversionError::Other(m)) => assert_eq!(m, "Invalid integer value 5 for enum Level"),
        _ => panic!("unknown number"),
    }
}

#[test]
fn storage_names() {
    assert!(sql_type_from_name("INTEGER") == Some(SqlType::Integer));
    assert!(sql_type_from_name("BLOB") == Some(SqlType::Blob));
    assert!(sql_type_from_name("WHATEVER").is_none());
}

#[test]
fn insert_statements() {
    assert_eq!(build_insert_statement("user", &["name", "age"]), "INSERT INTO user (name, age) VALUES (?, ?)");
    assert_eq!(build_insert_statement("user", &[]), "INSERT INTO user DEFAULT VALUES");
}
