use sqlited::attributes::{AttributeArgs, RawAttribute};
use sqlited::sql_as::{
    int_variant_values, parse_digits, sql_as, string_variant_labels, validate_style, EnumVariant, SqlAsItem, SqlAsPlan,
    SqlAsStyle,
};

fn variant(name: &str, attrs: Vec<RawAttribute>) -> EnumVariant {
    EnumVariant { name: name.to_string(), attrs }
}

fn value(args: AttributeArgs) -> RawAttribute {
    RawAttribute { name: "sql_as_value".to_string(), args }
}

#[test]
fn styles_checked() {
    assert!(validate_style("json", false).unwrap() == SqlAsStyle::Json);
    assert!(validate_style("int", true).unwrap() == SqlAsStyle::Int);
    assert_eq!(validate_style("jsn", false).unwrap_err(), "Invalid serialization style 'jsn'. Did you mean 'json'?");
    assert_eq!(
        validate_style("string", false).unwrap_err(),
        "Invalid serialization style 'string'. Valid styles are: json, jsonb, binary, borsh"
    );
    assert_eq!(
        validate_style("xxxxxxxxxx", true).unwrap_err(),
        "Invalid serialization style 'xxxxxxxxxx'. Valid styles are: json, jsonb, binary, string, int, borsh"
    );
}

#[test]
fn string_labels() {
    let vs = vec![
        variant("Horizontal", vec![]),
        variant("Vertical", vec![value(AttributeArgs::Strings(vec!["v".to_string()]))]),
        variant("Diagonal", vec![value(AttributeArgs::Word), value(AttributeArgs::Strings(vec!["d".to_string()]))]),
    ];
    let labels = string_variant_labels(&vs);
    assert_eq!(labels[0], ("Horizontal".to_string(), "Horizontal".to_string()));
    assert_eq!(labels[1].1, "v");
    assert_eq!(labels[2].1, "d");
}

#[test]
fn int_numbering() {
    let vs = vec![
        variant("A", vec![]),
        variant("B", vec![value(AttributeArgs::Integer("10".to_string()))]),
        variant("C", vec![]),
        variant("D", vec![value(AttributeArgs::Integer("3".to_string()))]),
        variant("E", vec![]),
    ];
    let v = int_variant_values(&vs).unwrap();
    let nums: Vec<i64> = v.iter().map(|p| p.1).collect();
    assert_eq!(nums, vec![0, 10, 11, 3, 4]);
    assert_eq!(v[2].0, "C");
}

#[test]
fn int_numbering_errors() {
    let vs = vec![variant("A", vec![value(AttributeArgs::Strings(vec!["x".to_string()]))])];
    assert_eq!(
        int_variant_values(&vs).unwrap_err(),
        "Expected an integer literal for sql_as_value when using int style"
    );
    let vs = vec![variant("A", vec![value(AttributeArgs::NameValue)])];
    assert_eq!(int_variant_values(&vs).unwrap_err(), "Expected #[sql_as_value(...)] format for integer values");
    let vs = vec![variant("A", vec![value(AttributeArgs::Integer("99999999999999999999".to_string()))])];
    assert_eq!(
        int_variant_values(&vs).unwrap_err(),
        "Invalid integer in sql_as_value: number too large to fit in target type"
    );
}

#[test]
fn digits_read() {
    assert_eq!(parse_digits("9223372036854775807").unwrap(), i64::MAX);
    assert_eq!(parse_digits("9223372036854775808").unwrap_err(), "number too large to fit in target type");
    assert_eq!(parse_digits("").unwrap_err(), "cannot parse integer from empty string");
    assert_eq!(parse_digits("1a").unwrap_err(), "invalid digit found in string");
    assert_eq!(parse_digits("007").unwrap(), 7);
}

#[test]
fn whole_attribute() {
    assert_eq!(sql_as("json", &SqlAsItem::Other).unwrap_err(), "sql_as can only be applied to structs or enums");
    let x = sql_as("borsh", &SqlAsItem::Struct { newtype: false }).unwrap();
    assert!(matches!(x.storage, SqlAsPlan::Serialized(SqlAsStyle::Borsh)));
    assert_eq!(
        x.derives,
        vec!["Default", "Clone", "Debug", "PartialEq", "sqlited::borsh::BorshSerialize", "sqlited::borsh::BorshDeserialize"]
    );
    assert_eq!(x.repr, None);
    assert!(!x.newtype_impls);
    let w = sql_as("binary", &SqlAsItem::Struct { newtype: true }).unwrap();
    assert_eq!(w.repr, Some("transparent".to_string()));
    assert!(w.newtype_impls);
    assert_eq!(w.derives, vec!["Default", "Clone", "Debug", "PartialEq", "serde::Serialize", "serde::Deserialize"]);
    let e = SqlAsItem::Enum(vec![variant("A", vec![]), variant("B", vec![])]);
    let i = sql_as("int", &e).unwrap();
    match i.storage {
        SqlAsPlan::IntEnum(v) => assert_eq!(v, vec![("A".to_string(), 0), ("B".to_string(), 1)]),
        _ => panic!("int enum"),
    }
    assert_eq!(i.repr, None);
    let t = sql_as("string", &e).unwrap();
    match t.storage {
        SqlAsPlan::TextEnum(v) => assert_eq!(v[1], ("B".to_string(), "B".to_string())),
        _ => panic!("text enum"),
    }
    assert_eq!(t.derives, vec!["Default", "Copy", "Clone", "Debug", "PartialEq", "serde::Serialize", "serde::Deserialize"]);
    assert_eq!(t.repr, None);
    assert_eq!(sql_as("jsonb", &e).unwrap().repr, Some("u8".to_string()));
}
