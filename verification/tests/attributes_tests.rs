use sqlited::attributes::{
    check_migration_args, invalid_migration_type_message, parse_migration_type, process_field_attributes,
    process_table_attributes, AttributeArgs, RawAttribute,
};
use sqlited::schema::{MigrationType, TableAttributeType};

fn attr(name: &str, args: AttributeArgs) -> RawAttribute {
    RawAttribute { name: name.to_string(), args }
}

fn strings(v: &[&str]) -> AttributeArgs {
    AttributeArgs::Strings(v.iter().map(|s| s.to_string()).collect())
}

#[test]
fn field_flags_and_texts() {
    let attrs = vec![
        attr("primary_key", AttributeArgs::Word),
        attr("unique", AttributeArgs::Word),
        attr("check", strings(&["age >= 18"])),
        attr("default", strings(&["0"])),
        attr("foreign_key", strings(&["user", "id", "CASCADE"])),
        attr("doc", AttributeArgs::NameValue),
    ];
    let f = process_field_attributes("age", "i32", "INTEGER", &attrs).unwrap();
    assert!(f.is_primary_key && f.is_unique && !f.is_autoincrement && !f.is_not_null);
    assert_eq!(f.check_constraint.as_deref(), Some("age >= 18"));
    assert_eq!(f.default.as_deref(), Some("0"));
    let k = f.foreign_key.unwrap();
    assert_eq!(k.table, "user");
    assert_eq!(k.column, "id");
    assert_eq!(k.on_delete, "CASCADE");
    assert_eq!(k.on_update, "NO ACTION");
}

#[test]
fn field_attribute_errors() {
    let e = process_field_attributes("a", "i32", "INTEGER", &[attr("check", AttributeArgs::Word)]).unwrap_err();
    assert_eq!(e, "Incorrect format for using the `check` attribute.");
    let e = process_field_attributes("a", "i32", "INTEGER", &[attr("default", strings(&["1", "2"]))]).unwrap_err();
    assert_eq!(e, "Expected a single string literal in the `default` attribute.");
    let e = process_field_attributes("a", "i32", "INTEGER", &[attr("foreign_key", strings(&["user"]))]).unwrap_err();
    assert_eq!(e, "Incorrect format for using the `foreign_key` attribute.");
    let e = process_field_attributes("a", "i32", "INTEGER", &[attr("foreign_key", AttributeArgs::OtherList)]).unwrap_err();
    assert_eq!(e, "Expected string literals in the `foreign_key` attribute.");
}

#[test]
fn table_attributes_read_in_order() {
    let attrs = vec![
        attr("index", strings(&["idx_name", "name", "ignored"])),
        attr("constraint", strings(&["CHECK (a > 0)"])),
        attr("unique_index", strings(&["idx_email", "email"])),
        attr("migration", strings(&["add_column", "email"])),
        attr("constraint", strings(&["a", "b"])),
    ];
    let (out, errors) = process_table_attributes(&attrs).unwrap();
    assert!(errors.is_empty());
    assert_eq!(out.len(), 4);
    assert!(out[0].attr_type == TableAttributeType::Index);
    assert_eq!(out[0].value, vec!["idx_name".to_string(), "name".to_string()]);
    assert!(out[1].attr_type == TableAttributeType::Constraint);
    assert!(out[2].attr_type == TableAttributeType::UniqueIndex);
    assert!(out[3].attr_type == TableAttributeType::Migration);
    assert!(out[3].migration_type == Some(MigrationType::AddColumn));
    assert_eq!(out[3].value, vec!["email".to_string()]);
}

#[test]
fn migration_attribute_errors() {
    let attrs = vec![
        attr("migration", strings(&["add_colum", "x"])),
        attr("migration", strings(&["rename_column", "a"])),
        attr("migration", AttributeArgs::Word),
        attr("migration", strings(&[])),
    ];
    let (out, errors) = process_table_attributes(&attrs).unwrap();
    assert_eq!(out.len(), 1);
    assert!(out[0].migration_type == Some(MigrationType::RenameColumn));
    assert_eq!(
        errors,
        vec![
            "Invalid migration type 'add_colum'. Did you mean 'add_column'?".to_string(),
            "'rename_column' migration requires old_name and new_name".to_string(),
            "Invalid attribute format for migration".to_string(),
            "Migration requires at least one argument (migration type)".to_string(),
        ]
    );
}

#[test]
fn malformed_index_stops_reading() {
    let e = process_table_attributes(&[attr("index", AttributeArgs::NameValue)]).unwrap_err();
    assert_eq!(e, "Incorrect format for using the `index` attribute.");
}

#[test]
fn migration_type_names() {
    assert!(parse_migration_type("drop_index") == Some(MigrationType::DropIndex));
    assert!(parse_migration_type("nope").is_none());
    assert_eq!(
        invalid_migration_type_message("zzzzzzzzzz"),
        "Invalid migration type 'zzzzzzzzzz'. Valid types are: add_column, rename_column, modify_column, drop_column, add_index, drop_index, custom"
    );
    assert_eq!(check_migration_args(MigrationType::Custom, &["custom".to_string(), "n".to_string()]).unwrap(), "'custom' migration requires name and SQL statement");
    assert!(check_migration_args(MigrationType::DropColumn, &["drop_column".to_string(), "c".to_string()]).is_none());
}
