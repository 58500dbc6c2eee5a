use sqlited::attributes::{AttributeArgs, RawAttribute};
use sqlited::schema::{
    generate_add_index_migration, generate_drop_index_migration, generate_rename_column_migration, get_sql_type,
    is_option_type,
};
use sqlited::table::{table, FieldDecl, TableItem};

fn attr(name: &str, args: AttributeArgs) -> RawAttribute {
    RawAttribute { name: name.to_string(), args }
}

fn strings(v: &[&str]) -> AttributeArgs {
    AttributeArgs::Strings(v.iter().map(|s| s.to_string()).collect())
}

fn field(name: &str, ty: &str, sql: &str, attrs: Vec<RawAttribute>) -> FieldDecl {
    FieldDecl { name: name.to_string(), rust_type: ty.to_string(), sql_type_name: sql.to_string(), attrs }
}

fn user_fields() -> Vec<FieldDecl> {
    vec![
        field("id", "i32", "INTEGER", vec![attr("autoincrement", AttributeArgs::Word)]),
        field("name", "String", "TEXT", vec![attr("unique", AttributeArgs::Word)]),
        field("email", "Option<String>", "TEXT", vec![]),
    ]
}

#[test]
fn create_table_statement_of_a_table() {
    let t = table("UserProfile", &TableItem::NamedStruct(user_fields()), &[]).unwrap();
    assert_eq!(t.table_name, "user_profile");
    assert_eq!(
        t.create_table_sql,
        "CREATE TABLE IF NOT EXISTS user_profile (\n    id INTEGER PRIMARY KEY AUTOINCREMENT,\n    name TEXT UNIQUE NOT NULL,\n    email TEXT NULL\n)"
    );
    assert_eq!(t.field_names, vec!["id".to_string(), "name".to_string(), "email".to_string()]);
    assert_eq!(t.field_types[2], ("email".to_string(), "TEXT".to_string()));
    assert!(t.migrations.is_empty());
}

#[test]
fn create_table_with_constraint_and_index() {
    let attrs = vec![
        attr("constraint", strings(&["CHECK (id > 0)"])),
        attr("index", strings(&["idx_name", "name"])),
    ];
    let t = table("User", &TableItem::NamedStruct(user_fields()), &attrs).unwrap();
    assert_eq!(
        t.create_table_sql,
        "CREATE TABLE IF NOT EXISTS user (\n    id INTEGER PRIMARY KEY AUTOINCREMENT,\n    name TEXT UNIQUE NOT NULL,\n    email TEXT NULL,\n    CHECK (id > 0)\n);\nCREATE INDEX IF NOT EXISTS idx_name ON user (name);\n"
    );
}

#[test]
fn table_migrations_generated() {
    let attrs = vec![
        attr("migration", strings(&["rename_column", "name", "full_name"])),
        attr("migration", strings(&["drop_index", "idx_name"])),
    ];
    let t = table("User", &TableItem::NamedStruct(user_fields()), &attrs).unwrap();
    assert_eq!(t.migrations.len(), 2);
    assert_eq!(t.migrations[0].name, "migration_user_rename_name_to_full_name");
    assert_eq!(t.migrations[0].up, "ALTER TABLE user RENAME COLUMN name TO full_name");
    assert_eq!(t.migrations[0].down.as_deref(), Some("ALTER TABLE user RENAME COLUMN full_name TO name"));
    assert_eq!(t.migrations[1].up, "DROP INDEX idx_name");
}

#[test]
fn table_refuses_other_items() {
    assert_eq!(table("X", &TableItem::NotStruct, &[]).unwrap_err(), "table 宏只能用于结构体");
    assert_eq!(table("X", &TableItem::OtherStruct, &[]).unwrap_err(), "表结构必须使用命名字段 (named fields)");
    let bad = vec![field("a", "i32", "INTEGER", vec![attr("check", AttributeArgs::Word)])];
    assert_eq!(
        table("X", &TableItem::NamedStruct(bad), &[]).unwrap_err(),
        "Incorrect format for using the `check` attribute."
    );
}

#[test]
fn migration_generators() {
    let m = generate_rename_column_migration("user", &["a".to_string()]);
    assert_eq!(m.name, "error");
    assert_eq!(m.up, "-- Migration rename_column requires old_name and new_name");
    let m = generate_add_index_migration("user", &["idx".to_string(), "a, b".to_string(), "unique".to_string()]);
    assert_eq!(m.up, "CREATE UNIQUE INDEX idx ON user (a, b)");
    assert_eq!(m.down.as_deref(), Some("DROP INDEX idx"));
    let m = generate_drop_index_migration("user", &["idx".to_string()]);
    assert_eq!(m.name, "migration_user_drop_index_idx");
    assert!(m.down.is_none());
}

#[test]
fn rust_types_as_sqlite_types() {
    assert_eq!(get_sql_type("String"), "TEXT");
    assert_eq!(get_sql_type("i64"), "INTEGER");
    assert_eq!(get_sql_type("f64"), "REAL");
    // `u8` is looked for before `Vec<u8>`, so a byte vector is taken as an integer type
    assert_eq!(get_sql_type("Vec<u8>"), "INTEGER");
    assert_eq!(get_sql_type("&[u8]"), "INTEGER");
    assert_eq!(get_sql_type("MyType"), "TEXT");
    assert_eq!(get_sql_type("Timestamp"), "INTEGER");
    assert!(is_option_type("Option<i32>"));
    assert!(is_option_type("std::option::Option<i32>"));
    assert!(!is_option_type("Vec<i32>"));
}
