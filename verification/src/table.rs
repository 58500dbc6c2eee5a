use vstd::prelude::*;
use crate::attributes::{
    entry_view, field_attr_error, field_read, process_field_attributes, process_table_attributes, table_attr_entry,
    table_attr_fatal, table_entries, table_errors, texts_fit, RawAttribute,
};
use crate::schema::{
    constraints_have_text, create_table_sql, create_table_statement, generate_migration_methods, table_migrations,
    FieldAttribute, TableAttribute, TableAttributeType, TableMigration,
};
use crate::text::{convert_to_snake_name, spec_snake_name, string_views};

verus! {

/// A field of a struct marked `table`: its name, its Rust type as it prints, the SQLite
/// type name of that type, and its attributes.
#[derive(Debug)]
pub struct FieldDecl {
    pub name: String,
    pub rust_type: String,
    pub sql_type_name: String,
    pub attrs: Vec<RawAttribute>,
}

/// The item `table` is put on.
#[derive(Debug)]
pub enum TableItem {
    /// A struct with named fields.
    NamedStruct(Vec<FieldDecl>),
    /// A tuple or unit struct.
    OtherStruct,
    /// Not a struct.
    NotStruct,
}

/// What a table declaration comes to: the table's name, its columns, their SQLite types,
/// the statement that creates it, the migrations it declares, and the errors some of its
/// attributes reported.
#[derive(Debug)]
pub struct TableDefinition {
    pub table_name: String,
    pub fields: Vec<FieldAttribute>,
    pub table_attrs: Vec<TableAttribute>,
    pub field_names: Vec<String>,
    pub field_types: Vec<(String, String)>,
    pub create_table_sql: String,
    pub migrations: Vec<TableMigration>,
    pub errors: Vec<String>,
}

proof fn lemma_entries_constraints(attrs: Seq<RawAttribute>)
    ensures
        forall|k: int|
            0 <= k < table_entries(attrs).len() && (#[trigger] table_entries(attrs)[k]).0
                == TableAttributeType::Constraint ==> table_entries(attrs)[k].1.len() == 1,
    decreases attrs.len(),
{
    if attrs.len() > 0 {
        lemma_entries_constraints(attrs.drop_last());
        let rest = table_entries(attrs.drop_last());
        match table_attr_entry(attrs.last()) {
            Some(e) => {
                assert forall|k: int|
                    0 <= k < table_entries(attrs).len() && (#[trigger] table_entries(attrs)[k]).0
                        == TableAttributeType::Constraint implies table_entries(attrs)[k].1.len() == 1 by {
                    if k < rest.len() {
                        assert(table_entries(attrs)[k] == rest[k]);
                    }
                }
            },
            None => {},
        }
    }
}

/// Reads every field; the first field in error makes the whole an error.
fn read_fields(decls: &[FieldDecl]) -> (r: Result<Vec<FieldAttribute>, String>)
    ensures
        match r {
            Ok(fs) => fs@.len() == decls@.len() && forall|i: int|
                0 <= i < decls@.len() ==> field_read(
                    #[trigger] fs@[i],
                    decls@[i].name@,
                    decls@[i].rust_type@,
                    decls@[i].sql_type_name@,
                    decls@[i].attrs@,
                ),
            Err(m) => exists|i: int, j: int|
                0 <= i < decls@.len() && 0 <= j < decls@[i].attrs@.len() && field_attr_error(
                    #[trigger] decls@[i].attrs@[j],
                ) == Some(m@),
        },
{
    let mut out: Vec<FieldAttribute> = Vec::new();
    let n = decls.len();
    for i in 0..n
        invariant
            n == decls@.len(),
            out@.len() == i,
            forall|k: int|
                0 <= k < i ==> field_read(
                    #[trigger] out@[k],
                    decls@[k].name@,
                    decls@[k].rust_type@,
                    decls@[k].sql_type_name@,
                    decls@[k].attrs@,
                ),
    {
        let d = &decls[i];
        match process_field_attributes(d.name.as_str(), d.rust_type.as_str(), d.sql_type_name.as_str(), d.attrs.as_slice()) {
            Ok(f) => {
                out.push(f);
            },
            Err(m) => {
                return Err(m);
            },
        }
    }
    Ok(out)
}

/// Reads a table declaration: the struct's name in snake case names the table; the
/// table-level attributes and each field's attributes are read (the first one in a form
/// that cannot be read is the error); the statement that creates the table and the
/// migrations follow from them.
pub fn table(struct_name: &str, item: &TableItem, attrs: &[RawAttribute]) -> (r: Result<TableDefinition, String>)
    requires
        texts_fit(attrs@),
    ensures
        item is NotStruct ==> (r matches Err(m) && m@ == "table 宏只能用于结构体"@),
        item is OtherStruct ==> (r matches Err(m) && m@ == "表结构必须使用命名字段 (named fields)"@),
        item matches TableItem::NamedStruct(decls) ==> match r {
            Ok(t) => {
                &&& t.table_name@ == spec_snake_name(struct_name@)
                &&& forall|i: int| 0 <= i < attrs@.len() ==> table_attr_fatal(#[trigger] attrs@[i]) is None
                &&& t.table_attrs@.map_values(|a: TableAttribute| entry_view(a)) == table_entries(attrs@)
                &&& string_views(t.errors@) == table_errors(attrs@)
                &&& t.fields@.len() == decls@.len()
                &&& forall|i: int|
                    0 <= i < decls@.len() ==> field_read(
                        #[trigger] t.fields@[i],
                        decls@[i].name@,
                        decls@[i].rust_type@,
                        decls@[i].sql_type_name@,
                        decls@[i].attrs@,
                    )
                &&& t.field_names@.len() == decls@.len()
                &&& t.field_types@.len() == decls@.len()
                &&& forall|i: int|
                    0 <= i < decls@.len() ==> (#[trigger] t.field_names@[i])@ == decls@[i].name@
                        && t.field_types@[i].0@ == decls@[i].name@ && t.field_types@[i].1@
                        == decls@[i].sql_type_name@
                &&& t.create_table_sql@ == create_table_statement(t.table_name@, t.fields@, t.table_attrs@)
                &&& t.migrations@.map_values(|m: TableMigration| m@) == table_migrations(
                    t.table_name@,
                    t.table_attrs@,
                    t.fields@,
                )
            },
            Err(m) => (exists|i: int| 0 <= i < attrs@.len() && table_attr_fatal(#[trigger] attrs@[i]) == Some(m@))
                || (exists|i: int, j: int|
                0 <= i < decls@.len() && 0 <= j < decls@[i].attrs@.len() && field_attr_error(
                    #[trigger] decls@[i].attrs@[j],
                ) == Some(m@)),
        },
{
    let decls = match item {
        TableItem::NamedStruct(d) => d,
        TableItem::OtherStruct => {
            return Err("表结构必须使用命名字段 (named fields)".to_owned());
        },
        TableItem::NotStruct => {
            return Err("table 宏只能用于结构体".to_owned());
        },
    };
    let (table_attrs, errors) = match process_table_attributes(attrs) {
        Ok(x) => x,
        Err(m) => {
            return Err(m);
        },
    };
    let fields = match read_fields(decls.as_slice()) {
        Ok(f) => f,
        Err(m) => {
            return Err(m);
        },
    };
    let table_name = convert_to_snake_name(struct_name);
    proof {
        lemma_entries_constraints(attrs@);
        assert forall|i: int|
            0 <= i < table_attrs@.len() && (#[trigger] table_attrs@[i]).attr_type
                == TableAttributeType::Constraint implies table_attrs@[i].value@.len() >= 1 by {
            let views = table_attrs@.map_values(|a: TableAttribute| entry_view(a));
            assert(views[i] == entry_view(table_attrs@[i]));
            assert(string_views(table_attrs@[i].value@).len() == table_attrs@[i].value@.len());
        }
        assert(constraints_have_text(table_attrs@));
    }
    let sql = create_table_sql(table_name.as_str(), fields.as_slice(), table_attrs.as_slice());
    let migrations = generate_migration_methods(table_name.as_str(), table_attrs.as_slice(), fields.as_slice());
    let mut field_names: Vec<String> = Vec::new();
    let mut field_types: Vec<(String, String)> = Vec::new();
    let n = decls.len();
    for i in 0..n
        invariant
            n == decls@.len(),
            field_names@.len() == i,
            field_types@.len() == i,
            forall|k: int| 0 <= k < i ==> (#[trigger] field_names@[k])@ == decls@[k].name@,
            forall|k: int|
                0 <= k < i ==> (#[trigger] field_types@[k]).0@ == decls@[k].name@ && field_types@[k].1@
                    == decls@[k].sql_type_name@,
    {
        let a = decls[i].name.clone();
        let b = decls[i].name.clone();
        let c = decls[i].sql_type_name.clone();
        assert(a@ == decls@[i as int].name@ && b@ == a@ && c@ == decls@[i as int].sql_type_name@);
        field_names.push(a);
        field_types.push((b, c));
    }
    Ok(
        TableDefinition {
            table_name,
            fields,
            table_attrs,
            field_names,
            field_types,
            create_table_sql: sql,
            migrations,
            errors,
        },
    )
}

} // verus!
