use vstd::prelude::*;
use crate::text::{
    chars_to_string, contains, contains_str, lemma_contains_middle, lemma_contains_trans, occurs_at, join, push_joined_strings, push_str_chars,
    remove_spaces, spec_lowercase, spec_uppercase, str_chars, str_eq, str_to_lowercase,
    str_to_uppercase, string_from_chars, string_views, without_spaces,
};

verus! {

// ---------------------------------------------------------------------------
// Field and table definitions

/// A foreign key: the referenced table and column, and the ON DELETE / ON UPDATE actions.
#[derive(Debug)]
pub struct ForeignKey {
    pub table: String,
    pub column: String,
    pub on_delete: String,
    pub on_update: String,
}

/// A field of a table definition with the attributes declared on it.
#[derive(Debug)]
pub struct FieldAttribute {
    /// The field's name.
    pub name: String,
    /// The field's Rust type, as its tokens print (`Option < String >`).
    pub rust_type: String,
    /// The SQLite type name of the field's type (its `SqliteTypeName::sql_type_name`).
    pub sql_type_name: String,
    pub is_autoincrement: bool,
    pub is_primary_key: bool,
    pub is_unique: bool,
    pub is_not_null: bool,
    pub check_constraint: Option<String>,
    pub default: Option<String>,
    pub foreign_key: Option<ForeignKey>,
}

/// The kinds of schema migration a table can declare.
#[derive(Debug, Clone, Copy, PartialEq, Eq, Structural)]
pub enum MigrationType {
    AddColumn,
    RenameColumn,
    ModifyColumn,
    DropColumn,
    AddIndex,
    DropIndex,
    Custom,
}

/// The kinds of table-level attribute.
#[derive(Debug, Clone, Copy, PartialEq, Eq, Structural)]
pub enum TableAttributeType {
    Constraint,
    Index,
    UniqueIndex,
    Migration,
}

/// A table-level attribute: a constraint, an index, a unique index or a migration, with its
/// string arguments.
#[derive(Debug)]
pub struct TableAttribute {
    pub attr_type: TableAttributeType,
    pub value: Vec<String>,
    pub migration_type: Option<MigrationType>,
}

// ---------------------------------------------------------------------------
// Rust types seen as SQLite types

/// The SQLite column type chosen for a Rust type from the text of the type (spaces removed),
/// by the first of these tests that holds. An `Option<T>` falls through to its inner type,
/// which holds no more of these names than the whole does, so it ends in `TEXT` as well.
pub open spec fn sql_type_of(ty: Seq<char>) -> Seq<char> {
    let t = without_spaces(ty);
    if contains(t, "String"@) || contains(t, "str"@) {
        "TEXT"@
    } else if contains(t, "i32"@) || contains(t, "i16"@) || contains(t, "i8"@) || contains(t, "u32"@)
        || contains(t, "u16"@) || contains(t, "u8"@) {
        "INTEGER"@
    } else if contains(t, "i64"@) || contains(t, "u64"@) {
        "INTEGER"@
    } else if contains(t, "f32"@) || contains(t, "f64"@) {
        "REAL"@
    } else if contains(t, "bool"@) {
        "INTEGER"@
    } else if contains(t, "Vec<u8>"@) || contains(t, "&[u8]"@) {
        "BLOB"@
    } else if contains(t, "UtcDateTime"@) {
        "TEXT"@
    } else if contains(t, "Timestamp"@) {
        "INTEGER"@
    } else {
        "TEXT"@
    }
}

/// The SQLite column type of a Rust type, from the type's text.
pub fn get_sql_type(ty: &str) -> (r: String)
    ensures
        r@ == sql_type_of(ty@),
{
    let raw = str_chars(ty);
    let tv = remove_spaces(raw.as_slice());
    let t = tv.as_slice();
    let name = if contains_str(t, "String") || contains_str(t, "str") {
        "TEXT"
    } else if contains_str(t, "i32") || contains_str(t, "i16") || contains_str(t, "i8")
        || contains_str(t, "u32") || contains_str(t, "u16") || contains_str(t, "u8") {
        "INTEGER"
    } else if contains_str(t, "i64") || contains_str(t, "u64") {
        "INTEGER"
    } else if contains_str(t, "f32") || contains_str(t, "f64") {
        "REAL"
    } else if contains_str(t, "bool") {
        "INTEGER"
    } else if contains_str(t, "Vec<u8>") || contains_str(t, "&[u8]") {
        "BLOB"
    } else if contains_str(t, "UtcDateTime") {
        "TEXT"
    } else if contains_str(t, "Timestamp") {
        "INTEGER"
    } else {
        "TEXT"
    };
    name.to_owned()
}

/// Whether the type's text, spaces removed, mentions `bool`.
pub open spec fn is_bool_type_text(ty: Seq<char>) -> bool {
    contains(without_spaces(ty), "bool"@)
}

/// Whether a type is a boolean type, from its text.
pub fn is_bool_type(ty: &str) -> (r: bool)
    ensures
        r == is_bool_type_text(ty@),
{
    let raw = str_chars(ty);
    let t = remove_spaces(raw.as_slice());
    contains_str(t.as_slice(), "bool")
}

/// The text before the first `<`.
pub open spec fn before_angle(t: Seq<char>) -> Seq<char>
    decreases t.len(),
{
    if t.len() == 0 {
        Seq::empty()
    } else if t[0] == '<' {
        Seq::empty()
    } else {
        seq![t[0]] + before_angle(t.drop_first())
    }
}

/// The text after the last `:`.
pub open spec fn after_last_colon(t: Seq<char>) -> Seq<char>
    decreases t.len(),
{
    if t.len() == 0 {
        Seq::empty()
    } else if t.last() == ':' {
        Seq::empty()
    } else {
        after_last_colon(t.drop_last()).push(t.last())
    }
}

/// Whether a type is a path whose last segment is `Option`: the last `::` segment of the
/// text before its generic arguments is `Option`.
pub open spec fn is_option_text(ty: Seq<char>) -> bool {
    after_last_colon(before_angle(without_spaces(ty))) == "Option"@
}

/// Whether a type is `Option<..>` (by any path), from its text.
pub fn is_option_type(ty: &str) -> (r: bool)
    ensures
        r == is_option_text(ty@),
{
    let raw = str_chars(ty);
    let t = remove_spaces(raw.as_slice());
    let ghost ts = t@;
    // the text before the first '<'
    let mut end: usize = 0;
    while end < t.len() && t[end] != '<'
        invariant
            end <= t@.len(),
            ts == t@,
            forall|k: int| 0 <= k < end ==> t@[k] != '<',
        decreases t@.len() - end,
    {
        end = end + 1;
    }
    proof {
        lemma_before_angle(ts, end as int);
    }
    // the part after the last ':' within t[..end]
    let mut start: usize = end;
    while start > 0 && t[start - 1] != ':'
        invariant
            start <= end <= t@.len(),
            ts == t@,
            forall|k: int| start <= k < end ==> t@[k] != ':',
        decreases start,
    {
        start = start - 1;
    }
    proof {
        lemma_after_last_colon(ts.take(end as int), start as int);
    }
    let mut seg: Vec<char> = Vec::new();
    let mut k: usize = start;
    while k < end
        invariant
            start <= k <= end <= t@.len(),
            ts == t@,
            seg@ == ts.subrange(start as int, k as int),
        decreases end - k,
    {
        seg.push(t[k]);
        assert(ts.subrange(start as int, k + 1) == ts.subrange(start as int, k as int).push(ts[k as int]));
        k = k + 1;
    }
    assert(ts.take(end as int).skip(start as int) == ts.subrange(start as int, end as int));
    let opt = str_chars("Option");
    crate::text::chars_eq(seg.as_slice(), opt.as_slice())
}

proof fn lemma_before_angle(t: Seq<char>, end: int)
    requires
        0 <= end <= t.len(),
        forall|k: int| 0 <= k < end ==> t[k] != '<',
        end == t.len() || t[end] == '<',
    ensures
        before_angle(t) == t.take(end),
    decreases t.len(),
{
    if t.len() > 0 && end > 0 {
        lemma_before_angle(t.drop_first(), end - 1);
        assert(seq![t[0]] + t.drop_first().take(end - 1) =~= t.take(end));
    } else {
        assert(t.take(end).len() == 0);
    }
}

proof fn lemma_after_last_colon(t: Seq<char>, start: int)
    requires
        0 <= start <= t.len(),
        forall|k: int| start <= k < t.len() ==> t[k] != ':',
        start == 0 || t[start - 1] == ':',
    ensures
        after_last_colon(t) == t.skip(start),
    decreases t.len(),
{
    if t.len() > start {
        lemma_after_last_colon(t.drop_last(), start);
        assert(t.drop_last().skip(start).push(t.last()) =~= t.skip(start));
    } else {
        assert(t.skip(start).len() == 0);
        if start > 0 {
            assert(t.last() == ':');
        }
    }
}

// ---------------------------------------------------------------------------
// CREATE TABLE

/// The PRIMARY KEY part of a column definition.
pub open spec fn key_part(f: FieldAttribute) -> Seq<char> {
    if f.is_autoincrement {
        " PRIMARY KEY AUTOINCREMENT"@
    } else if f.is_primary_key {
        " PRIMARY KEY"@
    } else {
        Seq::empty()
    }
}

/// The UNIQUE part of a column definition.
pub open spec fn unique_part(f: FieldAttribute) -> Seq<char> {
    if f.is_unique {
        " UNIQUE"@
    } else {
        Seq::empty()
    }
}

/// The NULL / NOT NULL part: key columns have none; a column is NOT NULL when declared so or
/// when its type is not an `Option`, and NULL otherwise.
pub open spec fn null_part(f: FieldAttribute) -> Seq<char> {
    if !f.is_autoincrement && !f.is_primary_key {
        if f.is_not_null || !is_option_text(f.rust_type@) {
            " NOT NULL"@
        } else {
            " NULL"@
        }
    } else {
        Seq::empty()
    }
}

/// The DEFAULT part: `now` becomes the current time (seconds for a `Timestamp`), boolean
/// spellings of 1 and 0 become 1 and 0 on a `bool` column, anything else is written as is.
pub open spec fn default_part(f: FieldAttribute) -> Seq<char> {
    match f.default {
        None => Seq::empty(),
        Some(d) => {
            let ty = f.rust_type@;
            if d@ == "now"@ {
                if contains(ty, "UtcDateTime"@) {
                    " DEFAULT CURRENT_TIMESTAMP"@
                } else if contains(ty, "Timestamp"@) {
                    " DEFAULT (strftime('%s','now'))"@
                } else {
                    " DEFAULT CURRENT_TIMESTAMP"@
                }
            } else if (d@ == "1"@ || d@ == "true"@) && contains(ty, "bool"@) {
                " DEFAULT 1"@
            } else if (d@ == "0"@ || d@ == "false"@) && contains(ty, "bool"@) {
                " DEFAULT 0"@
            } else {
                " DEFAULT "@ + d@
            }
        },
    }
}

/// The CHECK part of a column definition.
pub open spec fn check_part(f: FieldAttribute) -> Seq<char> {
    match f.check_constraint {
        None => Seq::empty(),
        Some(c) => " CHECK("@ + c@ + ")"@,
    }
}

/// The REFERENCES part of a column definition.
pub open spec fn reference_part(f: FieldAttribute) -> Seq<char> {
    match f.foreign_key {
        None => Seq::empty(),
        Some(k) => " REFERENCES "@ + k.table@ + "("@ + k.column@ + ") ON DELETE "@ + k.on_delete@
            + " ON UPDATE "@ + k.on_update@,
    }
}

/// All constraints of a column, in the order they are written.
pub open spec fn column_constraints(f: FieldAttribute) -> Seq<char> {
    key_part(f) + unique_part(f) + null_part(f) + default_part(f) + check_part(f) + reference_part(f)
}

/// One line of the column list: `    name TYPE constraints,` and a newline.
pub open spec fn column_line(f: FieldAttribute) -> Seq<char> {
    "    "@ + f.name@ + " "@ + f.sql_type_name@ + column_constraints(f) + ",\n"@
}

pub open spec fn column_lines(fields: Seq<FieldAttribute>) -> Seq<char>
    decreases fields.len(),
{
    if fields.len() == 0 {
        Seq::empty()
    } else {
        column_lines(fields.drop_last()) + column_line(fields.last())
    }
}

/// The line of a table-level constraint (constraints only).
pub open spec fn constraint_line(a: TableAttribute) -> Seq<char> {
    if a.attr_type == TableAttributeType::Constraint {
        "    "@ + a.value@[0]@ + ",\n"@
    } else {
        Seq::empty()
    }
}

pub open spec fn constraint_lines(attrs: Seq<TableAttribute>) -> Seq<char>
    decreases attrs.len(),
{
    if attrs.len() == 0 {
        Seq::empty()
    } else {
        constraint_lines(attrs.drop_last()) + constraint_line(attrs.last())
    }
}

/// The CREATE INDEX statement of an index attribute with a name and columns.
pub open spec fn index_statement(a: TableAttribute, table: Seq<char>) -> Seq<char> {
    if a.attr_type == TableAttributeType::Index && a.value@.len() >= 2 {
        "CREATE INDEX IF NOT EXISTS "@ + a.value@[0]@ + " ON "@ + table + " ("@ + a.value@[1]@ + ");\n"@
    } else if a.attr_type == TableAttributeType::UniqueIndex && a.value@.len() >= 2 {
        "CREATE UNIQUE INDEX IF NOT EXISTS "@ + a.value@[0]@ + " ON "@ + table + " ("@ + a.value@[1]@
            + ");\n"@
    } else {
        Seq::empty()
    }
}

pub open spec fn index_statements(attrs: Seq<TableAttribute>, table: Seq<char>) -> Seq<char>
    decreases attrs.len(),
{
    if attrs.len() == 0 {
        Seq::empty()
    } else {
        index_statements(attrs.drop_last(), table) + index_statement(attrs.last(), table)
    }
}

pub open spec fn ends_with(s: Seq<char>, suffix: Seq<char>) -> bool {
    s.len() >= suffix.len() && s.skip(s.len() - suffix.len()) == suffix
}

proof fn lemma_index_statements_hold(attrs: Seq<TableAttribute>, table: Seq<char>, i: int)
    requires
        0 <= i < attrs.len(),
    ensures
        contains(index_statements(attrs, table), index_statement(attrs[i], table)),
    decreases attrs.len(),
{
    let rest = index_statements(attrs.drop_last(), table);
    let last = index_statement(attrs.last(), table);
    if i == attrs.len() - 1 {
        lemma_contains_middle(rest, last, Seq::empty());
        assert(rest + last + Seq::<char>::empty() =~= rest + last);
    } else {
        lemma_index_statements_hold(attrs.drop_last(), table, i);
        assert(attrs.drop_last()[i] == attrs[i]);
        lemma_contains_middle(Seq::empty(), rest, last);
        assert(Seq::<char>::empty() + rest + last =~= rest + last);
        lemma_contains_trans(rest + last, rest, index_statement(attrs[i], table));
    }
}

proof fn lemma_index_in_create_table(table: Seq<char>, fields: Seq<FieldAttribute>, attrs: Seq<TableAttribute>, i: int, needle: Seq<char>)
    requires
        0 <= i < attrs.len(),
        index_statement(attrs[i], table) == needle + "\n"@,
    ensures
        contains(create_table_statement(table, fields, attrs), needle),
{
    reveal_strlit("\n");
    let stmt = index_statement(attrs[i], table);
    let indexes = index_statements(attrs, table);
    lemma_index_statements_hold(attrs, table, i);
    lemma_contains_middle(Seq::empty(), needle, "\n"@);
    assert(Seq::<char>::empty() + needle + "\n"@ =~= stmt);
    lemma_contains_trans(indexes, stmt, needle);
    assert(indexes.len() > 0) by {
        let k = choose|k: int| occurs_at(indexes, stmt, k);
    }
    let open = "CREATE TABLE IF NOT EXISTS "@ + table + " (\n"@ + column_lines(fields) + constraint_lines(attrs);
    let closed = if ends_with(open, ",\n"@) {
        open.drop_last().drop_last() + "\n"@
    } else {
        open
    } + ")"@;
    assert(create_table_statement(table, fields, attrs) == closed + ";\n"@ + indexes);
    lemma_contains_middle(closed + ";\n"@, indexes, Seq::empty());
    assert(closed + ";\n"@ + indexes + Seq::<char>::empty() =~= closed + ";\n"@ + indexes);
    lemma_contains_trans(create_table_statement(table, fields, attrs), indexes, needle);
}

/// A column's definition in the CREATE TABLE statement: its name, its SQLite type and its
/// constraints.
pub open spec fn column_definition(f: FieldAttribute) -> Seq<char> {
    "    "@ + f.name@ + " "@ + f.sql_type_name@ + column_constraints(f)
}

proof fn lemma_column_lines_hold(fields: Seq<FieldAttribute>, i: int)
    requires
        0 <= i < fields.len(),
    ensures
        contains(column_lines(fields), column_definition(fields[i]) + ",\n"@),
    decreases fields.len(),
{
    let rest = column_lines(fields.drop_last());
    let last = column_line(fields.last());
    if i == fields.len() - 1 {
        assert(last =~= column_definition(fields[i]) + ",\n"@);
        lemma_contains_middle(rest, last, Seq::empty());
        assert(rest + last + Seq::<char>::empty() =~= rest + last);
    } else {
        lemma_column_lines_hold(fields.drop_last(), i);
        assert(fields.drop_last()[i] == fields[i]);
        lemma_contains_middle(Seq::empty(), rest, last);
        assert(Seq::<char>::empty() + rest + last =~= rest + last);
        lemma_contains_trans(rest + last, rest, column_definition(fields[i]) + ",\n"@);
    }
}

proof fn lemma_column_in_statement(table: Seq<char>, fields: Seq<FieldAttribute>, attrs: Seq<TableAttribute>, i: int)
    requires
        0 <= i < fields.len(),
    ensures
        ({
            let st = create_table_statement(table, fields, attrs);
            &&& st.take(("CREATE TABLE IF NOT EXISTS "@ + table + " ("@).len() as int) == "CREATE TABLE IF NOT EXISTS "@
                + table + " ("@
            &&& contains(st, column_definition(fields[i]))
        }),
{
    reveal_strlit(",\n");
    reveal_strlit("\n");
    reveal_strlit(")");
    reveal_strlit(" (");
    reveal_strlit(" (\n");
    let def = column_definition(fields[i]);
    let head = "CREATE TABLE IF NOT EXISTS "@ + table + " (\n"@;
    let open = head + column_lines(fields) + constraint_lines(attrs);
    lemma_column_lines_hold(fields, i);
    lemma_contains_middle(head, column_lines(fields), constraint_lines(attrs));
    lemma_contains_trans(open, column_lines(fields), def + ",\n"@);
    let k = choose|k: int| occurs_at(open, def + ",\n"@, k);
    let closed = if ends_with(open, ",\n"@) {
        open.drop_last().drop_last() + "\n"@
    } else {
        open
    } + ")"@;
    assert(open.subrange(k, k + def.len()) =~= def);
    assert(closed.subrange(k, k + def.len()) =~= open.subrange(k, k + def.len()));
    assert(occurs_at(closed, def, k));
    let st = create_table_statement(table, fields, attrs);
    let indexes = index_statements(attrs, table);
    if indexes.len() > 0 {
        assert(st == closed + ";\n"@ + indexes);
        lemma_contains_middle(Seq::empty(), closed, ";\n"@ + indexes);
        assert(Seq::<char>::empty() + closed + (";\n"@ + indexes) =~= st);
        lemma_contains_trans(st, closed, def);
    } else {
        assert(st == closed);
    }
    let prefix = "CREATE TABLE IF NOT EXISTS "@ + table + " ("@;
    assert(closed.take(prefix.len() as int) =~= prefix);
    assert(st.take(prefix.len() as int) =~= prefix);
}

proof fn lemma_column_definition_parts(f: FieldAttribute)
    ensures
        ({
            let def = column_definition(f);
            &&& contains(def, "    "@ + f.name@ + " "@ + f.sql_type_name@)
            &&& (f.is_autoincrement ==> contains(def, " PRIMARY KEY AUTOINCREMENT"@))
            &&& (f.is_primary_key ==> contains(def, " PRIMARY KEY"@))
            &&& (f.is_unique ==> contains(def, " UNIQUE"@))
            &&& (f.is_not_null && !f.is_autoincrement && !f.is_primary_key ==> contains(def, " NOT NULL"@))
            &&& (f.check_constraint matches Some(c) ==> contains(def, " CHECK("@ + c@ + ")"@))
            &&& (f.foreign_key matches Some(k) ==> contains(def, " REFERENCES "@ + k.table@ + "("@ + k.column@ + ")"@))
        }),
{
    let def = column_definition(f);
    let nm = "    "@ + f.name@ + " "@ + f.sql_type_name@;
    let kp = key_part(f);
    let up = unique_part(f);
    let np = null_part(f);
    let dp = default_part(f);
    let cp = check_part(f);
    let rp = reference_part(f);
    assert(def =~= nm + kp + up + np + dp + cp + rp);
    lemma_contains_middle(Seq::empty(), nm, kp + up + np + dp + cp + rp);
    assert(Seq::<char>::empty() + nm + (kp + up + np + dp + cp + rp) =~= def);
    if f.is_autoincrement {
        lemma_contains_middle(nm, kp, up + np + dp + cp + rp);
        assert(nm + kp + (up + np + dp + cp + rp) =~= def);
    }
    if f.is_primary_key {
        if f.is_autoincrement {
            reveal_strlit(" PRIMARY KEY AUTOINCREMENT");
            reveal_strlit(" PRIMARY KEY");
            reveal_strlit(" AUTOINCREMENT");
            lemma_contains_middle(Seq::empty(), " PRIMARY KEY"@, " AUTOINCREMENT"@);
            assert(Seq::<char>::empty() + " PRIMARY KEY"@ + " AUTOINCREMENT"@ =~= kp);
            lemma_contains_middle(nm, kp, up + np + dp + cp + rp);
            assert(nm + kp + (up + np + dp + cp + rp) =~= def);
            lemma_contains_trans(def, kp, " PRIMARY KEY"@);
        } else {
            lemma_contains_middle(nm, kp, up + np + dp + cp + rp);
            assert(nm + kp + (up + np + dp + cp + rp) =~= def);
        }
    }
    if f.is_unique {
        lemma_contains_middle(nm + kp, up, np + dp + cp + rp);
        assert(nm + kp + up + (np + dp + cp + rp) =~= def);
    }
    if f.is_not_null && !f.is_autoincrement && !f.is_primary_key {
        lemma_contains_middle(nm + kp + up, np, dp + cp + rp);
        assert(nm + kp + up + np + (dp + cp + rp) =~= def);
    }
    if f.check_constraint is Some {
        lemma_contains_middle(nm + kp + up + np + dp, cp, rp);
        assert(nm + kp + up + np + dp + cp + rp =~= def);
    }
    if let Some(fk) = f.foreign_key {
        reveal_strlit(") ON DELETE ");
        reveal_strlit(")");
        reveal_strlit(" ON DELETE ");
        let needle = " REFERENCES "@ + fk.table@ + "("@ + fk.column@ + ")"@;
        let tail = " ON DELETE "@ + fk.on_delete@ + " ON UPDATE "@ + fk.on_update@;
        assert(rp =~= needle + tail);
        lemma_contains_middle(Seq::empty(), needle, tail);
        assert(Seq::<char>::empty() + needle + tail =~= rp);
        lemma_contains_middle(nm + kp + up + np + dp + cp, rp, Seq::empty());
        assert(nm + kp + up + np + dp + cp + rp + Seq::<char>::empty() =~= def);
        lemma_contains_trans(def, rp, needle);
    }
}

/// The CREATE TABLE statement opens with `CREATE TABLE IF NOT EXISTS <table> (` and holds
/// each field's column definition: its name and SQLite type, then `PRIMARY KEY
/// AUTOINCREMENT` for an autoincrement field, `PRIMARY KEY` for a key, `UNIQUE` for a unique
/// field, `NOT NULL` for a non-key field declared not null, `CHECK(<check>)` and
/// `REFERENCES <table>(<column>)` where declared.
pub proof fn lemma_columns_declared(table: Seq<char>, fields: Seq<FieldAttribute>, attrs: Seq<TableAttribute>, i: int)
    requires
        0 <= i < fields.len(),
    ensures
        ({
            let st = create_table_statement(table, fields, attrs);
            let f = fields[i];
            let def = column_definition(f);
            &&& st.take(("CREATE TABLE IF NOT EXISTS "@ + table + " ("@).len() as int) == "CREATE TABLE IF NOT EXISTS "@
                + table + " ("@
            &&& contains(st, "    "@ + f.name@ + " "@ + f.sql_type_name@)
            &&& contains(st, def)
            &&& (f.is_autoincrement ==> contains(def, " PRIMARY KEY AUTOINCREMENT"@))
            &&& (f.is_primary_key ==> contains(def, " PRIMARY KEY"@))
            &&& (f.is_unique ==> contains(def, " UNIQUE"@))
            &&& (f.is_not_null && !f.is_autoincrement && !f.is_primary_key ==> contains(def, " NOT NULL"@))
            &&& (f.check_constraint matches Some(c) ==> contains(def, " CHECK("@ + c@ + ")"@))
            &&& (f.foreign_key matches Some(k) ==> contains(def, " REFERENCES "@ + k.table@ + "("@ + k.column@ + ")"@))
        }),
{
    lemma_column_in_statement(table, fields, attrs, i);
    lemma_column_definition_parts(fields[i]);
    lemma_contains_trans(
        create_table_statement(table, fields, attrs),
        column_definition(fields[i]),
        "    "@ + fields[i].name@ + " "@ + fields[i].sql_type_name@,
    );
}

/// A unique index declared on a table (with a name and columns) is created as a unique
/// index: the statement holds `CREATE UNIQUE INDEX IF NOT EXISTS <name> ON <table>
/// (<columns>);`.
pub proof fn lemma_unique_index_declared(table: Seq<char>, fields: Seq<FieldAttribute>, attrs: Seq<TableAttribute>, i: int)
    requires
        0 <= i < attrs.len(),
        attrs[i].attr_type == TableAttributeType::UniqueIndex,
        attrs[i].value@.len() >= 2,
    ensures
        contains(
            create_table_statement(table, fields, attrs),
            "CREATE UNIQUE INDEX IF NOT EXISTS "@ + attrs[i].value@[0]@ + " ON "@ + table + " ("@ + attrs[i].value@[1]@
                + ");"@,
        ),
{
    reveal_strlit(");\n");
    reveal_strlit(");");
    reveal_strlit("\n");
    let needle = "CREATE UNIQUE INDEX IF NOT EXISTS "@ + attrs[i].value@[0]@ + " ON "@ + table + " ("@
        + attrs[i].value@[1]@ + ");"@;
    assert(index_statement(attrs[i], table) =~= needle + "\n"@);
    lemma_index_in_create_table(table, fields, attrs, i, needle);
}

/// A plain index declared on a table (with a name and columns) is created as a plain index:
/// the statement holds `CREATE INDEX IF NOT EXISTS <name> ON <table> (<columns>);`.
pub proof fn lemma_index_declared(table: Seq<char>, fields: Seq<FieldAttribute>, attrs: Seq<TableAttribute>, i: int)
    requires
        0 <= i < attrs.len(),
        attrs[i].attr_type == TableAttributeType::Index,
        attrs[i].value@.len() >= 2,
    ensures
        contains(
            create_table_statement(table, fields, attrs),
            "CREATE INDEX IF NOT EXISTS "@ + attrs[i].value@[0]@ + " ON "@ + table + " ("@ + attrs[i].value@[1]@ + ");"@,
        ),
{
    reveal_strlit(");\n");
    reveal_strlit(");");
    reveal_strlit("\n");
    let needle = "CREATE INDEX IF NOT EXISTS "@ + attrs[i].value@[0]@ + " ON "@ + table + " ("@ + attrs[i].value@[1]@
        + ");"@;
    assert(index_statement(attrs[i], table) =~= needle + "\n"@);
    lemma_index_in_create_table(table, fields, attrs, i, needle);
}

/// Every constraint attribute carries its constraint text.
pub open spec fn constraints_have_text(attrs: Seq<TableAttribute>) -> bool {
    forall|i: int| 0 <= i < attrs.len() && (#[trigger] attrs[i]).attr_type == TableAttributeType::Constraint
        ==> attrs[i].value@.len() >= 1
}

/// The CREATE TABLE statement of a table: one line per column and per table constraint, the
/// last comma dropped, then the CREATE INDEX statements of the indexes, if any.
pub open spec fn create_table_statement(table: Seq<char>, fields: Seq<FieldAttribute>, attrs: Seq<TableAttribute>) -> Seq<char> {
    let open = "CREATE TABLE IF NOT EXISTS "@ + table + " (\n"@ + column_lines(fields) + constraint_lines(attrs);
    let closed = if ends_with(open, ",\n"@) {
        open.drop_last().drop_last() + "\n"@
    } else {
        open
    } + ")"@;
    let indexes = index_statements(attrs, table);
    if indexes.len() > 0 {
        closed + ";\n"@ + indexes
    } else {
        closed
    }
}

fn push_key_part(out: &mut Vec<char>, f: &FieldAttribute)
    ensures
        final(out)@ == old(out)@ + key_part(*f),
{
    if f.is_autoincrement {
        push_str_chars(out, " PRIMARY KEY AUTOINCREMENT");
    } else if f.is_primary_key {
        push_str_chars(out, " PRIMARY KEY");
    } else {
        assert(out@ =~= old(out)@ + key_part(*f));
    }
}

fn push_unique_part(out: &mut Vec<char>, f: &FieldAttribute)
    ensures
        final(out)@ == old(out)@ + unique_part(*f),
{
    if f.is_unique {
        push_str_chars(out, " UNIQUE");
    } else {
        assert(out@ =~= old(out)@ + unique_part(*f));
    }
}

fn push_null_part(out: &mut Vec<char>, f: &FieldAttribute)
    ensures
        final(out)@ == old(out)@ + null_part(*f),
{
    if !f.is_autoincrement && !f.is_primary_key {
        if f.is_not_null || !is_option_type(f.rust_type.as_str()) {
            push_str_chars(out, " NOT NULL");
        } else {
            push_str_chars(out, " NULL");
        }
    } else {
        assert(out@ =~= old(out)@ + null_part(*f));
    }
}

fn push_default_part(out: &mut Vec<char>, f: &FieldAttribute)
    ensures
        final(out)@ == old(out)@ + default_part(*f),
{
    match &f.default {
        None => {
            assert(out@ =~= old(out)@ + default_part(*f));
        },
        Some(d) => {
            let ty = str_chars(f.rust_type.as_str());
            if str_eq(d.as_str(), "now") {
                if contains_str(ty.as_slice(), "UtcDateTime") {
                    push_str_chars(out, " DEFAULT CURRENT_TIMESTAMP");
                } else if contains_str(ty.as_slice(), "Timestamp") {
                    push_str_chars(out, " DEFAULT (strftime('%s','now'))");
                } else {
                    push_str_chars(out, " DEFAULT CURRENT_TIMESTAMP");
                }
            } else if (str_eq(d.as_str(), "1") || str_eq(d.as_str(), "true")) && contains_str(ty.as_slice(), "bool") {
                push_str_chars(out, " DEFAULT 1");
            } else if (str_eq(d.as_str(), "0") || str_eq(d.as_str(), "false")) && contains_str(ty.as_slice(), "bool") {
                push_str_chars(out, " DEFAULT 0");
            } else {
                push_str_chars(out, " DEFAULT ");
                push_str_chars(out, d.as_str());
                assert(out@ =~= old(out)@ + default_part(*f));
            }
        },
    }
}

fn push_check_part(out: &mut Vec<char>, f: &FieldAttribute)
    ensures
        final(out)@ == old(out)@ + check_part(*f),
{
    match &f.check_constraint {
        None => {
            assert(out@ =~= old(out)@ + check_part(*f));
        },
        Some(c) => {
            push_str_chars(out, " CHECK(");
            push_str_chars(out, c.as_str());
            push_str_chars(out, ")");
            assert(out@ =~= old(out)@ + check_part(*f));
        },
    }
}

fn push_reference_part(out: &mut Vec<char>, f: &FieldAttribute)
    ensures
        final(out)@ == old(out)@ + reference_part(*f),
{
    match &f.foreign_key {
        None => {
            assert(out@ =~= old(out)@ + reference_part(*f));
        },
        Some(k) => {
            push_str_chars(out, " REFERENCES ");
            push_str_chars(out, k.table.as_str());
            push_str_chars(out, "(");
            push_str_chars(out, k.column.as_str());
            push_str_chars(out, ") ON DELETE ");
            push_str_chars(out, k.on_delete.as_str());
            push_str_chars(out, " ON UPDATE ");
            push_str_chars(out, k.on_update.as_str());
            assert(out@ =~= old(out)@ + reference_part(*f));
        },
    }
}

fn push_column_line(out: &mut Vec<char>, f: &FieldAttribute)
    ensures
        final(out)@ == old(out)@ + column_line(*f),
{
    push_str_chars(out, "    ");
    push_str_chars(out, f.name.as_str());
    push_str_chars(out, " ");
    push_str_chars(out, f.sql_type_name.as_str());
    let ghost before = out@;
    push_key_part(out, f);
    push_unique_part(out, f);
    push_null_part(out, f);
    push_default_part(out, f);
    push_check_part(out, f);
    push_reference_part(out, f);
    assert(out@ =~= before + column_constraints(*f));
    push_str_chars(out, ",\n");
    assert(out@ =~= old(out)@ + column_line(*f));
}

/// The CREATE TABLE statement (with its CREATE INDEX statements) of a table.
pub fn create_table_sql(table_name: &str, fields: &[FieldAttribute], table_attrs: &[TableAttribute]) -> (r: String)
    requires
        constraints_have_text(table_attrs@),
    ensures
        r@ == create_table_statement(table_name@, fields@, table_attrs@),
{
    let mut sql: Vec<char> = Vec::new();
    push_str_chars(&mut sql, "CREATE TABLE IF NOT EXISTS ");
    push_str_chars(&mut sql, table_name);
    push_str_chars(&mut sql, " (\n");
    let ghost head = sql@;
    let n = fields.len();
    for i in 0..n
        invariant
            n == fields@.len(),
            sql@ == head + column_lines(fields@.take(i as int)),
    {
        assert(fields@.take(i + 1).drop_last() == fields@.take(i as int));
        push_column_line(&mut sql, &fields[i]);
    }
    assert(fields@.take(n as int) == fields@);
    let ghost with_columns = sql@;
    let m = table_attrs.len();
    for i in 0..m
        invariant
            m == table_attrs@.len(),
            constraints_have_text(table_attrs@),
            sql@ == with_columns + constraint_lines(table_attrs@.take(i as int)),
    {
        assert(table_attrs@.take(i + 1).drop_last() == table_attrs@.take(i as int));
        let a = &table_attrs[i];
        if a.attr_type == TableAttributeType::Constraint {
            assert(table_attrs@[i as int].value@.len() >= 1);
            push_str_chars(&mut sql, "    ");
            push_str_chars(&mut sql, a.value[0].as_str());
            push_str_chars(&mut sql, ",\n");
        }
    }
    assert(table_attrs@.take(m as int) == table_attrs@);
    let ghost open = sql@;
    proof {
        reveal_strlit(",\n");
        reveal_strlit("\n");
    }
    let len = sql.len();
    if len >= 2 && sql[len - 2] == ',' && sql[len - 1] == '\n' {
        assert(open.skip(open.len() - 2) =~= ",\n"@);
        sql.pop();
        sql.pop();
        sql.push('\n');
        assert(sql@ =~= open.drop_last().drop_last() + "\n"@);
    } else {
        assert(!ends_with(open, ",\n"@)) by {
            if ends_with(open, ",\n"@) {
                assert(open.skip(open.len() - 2)[0] == open[open.len() - 2]);
                assert(open.skip(open.len() - 2)[1] == open[open.len() - 1]);
            }
        }
    }
    push_str_chars(&mut sql, ")");
    let mut indexes: Vec<char> = Vec::new();
    for i in 0..m
        invariant
            m == table_attrs@.len(),
            indexes@ == index_statements(table_attrs@.take(i as int), table_name@),
    {
        assert(table_attrs@.take(i + 1).drop_last() == table_attrs@.take(i as int));
        let a = &table_attrs[i];
        if a.attr_type == TableAttributeType::Index && a.value.len() >= 2 {
            push_str_chars(&mut indexes, "CREATE INDEX IF NOT EXISTS ");
            push_str_chars(&mut indexes, a.value[0].as_str());
            push_str_chars(&mut indexes, " ON ");
            push_str_chars(&mut indexes, table_name);
            push_str_chars(&mut indexes, " (");
            push_str_chars(&mut indexes, a.value[1].as_str());
            push_str_chars(&mut indexes, ");\n");
        } else if a.attr_type == TableAttributeType::UniqueIndex && a.value.len() >= 2 {
            push_str_chars(&mut indexes, "CREATE UNIQUE INDEX IF NOT EXISTS ");
            push_str_chars(&mut indexes, a.value[0].as_str());
            push_str_chars(&mut indexes, " ON ");
            push_str_chars(&mut indexes, table_name);
            push_str_chars(&mut indexes, " (");
            push_str_chars(&mut indexes, a.value[1].as_str());
            push_str_chars(&mut indexes, ");\n");
        }
    }
    assert(table_attrs@.take(m as int) == table_attrs@);
    if indexes.len() > 0 {
        push_str_chars(&mut sql, ";\n");
        crate::text::push_all(&mut sql, indexes.as_slice());
    }
    string_from_chars(sql.as_slice())
}

// ---------------------------------------------------------------------------
// Schema migrations declared on a table

/// A migration generated from a table attribute: its name, the SQL that applies it and the
/// SQL that reverts it, when there is one. A malformed declaration gives the name `error`
/// and an SQL comment that says what is missing.
#[derive(Debug)]
pub struct TableMigration {
    pub name: String,
    pub up: String,
    pub down: Option<String>,
}

pub struct TableMigrationView {
    pub name: Seq<char>,
    pub up: Seq<char>,
    pub down: Option<Seq<char>>,
}

impl View for TableMigration {
    type V = TableMigrationView;

    open spec fn view(&self) -> TableMigrationView {
        TableMigrationView {
            name: self.name@,
            up: self.up@,
            down: match self.down {
                Some(d) => Some(d@),
                None => None,
            },
        }
    }
}

pub open spec fn error_migration(message: Seq<char>) -> TableMigrationView {
    TableMigrationView { name: "error"@, up: message, down: None }
}

fn make_error(message: &str) -> (r: TableMigration)
    ensures
        r@ == error_migration(message@),
{
    TableMigration { name: "error".to_owned(), up: message.to_owned(), down: None }
}

/// The first field of the given name.
pub open spec fn find_field(fields: Seq<FieldAttribute>, name: Seq<char>) -> Option<FieldAttribute>
    decreases fields.len(),
{
    if fields.len() == 0 {
        None
    } else if fields[0].name@ == name {
        Some(fields[0])
    } else {
        find_field(fields.drop_first(), name)
    }
}

fn find_field_exec<'a>(fields: &'a [FieldAttribute], name: &str) -> (r: Option<&'a FieldAttribute>)
    ensures
        match r {
            Some(f) => find_field(fields@, name@) == Some(*f),
            None => find_field(fields@, name@) is None,
        },
{
    let n = fields.len();
    assert(fields@.skip(0) == fields@);
    for i in 0..n
        invariant
            n == fields@.len(),
            find_field(fields@, name@) == find_field(fields@.skip(i as int), name@),
    {
        assert(fields@.skip(i as int).drop_first() == fields@.skip(i + 1));
        if str_eq(fields[i].name.as_str(), name) {
            return Some(&fields[i]);
        }
    }
    assert(fields@.skip(n as int).len() == 0);
    None
}

/// The column constraints written in an ALTER TABLE migration, in order.
pub open spec fn migration_constraints(f: FieldAttribute) -> Seq<Seq<char>> {
    (if f.is_not_null { seq!["NOT NULL"@] } else { Seq::empty() })
    + (if f.is_unique { seq!["UNIQUE"@] } else { Seq::empty() })
    + (match f.check_constraint { Some(c) => seq!["CHECK ("@ + c@ + ")"@], None => Seq::empty() })
    + (match f.default { Some(d) => seq!["DEFAULT "@ + d@], None => Seq::empty() })
}

fn migration_constraint_text(f: &FieldAttribute) -> (r: Vec<char>)
    ensures
        r@ == join(migration_constraints(*f), " "@),
{
    let mut parts: Vec<String> = Vec::new();
    if f.is_not_null {
        parts.push("NOT NULL".to_owned());
    }
    if f.is_unique {
        parts.push("UNIQUE".to_owned());
    }
    match &f.check_constraint {
        Some(c) => {
            let mut v: Vec<char> = Vec::new();
            push_str_chars(&mut v, "CHECK (");
            push_str_chars(&mut v, c.as_str());
            push_str_chars(&mut v, ")");
            parts.push(chars_to_string(&v));
        },
        None => {},
    }
    match &f.default {
        Some(d) => {
            let mut v: Vec<char> = Vec::new();
            push_str_chars(&mut v, "DEFAULT ");
            push_str_chars(&mut v, d.as_str());
            parts.push(chars_to_string(&v));
        },
        None => {},
    }
    assert(string_views(parts@) =~= migration_constraints(*f));
    let mut out: Vec<char> = Vec::new();
    push_joined_strings(&mut out, parts.as_slice(), " ");
    out
}

proof fn lemma_join_holds(parts: Seq<Seq<char>>, sep: Seq<char>, k: int)
    requires
        0 <= k < parts.len(),
    ensures
        contains(join(parts, sep), parts[k]),
    decreases parts.len(),
{
    if parts.len() == 1 {
        lemma_contains_middle(Seq::empty(), parts[0], Seq::empty());
        assert(Seq::<char>::empty() + parts[0] + Seq::<char>::empty() =~= parts[0]);
    } else {
        let front = join(parts.drop_last(), sep);
        if k == parts.len() - 1 {
            lemma_contains_middle(front + sep, parts.last(), Seq::empty());
            assert(front + sep + parts.last() + Seq::<char>::empty() =~= front + sep + parts.last());
        } else {
            lemma_join_holds(parts.drop_last(), sep, k);
            assert(parts.drop_last()[k] == parts[k]);
            lemma_contains_middle(Seq::empty(), front, sep + parts.last());
            assert(Seq::<char>::empty() + front + (sep + parts.last()) =~= front + sep + parts.last());
            lemma_contains_trans(join(parts, sep), front, parts[k]);
        }
    }
}

proof fn lemma_find_field_at(fields: Seq<FieldAttribute>, name: Seq<char>, i: int)
    requires
        0 <= i < fields.len(),
        fields[i].name@ == name,
        forall|j: int| 0 <= j < i ==> (#[trigger] fields[j]).name@ != name,
    ensures
        find_field(fields, name) == Some(fields[i]),
    decreases i,
{
    if i > 0 {
        assert(fields[0].name@ != name);
        let rest = fields.drop_first();
        assert forall|j: int| 0 <= j < i - 1 implies (#[trigger] rest[j]).name@ != name by {
            assert(rest[j] == fields[j + 1]);
        }
        lemma_find_field_at(rest, name, i - 1);
    }
}

/// `add_column` of a field (the first of its name) keeps the field's declared constraints:
/// the up script adds the column with `ALTER TABLE <table> ADD COLUMN <column> `, and holds
/// `NOT NULL` for a not-null field, `UNIQUE` for a unique one, `CHECK (<check>)` for a checked
/// one, and ends with `DEFAULT <default>` for one with a default; the down script drops the
/// column.
pub proof fn lemma_add_column_keeps_constraints(table: Seq<char>, args: Seq<Seq<char>>, fields: Seq<FieldAttribute>, i: int)
    requires
        args.len() > 0,
        0 <= i < fields.len(),
        fields[i].name@ == args[0],
        forall|j: int| 0 <= j < i ==> (#[trigger] fields[j]).name@ != args[0],
    ensures
        ({
            let m = add_column_migration(table, args, fields);
            let f = fields[i];
            &&& m.up.take(("ALTER TABLE "@ + table + " ADD COLUMN "@ + args[0] + " "@).len() as int) == "ALTER TABLE "@
                + table + " ADD COLUMN "@ + args[0] + " "@
            &&& f.is_not_null ==> contains(m.up, "NOT NULL"@)
            &&& f.is_unique ==> contains(m.up, "UNIQUE"@)
            &&& (f.check_constraint matches Some(c) ==> contains(m.up, "CHECK ("@ + c@ + ")"@))
            &&& (f.default matches Some(d) ==> ends_with(m.up, "DEFAULT "@ + d@))
            &&& m.down == Some("ALTER TABLE "@ + table + " DROP COLUMN "@ + args[0])
        }),
{
    lemma_find_field_at(fields, args[0], i);
    let f = fields[i];
    let m = add_column_migration(table, args, fields);
    let head = "ALTER TABLE "@ + table + " ADD COLUMN "@ + args[0] + " "@ + sql_type_of(f.rust_type@) + " "@;
    let cs = migration_constraints(f);
    assert(m.up == head + join(cs, " "@));
    assert(m.up.take(("ALTER TABLE "@ + table + " ADD COLUMN "@ + args[0] + " "@).len() as int) =~= "ALTER TABLE "@
        + table + " ADD COLUMN "@ + args[0] + " "@);
    lemma_contains_middle(head, join(cs, " "@), Seq::empty());
    assert(head + join(cs, " "@) + Seq::<char>::empty() =~= m.up);
    let p1: Seq<Seq<char>> = if f.is_not_null { seq!["NOT NULL"@] } else { Seq::empty() };
    let p2: Seq<Seq<char>> = if f.is_unique { seq!["UNIQUE"@] } else { Seq::empty() };
    let p3: Seq<Seq<char>> = match f.check_constraint { Some(c) => seq!["CHECK ("@ + c@ + ")"@], None => Seq::empty() };
    let p4: Seq<Seq<char>> = match f.default { Some(d) => seq!["DEFAULT "@ + d@], None => Seq::empty() };
    assert(cs == p1 + p2 + p3 + p4);
    if f.is_not_null {
        assert(cs[0] == "NOT NULL"@);
        lemma_join_holds(cs, " "@, 0);
        lemma_contains_trans(m.up, join(cs, " "@), "NOT NULL"@);
    }
    if f.is_unique {
        assert(cs[p1.len() as int] == "UNIQUE"@);
        lemma_join_holds(cs, " "@, p1.len() as int);
        lemma_contains_trans(m.up, join(cs, " "@), "UNIQUE"@);
    }
    if let Some(c) = f.check_constraint {
        assert(cs[(p1.len() + p2.len()) as int] == "CHECK ("@ + c@ + ")"@);
        lemma_join_holds(cs, " "@, (p1.len() + p2.len()) as int);
        lemma_contains_trans(m.up, join(cs, " "@), "CHECK ("@ + c@ + ")"@);
    }
    if let Some(d) = f.default {
        let last = "DEFAULT "@ + d@;
        assert(cs.last() == last);
        if cs.len() == 1 {
            assert(join(cs, " "@) == last);
        } else {
            assert(join(cs, " "@) == join(cs.drop_last(), " "@) + " "@ + last);
        }
        assert(m.up.skip(m.up.len() - last.len()) =~= last);
    }
}

/// `add_column`: adds the named field's column, with its type and constraints; reverted by
/// dropping the column.
pub open spec fn add_column_migration(table: Seq<char>, args: Seq<Seq<char>>, fields: Seq<FieldAttribute>) -> TableMigrationView {
    if args.len() == 0 {
        error_migration("-- Migration add_column requires at least one argument"@)
    } else {
        let column = args[0];
        match find_field(fields, column) {
            Some(f) => TableMigrationView {
                name: "migration_"@ + table + "_add_"@ + column,
                up: "ALTER TABLE "@ + table + " ADD COLUMN "@ + column + " "@ + sql_type_of(f.rust_type@) + " "@
                    + join(migration_constraints(f), " "@),
                down: Some("ALTER TABLE "@ + table + " DROP COLUMN "@ + column),
            },
            None => error_migration("-- Column "@ + column + " not found in struct definition"@),
        }
    }
}

/// `rename_column`: renames a column; reverted by renaming it back.
pub open spec fn rename_column_migration(table: Seq<char>, args: Seq<Seq<char>>) -> TableMigrationView {
    if args.len() < 2 {
        error_migration("-- Migration rename_column requires old_name and new_name"@)
    } else {
        TableMigrationView {
            name: "migration_"@ + table + "_rename_"@ + args[0] + "_to_"@ + args[1],
            up: "ALTER TABLE "@ + table + " RENAME COLUMN "@ + args[0] + " TO "@ + args[1],
            down: Some("ALTER TABLE "@ + table + " RENAME COLUMN "@ + args[1] + " TO "@ + args[0]),
        }
    }
}

/// How the old values are converted when a column's type changes: booleans from their common
/// spellings, anything else by CAST.
pub open spec fn conversion_expr(column: Seq<char>, sql_type: Seq<char>, rust_type: Seq<char>) -> Seq<char> {
    if spec_lowercase(sql_type) == "integer"@ && is_bool_type_text(rust_type) {
        "CASE WHEN LOWER("@ + column + ") IN ('1', 'true', 'yes', 'on', 't', 'y') THEN 1 ELSE 0 END"@
    } else {
        "CAST("@ + column + " AS "@ + sql_type + ")"@
    }
}

/// The four steps that change a column's type: add a new column, copy the converted values,
/// drop the old column, rename the new one.
pub open spec fn modify_column_script(table: Seq<char>, column: Seq<char>, sql_type: Seq<char>, constraints: Seq<char>, conversion: Seq<char>) -> Seq<char> {
    let temp = column + "_new"@;
    "-- SQLite 3.35.0+ column type modification using ADD+DROP+RENAME\nPRAGMA foreign_keys=off;\n\n-- Step 1: Add a new column with the desired type\nALTER TABLE "@
        + table + " ADD COLUMN "@ + temp + " "@ + sql_type + " "@ + constraints
        + ";\n\n-- Step 2: Copy data with type conversion\nUPDATE "@ + table + " SET "@ + temp + " = "@
        + conversion + ";\n\n-- Step 3: Drop the old column\nALTER TABLE "@ + table + " DROP COLUMN "@
        + column + ";\n\n-- Step 4: Rename the new column to the original name\nALTER TABLE "@ + table
        + " RENAME COLUMN "@ + temp + " TO "@ + column + ";\n\nPRAGMA foreign_keys=on;"@
}

/// `modify_column`: changes a column's type to that of the named field; not revertible.
pub open spec fn modify_column_migration(table: Seq<char>, args: Seq<Seq<char>>, fields: Seq<FieldAttribute>) -> TableMigrationView {
    if args.len() == 0 {
        error_migration("-- Migration modify_column requires column name"@)
    } else {
        let column = args[0];
        match find_field(fields, column) {
            Some(f) => {
                let ty = sql_type_of(f.rust_type@);
                TableMigrationView {
                    name: "migration_"@ + table + "_modify_"@ + column,
                    up: modify_column_script(
                        table,
                        column,
                        ty,
                        join(migration_constraints(f), " "@),
                        conversion_expr(column, ty, f.rust_type@),
                    ),
                    down: None,
                }
            },
            None => error_migration("-- Column "@ + column + " not found in struct definition"@),
        }
    }
}

/// `drop_column`: drops a column; not revertible.
pub open spec fn drop_column_migration(table: Seq<char>, args: Seq<Seq<char>>) -> TableMigrationView {
    if args.len() == 0 {
        error_migration("-- Migration drop_column requires column name"@)
    } else {
        TableMigrationView {
            name: "migration_"@ + table + "_drop_"@ + args[0],
            up: "ALTER TABLE "@ + table + " DROP COLUMN "@ + args[0],
            down: None,
        }
    }
}

/// `add_index`: creates an index on the given columns, unique when the third argument is
/// `UNIQUE` in any case; reverted by dropping it.
pub open spec fn add_index_migration(table: Seq<char>, args: Seq<Seq<char>>) -> TableMigrationView {
    if args.len() < 2 {
        error_migration("-- Migration add_index requires index name and column(s)"@)
    } else {
        let unique = args.len() >= 3 && spec_uppercase(args[2]) == "UNIQUE"@;
        TableMigrationView {
            name: "migration_"@ + table + "_add_index_"@ + args[0],
            up: (if unique { "CREATE UNIQUE INDEX "@ } else { "CREATE INDEX "@ }) + args[0] + " ON "@ + table
                + " ("@ + args[1] + ")"@,
            down: Some("DROP INDEX "@ + args[0]),
        }
    }
}

/// `drop_index`: drops an index; not revertible.
pub open spec fn drop_index_migration(table: Seq<char>, args: Seq<Seq<char>>) -> TableMigrationView {
    if args.len() == 0 {
        error_migration("-- Migration drop_index requires index name"@)
    } else {
        TableMigrationView {
            name: "migration_"@ + table + "_drop_index_"@ + args[0],
            up: "DROP INDEX "@ + args[0],
            down: None,
        }
    }
}

/// `custom`: a named migration with its own SQL, and its own revert SQL when given.
pub open spec fn custom_migration(args: Seq<Seq<char>>) -> TableMigrationView {
    if args.len() < 2 {
        error_migration("-- Migration custom requires name and SQL statement"@)
    } else {
        TableMigrationView {
            name: args[0],
            up: args[1],
            down: if args.len() >= 3 { Some(args[2]) } else { None },
        }
    }
}

/// How the declared migrations relate: renaming `a` to `b` is undone by renaming `b` to
/// `a`; adding an index is undone by dropping that index; adding a field's column is undone
/// by dropping that column; an index is created `UNIQUE` exactly when its third argument is
/// `UNIQUE` in any case; a custom migration runs its own SQL and reverts with its own.
pub proof fn lemma_migrations_relate(table: Seq<char>, args: Seq<Seq<char>>, fields: Seq<FieldAttribute>)
    ensures
        args.len() >= 2 ==> rename_column_migration(table, args).down == Some(
            rename_column_migration(table, seq![args[1], args[0]]).up,
        ),
        args.len() >= 2 ==> add_index_migration(table, args).down == Some(
            drop_index_migration(table, seq![args[0]]).up,
        ),
        args.len() >= 1 && find_field(fields, args[0]) is Some ==> add_column_migration(table, args, fields).down
            == Some(drop_column_migration(table, seq![args[0]]).up),
        args.len() >= 3 && spec_uppercase(args[2]) == "UNIQUE"@ ==> add_index_migration(table, args).up
            == "CREATE UNIQUE INDEX "@ + args[0] + " ON "@ + table + " ("@ + args[1] + ")"@,
        args.len() == 2 ==> add_index_migration(table, args).up == "CREATE INDEX "@ + args[0] + " ON "@ + table + " ("@
            + args[1] + ")"@,
        args.len() >= 2 ==> custom_migration(args).up == args[1] && custom_migration(args).name == args[0],
        args.len() >= 3 ==> custom_migration(args).down == Some(args[2]),
        args.len() == 2 ==> custom_migration(args).down is None,
{
}

proof fn lemma_modify_script_adds(table: Seq<char>, column: Seq<char>, ty: Seq<char>, cons: Seq<char>, conv: Seq<char>)
    ensures
        contains(modify_column_script(table, column, ty, cons, conv), table + " ADD COLUMN "@ + (column + "_new"@) + " "@ + ty + " "@ + cons),
{
    let scr = modify_column_script(table, column, ty, cons, conv);
    let temp = column + "_new"@;
    let a = "-- SQLite 3.35.0+ column type modification using ADD+DROP+RENAME\nPRAGMA foreign_keys=off;\n\n-- Step 1: Add a new column with the desired type\nALTER TABLE "@;
    let part = table + " ADD COLUMN "@ + temp + " "@ + ty + " "@ + cons;
    let rest = ";\n\n-- Step 2: Copy data with type conversion\nUPDATE "@ + table + " SET "@ + temp + " = "@ + conv
        + ";\n\n-- Step 3: Drop the old column\nALTER TABLE "@ + table + " DROP COLUMN "@ + column
        + ";\n\n-- Step 4: Rename the new column to the original name\nALTER TABLE "@ + table + " RENAME COLUMN "@
        + temp + " TO "@ + column + ";\n\nPRAGMA foreign_keys=on;"@;
    assert(scr =~= a + part + rest);
    lemma_contains_middle(a, part, rest);
}

proof fn lemma_modify_script_drops(table: Seq<char>, column: Seq<char>, ty: Seq<char>, cons: Seq<char>, conv: Seq<char>)
    ensures
        contains(modify_column_script(table, column, ty, cons, conv), table + " DROP COLUMN "@ + column),
{
    let scr = modify_column_script(table, column, ty, cons, conv);
    let temp = column + "_new"@;
    let a = "-- SQLite 3.35.0+ column type modification using ADD+DROP+RENAME\nPRAGMA foreign_keys=off;\n\n-- Step 1: Add a new column with the desired type\nALTER TABLE "@
        + table + " ADD COLUMN "@ + temp + " "@ + ty + " "@ + cons
        + ";\n\n-- Step 2: Copy data with type conversion\nUPDATE "@ + table + " SET "@ + temp + " = "@ + conv
        + ";\n\n-- Step 3: Drop the old column\nALTER TABLE "@;
    let part = table + " DROP COLUMN "@ + column;
    let rest = ";\n\n-- Step 4: Rename the new column to the original name\nALTER TABLE "@ + table + " RENAME COLUMN "@
        + temp + " TO "@ + column + ";\n\nPRAGMA foreign_keys=on;"@;
    assert(scr =~= a + part + rest);
    lemma_contains_middle(a, part, rest);
}

proof fn lemma_modify_script_renames(table: Seq<char>, column: Seq<char>, ty: Seq<char>, cons: Seq<char>, conv: Seq<char>)
    ensures
        contains(modify_column_script(table, column, ty, cons, conv), table + " RENAME COLUMN "@ + (column + "_new"@) + " TO "@ + column),
{
    let scr = modify_column_script(table, column, ty, cons, conv);
    let temp = column + "_new"@;
    let a = "-- SQLite 3.35.0+ column type modification using ADD+DROP+RENAME\nPRAGMA foreign_keys=off;\n\n-- Step 1: Add a new column with the desired type\nALTER TABLE "@
        + table + " ADD COLUMN "@ + temp + " "@ + ty + " "@ + cons
        + ";\n\n-- Step 2: Copy data with type conversion\nUPDATE "@ + table + " SET "@ + temp + " = "@ + conv
        + ";\n\n-- Step 3: Drop the old column\nALTER TABLE "@ + table + " DROP COLUMN "@ + column
        + ";\n\n-- Step 4: Rename the new column to the original name\nALTER TABLE "@;
    let part = table + " RENAME COLUMN "@ + temp + " TO "@ + column;
    let rest = ";\n\nPRAGMA foreign_keys=on;"@;
    assert(scr =~= a + part + rest);
    lemma_contains_middle(a, part, rest);
}

proof fn lemma_constraints_listed(f: FieldAttribute)
    ensures
        ({
            let cons = join(migration_constraints(f), " "@);
            &&& f.is_not_null ==> contains(cons, "NOT NULL"@)
            &&& f.is_unique ==> contains(cons, "UNIQUE"@)
            &&& (f.check_constraint matches Some(c) ==> contains(cons, "CHECK ("@ + c@ + ")"@))
            &&& (f.default matches Some(d) ==> contains(cons, "DEFAULT "@ + d@))
        }),
{
    let cs = migration_constraints(f);
    let p1: Seq<Seq<char>> = if f.is_not_null { seq!["NOT NULL"@] } else { Seq::empty() };
    let p2: Seq<Seq<char>> = if f.is_unique { seq!["UNIQUE"@] } else { Seq::empty() };
    let p3: Seq<Seq<char>> = match f.check_constraint { Some(c) => seq!["CHECK ("@ + c@ + ")"@], None => Seq::empty() };
    let p4: Seq<Seq<char>> = match f.default { Some(d) => seq!["DEFAULT "@ + d@], None => Seq::empty() };
    assert(cs == p1 + p2 + p3 + p4);
    if f.is_not_null {
        assert(cs[0] == "NOT NULL"@);
        lemma_join_holds(cs, " "@, 0);
    }
    if f.is_unique {
        assert(cs[p1.len() as int] == "UNIQUE"@);
        lemma_join_holds(cs, " "@, p1.len() as int);
    }
    if let Some(c) = f.check_constraint {
        assert(cs[(p1.len() + p2.len()) as int] == "CHECK ("@ + c@ + ")"@);
        lemma_join_holds(cs, " "@, (p1.len() + p2.len()) as int);
    }
    if let Some(d) = f.default {
        assert(cs[cs.len() - 1] == "DEFAULT "@ + d@);
        lemma_join_holds(cs, " "@, cs.len() - 1);
    }
}

/// Changing a field's column type (the first field of its name) keeps the column's name and
/// its declared constraints: the script adds `<column>_new` with the field's SQLite type and
/// `NOT NULL`, `UNIQUE`, `CHECK (..)` and `DEFAULT ..` as declared, drops the old column and
/// renames the new one to `<column>`; it cannot be undone.
pub proof fn lemma_modify_column_keeps_constraints(table: Seq<char>, args: Seq<Seq<char>>, fields: Seq<FieldAttribute>, i: int)
    requires
        args.len() > 0,
        0 <= i < fields.len(),
        fields[i].name@ == args[0],
        forall|j: int| 0 <= j < i ==> (#[trigger] fields[j]).name@ != args[0],
    ensures
        ({
            let m = modify_column_migration(table, args, fields);
            let f = fields[i];
            let column = args[0];
            let cons = join(migration_constraints(f), " "@);
            &&& contains(m.up, table + " ADD COLUMN "@ + (column + "_new"@) + " "@ + sql_type_of(f.rust_type@) + " "@ + cons)
            &&& contains(m.up, table + " DROP COLUMN "@ + column)
            &&& contains(m.up, table + " RENAME COLUMN "@ + (column + "_new"@) + " TO "@ + column)
            &&& f.is_not_null ==> contains(m.up, "NOT NULL"@)
            &&& f.is_unique ==> contains(m.up, "UNIQUE"@)
            &&& (f.check_constraint matches Some(c) ==> contains(m.up, "CHECK ("@ + c@ + ")"@))
            &&& (f.default matches Some(d) ==> contains(m.up, "DEFAULT "@ + d@))
            &&& m.down is None
        }),
{
    lemma_find_field_at(fields, args[0], i);
    let f = fields[i];
    let column = args[0];
    let ty = sql_type_of(f.rust_type@);
    let cons = join(migration_constraints(f), " "@);
    let conv = conversion_expr(column, ty, f.rust_type@);
    let m = modify_column_migration(table, args, fields);
    assert(m.up == modify_column_script(table, column, ty, cons, conv));
    lemma_modify_script_adds(table, column, ty, cons, conv);
    lemma_modify_script_drops(table, column, ty, cons, conv);
    lemma_modify_script_renames(table, column, ty, cons, conv);
    lemma_constraints_listed(f);
    let added = table + " ADD COLUMN "@ + (column + "_new"@) + " "@ + ty + " "@ + cons;
    lemma_contains_middle(table + " ADD COLUMN "@ + (column + "_new"@) + " "@ + ty + " "@, cons, Seq::empty());
    assert(table + " ADD COLUMN "@ + (column + "_new"@) + " "@ + ty + " "@ + cons + Seq::<char>::empty() =~= added);
    lemma_contains_trans(m.up, added, cons);
    if f.is_not_null {
        lemma_contains_trans(m.up, cons, "NOT NULL"@);
    }
    if f.is_unique {
        lemma_contains_trans(m.up, cons, "UNIQUE"@);
    }
    if let Some(c) = f.check_constraint {
        lemma_contains_trans(m.up, cons, "CHECK ("@ + c@ + ")"@);
    }
    if let Some(d) = f.default {
        lemma_contains_trans(m.up, cons, "DEFAULT "@ + d@);
    }
}

/// The migration a table attribute of the given type declares.
pub open spec fn migration_of(mt: MigrationType, table: Seq<char>, args: Seq<Seq<char>>, fields: Seq<FieldAttribute>) -> TableMigrationView {
    match mt {
        MigrationType::AddColumn => add_column_migration(table, args, fields),
        MigrationType::RenameColumn => rename_column_migration(table, args),
        MigrationType::ModifyColumn => modify_column_migration(table, args, fields),
        MigrationType::DropColumn => drop_column_migration(table, args),
        MigrationType::AddIndex => add_index_migration(table, args),
        MigrationType::DropIndex => drop_index_migration(table, args),
        MigrationType::Custom => custom_migration(args),
    }
}

fn text_of(v: &Vec<char>) -> (r: String)
    ensures
        r@ == v@,
{
    chars_to_string(v)
}

fn name_with(table: &str, infix: &str, x: &str) -> (r: String)
    ensures
        r@ == "migration_"@ + table@ + infix@ + x@,
{
    let mut v: Vec<char> = Vec::new();
    push_str_chars(&mut v, "migration_");
    push_str_chars(&mut v, table);
    push_str_chars(&mut v, infix);
    push_str_chars(&mut v, x);
    text_of(&v)
}

/// Generates an `add_column` migration.
pub fn generate_add_column_migration(table_name: &str, args: &[String], field_attrs: &[FieldAttribute]) -> (r: TableMigration)
    ensures
        r@ == add_column_migration(table_name@, string_views(args@), field_attrs@),
{
    if args.len() == 0 {
        return make_error("-- Migration add_column requires at least one argument");
    }
    let column = args[0].as_str();
    assert(string_views(args@)[0] == column@);
    match find_field_exec(field_attrs, column) {
        Some(f) => {
            let ty = get_sql_type(f.rust_type.as_str());
            let cons = migration_constraint_text(f);
            let mut up: Vec<char> = Vec::new();
            push_str_chars(&mut up, "ALTER TABLE ");
            push_str_chars(&mut up, table_name);
            push_str_chars(&mut up, " ADD COLUMN ");
            push_str_chars(&mut up, column);
            push_str_chars(&mut up, " ");
            push_str_chars(&mut up, ty.as_str());
            push_str_chars(&mut up, " ");
            crate::text::push_all(&mut up, cons.as_slice());
            let mut down: Vec<char> = Vec::new();
            push_str_chars(&mut down, "ALTER TABLE ");
            push_str_chars(&mut down, table_name);
            push_str_chars(&mut down, " DROP COLUMN ");
            push_str_chars(&mut down, column);
            let r = TableMigration {
                name: name_with(table_name, "_add_", column),
                up: text_of(&up),
                down: Some(text_of(&down)),
            };
            assert(r@ == add_column_migration(table_name@, string_views(args@), field_attrs@));
            r
        },
        None => {
            let mut m: Vec<char> = Vec::new();
            push_str_chars(&mut m, "-- Column ");
            push_str_chars(&mut m, column);
            push_str_chars(&mut m, " not found in struct definition");
            TableMigration { name: "error".to_owned(), up: text_of(&m), down: None }
        },
    }
}

/// Generates a `rename_column` migration.
pub fn generate_rename_column_migration(table_name: &str, args: &[String]) -> (r: TableMigration)
    ensures
        r@ == rename_column_migration(table_name@, string_views(args@)),
{
    if args.len() < 2 {
        return make_error("-- Migration rename_column requires old_name and new_name");
    }
    let old_name = args[0].as_str();
    let new_name = args[1].as_str();
    let mut n: Vec<char> = Vec::new();
    push_str_chars(&mut n, "migration_");
    push_str_chars(&mut n, table_name);
    push_str_chars(&mut n, "_rename_");
    push_str_chars(&mut n, old_name);
    push_str_chars(&mut n, "_to_");
    push_str_chars(&mut n, new_name);
    let mut up: Vec<char> = Vec::new();
    push_str_chars(&mut up, "ALTER TABLE ");
    push_str_chars(&mut up, table_name);
    push_str_chars(&mut up, " RENAME COLUMN ");
    push_str_chars(&mut up, old_name);
    push_str_chars(&mut up, " TO ");
    push_str_chars(&mut up, new_name);
    let mut down: Vec<char> = Vec::new();
    push_str_chars(&mut down, "ALTER TABLE ");
    push_str_chars(&mut down, table_name);
    push_str_chars(&mut down, " RENAME COLUMN ");
    push_str_chars(&mut down, new_name);
    push_str_chars(&mut down, " TO ");
    push_str_chars(&mut down, old_name);
    TableMigration { name: text_of(&n), up: text_of(&up), down: Some(text_of(&down)) }
}

/// Generates a `modify_column` migration.
pub fn generate_modify_column_migration(table_name: &str, args: &[String], field_attrs: &[FieldAttribute]) -> (r: TableMigration)
    ensures
        r@ == modify_column_migration(table_name@, string_views(args@), field_attrs@),
{
    if args.len() == 0 {
        return make_error("-- Migration modify_column requires column name");
    }
    let column = args[0].as_str();
    assert(string_views(args@)[0] == column@);
    match find_field_exec(field_attrs, column) {
        Some(f) => {
            let ty = get_sql_type(f.rust_type.as_str());
            let cons = migration_constraint_text(f);
            let lowered = str_to_lowercase(ty.as_str());
            let mut conv: Vec<char> = Vec::new();
            if str_eq(lowered.as_str(), "integer") && is_bool_type(f.rust_type.as_str()) {
                push_str_chars(&mut conv, "CASE WHEN LOWER(");
                push_str_chars(&mut conv, column);
                push_str_chars(&mut conv, ") IN ('1', 'true', 'yes', 'on', 't', 'y') THEN 1 ELSE 0 END");
            } else {
                push_str_chars(&mut conv, "CAST(");
                push_str_chars(&mut conv, column);
                push_str_chars(&mut conv, " AS ");
                push_str_chars(&mut conv, ty.as_str());
                push_str_chars(&mut conv, ")");
            }
            assert(conv@ == conversion_expr(column@, ty@, f.rust_type@));
            let mut temp: Vec<char> = Vec::new();
            push_str_chars(&mut temp, column);
            push_str_chars(&mut temp, "_new");
            let mut up: Vec<char> = Vec::new();
            push_str_chars(&mut up, "-- SQLite 3.35.0+ column type modification using ADD+DROP+RENAME\nPRAGMA foreign_keys=off;\n\n-- Step 1: Add a new column with the desired type\nALTER TABLE ");
            push_str_chars(&mut up, table_name);
            push_str_chars(&mut up, " ADD COLUMN ");
            crate::text::push_all(&mut up, temp.as_slice());
            push_str_chars(&mut up, " ");
            push_str_chars(&mut up, ty.as_str());
            push_str_chars(&mut up, " ");
            crate::text::push_all(&mut up, cons.as_slice());
            push_str_chars(&mut up, ";\n\n-- Step 2: Copy data with type conversion\nUPDATE ");
            push_str_chars(&mut up, table_name);
            push_str_chars(&mut up, " SET ");
            crate::text::push_all(&mut up, temp.as_slice());
            push_str_chars(&mut up, " = ");
            crate::text::push_all(&mut up, conv.as_slice());
            push_str_chars(&mut up, ";\n\n-- Step 3: Drop the old column\nALTER TABLE ");
            push_str_chars(&mut up, table_name);
            push_str_chars(&mut up, " DROP COLUMN ");
            push_str_chars(&mut up, column);
            push_str_chars(&mut up, ";\n\n-- Step 4: Rename the new column to the original name\nALTER TABLE ");
            push_str_chars(&mut up, table_name);
            push_str_chars(&mut up, " RENAME COLUMN ");
            crate::text::push_all(&mut up, temp.as_slice());
            push_str_chars(&mut up, " TO ");
            push_str_chars(&mut up, column);
            push_str_chars(&mut up, ";\n\nPRAGMA foreign_keys=on;");
            let r = TableMigration {
                name: name_with(table_name, "_modify_", column),
                up: text_of(&up),
                down: None,
            };
            assert(r@ == modify_column_migration(table_name@, string_views(args@), field_attrs@));
            r
        },
        None => {
            let mut m: Vec<char> = Vec::new();
            push_str_chars(&mut m, "-- Column ");
            push_str_chars(&mut m, column);
            push_str_chars(&mut m, " not found in struct definition");
            TableMigration { name: "error".to_owned(), up: text_of(&m), down: None }
        },
    }
}

/// Generates a `drop_column` migration.
pub fn generate_drop_column_migration(table_name: &str, args: &[String]) -> (r: TableMigration)
    ensures
        r@ == drop_column_migration(table_name@, string_views(args@)),
{
    if args.len() == 0 {
        return make_error("-- Migration drop_column requires column name");
    }
    let column = args[0].as_str();
    let mut up: Vec<char> = Vec::new();
    push_str_chars(&mut up, "ALTER TABLE ");
    push_str_chars(&mut up, table_name);
    push_str_chars(&mut up, " DROP COLUMN ");
    push_str_chars(&mut up, column);
    TableMigration { name: name_with(table_name, "_drop_", column), up: text_of(&up), down: None }
}

/// Generates an `add_index` migration.
pub fn generate_add_index_migration(table_name: &str, args: &[String]) -> (r: TableMigration)
    ensures
        r@ == add_index_migration(table_name@, string_views(args@)),
{
    if args.len() < 2 {
        return make_error("-- Migration add_index requires index name and column(s)");
    }
    let index_name = args[0].as_str();
    let columns = args[1].as_str();
    let is_unique = args.len() >= 3 && str_eq(str_to_uppercase(args[2].as_str()).as_str(), "UNIQUE");
    let mut up: Vec<char> = Vec::new();
    if is_unique {
        push_str_chars(&mut up, "CREATE UNIQUE INDEX ");
    } else {
        push_str_chars(&mut up, "CREATE INDEX ");
    }
    push_str_chars(&mut up, index_name);
    push_str_chars(&mut up, " ON ");
    push_str_chars(&mut up, table_name);
    push_str_chars(&mut up, " (");
    push_str_chars(&mut up, columns);
    push_str_chars(&mut up, ")");
    let mut down: Vec<char> = Vec::new();
    push_str_chars(&mut down, "DROP INDEX ");
    push_str_chars(&mut down, index_name);
    let r = TableMigration {
        name: name_with(table_name, "_add_index_", index_name),
        up: text_of(&up),
        down: Some(text_of(&down)),
    };
    assert(r@ == add_index_migration(table_name@, string_views(args@)));
    r
}

/// Generates a `drop_index` migration.
pub fn generate_drop_index_migration(table_name: &str, args: &[String]) -> (r: TableMigration)
    ensures
        r@ == drop_index_migration(table_name@, string_views(args@)),
{
    if args.len() == 0 {
        return make_error("-- Migration drop_index requires index name");
    }
    let index_name = args[0].as_str();
    let mut up: Vec<char> = Vec::new();
    push_str_chars(&mut up, "DROP INDEX ");
    push_str_chars(&mut up, index_name);
    TableMigration {
        name: name_with(table_name, "_drop_index_", index_name),
        up: text_of(&up),
        down: None,
    }
}

/// Generates a `custom` migration.
pub fn generate_custom_migration(args: &[String]) -> (r: TableMigration)
    ensures
        r@ == custom_migration(string_views(args@)),
{
    if args.len() < 2 {
        return make_error("-- Migration custom requires name and SQL statement");
    }
    let down = if args.len() >= 3 {
        Some(args[2].clone())
    } else {
        None
    };
    TableMigration { name: args[0].clone(), up: args[1].clone(), down }
}

/// The migrations declared by the migration attributes of a table, in declaration order.
pub open spec fn table_migrations(table: Seq<char>, attrs: Seq<TableAttribute>, fields: Seq<FieldAttribute>) -> Seq<TableMigrationView>
    decreases attrs.len(),
{
    if attrs.len() == 0 {
        Seq::empty()
    } else {
        let a = attrs.last();
        let rest = table_migrations(table, attrs.drop_last(), fields);
        if a.attr_type == TableAttributeType::Migration && a.migration_type is Some {
            rest.push(migration_of(a.migration_type->0, table, string_views(a.value@), fields))
        } else {
            rest
        }
    }
}

/// Generates the migrations a table declares.
pub fn generate_migration_methods(table_name: &str, table_attrs: &[TableAttribute], field_attrs: &[FieldAttribute]) -> (r: Vec<TableMigration>)
    ensures
        r@.map_values(|m: TableMigration| m@) == table_migrations(table_name@, table_attrs@, field_attrs@),
{
    let mut out: Vec<TableMigration> = Vec::new();
    let n = table_attrs.len();
    for i in 0..n
        invariant
            n == table_attrs@.len(),
            out@.map_values(|m: TableMigration| m@) == table_migrations(table_name@, table_attrs@.take(i as int), field_attrs@),
    {
        assert(table_attrs@.take(i + 1).drop_last() == table_attrs@.take(i as int));
        let a = &table_attrs[i];
        if a.attr_type == TableAttributeType::Migration {
            match a.migration_type {
                Some(mt) => {
                    let args = a.value.as_slice();
                    let m = match mt {
                        MigrationType::AddColumn => generate_add_column_migration(table_name, args, field_attrs),
                        MigrationType::RenameColumn => generate_rename_column_migration(table_name, args),
                        MigrationType::ModifyColumn => generate_modify_column_migration(table_name, args, field_attrs),
                        MigrationType::DropColumn => generate_drop_column_migration(table_name, args),
                        MigrationType::AddIndex => generate_add_index_migration(table_name, args),
                        MigrationType::DropIndex => generate_drop_index_migration(table_name, args),
                        MigrationType::Custom => generate_custom_migration(args),
                    };
                    let ghost before = out@;
                    out.push(m);
                    assert(out@.map_values(|m: TableMigration| m@) =~= before.map_values(|m: TableMigration| m@).push(m@));
                },
                None => {},
            }
        }
    }
    assert(table_attrs@.take(n as int) == table_attrs@);
    out
}

} // verus!
