use vstd::prelude::*;
use crate::schema::{FieldAttribute, ForeignKey, MigrationType, TableAttribute, TableAttributeType};
use crate::text::{
    chars_to_string, closest_name, join, push_joined, push_str_chars, str_eq, str_views, string_views,
    suggest_name,
};

verus! {

/// The arguments of an attribute as written on a struct or a field.
#[derive(Debug)]
pub enum AttributeArgs {
    /// `#[name]`
    Word,
    /// `#[name(...)]` whose arguments are all string literals: their values.
    Strings(Vec<String>),
    /// `#[name(...)]` whose arguments are one integer literal: its value in base-10 digits.
    Integer(String),
    /// `#[name(...)]` whose arguments are one literal that is neither a string nor an integer.
    OtherLiteral,
    /// `#[name(...)]` with arguments of any other form.
    OtherList,
    /// `#[name = ...]`
    NameValue,
}

/// An attribute as written: its name and its arguments.
#[derive(Debug)]
pub struct RawAttribute {
    pub name: String,
    pub args: AttributeArgs,
}

pub open spec fn is_list(a: AttributeArgs) -> bool {
    !(a is Word || a is NameValue)
}

// ---------------------------------------------------------------------------
// Field attributes

/// The field as its attributes describe it, before any attribute is read.
pub open spec fn plain_field(f: FieldAttribute, name: Seq<char>, rust_type: Seq<char>, sql_type_name: Seq<char>) -> bool {
    &&& f.name@ == name
    &&& f.rust_type@ == rust_type
    &&& f.sql_type_name@ == sql_type_name
}

/// Whether `a` is the single-string argument list `[s]`.
pub open spec fn single_string(a: AttributeArgs, s: Seq<char>) -> bool {
    a matches AttributeArgs::Strings(v) && v@.len() == 1 && v@[0]@ == s
}

/// The message of a field attribute that cannot be read, if any: `check` and `default` take
/// exactly one string, `foreign_key` at least two strings.
pub open spec fn field_attr_error(a: RawAttribute) -> Option<Seq<char>> {
    let n = a.name@;
    if n == "check"@ || n == "default"@ {
        if !is_list(a.args) {
            Some("Incorrect format for using the `"@ + n + "` attribute."@)
        } else if a.args matches AttributeArgs::Strings(v) && v@.len() == 1 {
            None
        } else {
            Some("Expected a single string literal in the `"@ + n + "` attribute."@)
        }
    } else if n == "foreign_key"@ {
        match a.args {
            AttributeArgs::Strings(v) => if v@.len() >= 2 {
                None
            } else {
                Some("Incorrect format for using the `foreign_key` attribute."@)
            },
            AttributeArgs::Word | AttributeArgs::NameValue => Some("Incorrect format for using the `foreign_key` attribute."@),
            _ => Some("Expected string literals in the `foreign_key` attribute."@),
        }
    } else {
        None
    }
}

/// The foreign key that `foreign_key("table", "column", on_delete?, on_update?)` declares:
/// both actions are `NO ACTION` unless given.
pub open spec fn key_from_args(k: ForeignKey, args: AttributeArgs) -> bool {
    match args {
        AttributeArgs::Strings(v) => {
            &&& v@.len() >= 2
            &&& k.table@ == v@[0]@
            &&& k.column@ == v@[1]@
            &&& k.on_delete@ == (if v@.len() > 2 { v@[2]@ } else { "NO ACTION"@ })
            &&& k.on_update@ == (if v@.len() > 3 { v@[3]@ } else { "NO ACTION"@ })
        },
        _ => false,
    }
}

/// The field after reading one more attribute (one that can be read).
pub open spec fn apply_field_attr(before: FieldAttribute, after: FieldAttribute, a: RawAttribute) -> bool {
    let n = a.name@;
    &&& after.name == before.name
    &&& after.rust_type == before.rust_type
    &&& after.sql_type_name == before.sql_type_name
    &&& after.is_autoincrement == (before.is_autoincrement || n == "autoincrement"@)
    &&& after.is_primary_key == (before.is_primary_key || n == "primary_key"@)
    &&& after.is_unique == (before.is_unique || n == "unique"@)
    &&& after.is_not_null == (before.is_not_null || n == "not_null"@)
    &&& (if n == "check"@ {
        after.check_constraint matches Some(c) && single_string(a.args, c@)
    } else {
        after.check_constraint == before.check_constraint
    })
    &&& (if n == "default"@ {
        after.default matches Some(d) && single_string(a.args, d@)
    } else {
        after.default == before.default
    })
    &&& (if n == "foreign_key"@ {
        after.foreign_key matches Some(k) && key_from_args(k, a.args)
    } else {
        after.foreign_key == before.foreign_key
    })
}

fn copy_string(s: &String) -> (r: String)
    ensures
        r@ == s@,
{
    s.clone()
}

fn error_text(prefix: &str, name: &str, suffix: &str) -> (r: String)
    ensures
        r@ == prefix@ + name@ + suffix@,
{
    let mut m: Vec<char> = Vec::new();
    push_str_chars(&mut m, prefix);
    push_str_chars(&mut m, name);
    push_str_chars(&mut m, suffix);
    chars_to_string(&m)
}

fn read_text_attribute(a: &RawAttribute) -> (r: Result<String, String>)
    requires
        a.name@ == "check"@ || a.name@ == "default"@,
    ensures
        match r {
            Ok(s) => field_attr_error(*a) is None && single_string(a.args, s@),
            Err(m) => field_attr_error(*a) == Some(m@),
        },
{
    proof {
        reveal_strlit("check");
        reveal_strlit("default");
        reveal_strlit("foreign_key");
    }
    let an = a.name.as_str();
    match &a.args {
        AttributeArgs::Strings(v) => {
            if v.len() == 1 {
                Ok(copy_string(&v[0]))
            } else {
                Err(error_text("Expected a single string literal in the `", an, "` attribute."))
            }
        },
        AttributeArgs::Word | AttributeArgs::NameValue => Err(
            error_text("Incorrect format for using the `", an, "` attribute."),
        ),
        _ => Err(error_text("Expected a single string literal in the `", an, "` attribute.")),
    }
}

fn read_foreign_key(a: &RawAttribute) -> (r: Result<ForeignKey, String>)
    requires
        a.name@ == "foreign_key"@,
    ensures
        match r {
            Ok(k) => field_attr_error(*a) is None && key_from_args(k, a.args),
            Err(m) => field_attr_error(*a) == Some(m@),
        },
{
    proof {
        reveal_strlit("check");
        reveal_strlit("default");
        reveal_strlit("foreign_key");
    }
    match &a.args {
        AttributeArgs::Strings(v) => {
            if v.len() < 2 {
                return Err("Incorrect format for using the `foreign_key` attribute.".to_owned());
            }
            let on_delete = if v.len() > 2 {
                copy_string(&v[2])
            } else {
                "NO ACTION".to_owned()
            };
            let on_update = if v.len() > 3 {
                copy_string(&v[3])
            } else {
                "NO ACTION".to_owned()
            };
            Ok(ForeignKey { table: copy_string(&v[0]), column: copy_string(&v[1]), on_delete, on_update })
        },
        AttributeArgs::Word | AttributeArgs::NameValue => Err(
            "Incorrect format for using the `foreign_key` attribute.".to_owned(),
        ),
        _ => Err("Expected string literals in the `foreign_key` attribute.".to_owned()),
    }
}

/// Applies one attribute to a field.
fn apply_attribute(f: &mut FieldAttribute, a: &RawAttribute) -> (r: Result<(), String>)
    ensures
        match r {
            Ok(_) => field_attr_error(*a) is None && apply_field_attr(*old(f), *final(f), *a),
            Err(m) => field_attr_error(*a) == Some(m@),
        },
{
    proof {
        reveal_strlit("autoincrement");
        reveal_strlit("primary_key");
        reveal_strlit("unique");
        reveal_strlit("not_null");
        reveal_strlit("check");
        reveal_strlit("default");
        reveal_strlit("foreign_key");
        assert("primary_key"@[0] != "foreign_key"@[0]);
        assert("unique"@.len() == 6);
        assert("not_null"@.len() == 8);
        assert("check"@.len() == 5);
        assert("default"@.len() == 7);
        assert("autoincrement"@.len() == 13);
    }
    let an = a.name.as_str();
    if str_eq(an, "autoincrement") {
        f.is_autoincrement = true;
    } else if str_eq(an, "primary_key") {
        f.is_primary_key = true;
    } else if str_eq(an, "unique") {
        f.is_unique = true;
    } else if str_eq(an, "not_null") {
        f.is_not_null = true;
    } else if str_eq(an, "check") {
        match read_text_attribute(a) {
            Ok(c) => {
                f.check_constraint = Some(c);
            },
            Err(m) => {
                return Err(m);
            },
        }
    } else if str_eq(an, "default") {
        match read_text_attribute(a) {
            Ok(d) => {
                f.default = Some(d);
            },
            Err(m) => {
                return Err(m);
            },
        }
    } else if str_eq(an, "foreign_key") {
        match read_foreign_key(a) {
            Ok(k) => {
                f.foreign_key = Some(k);
            },
            Err(m) => {
                return Err(m);
            },
        }
    }
    Ok(())
}

/// The field as declared, before its attributes are read.
pub open spec fn unmarked_field(f: FieldAttribute, name: Seq<char>, rust_type: Seq<char>, sql_type_name: Seq<char>) -> bool {
    &&& plain_field(f, name, rust_type, sql_type_name)
    &&& !f.is_autoincrement && !f.is_primary_key && !f.is_unique && !f.is_not_null
    &&& f.check_constraint is None && f.default is None && f.foreign_key is None
}

/// Whether `f` is the field declared with this name and types once its attributes are
/// read in order, each applied to the field as the one before left it.
pub open spec fn field_read(f: FieldAttribute, name: Seq<char>, rust_type: Seq<char>, sql_type_name: Seq<char>, attrs: Seq<RawAttribute>) -> bool {
    exists|states: Seq<FieldAttribute>|
        states.len() == attrs.len() + 1 && states.last() == f && unmarked_field(states[0], name, rust_type, sql_type_name)
            && forall|i: int| 0 <= i < attrs.len() ==> apply_field_attr(#[trigger] states[i], states[i + 1], attrs[i])
}

/// Reads the attributes of a field: flags for `autoincrement`, `primary_key`, `unique` and
/// `not_null`, the text of `check` and `default`, and the target and actions of
/// `foreign_key` (actions `NO ACTION` unless given); other attributes are ignored. The first
/// attribute in the wrong form makes the field an error.
pub fn process_field_attributes(name: &str, rust_type: &str, sql_type_name: &str, attrs: &[RawAttribute]) -> (r: Result<FieldAttribute, String>)
    ensures
        match r {
            Ok(f) => forall|i: int| 0 <= i < attrs@.len() ==> field_attr_error(#[trigger] attrs@[i]) is None,
            Err(m) => exists|i: int|
                0 <= i < attrs@.len() && field_attr_error(#[trigger] attrs@[i]) == Some(m@) && forall|j: int|
                    0 <= j < i ==> field_attr_error(#[trigger] attrs@[j]) is None,
        },
        r matches Ok(f) ==> field_read(f, name@, rust_type@, sql_type_name@, attrs@),
{
    let mut f = FieldAttribute {
        name: name.to_owned(),
        rust_type: rust_type.to_owned(),
        sql_type_name: sql_type_name.to_owned(),
        is_autoincrement: false,
        is_primary_key: false,
        is_unique: false,
        is_not_null: false,
        check_constraint: None,
        default: None,
        foreign_key: None,
    };
    let ghost mut states: Seq<FieldAttribute> = seq![f];
    let n = attrs.len();
    for i in 0..n
        invariant
            n == attrs@.len(),
            states.len() == i + 1,
            states.last() == f,
            unmarked_field(states[0], name@, rust_type@, sql_type_name@),
            forall|k: int| 0 <= k < i ==> field_attr_error(#[trigger] attrs@[k]) is None,
            forall|k: int| 0 <= k < i ==> apply_field_attr(#[trigger] states[k], states[k + 1], attrs@[k]),
    {
        let ghost before = f;
        match apply_attribute(&mut f, &attrs[i]) {
            Ok(_) => {},
            Err(m) => {
                return Err(m);
            },
        }
        proof {
            states = states.push(f);
            assert(states[i as int] == before);
        }
    }
    Ok(f)
}

// ---------------------------------------------------------------------------
// Table attributes

/// What a table attribute adds to the table: its kind, its string arguments and, for a
/// migration, the kind of migration.
pub open spec fn entry_view(t: TableAttribute) -> (TableAttributeType, Seq<Seq<char>>, Option<MigrationType>) {
    (t.attr_type, string_views(t.value@), t.migration_type)
}

/// The string values of an argument list (empty unless all arguments are string literals).
pub open spec fn strings_of(a: AttributeArgs) -> Seq<Seq<char>> {
    match a {
        AttributeArgs::Strings(v) => string_views(v@),
        _ => Seq::empty(),
    }
}

/// The migration kinds, by name, in the order they are listed in messages.
pub open spec fn migration_names() -> Seq<Seq<char>> {
    seq![
        "add_column"@,
        "rename_column"@,
        "modify_column"@,
        "drop_column"@,
        "add_index"@,
        "drop_index"@,
        "custom"@,
    ]
}

/// The migration kind a name stands for.
pub open spec fn migration_type_named(t: Seq<char>) -> Option<MigrationType> {
    if t == "add_column"@ {
        Some(MigrationType::AddColumn)
    } else if t == "rename_column"@ {
        Some(MigrationType::RenameColumn)
    } else if t == "modify_column"@ {
        Some(MigrationType::ModifyColumn)
    } else if t == "drop_column"@ {
        Some(MigrationType::DropColumn)
    } else if t == "add_index"@ {
        Some(MigrationType::AddIndex)
    } else if t == "drop_index"@ {
        Some(MigrationType::DropIndex)
    } else if t == "custom"@ {
        Some(MigrationType::Custom)
    } else {
        None
    }
}

/// How many strings a migration attribute needs, its kind included.
pub open spec fn required_migration_args(mt: MigrationType) -> nat {
    match mt {
        MigrationType::AddColumn => 2,
        MigrationType::RenameColumn => 3,
        MigrationType::ModifyColumn => 2,
        MigrationType::DropColumn => 2,
        MigrationType::AddIndex => 3,
        MigrationType::DropIndex => 2,
        MigrationType::Custom => 3,
    }
}

/// What a migration attribute with too few strings is told.
pub open spec fn missing_args_message(mt: MigrationType) -> Seq<char> {
    match mt {
        MigrationType::AddColumn => "'add_column' migration requires column name"@,
        MigrationType::RenameColumn => "'rename_column' migration requires old_name and new_name"@,
        MigrationType::ModifyColumn => "'modify_column' migration requires column name"@,
        MigrationType::DropColumn => "'drop_column' migration requires column name"@,
        MigrationType::AddIndex => "'add_index' migration requires index_name and column(s)"@,
        MigrationType::DropIndex => "'drop_index' migration requires index_name"@,
        MigrationType::Custom => "'custom' migration requires name and SQL statement"@,
    }
}

/// The migration name to suggest for a misspelt one.
pub open spec fn closest_migration_name(t: Seq<char>) -> Option<Seq<char>> {
    closest_name(t, migration_names())
}

/// What an attribute naming an unknown migration kind is told.
pub open spec fn invalid_type_message(t: Seq<char>) -> Seq<char> {
    match closest_migration_name(t) {
        Some(s) => "Invalid migration type '"@ + t + "'. Did you mean '"@ + s + "'?"@,
        None => "Invalid migration type '"@ + t + "'. Valid types are: "@ + join(migration_names(), ", "@),
    }
}

/// The error a table attribute reports, if any; reading goes on after it.
pub open spec fn table_attr_error(a: RawAttribute) -> Option<Seq<char>> {
    if a.name@ == "migration"@ {
        let args = strings_of(a.args);
        if !is_list(a.args) {
            Some("Invalid attribute format for migration"@)
        } else if args.len() == 0 {
            Some("Migration requires at least one argument (migration type)"@)
        } else {
            match migration_type_named(args[0]) {
                None => Some(invalid_type_message(args[0])),
                Some(mt) => if args.len() < required_migration_args(mt) {
                    Some(missing_args_message(mt))
                } else {
                    None
                },
            }
        }
    } else {
        None
    }
}

/// The message of a table attribute in a form that stops reading altogether, if any:
/// `constraint`, `index` and `unique_index` take an argument list.
pub open spec fn table_attr_fatal(a: RawAttribute) -> Option<Seq<char>> {
    let n = a.name@;
    if (n == "constraint"@ || n == "index"@ || n == "unique_index"@) && !is_list(a.args) {
        Some("Incorrect format for using the `"@ + n + "` attribute."@)
    } else {
        None
    }
}

/// What a table attribute adds to the table, if anything: a migration of a known kind (with
/// the strings after its kind), a constraint of one string, an index or unique index of at
/// least two strings (the first two kept). Other attributes add nothing.
pub open spec fn table_attr_entry(a: RawAttribute) -> Option<(TableAttributeType, Seq<Seq<char>>, Option<MigrationType>)> {
    let n = a.name@;
    let args = strings_of(a.args);
    if n == "migration"@ {
        if args.len() > 0 && migration_type_named(args[0]) is Some {
            Some((TableAttributeType::Migration, args.drop_first(), migration_type_named(args[0])))
        } else {
            None
        }
    } else if n == "constraint"@ {
        if args.len() == 1 {
            Some((TableAttributeType::Constraint, args, None))
        } else {
            None
        }
    } else if n == "index"@ || n == "unique_index"@ {
        if args.len() >= 2 {
            Some((
                if n == "index"@ { TableAttributeType::Index } else { TableAttributeType::UniqueIndex },
                args.take(2),
                None,
            ))
        } else {
            None
        }
    } else {
        None
    }
}

/// What the attributes add to the table, in order.
pub open spec fn table_entries(attrs: Seq<RawAttribute>) -> Seq<(TableAttributeType, Seq<Seq<char>>, Option<MigrationType>)>
    decreases attrs.len(),
{
    if attrs.len() == 0 {
        Seq::empty()
    } else {
        let rest = table_entries(attrs.drop_last());
        match table_attr_entry(attrs.last()) {
            Some(e) => rest.push(e),
            None => rest,
        }
    }
}

/// The errors the attributes report, in order.
pub open spec fn table_errors(attrs: Seq<RawAttribute>) -> Seq<Seq<char>>
    decreases attrs.len(),
{
    if attrs.len() == 0 {
        Seq::empty()
    } else {
        let rest = table_errors(attrs.drop_last());
        match table_attr_error(attrs.last()) {
            Some(e) => rest.push(e),
            None => rest,
        }
    }
}

/// Whether every string argument of the attributes has fewer than `usize::MAX` characters
/// (the edit distance keeps a row one longer than the text).
pub open spec fn texts_fit(attrs: Seq<RawAttribute>) -> bool {
    forall|i: int, j: int|
        0 <= i < attrs.len() && 0 <= j < strings_of(#[trigger] attrs[i].args).len() ==> (#[trigger] strings_of(attrs[i].args)[j]).len() < usize::MAX
}

/// The migration kind that a name stands for, if any.
pub fn parse_migration_type(t: &str) -> (r: Option<MigrationType>)
    ensures
        r == migration_type_named(t@),
{
    if str_eq(t, "add_column") {
        Some(MigrationType::AddColumn)
    } else if str_eq(t, "rename_column") {
        Some(MigrationType::RenameColumn)
    } else if str_eq(t, "modify_column") {
        Some(MigrationType::ModifyColumn)
    } else if str_eq(t, "drop_column") {
        Some(MigrationType::DropColumn)
    } else if str_eq(t, "add_index") {
        Some(MigrationType::AddIndex)
    } else if str_eq(t, "drop_index") {
        Some(MigrationType::DropIndex)
    } else if str_eq(t, "custom") {
        Some(MigrationType::Custom)
    } else {
        None
    }
}

/// Checks that a migration attribute has the strings its kind needs (`args` holds the kind
/// first): the message for the missing ones, or `None`.
pub fn check_migration_args(migration_type: MigrationType, args: &[String]) -> (r: Option<String>)
    ensures
        match r {
            Some(m) => args@.len() < required_migration_args(migration_type) && m@ == missing_args_message(migration_type),
            None => args@.len() >= required_migration_args(migration_type),
        },
{
    let required: usize = match migration_type {
        MigrationType::AddColumn => 2,
        MigrationType::RenameColumn => 3,
        MigrationType::ModifyColumn => 2,
        MigrationType::DropColumn => 2,
        MigrationType::AddIndex => 3,
        MigrationType::DropIndex => 2,
        MigrationType::Custom => 3,
    };
    if args.len() < required {
        let m = match migration_type {
            MigrationType::AddColumn => "'add_column' migration requires column name",
            MigrationType::RenameColumn => "'rename_column' migration requires old_name and new_name",
            MigrationType::ModifyColumn => "'modify_column' migration requires column name",
            MigrationType::DropColumn => "'drop_column' migration requires column name",
            MigrationType::AddIndex => "'add_index' migration requires index_name and column(s)",
            MigrationType::DropIndex => "'drop_index' migration requires index_name",
            MigrationType::Custom => "'custom' migration requires name and SQL statement",
        };
        Some(m.to_owned())
    } else {
        None
    }
}

/// The message for a migration attribute whose kind is unknown, with a suggestion when a
/// known kind is close.
pub fn invalid_migration_type_message(t: &str) -> (r: String)
    requires
        t@.len() < usize::MAX,
    ensures
        r@ == invalid_type_message(t@),
{
    let names: [&str; 7] = [
        "add_column",
        "rename_column",
        "modify_column",
        "drop_column",
        "add_index",
        "drop_index",
        "custom",
    ];
    proof {
        assert(str_views(names@) == migration_names());
        reveal_strlit("add_column");
        reveal_strlit("rename_column");
        reveal_strlit("modify_column");
        reveal_strlit("drop_column");
        reveal_strlit("add_index");
        reveal_strlit("drop_index");
        reveal_strlit("custom");
    }
    let suggestion = suggest_name(t, names.as_slice());
    let mut m: Vec<char> = Vec::new();
    push_str_chars(&mut m, "Invalid migration type '");
    push_str_chars(&mut m, t);
    match suggestion {
        Some(s) => {
            push_str_chars(&mut m, "'. Did you mean '");
            push_str_chars(&mut m, s);
            push_str_chars(&mut m, "'?");
        },
        None => {
            push_str_chars(&mut m, "'. Valid types are: ");
            push_joined(&mut m, names.as_slice(), ", ");
        },
    }
    chars_to_string(&m)
}

/// The entry of an optional table attribute.
pub open spec fn opt_entry(o: Option<TableAttribute>) -> Option<(TableAttributeType, Seq<Seq<char>>, Option<MigrationType>)> {
    match o {
        Some(t) => Some(entry_view(t)),
        None => None,
    }
}

/// The text of an optional string.
pub open spec fn opt_text(o: Option<String>) -> Option<Seq<char>> {
    match o {
        Some(t) => Some(t@),
        None => None,
    }
}

fn copy_strings(v: &[String], from: usize, to: usize) -> (r: Vec<String>)
    requires
        from <= to <= v@.len(),
    ensures
        string_views(r@) == string_views(v@).subrange(from as int, to as int),
{
    let mut r: Vec<String> = Vec::new();
    for i in from..to
        invariant
            from <= to <= v@.len(),
            string_views(r@) == string_views(v@).subrange(from as int, i as int),
    {
        let ghost before = r@;
        let c = copy_string(&v[i]);
        r.push(c);
        proof {
            assert(r@ == before.push(c));
            assert(string_views(r@) == string_views(before).push(c@));
            assert(string_views(r@) == string_views(v@).subrange(from as int, i + 1));
        }
    }
    r
}

fn read_migration(a: &RawAttribute) -> (r: (Option<TableAttribute>, Option<String>))
    requires
        a.name@ == "migration"@,
        forall|j: int| 0 <= j < strings_of(a.args).len() ==> (#[trigger] strings_of(a.args)[j]).len() < usize::MAX,
    ensures
        opt_entry(r.0) == table_attr_entry(*a),
        opt_text(r.1) == table_attr_error(*a),
{
    proof {
        reveal_strlit("migration");
        reveal_strlit("constraint");
        reveal_strlit("index");
        reveal_strlit("unique_index");
    }
    match &a.args {
        AttributeArgs::Strings(v) => {
            if v.len() == 0 {
                return (None, Some("Migration requires at least one argument (migration type)".to_owned()));
            }
            let ghost args = strings_of(a.args);
            assert(args[0] == v@[0]@);
            match parse_migration_type(v[0].as_str()) {
                None => {
                    assert(args[0].len() < usize::MAX);
                    (None, Some(invalid_migration_type_message(v[0].as_str())))
                },
                Some(mt) => {
                    let err = check_migration_args(mt, v.as_slice());
                    let value = copy_strings(v.as_slice(), 1, v.len());
                    assert(args.drop_first() == string_views(v@).subrange(1, v@.len() as int));
                    (Some(TableAttribute { attr_type: TableAttributeType::Migration, value, migration_type: Some(mt) }), err)
                },
            }
        },
        AttributeArgs::Word | AttributeArgs::NameValue => (
            None,
            Some("Invalid attribute format for migration".to_owned()),
        ),
        _ => (None, Some("Migration requires at least one argument (migration type)".to_owned())),
    }
}

fn read_table_attribute(a: &RawAttribute) -> (r: Result<(Option<TableAttribute>, Option<String>), String>)
    requires
        forall|j: int| 0 <= j < strings_of(a.args).len() ==> (#[trigger] strings_of(a.args)[j]).len() < usize::MAX,
    ensures
        match r {
            Ok((e, m)) => table_attr_fatal(*a) is None && opt_entry(e) == table_attr_entry(*a) && opt_text(m)
                == table_attr_error(*a),
            Err(m) => table_attr_fatal(*a) == Some(m@),
        },
{
    proof {
        reveal_strlit("migration");
        reveal_strlit("constraint");
        reveal_strlit("index");
        reveal_strlit("unique_index");
        assert("migration"@[0] != "constraint"@[0]);
    }
    let an = a.name.as_str();
    if str_eq(an, "migration") {
        Ok(read_migration(a))
    } else if str_eq(an, "constraint") || str_eq(an, "index") || str_eq(an, "unique_index") {
        let kind = if str_eq(an, "constraint") {
            TableAttributeType::Constraint
        } else if str_eq(an, "index") {
            TableAttributeType::Index
        } else {
            TableAttributeType::UniqueIndex
        };
        match &a.args {
            AttributeArgs::Strings(v) => {
                let wanted: usize = if str_eq(an, "constraint") { 1 } else { 2 };
                let fits = if str_eq(an, "constraint") { v.len() == 1 } else { v.len() >= 2 };
                if fits {
                    let value = copy_strings(v.as_slice(), 0, wanted);
                    proof {
                        let args = strings_of(a.args);
                        if an@ == "constraint"@ {
                            assert(args == string_views(v@).subrange(0, 1));
                        } else {
                            assert(args.take(2) == string_views(v@).subrange(0, 2));
                        }
                    }
                    Ok((Some(TableAttribute { attr_type: kind, value, migration_type: None }), None))
                } else {
                    Ok((None, None))
                }
            },
            AttributeArgs::Word | AttributeArgs::NameValue => Err(
                error_text("Incorrect format for using the `", an, "` attribute."),
            ),
            _ => Ok((None, None)),
        }
    } else {
        Ok((None, None))
    }
}

/// Reads the table-level attributes of a table: its migrations, constraints, indexes and
/// unique indexes, in order, with the errors that some of them report along the way
/// (reading goes on after those). A `constraint`, `index` or `unique_index` not written as a
/// list stops reading: its message is the error.
pub fn process_table_attributes(attrs: &[RawAttribute]) -> (r: Result<(Vec<TableAttribute>, Vec<String>), String>)
    requires
        texts_fit(attrs@),
    ensures
        match r {
            Ok((out, errors)) => {
                &&& forall|i: int| 0 <= i < attrs@.len() ==> table_attr_fatal(#[trigger] attrs@[i]) is None
                &&& out@.map_values(|t: TableAttribute| entry_view(t)) == table_entries(attrs@)
                &&& string_views(errors@) == table_errors(attrs@)
            },
            Err(m) => exists|i: int|
                0 <= i < attrs@.len() && table_attr_fatal(#[trigger] attrs@[i]) == Some(m@) && forall|j: int|
                    0 <= j < i ==> table_attr_fatal(#[trigger] attrs@[j]) is None,
        },
{
    let mut out: Vec<TableAttribute> = Vec::new();
    let mut errors: Vec<String> = Vec::new();
    let n = attrs.len();
    for i in 0..n
        invariant
            n == attrs@.len(),
            texts_fit(attrs@),
            forall|k: int| 0 <= k < i ==> table_attr_fatal(#[trigger] attrs@[k]) is None,
            out@.map_values(|t: TableAttribute| entry_view(t)) == table_entries(attrs@.take(i as int)),
            string_views(errors@) == table_errors(attrs@.take(i as int)),
    {
        proof {
            assert forall|j: int| 0 <= j < strings_of(attrs@[i as int].args).len() implies (#[trigger] strings_of(attrs@[i as int].args)[j]).len() < usize::MAX by {
                assert(strings_of(attrs@[i as int].args)[j].len() < usize::MAX);
            }
            assert(attrs@.take(i + 1).drop_last() == attrs@.take(i as int));
            assert(attrs@.take(i + 1).last() == attrs@[i as int]);
        }
        match read_table_attribute(&attrs[i]) {
            Ok((e, m)) => {
                match e {
                    Some(t) => {
                        out.push(t);
                    },
                    None => {},
                }
                match m {
                    Some(t) => {
                        errors.push(t);
                    },
                    None => {},
                }
            },
            Err(m) => {
                return Err(m);
            },
        }
        proof {
            assert(out@.map_values(|t: TableAttribute| entry_view(t)) == table_entries(attrs@.take(i + 1)));
            assert(string_views(errors@) == table_errors(attrs@.take(i + 1)));
        }
    }
    assert(attrs@.take(n as int) == attrs@);
    Ok((out, errors))
}

} // verus!
