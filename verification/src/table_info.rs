use vstd::prelude::*;
use crate::text::{
    eq_ignore_ascii_case, join, push_joined, push_str_chars, str_eq, str_eq_ignore_ascii_case,
    str_views, string_from_chars,
};

verus! {

/// The field names other than `id`, in order.
pub open spec fn without_id(names: Seq<Seq<char>>) -> Seq<Seq<char>>
    decreases names.len(),
{
    if names.len() == 0 {
        Seq::empty()
    } else if names.last() == "id"@ {
        without_id(names.drop_last())
    } else {
        without_id(names.drop_last()).push(names.last())
    }
}

/// The names other than `id` are exactly the given names with every `id` taken out, in
/// order: no `id` remains, and every other name stays, repeats included.
pub proof fn lemma_without_id_drops_only_id(names: Seq<Seq<char>>)
    ensures
        without_id(names) == names.filter(|n: Seq<char>| n != "id"@),
        forall|k: int| 0 <= k < without_id(names).len() ==> without_id(names)[k] != "id"@,
    decreases names.len(),
{
    reveal(Seq::filter);
    if names.len() > 0 {
        lemma_without_id_drops_only_id(names.drop_last());
    }
    broadcast use vstd::seq_lib::group_filter_ensures;
    assert forall|k: int| 0 <= k < without_id(names).len() implies without_id(names)[k] != "id"@ by {
        assert((|n: Seq<char>| n != "id"@)(names.filter(|n: Seq<char>| n != "id"@)[k]));
    }
}

/// `n` question marks.
pub open spec fn question_marks(n: nat) -> Seq<Seq<char>> {
    Seq::new(n, |i: int| "?"@)
}

/// The INSERT statement for the given columns of a table: `DEFAULT VALUES` when there are
/// none, one `?` placeholder per column otherwise.
pub open spec fn insert_statement(table: Seq<char>, columns: Seq<Seq<char>>) -> Seq<char> {
    if columns.len() == 0 {
        "INSERT INTO "@ + table + " DEFAULT VALUES"@
    } else {
        "INSERT INTO "@ + table + " ("@ + join(columns, ", "@) + ") VALUES ("@ + join(
            question_marks(columns.len()),
            ", "@,
        ) + ")"@
    }
}

/// Whether some name equals `name` ignoring ASCII case.
pub open spec fn has_name_ignore_case(names: Seq<Seq<char>>, name: Seq<char>) -> bool {
    exists|i: int| 0 <= i < names.len() && eq_ignore_ascii_case(#[trigger] names[i], name)
}

/// The type of the first (name, type) pair whose name equals `name` ignoring ASCII case.
pub open spec fn lookup_type(types: Seq<(Seq<char>, Seq<char>)>, name: Seq<char>) -> Option<Seq<char>>
    decreases types.len(),
{
    if types.len() == 0 {
        None
    } else if eq_ignore_ascii_case(types[0].0, name) {
        Some(types[0].1)
    } else {
        lookup_type(types.drop_first(), name)
    }
}

pub open spec fn pair_views(v: Seq<(&str, &str)>) -> Seq<(Seq<char>, Seq<char>)> {
    v.map_values(|p: (&str, &str)| (p.0@, p.1@))
}

/// Returns the names other than `id`, in order.
pub fn filter_out_id(names: Vec<&'static str>) -> (r: Vec<&'static str>)
    ensures
        str_views(r@) == without_id(str_views(names@)),
{
    let mut out: Vec<&'static str> = Vec::new();
    let n = names.len();
    let ghost all = str_views(names@);
    for i in 0..n
        invariant
            n == names@.len(),
            all == str_views(names@),
            str_views(out@) == without_id(all.take(i as int)),
    {
        assert(all.take(i + 1).drop_last() == all.take(i as int));
        assert(all.take(i + 1).last() == names@[i as int]@);
        if !str_eq(names[i], "id") {
            out.push(names[i]);
            assert(str_views(out@) == str_views(out@.drop_last()).push(names@[i as int]@));
        }
    }
    assert(all.take(n as int) == all);
    out
}

/// Builds the INSERT statement for `columns` of `table`.
pub fn build_insert_statement(table: &str, columns: &[&str]) -> (r: String)
    ensures
        r@ == insert_statement(table@, str_views(columns@)),
{
    let mut sql: Vec<char> = Vec::new();
    push_str_chars(&mut sql, "INSERT INTO ");
    push_str_chars(&mut sql, table);
    if columns.len() == 0 {
        push_str_chars(&mut sql, " DEFAULT VALUES");
        return string_from_chars(sql.as_slice());
    }
    push_str_chars(&mut sql, " (");
    push_joined(&mut sql, columns, ", ");
    push_str_chars(&mut sql, ") VALUES (");
    let mut marks: Vec<&str> = Vec::new();
    for i in 0..columns.len()
        invariant
            marks@.len() == i,
            forall|k: int| 0 <= k < i ==> (#[trigger] marks@[k])@ == "?"@,
    {
        marks.push("?");
    }
    assert(str_views(marks@) =~= question_marks(columns@.len()));
    push_joined(&mut sql, marks.as_slice(), ", ");
    push_str_chars(&mut sql, ")");
    string_from_chars(sql.as_slice())
}

/// Table information for inserting rows without their auto-increment `id`.
/// Implemented for each table definition.
pub trait WithoutIdTableInfo {
    /// The table's name.
    spec fn spec_table_name() -> Seq<char>;

    /// The table's field names, in declaration order.
    spec fn spec_field_names() -> Seq<Seq<char>>;

    /// The table's (field name, SQLite type name) pairs, in declaration order.
    spec fn spec_field_types() -> Seq<(Seq<char>, Seq<char>)>;

    /// Returns the table name.
    fn table_name() -> (r: &'static str)
        ensures
            r@ == Self::spec_table_name(),
    ;

    /// Returns all field names of the table.
    fn field_names() -> (r: Vec<&'static str>)
        ensures
            str_views(r@) == Self::spec_field_names(),
    ;

    /// Returns the (field name, SQLite type name) pairs of the table.
    fn field_types() -> (r: Vec<(&'static str, &'static str)>)
        ensures
            pair_views(r@) == Self::spec_field_types(),
    ;

    /// The CREATE TABLE statement, with its constraints and indexes.
    fn create_table_sql() -> String;

    /// Returns every field name except `id`.
    fn non_id_field_names() -> (r: Vec<&'static str>)
        ensures
            str_views(r@) == without_id(Self::spec_field_names()),
    {
        filter_out_id(Self::field_names())
    }

    /// Returns every field name, `id` included.
    fn all_field_names() -> (r: Vec<&'static str>)
        ensures
            str_views(r@) == Self::spec_field_names(),
    {
        Self::field_names()
    }

    /// The INSERT statement for every field except `id`.
    fn insert_without_id() -> (r: String)
        ensures
            r@ == insert_statement(Self::spec_table_name(), without_id(Self::spec_field_names())),
    {
        let table_name = Self::table_name();
        let names = filter_out_id(Self::field_names());
        build_insert_statement(table_name, names.as_slice())
    }

    /// The INSERT statement for the given fields.
    fn insert_with(fields: &[&str]) -> (r: String)
        ensures
            r@ == insert_statement(Self::spec_table_name(), str_views(fields@)),
    {
        build_insert_statement(Self::table_name(), fields)
    }

    /// Field metadata: the (name, type) pairs.
    fn field_metadata() -> (r: Vec<(&'static str, &'static str)>)
        ensures
            pair_views(r@) == Self::spec_field_types(),
    {
        Self::field_types()
    }

    /// Whether the table has a field of this name, ignoring ASCII case.
    fn has_field(field_name: &str) -> (r: bool)
        ensures
            r == has_name_ignore_case(Self::spec_field_names(), field_name@),
    {
        let names = Self::field_names();
        let ghost all = str_views(names@);
        for i in 0..names.len()
            invariant
                all == str_views(names@),
                all == Self::spec_field_names(),
                forall|k: int| 0 <= k < i ==> !eq_ignore_ascii_case(#[trigger] all[k], field_name@),
        {
            if str_eq_ignore_ascii_case(names[i], field_name) {
                assert(eq_ignore_ascii_case(all[i as int], field_name@));
                return true;
            }
        }
        false
    }

    /// The SQLite type of the first field whose name equals `field_name` ignoring ASCII case.
    fn field_type(field_name: &str) -> (r: Option<&'static str>)
        ensures
            match r {
                Some(t) => lookup_type(Self::spec_field_types(), field_name@) == Some(t@),
                None => lookup_type(Self::spec_field_types(), field_name@) is None,
            },
    {
        let types = Self::field_types();
        let ghost all = pair_views(types@);
        let n = types.len();
        assert(all.skip(0) == all);
        for i in 0..n
            invariant
                n == types@.len(),
                all == pair_views(types@),
                all == Self::spec_field_types(),
                lookup_type(all, field_name@) == lookup_type(all.skip(i as int), field_name@),
        {
            assert(all.skip(i as int).drop_first() == all.skip(i + 1));
            let (name, ty) = types[i];
            if str_eq_ignore_ascii_case(name, field_name) {
                return Some(ty);
            }
        }
        assert(all.skip(n as int).len() == 0);
        None
    }

    /// Whether `field_name` is `id`, ignoring ASCII case.
    fn is_id_field(field_name: &str) -> (r: bool)
        ensures
            r == eq_ignore_ascii_case(field_name@, "id"@),
    {
        str_eq_ignore_ascii_case(field_name, "id")
    }

    /// The CREATE INDEX statements of the table (none unless a table declares some).
    fn index_definitions() -> (r: Vec<String>)
        default_ensures
            r@.len() == 0,
    {
        Vec::new()
    }

    /// The table-level constraints (none unless a table declares some).
    fn constraint_definitions() -> (r: Vec<String>)
        default_ensures
            r@.len() == 0,
    {
        Vec::new()
    }
}

/// Field validation for table models: which names a query may use.
pub trait ValidateFields {
    /// The fields other than `id`.
    spec fn spec_non_id_fields() -> Seq<Seq<char>>;

    /// Whether `field_name` names a field other than `id`, ignoring ASCII case.
    fn validate_field(field_name: &str) -> (r: bool)
        ensures
            r == has_name_ignore_case(Self::spec_non_id_fields(), field_name@),
    ;

    /// The names of the fields other than `id`.
    fn field_names() -> (r: Vec<&'static str>)
        ensures
            str_views(r@) == Self::spec_non_id_fields(),
    ;

    /// `id` followed by the names of the other fields.
    fn all_field_names() -> (r: Vec<&'static str>)
        ensures
            str_views(r@) == seq!["id"@] + Self::spec_non_id_fields(),
    ;

    /// Each field other than `id` with the type `unknown`.
    fn field_types() -> (r: Vec<(&'static str, &'static str)>)
        ensures
            pair_views(r@) == Self::spec_non_id_fields().map_values(|n: Seq<char>| (n, "unknown"@)),
    ;
}

impl<T: WithoutIdTableInfo> ValidateFields for T {
    open spec fn spec_non_id_fields() -> Seq<Seq<char>> {
        without_id(T::spec_field_names())
    }

    fn validate_field(field_name: &str) -> (r: bool) {
        let names = <T as WithoutIdTableInfo>::non_id_field_names();
        let ghost all = str_views(names@);
        for i in 0..names.len()
            invariant
                all == str_views(names@),
                all == without_id(T::spec_field_names()),
                forall|k: int| 0 <= k < i ==> !eq_ignore_ascii_case(#[trigger] all[k], field_name@),
        {
            if str_eq_ignore_ascii_case(names[i], field_name) {
                assert(eq_ignore_ascii_case(all[i as int], field_name@));
                return true;
            }
        }
        false
    }

    fn field_names() -> (r: Vec<&'static str>) {
        <T as WithoutIdTableInfo>::non_id_field_names()
    }

    fn all_field_names() -> (r: Vec<&'static str>) {
        let mut fields: Vec<&'static str> = Vec::new();
        fields.push("id");
        let rest = <T as WithoutIdTableInfo>::non_id_field_names();
        let n = rest.len();
        for i in 0..n
            invariant
                n == rest@.len(),
                fields@.len() == i + 1,
                fields@[0]@ == "id"@,
                forall|k: int| 0 <= k < i ==> (#[trigger] fields@[k + 1])@ == rest@[k]@,
        {
            fields.push(rest[i]);
        }
        assert forall|k: int| 1 <= k < fields@.len() implies (#[trigger] fields@[k])@ == rest@[k - 1]@ by {
            assert(fields@[(k - 1) + 1] == fields@[k]);
        }
        assert(str_views(fields@) =~= seq!["id"@] + str_views(rest@));
        fields
    }

    fn field_types() -> (r: Vec<(&'static str, &'static str)>) {
        let names = <T as WithoutIdTableInfo>::non_id_field_names();
        let mut out: Vec<(&'static str, &'static str)> = Vec::new();
        let n = names.len();
        for i in 0..n
            invariant
                n == names@.len(),
                out@.len() == i,
                forall|k: int| 0 <= k < i ==> (#[trigger] out@[k]).0@ == names@[k]@ && out@[k].1@ == "unknown"@,
        {
            out.push((names[i], "unknown"));
        }
        assert(pair_views(out@) =~= str_views(names@).map_values(|n: Seq<char>| (n, "unknown"@)));
        out
    }
}

} // verus!
