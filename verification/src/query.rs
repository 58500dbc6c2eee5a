use vstd::prelude::*;
use crate::statements::{copy_range, lead_count, split_by, split_chars, trail_count, trim_chars, trimmed, vec_views};
use crate::text::{chars_to_string, chars_eq, remove_spaces, str_chars, str_views, string_views, without_spaces};

verus! {

/// A generic argument of a return type, as far as the `query` macro reads it: how it
/// prints, and, when it is `Vec<T>` (a path whose first segment is `Vec` with an argument),
/// how `T` prints.
#[derive(Debug)]
pub struct GenericArgModel {
    pub text: String,
    pub vec_inner: Option<String>,
}

/// The return type of a function given to the `query` macro.
#[derive(Debug)]
pub enum ReturnTypeModel {
    /// No `-> T`.
    Default,
    /// A path type: the name of its last segment, the first generic argument of that segment
    /// (if it has angle-bracketed ones), and how the whole path prints.
    Path { last_ident: String, first_arg: Option<GenericArgModel>, text: String },
    /// A tuple type; `empty` for `()`.
    Tuple { empty: bool },
    /// Any other type.
    Other,
}

/// What the `query` macro learns from a return type: the model type (as it prints), and
/// whether the query returns many rows, a tuple, or nothing.
#[derive(Debug)]
pub struct ReturnTypeInfo {
    pub model_type: String,
    pub is_vec: bool,
    pub is_tuple: bool,
    pub is_unit: bool,
}

/// Whether a printed type is `()` (spaces aside).
pub open spec fn is_unit_text(t: Seq<char>) -> bool {
    without_spaces(t) == "()"@
}

/// The printed types (spaces removed) that one column holds.
pub open spec fn primitive_names() -> Seq<Seq<char>> {
    seq![
        "i8"@, "i16"@, "i32"@, "i64"@, "u8"@, "u16"@, "u32"@, "u64"@, "f32"@, "f64"@, "bool"@,
        "char"@, "String"@, "&str"@, "isize"@, "usize"@, "Vec<u8>"@, "UtcDateTime"@, "Timestamp"@,
    ]
}

/// Whether a printed type (spaces removed) is one that one column holds.
pub open spec fn is_primitive_text(t: Seq<char>) -> bool {
    primitive_names().contains(without_spaces(t))
}

/// Whether a printed type begins with `(` and ends with `)`.
pub open spec fn is_tuple_text(t: Seq<char>) -> bool {
    t.len() > 0 && t[0] == '(' && t.last() == ')'
}

/// The printed tuple type without its leading `(`s and trailing `)`s.
pub open spec fn without_parens(t: Seq<char>) -> Seq<char> {
    let rest = t.skip(lead_count(t, |c: char| c == '(') as int);
    rest.take(rest.len() - trail_count(rest, |c: char| c == ')'))
}

/// The element types of a printed tuple type: what lies between its commas, trimmed.
pub open spec fn tuple_elements(t: Seq<char>) -> Seq<Seq<char>> {
    split_by(without_parens(t), |c: char| c == ',').map_values(|p: Seq<char>| trimmed(p))
}

/// The information a return type gives (see `extract_return_type_info`).
pub open spec fn return_info(rt: ReturnTypeModel) -> (Seq<char>, bool, bool, bool) {
    match rt {
        ReturnTypeModel::Default => ("()"@, false, false, true),
        ReturnTypeModel::Path { last_ident, first_arg, text } => {
            if last_ident@ == "Result"@ && first_arg is Some {
                let a = first_arg->0;
                match a.vec_inner {
                    Some(inner) => (inner@, true, is_tuple_text(inner@), false),
                    None => (a.text@, false, is_tuple_text(a.text@), is_unit_text(a.text@)),
                }
            } else {
                (text@, false, false, false)
            }
        },
        ReturnTypeModel::Tuple { empty } => if empty {
            ("()"@, false, false, true)
        } else {
            ("UnknownType"@, false, false, false)
        },
        ReturnTypeModel::Other => ("UnknownType"@, false, false, false),
    }
}

/// The view of return type information.
pub open spec fn info_view(i: ReturnTypeInfo) -> (Seq<char>, bool, bool, bool) {
    (i.model_type@, i.is_vec, i.is_tuple, i.is_unit)
}

fn str_equal(a: &[char], b: &str) -> (r: bool)
    ensures
        r == (a@ == b@),
{
    let bv = str_chars(b);
    chars_eq(a, bv.as_slice())
}

/// Whether a printed type is `()` (spaces aside).
pub fn is_unit_type(model_type: &str) -> (r: bool)
    ensures
        r == is_unit_text(model_type@),
{
    let cs = str_chars(model_type);
    let bare = remove_spaces(cs.as_slice());
    str_equal(bare.as_slice(), "()")
}

/// Whether a printed type is one that a single column holds (spaces aside): the integers,
/// floats, `bool`, `char`, `String`, `&str`, `Vec<u8>`, `UtcDateTime` and `Timestamp`.
pub fn is_primitive_type(model_type: &str) -> (r: bool)
    ensures
        r == is_primitive_text(model_type@),
{
    let names: [&str; 19] = [
        "i8",
        "i16",
        "i32",
        "i64",
        "u8",
        "u16",
        "u32",
        "u64",
        "f32",
        "f64",
        "bool",
        "char",
        "String",
        "&str",
        "isize",
        "usize",
        "Vec<u8>",
        "UtcDateTime",
        "Timestamp",
    ];
    let ghost views = str_views(names@);
    proof {
        assert(views == primitive_names());
    }
    let cs = str_chars(model_type);
    let bare = remove_spaces(cs.as_slice());
    let n = names.len();
    for i in 0..n
        invariant
            n == names@.len(),
            views == str_views(names@),
            views == primitive_names(),
            bare@ == without_spaces(model_type@),
            forall|k: int| 0 <= k < i ==> views[k] != bare@,
    {
        if str_equal(bare.as_slice(), names[i]) {
            assert(views[i as int] == bare@);
            return true;
        }
    }
    false
}

/// Whether a printed type begins with `(` and ends with `)`.
pub fn is_tuple_type(model_type: &str) -> (r: bool)
    ensures
        r == is_tuple_text(model_type@),
{
    let cs = str_chars(model_type);
    let n = cs.len();
    n > 0 && cs[0] == '(' && cs[n - 1] == ')'
}

fn strip_parens(t: &[char]) -> (r: Vec<char>)
    ensures
        r@ == without_parens(t@),
{
    let ghost open_p: spec_fn(char) -> bool = |c: char| c == '(';
    let ghost close_p: spec_fn(char) -> bool = |c: char| c == ')';
    let n = t.len();
    let mut i: usize = 0;
    while i < n && t[i] == '('
        invariant
            i <= n == t@.len(),
            forall|k: int| 0 <= k < i ==> t@[k] == '(',
        decreases n - i,
    {
        i = i + 1;
    }
    proof {
        lemma_lead(t@, open_p, i as int);
    }
    let rest = copy_range(t, i, n);
    assert(rest@ == t@.skip(i as int));
    let m = rest.len();
    let mut j: usize = m;
    while j > 0 && rest[j - 1] == ')'
        invariant
            j <= m == rest@.len(),
            forall|k: int| j <= k < m ==> rest@[k] == ')',
        decreases j,
    {
        j = j - 1;
    }
    proof {
        lemma_trail(rest@, close_p, j as int);
    }
    copy_range(rest.as_slice(), 0, j)
}

proof fn lemma_lead(s: Seq<char>, p: spec_fn(char) -> bool, i: int)
    requires
        0 <= i <= s.len(),
        forall|k: int| 0 <= k < i ==> p(#[trigger] s[k]),
        i == s.len() || !p(s[i]),
    ensures
        lead_count(s, p) == i,
    decreases i,
{
    if i > 0 {
        lemma_lead(s.drop_first(), p, i - 1);
        assert(p(s[0]));
    }
}

proof fn lemma_trail(s: Seq<char>, p: spec_fn(char) -> bool, j: int)
    requires
        0 <= j <= s.len(),
        forall|k: int| j <= k < s.len() ==> p(#[trigger] s[k]),
        j == 0 || !p(s[j - 1]),
    ensures
        trail_count(s, p) == s.len() - j,
    decreases s.len() - j,
{
    if j < s.len() {
        assert(p(s[s.len() - 1]));
        lemma_trail(s.drop_last(), p, j);
    }
}

/// The element types of a printed tuple type: what lies between its commas once the
/// parentheses around it are removed, each trimmed.
pub fn extract_tuple_elements(tuple_type: &str) -> (r: Vec<String>)
    ensures
        string_views(r@) == tuple_elements(tuple_type@),
{
    let cs = str_chars(tuple_type);
    let inner = strip_parens(cs.as_slice());
    let pieces = split_chars(inner.as_slice(), ',', false);
    let ghost pv = vec_views(pieces@);
    proof {
        assert(pv == split_by(without_parens(tuple_type@), |c: char| c == ','));
    }
    let mut out: Vec<String> = Vec::new();
    let n = pieces.len();
    for i in 0..n
        invariant
            n == pieces@.len(),
            pv == vec_views(pieces@),
            string_views(out@) == pv.take(i as int).map_values(|p: Seq<char>| trimmed(p)),
    {
        let t = trim_chars(pieces[i].as_slice(), true);
        let s = chars_to_string(&t);
        let ghost before = out@;
        out.push(s);
        proof {
            assert(pv[i as int] == pieces@[i as int]@);
            assert(string_views(out@) == string_views(before).push(s@));
            assert(pv.take(i + 1) == pv.take(i as int).push(pv[i as int]));
            assert(pv.take(i + 1).map_values(|p: Seq<char>| trimmed(p)) == pv.take(i as int).map_values(
                |p: Seq<char>| trimmed(p),
            ).push(trimmed(pv[i as int])));
        }
    }
    assert(pv.take(n as int) == pv);
    out
}

/// What the `query` macro learns from a function's return type: a missing return type or
/// `()` returns nothing; `Result<Vec<T>>` returns rows of `T`; `Result<T>` one `T` (nothing
/// when `T` is `()`); a tuple `T` is read column by column; any other path is taken as the
/// model itself, and anything else as an unknown type.
pub fn extract_return_type_info(return_type: &ReturnTypeModel) -> (r: ReturnTypeInfo)
    ensures
        info_view(r) == return_info(*return_type),
{
    match return_type {
        ReturnTypeModel::Default => ReturnTypeInfo {
            model_type: "()".to_owned(),
            is_vec: false,
            is_tuple: false,
            is_unit: true,
        },
        ReturnTypeModel::Path { last_ident, first_arg, text } => {
            if crate::text::str_eq(last_ident.as_str(), "Result") && first_arg.is_some() {
                match first_arg {
                    Some(a) => match &a.vec_inner {
                        Some(inner) => ReturnTypeInfo {
                            model_type: inner.clone(),
                            is_vec: true,
                            is_tuple: is_tuple_type(inner.as_str()),
                            is_unit: false,
                        },
                        None => ReturnTypeInfo {
                            model_type: a.text.clone(),
                            is_vec: false,
                            is_tuple: is_tuple_type(a.text.as_str()),
                            is_unit: is_unit_type(a.text.as_str()),
                        },
                    },
                    None => ReturnTypeInfo {
                        model_type: text.clone(),
                        is_vec: false,
                        is_tuple: false,
                        is_unit: false,
                    },
                }
            } else {
                ReturnTypeInfo { model_type: text.clone(), is_vec: false, is_tuple: false, is_unit: false }
            }
        },
        ReturnTypeModel::Tuple { empty } => {
            if *empty {
                ReturnTypeInfo { model_type: "()".to_owned(), is_vec: false, is_tuple: false, is_unit: true }
            } else {
                ReturnTypeInfo {
                    model_type: "UnknownType".to_owned(),
                    is_vec: false,
                    is_tuple: false,
                    is_unit: false,
                }
            }
        },
        ReturnTypeModel::Other => ReturnTypeInfo {
            model_type: "UnknownType".to_owned(),
            is_vec: false,
            is_tuple: false,
            is_unit: false,
        },
    }
}

/// How a query's result is read.
#[derive(Debug)]
pub enum QueryShape {
    /// Run the statement; nothing is returned.
    Execute,
    /// Many rows, each read as a tuple of these element types, column by column.
    RowsOfTuple(Vec<String>),
    /// Many rows, each one column of the model type.
    RowsOfValue,
    /// Many rows, each read into the model type.
    RowsOfModel,
    /// One row, read as a tuple of these element types, column by column.
    RowOfTuple(Vec<String>),
    /// One row, one column of the model type.
    RowOfValue,
    /// One row, read into the model type.
    RowOfModel,
}

/// The shape of a query's result that its return type calls for.
pub open spec fn shape_ok(info: (Seq<char>, bool, bool, bool), s: QueryShape) -> bool {
    let (model, is_vec, is_tuple, is_unit) = info;
    if is_unit {
        s is Execute
    } else if is_tuple {
        match s {
            QueryShape::RowsOfTuple(e) => is_vec && string_views(e@) == tuple_elements(model),
            QueryShape::RowOfTuple(e) => !is_vec && string_views(e@) == tuple_elements(model),
            _ => false,
        }
    } else if is_primitive_text(model) {
        if is_vec {
            s is RowsOfValue
        } else {
            s is RowOfValue
        }
    } else if is_vec {
        s is RowsOfModel
    } else {
        s is RowOfModel
    }
}

proof fn lemma_no_spaces_kept(t: Seq<char>)
    requires
        forall|k: int| 0 <= k < t.len() ==> t[k] != ' ',
    ensures
        without_spaces(t) == t,
    decreases t.len(),
{
    if t.len() > 0 {
        lemma_no_spaces_kept(t.drop_last());
        assert(t.drop_last().push(t.last()) =~= t);
    }
}

/// The integer, float, `bool`, `char`, `String`, `&str`, `Vec<u8>`, `UtcDateTime` and
/// `Timestamp` types are each read from a single column: a query returning one of them
/// (`Result<T>`) reads one row's first column, and one returning `Result<Vec<T>>` reads the
/// first column of every row.
pub proof fn lemma_value_types_read_one_column(t: Seq<char>, is_vec: bool, shape: QueryShape)
    requires
        t == "i8"@ || t == "i16"@ || t == "i32"@ || t == "i64"@ || t == "isize"@ || t == "u8"@ || t == "u16"@
            || t == "u32"@ || t == "u64"@ || t == "usize"@ || t == "f32"@ || t == "f64"@ || t == "bool"@
            || t == "char"@ || t == "String"@ || t == "&str"@ || t == "Vec<u8>"@ || t == "UtcDateTime"@
            || t == "Timestamp"@,
        shape_ok((t, is_vec, false, false), shape),
    ensures
        is_primitive_text(t),
        is_vec ==> shape is RowsOfValue,
        !is_vec ==> shape is RowOfValue,
{
    reveal_strlit("i8");
    reveal_strlit("i16");
    reveal_strlit("i32");
    reveal_strlit("i64");
    reveal_strlit("isize");
    reveal_strlit("u8");
    reveal_strlit("u16");
    reveal_strlit("u32");
    reveal_strlit("u64");
    reveal_strlit("usize");
    reveal_strlit("f32");
    reveal_strlit("f64");
    reveal_strlit("bool");
    reveal_strlit("char");
    reveal_strlit("String");
    reveal_strlit("&str");
    reveal_strlit("Vec<u8>");
    reveal_strlit("UtcDateTime");
    reveal_strlit("Timestamp");
    lemma_no_spaces_kept(t);
    let names = primitive_names();
    assert(names[0] == "i8"@);
    assert(names[1] == "i16"@);
    assert(names[2] == "i32"@);
    assert(names[3] == "i64"@);
    assert(names[4] == "u8"@);
    assert(names[5] == "u16"@);
    assert(names[6] == "u32"@);
    assert(names[7] == "u64"@);
    assert(names[8] == "f32"@);
    assert(names[9] == "f64"@);
    assert(names[10] == "bool"@);
    assert(names[11] == "char"@);
    assert(names[12] == "String"@);
    assert(names[13] == "&str"@);
    assert(names[14] == "isize"@);
    assert(names[15] == "usize"@);
    assert(names[16] == "Vec<u8>"@);
    assert(names[17] == "UtcDateTime"@);
    assert(names[18] == "Timestamp"@);
    assert(names.contains(t));
}

/// Only those types are read from a single column: a type (without spaces) that is read
/// as one column's value is one of the integer, float, `bool`, `char`, `String`, `&str`,
/// `Vec<u8>`, `UtcDateTime` and `Timestamp` types; any other type is read as a model.
pub proof fn lemma_only_value_types_read_one_column(t: Seq<char>)
    requires
        forall|k: int| 0 <= k < t.len() ==> t[k] != ' ',
        is_primitive_text(t),
    ensures
        t == "i8"@ || t == "i16"@ || t == "i32"@ || t == "i64"@ || t == "isize"@ || t == "u8"@ || t == "u16"@
            || t == "u32"@ || t == "u64"@ || t == "usize"@ || t == "f32"@ || t == "f64"@ || t == "bool"@
            || t == "char"@ || t == "String"@ || t == "&str"@ || t == "Vec<u8>"@ || t == "UtcDateTime"@
            || t == "Timestamp"@,
{
    lemma_no_spaces_kept(t);
    let names = primitive_names();
    let k = choose|k: int| 0 <= k < names.len() && names[k] == t;
    assert(names.len() == 19);
}

/// How the `query` macro reads the result of a query with this return type: nothing for
/// `()`; otherwise rows (for `Vec`) or one row, read as a tuple column by column, as one
/// column of a primitive type, or into the model type.
pub fn query_shape(info: &ReturnTypeInfo) -> (r: QueryShape)
    ensures
        shape_ok(info_view(*info), r),
{
    if info.is_unit {
        QueryShape::Execute
    } else if info.is_tuple {
        let e = extract_tuple_elements(info.model_type.as_str());
        if info.is_vec {
            QueryShape::RowsOfTuple(e)
        } else {
            QueryShape::RowOfTuple(e)
        }
    } else if is_primitive_type(info.model_type.as_str()) {
        if info.is_vec {
            QueryShape::RowsOfValue
        } else {
            QueryShape::RowOfValue
        }
    } else if info.is_vec {
        QueryShape::RowsOfModel
    } else {
        QueryShape::RowOfModel
    }
}

/// What a function given to the `query` macro comes to: what its return type says, and how
/// the result of its query is read.
pub fn query_plan(return_type: &ReturnTypeModel) -> (r: (ReturnTypeInfo, QueryShape))
    ensures
        info_view(r.0) == return_info(*return_type),
        shape_ok(return_info(*return_type), r.1),
{
    let info = extract_return_type_info(return_type);
    let shape = query_shape(&info);
    (info, shape)
}

} // verus!
