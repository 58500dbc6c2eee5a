use vstd::prelude::*;
use crate::attributes::{strings_of, AttributeArgs, RawAttribute};
use crate::text::{
    chars_to_string, closest_name, join, push_joined, push_str_chars, str_chars, str_eq, str_views,
    string_views, suggest_name,
};

verus! {

/// How a type marked `sql_as` is stored in a column.
#[derive(Debug, Clone, Copy, PartialEq, Eq, Structural)]
pub enum SqlAsStyle {
    Json,
    Jsonb,
    Binary,
    Borsh,
    /// An enum stored as the text of its variant.
    String,
    /// An enum stored as the number of its variant.
    Int,
}

/// The styles a struct may use, in the order messages list them.
pub open spec fn struct_styles() -> Seq<Seq<char>> {
    seq!["json"@, "jsonb"@, "binary"@, "borsh"@]
}

/// The styles an enum may use, in the order messages list them.
pub open spec fn enum_styles() -> Seq<Seq<char>> {
    seq!["json"@, "jsonb"@, "binary"@, "string"@, "int"@, "borsh"@]
}

/// The style a name stands for.
pub open spec fn style_named(s: Seq<char>) -> Option<SqlAsStyle> {
    if s == "json"@ {
        Some(SqlAsStyle::Json)
    } else if s == "jsonb"@ {
        Some(SqlAsStyle::Jsonb)
    } else if s == "binary"@ {
        Some(SqlAsStyle::Binary)
    } else if s == "borsh"@ {
        Some(SqlAsStyle::Borsh)
    } else if s == "string"@ {
        Some(SqlAsStyle::String)
    } else if s == "int"@ {
        Some(SqlAsStyle::Int)
    } else {
        None
    }
}

/// The style `s` names, if it is one of `valid`; otherwise the message for it, with a
/// suggestion when a valid style is close.
pub open spec fn style_outcome(s: Seq<char>, valid: Seq<Seq<char>>) -> Result<SqlAsStyle, Seq<char>> {
    if valid.contains(s) {
        Ok(style_named(s)->0)
    } else {
        Err(
            match closest_name(s, valid) {
                Some(x) => "Invalid serialization style '"@ + s + "'. Did you mean '"@ + x + "'?"@,
                None => "Invalid serialization style '"@ + s + "'. Valid styles are: "@ + join(valid, ", "@),
            },
        )
    }
}

/// Reads the style of `sql_as(style)`: a struct may be stored as `json`, `jsonb`, `binary`
/// or `borsh`; an enum also as `string` or `int`. Any other name is refused, with a
/// suggestion when a valid style is close.
pub fn validate_style(style: &str, is_enum: bool) -> (r: Result<SqlAsStyle, String>)
    requires
        style@.len() < usize::MAX,
    ensures
        match r {
            Ok(st) => style_outcome(style@, if is_enum { enum_styles() } else { struct_styles() }) == Ok::<
                SqlAsStyle,
                Seq<char>,
            >(st),
            Err(m) => style_outcome(style@, if is_enum { enum_styles() } else { struct_styles() }) == Err::<
                SqlAsStyle,
                Seq<char>,
            >(m@),
        },
{
    proof {
        reveal_strlit("json");
        reveal_strlit("jsonb");
        reveal_strlit("binary");
        reveal_strlit("borsh");
        reveal_strlit("string");
        reveal_strlit("int");
        assert("jsonb"@[0] != "borsh"@[0]);
        assert("binary"@[0] != "string"@[0]);
        assert("json"@.len() == 4 && "jsonb"@.len() == 5 && "binary"@.len() == 6);
        assert("borsh"@.len() == 5 && "string"@.len() == 6 && "int"@.len() == 3);
    }
    let struct_names: [&str; 4] = ["json", "jsonb", "binary", "borsh"];
    let enum_names: [&str; 6] = ["json", "jsonb", "binary", "string", "int", "borsh"];
    let names: &[&str] = if is_enum { enum_names.as_slice() } else { struct_names.as_slice() };
    let ghost valid = if is_enum { enum_styles() } else { struct_styles() };
    proof {
        assert(str_views(struct_names@) == struct_styles());
        assert(str_views(enum_names@) == enum_styles());
        assert(str_views(names@) == valid);
    }
    let n = names.len();
    for i in 0..n
        invariant
            n == names@.len(),
            str_views(names@) == valid,
            valid == (if is_enum { enum_styles() } else { struct_styles() }),
            forall|k: int| 0 <= k < i ==> valid[k] != style@,
    {
        if str_eq(style, names[i]) {
            proof {
                assert(valid[i as int] == style@);
                assert(valid.contains(style@));
                reveal_strlit("json");
                reveal_strlit("jsonb");
                reveal_strlit("binary");
                reveal_strlit("borsh");
                reveal_strlit("string");
                reveal_strlit("int");
                assert("jsonb"@[0] != "borsh"@[0]);
                assert("binary"@[0] != "string"@[0]);
            }
            let st = if str_eq(style, "json") {
                SqlAsStyle::Json
            } else if str_eq(style, "jsonb") {
                SqlAsStyle::Jsonb
            } else if str_eq(style, "binary") {
                SqlAsStyle::Binary
            } else if str_eq(style, "borsh") {
                SqlAsStyle::Borsh
            } else if str_eq(style, "string") {
                SqlAsStyle::String
            } else {
                SqlAsStyle::Int
            };
            return Ok(st);
        }
    }
    proof {
        assert(!valid.contains(style@));
        assert forall|j: int| 0 <= j < names@.len() implies (#[trigger] names@[j])@.len() < usize::MAX by {
            assert(names@[j]@ == valid[j]);
        }
    }
    let mut m: Vec<char> = Vec::new();
    push_str_chars(&mut m, "Invalid serialization style '");
    push_str_chars(&mut m, style);
    match suggest_name(style, names) {
        Some(x) => {
            push_str_chars(&mut m, "'. Did you mean '");
            push_str_chars(&mut m, x);
            push_str_chars(&mut m, "'?");
        },
        None => {
            push_str_chars(&mut m, "'. Valid styles are: ");
            push_joined(&mut m, names, ", ");
        },
    }
    Err(chars_to_string(&m))
}

// ---------------------------------------------------------------------------
// Enum variants

/// A variant of an enum marked `sql_as`: its name and its attributes.
#[derive(Debug)]
pub struct EnumVariant {
    pub name: String,
    pub attrs: Vec<RawAttribute>,
}

/// Whether the arguments are a single string.
pub open spec fn single_text(a: AttributeArgs) -> bool {
    a is Strings && strings_of(a).len() == 1
}

/// The text a `string`-style variant is stored as, if an attribute gives one: the first
/// `sql_as_value("...")` with a single string.
pub open spec fn custom_label(attrs: Seq<RawAttribute>) -> Option<Seq<char>>
    decreases attrs.len(),
{
    if attrs.len() == 0 {
        None
    } else if attrs[0].name@ == "sql_as_value"@ && single_text(attrs[0].args) {
        Some(strings_of(attrs[0].args)[0])
    } else {
        custom_label(attrs.drop_first())
    }
}

/// The text a `string`-style variant is stored as: the one its attributes give, or else
/// its name.
pub open spec fn variant_label(v: EnumVariant) -> Seq<char> {
    match custom_label(v.attrs@) {
        Some(l) => l,
        None => v.name@,
    }
}

/// The first `sql_as_value("...")` with a single string among the attributes.
pub fn extract_sql_as_string_value(attrs: &[RawAttribute]) -> (r: Option<String>)
    ensures
        match r {
            Some(s) => custom_label(attrs@) == Some(s@),
            None => custom_label(attrs@) is None,
        },
{
    let n = attrs.len();
    assert(attrs@.skip(0) == attrs@);
    for i in 0..n
        invariant
            n == attrs@.len(),
            custom_label(attrs@) == custom_label(attrs@.skip(i as int)),
    {
        proof {
            assert(attrs@.skip(i as int).drop_first() == attrs@.skip(i + 1));
            assert(attrs@.skip(i as int)[0] == attrs@[i as int]);
        }
        if str_eq(attrs[i].name.as_str(), "sql_as_value") {
            match &attrs[i].args {
                AttributeArgs::Strings(v) => {
                    if v.len() == 1 {
                        return Some(v[0].clone());
                    }
                },
                _ => {},
            }
        }
    }
    assert(attrs@.skip(n as int).len() == 0);
    None
}

/// The text each variant of a `string`-style enum is stored as, in order, with its name.
pub fn string_variant_labels(variants: &[EnumVariant]) -> (r: Vec<(String, String)>)
    ensures
        r@.len() == variants@.len(),
        forall|i: int|
            0 <= i < variants@.len() ==> (#[trigger] r@[i]).0@ == variants@[i].name@ && r@[i].1@ == variant_label(
                variants@[i],
            ),
{
    let mut r: Vec<(String, String)> = Vec::new();
    let n = variants.len();
    for i in 0..n
        invariant
            n == variants@.len(),
            r@.len() == i,
            forall|k: int|
                0 <= k < i ==> (#[trigger] r@[k]).0@ == variants@[k].name@ && r@[k].1@ == variant_label(
                    variants@[k],
                ),
    {
        let label = match extract_sql_as_string_value(variants[i].attrs.as_slice()) {
            Some(l) => l,
            None => variants[i].name.clone(),
        };
        r.push((variants[i].name.clone(), label));
    }
    r
}

// ---------------------------------------------------------------------------
// Numbers of `int`-style variants

/// The first `sql_as_value` attribute among `attrs`, if any.
pub open spec fn first_value_attr(attrs: Seq<RawAttribute>) -> Option<RawAttribute>
    decreases attrs.len(),
{
    if attrs.len() == 0 {
        None
    } else if attrs[0].name@ == "sql_as_value"@ {
        Some(attrs[0])
    } else {
        first_value_attr(attrs.drop_first())
    }
}

/// What an `int`-style variant's first `sql_as_value` gives: nothing, the base-10 digits of
/// its integer, or the message for a value in another form.
pub open spec fn int_literal_of(attrs: Seq<RawAttribute>) -> Result<Option<Seq<char>>, Seq<char>> {
    match first_value_attr(attrs) {
        None => Ok(None),
        Some(a) => match a.args {
            AttributeArgs::Integer(d) => Ok(Some(d@)),
            AttributeArgs::Strings(v) => if v@.len() == 1 {
                Err("Expected an integer literal for sql_as_value when using int style"@)
            } else if v@.len() == 0 {
                Err("unexpected end of input, expected literal"@)
            } else {
                Err("unexpected token"@)
            },
            AttributeArgs::OtherLiteral => Err("Expected an integer literal for sql_as_value when using int style"@),
            AttributeArgs::OtherList => Err("expected literal"@),
            _ => Err("Expected #[sql_as_value(...)] format for integer values"@),
        },
    }
}

/// Whether a character is an ASCII digit.
pub open spec fn is_digit(c: char) -> bool {
    '0' <= c <= '9'
}

/// The value of a string of decimal digits.
pub open spec fn digits_value(d: Seq<char>) -> int
    decreases d.len(),
{
    if d.len() == 0 {
        0
    } else {
        10 * digits_value(d.drop_last()) + (d.last() as int - '0' as int)
    }
}

/// What reading decimal digits as an `i64` gives (`str::parse::<i64>` on digits): the
/// value, or the message of the failure.
pub open spec fn parse_digits_outcome(d: Seq<char>) -> Result<int, Seq<char>> {
    if d.len() == 0 {
        Err("cannot parse integer from empty string"@)
    } else if exists|i: int| 0 <= i < d.len() && !is_digit(#[trigger] d[i]) {
        Err("invalid digit found in string"@)
    } else if digits_value(d) > i64::MAX {
        Err("number too large to fit in target type"@)
    } else {
        Ok(digits_value(d))
    }
}

proof fn lemma_digits_value_nonneg(d: Seq<char>)
    requires
        forall|i: int| 0 <= i < d.len() ==> is_digit(#[trigger] d[i]),
    ensures
        digits_value(d) >= 0,
        d.len() > 0 ==> digits_value(d) >= digits_value(d.drop_last()),
    decreases d.len(),
{
    if d.len() > 0 {
        assert(is_digit(d[d.len() - 1]));
        lemma_digits_value_nonneg(d.drop_last());
    }
}

/// Reads decimal digits as an `i64`.
pub fn parse_digits(d: &str) -> (r: Result<i64, String>)
    ensures
        match r {
            Ok(v) => parse_digits_outcome(d@) == Ok::<int, Seq<char>>(v as int),
            Err(m) => parse_digits_outcome(d@) == Err::<int, Seq<char>>(m@),
        },
{
    let cs = str_chars(d);
    let n = cs.len();
    if n == 0 {
        return Err("cannot parse integer from empty string".to_owned());
    }
    for i in 0..n
        invariant
            n == cs@.len(),
            cs@ == d@,
            forall|k: int| 0 <= k < i ==> is_digit(#[trigger] cs@[k]),
    {
        if !('0' <= cs[i] && cs[i] <= '9') {
            proof {
                assert(!is_digit(d@[i as int]));
            }
            return Err("invalid digit found in string".to_owned());
        }
    }
    let mut v: i64 = 0;
    for i in 0..n
        invariant
            n == cs@.len(),
            cs@ == d@,
            forall|k: int| 0 <= k < n ==> is_digit(#[trigger] cs@[k]),
            v as int == digits_value(cs@.take(i as int)),
    {
        proof {
            assert(cs@.take(i + 1).drop_last() == cs@.take(i as int));
            assert(is_digit(cs@[i as int]));
            lemma_digits_value_nonneg(cs@.take(i as int));
        }
        let digit: i64 = ((cs[i] as u32) - 48) as i64;
        if v > (i64::MAX - digit) / 10 {
            proof {
                // every further digit only makes the value larger
                lemma_digits_grow(cs@, i + 1);
            }
            return Err("number too large to fit in target type".to_owned());
        }
        v = v * 10 + digit;
    }
    assert(cs@.take(n as int) == cs@);
    Ok(v)
}

proof fn lemma_digits_grow(d: Seq<char>, k: int)
    requires
        0 < k <= d.len(),
        forall|i: int| 0 <= i < d.len() ==> is_digit(#[trigger] d[i]),
    ensures
        digits_value(d) >= digits_value(d.take(k)),
    decreases d.len() - k,
{
    if k < d.len() {
        lemma_digits_grow(d.drop_last(), k);
        assert(d.drop_last().take(k) == d.take(k));
        lemma_digits_value_nonneg(d);
    } else {
        assert(d.take(k) == d);
    }
}

/// The numbers of the variants of an `int`-style enum so far, and the number the next
/// variant takes unless it says otherwise: counting starts at 0, a variant with a
/// `sql_as_value` takes that number, and the next takes one more than the last. The first
/// variant whose value cannot be read makes the whole an error.
pub open spec fn int_numbering(vs: Seq<EnumVariant>) -> (Result<Seq<(Seq<char>, int)>, Seq<char>>, int)
    decreases vs.len(),
{
    if vs.len() == 0 {
        (Ok(Seq::empty()), 0)
    } else {
        let (prev, next) = int_numbering(vs.drop_last());
        let v = vs.last();
        match prev {
            Err(e) => (Err(e), next),
            Ok(acc) => match int_literal_of(v.attrs@) {
                Err(m) => (Err(m), next),
                Ok(None) => (Ok(acc.push((v.name@, next))), next + 1),
                Ok(Some(d)) => match parse_digits_outcome(d) {
                    Err(m) => (Err("Invalid integer in sql_as_value: "@ + m), next),
                    Ok(x) => (Ok(acc.push((v.name@, x))), x + 1),
                },
            },
        }
    }
}

/// Whether numbering the variants goes past `i64::MAX` (a variant numbered `i64::MAX`
/// leaves no number for the next).
pub open spec fn numbering_overflows(vs: Seq<EnumVariant>) -> bool
    decreases vs.len(),
{
    if vs.len() == 0 {
        false
    } else {
        numbering_overflows(vs.drop_last()) || (int_numbering(vs).0 is Ok && int_numbering(vs).1 > i64::MAX)
    }
}

/// The pairs of names and numbers as values.
pub open spec fn numbered_view(v: Seq<(String, i64)>) -> Seq<(Seq<char>, int)> {
    v.map_values(|p: (String, i64)| (p.0@, p.1 as int))
}

fn first_value_index(attrs: &[RawAttribute]) -> (r: Option<usize>)
    ensures
        match r {
            Some(i) => i < attrs@.len() && first_value_attr(attrs@) == Some(attrs@[i as int]),
            None => first_value_attr(attrs@) is None,
        },
{
    let n = attrs.len();
    assert(attrs@.skip(0) == attrs@);
    for i in 0..n
        invariant
            n == attrs@.len(),
            first_value_attr(attrs@) == first_value_attr(attrs@.skip(i as int)),
    {
        proof {
            assert(attrs@.skip(i as int).drop_first() == attrs@.skip(i + 1));
            assert(attrs@.skip(i as int)[0] == attrs@[i as int]);
        }
        if str_eq(attrs[i].name.as_str(), "sql_as_value") {
            return Some(i);
        }
    }
    assert(attrs@.skip(n as int).len() == 0);
    None
}

/// The integer a variant's first `sql_as_value` gives, as base-10 digits, if any.
pub fn extract_sql_as_int_literal(attrs: &[RawAttribute]) -> (r: Result<Option<String>, String>)
    ensures
        match r {
            Ok(Some(d)) => int_literal_of(attrs@) == Ok::<Option<Seq<char>>, Seq<char>>(Some(d@)),
            Ok(None) => int_literal_of(attrs@) == Ok::<Option<Seq<char>>, Seq<char>>(None),
            Err(m) => int_literal_of(attrs@) == Err::<Option<Seq<char>>, Seq<char>>(m@),
        },
{
    match first_value_index(attrs) {
        None => Ok(None),
        Some(i) => match &attrs[i].args {
            AttributeArgs::Integer(d) => Ok(Some(d.clone())),
            AttributeArgs::Strings(v) => {
                if v.len() == 1 {
                    Err("Expected an integer literal for sql_as_value when using int style".to_owned())
                } else if v.len() == 0 {
                    Err("unexpected end of input, expected literal".to_owned())
                } else {
                    Err("unexpected token".to_owned())
                }
            },
            AttributeArgs::OtherLiteral => Err(
                "Expected an integer literal for sql_as_value when using int style".to_owned(),
            ),
            AttributeArgs::OtherList => Err("expected literal".to_owned()),
            _ => Err("Expected #[sql_as_value(...)] format for integer values".to_owned()),
        },
    }
}

/// The number each variant of an `int`-style enum is stored as, in order, with its name.
pub fn int_variant_values(variants: &[EnumVariant]) -> (r: Result<Vec<(String, i64)>, String>)
    requires
        !numbering_overflows(variants@),
    ensures
        match r {
            Ok(v) => int_numbering(variants@).0 == Ok::<Seq<(Seq<char>, int)>, Seq<char>>(numbered_view(v@)),
            Err(m) => int_numbering(variants@).0 == Err::<Seq<(Seq<char>, int)>, Seq<char>>(m@),
        },
{
    let mut out: Vec<(String, i64)> = Vec::new();
    let mut next: i64 = 0;
    let n = variants.len();
    proof {
        assert forall|k: int| 0 <= k <= n implies !numbering_overflows(#[trigger] variants@.take(k)) by {
            lemma_overflow_prefix(variants@, k);
        }
        assert(variants@.take(0) == Seq::<EnumVariant>::empty());
        assert(numbered_view(out@) == Seq::<(Seq<char>, int)>::empty());
    }
    for i in 0..n
        invariant
            n == variants@.len(),
            forall|k: int| 0 <= k <= n ==> !numbering_overflows(#[trigger] variants@.take(k)),
            int_numbering(variants@.take(i as int)) == (
                Ok::<Seq<(Seq<char>, int)>, Seq<char>>(numbered_view(out@)),
                next as int,
            ),
    {
        let ghost pre = variants@.take(i as int);
        let ghost cur = variants@.take(i + 1);
        proof {
            assert(cur.drop_last() == pre);
            assert(cur.last() == variants@[i as int]);
        }
        let name = variants[i].name.clone();
        let ghost before = out@;
        match extract_sql_as_int_literal(variants[i].attrs.as_slice()) {
            Err(m) => {
                proof {
                    lemma_numbering_error_stays(variants@, i + 1);
                }
                return Err(m);
            },
            Ok(None) => {
                proof {
                    assert(!numbering_overflows(cur));
                }
                out.push((name, next));
                next = next + 1;
                proof {
                    assert(numbered_view(out@) == numbered_view(before).push((variants@[i as int].name@, next - 1)));
                }
            },
            Ok(Some(d)) => match parse_digits(d.as_str()) {
                Err(m) => {
                    let mut msg: Vec<char> = Vec::new();
                    push_str_chars(&mut msg, "Invalid integer in sql_as_value: ");
                    push_str_chars(&mut msg, m.as_str());
                    proof {
                        lemma_numbering_error_stays(variants@, i + 1);
                    }
                    return Err(chars_to_string(&msg));
                },
                Ok(x) => {
                    proof {
                        assert(!numbering_overflows(cur));
                    }
                    out.push((name, x));
                    next = x + 1;
                    proof {
                        assert(numbered_view(out@) == numbered_view(before).push((variants@[i as int].name@, x as int)));
                    }
                },
            },
        }
    }
    assert(variants@.take(n as int) == variants@);
    Ok(out)
}

proof fn lemma_numbering_error_stays(vs: Seq<EnumVariant>, k: int)
    requires
        0 < k <= vs.len(),
        int_numbering(vs.take(k)).0 is Err,
    ensures
        int_numbering(vs).0 == int_numbering(vs.take(k)).0,
    decreases vs.len() - k,
{
    if k < vs.len() {
        assert(vs.drop_last().take(k) == vs.take(k));
        lemma_numbering_error_stays(vs.drop_last(), k);
    } else {
        assert(vs.take(k) == vs);
    }
}

proof fn lemma_overflow_prefix(vs: Seq<EnumVariant>, k: int)
    requires
        0 <= k <= vs.len(),
        !numbering_overflows(vs),
    ensures
        !numbering_overflows(vs.take(k)),
    decreases vs.len() - k,
{
    if k < vs.len() {
        assert(vs.drop_last().take(k) == vs.take(k));
        lemma_overflow_prefix(vs.drop_last(), k);
    } else {
        assert(vs.take(k) == vs);
    }
}

// ---------------------------------------------------------------------------
// The attribute as a whole

/// The item `sql_as` is put on.
#[derive(Debug)]
pub enum SqlAsItem {
    /// A struct; `newtype` when it is a tuple struct of one field.
    Struct { newtype: bool },
    Enum(Vec<EnumVariant>),
    /// Anything else (a union, say).
    Other,
}

/// How the values of a type marked `sql_as` go into columns.
#[derive(Debug)]
pub enum SqlAsPlan {
    /// Serialized whole in this style (`json`, `jsonb`, `binary` or `borsh`).
    Serialized(SqlAsStyle),
    /// An enum stored as text: each variant's name and its text.
    TextEnum(Vec<(String, String)>),
    /// An enum stored as a number: each variant's name and its number.
    IntEnum(Vec<(String, i64)>),
}

/// What `sql_as` puts on the item: the traits it derives (by the paths it writes), its
/// `repr` if any, whether it adds `Deref`, `DerefMut` and `From` both ways between a newtype
/// and its field, and how the values are stored.
#[derive(Debug)]
pub struct SqlAsExpansion {
    pub derives: Vec<String>,
    pub repr: Option<String>,
    pub newtype_impls: bool,
    pub storage: SqlAsPlan,
}

/// The traits derived for an item in `style`: `Default`, `Clone`, `Debug`, `PartialEq`, and
/// borsh's or serde's serialization traits; an enum stored as text derives `Copy` as well.
pub open spec fn expansion_derives(style: SqlAsStyle, is_enum: bool) -> Seq<Seq<char>> {
    let common = if is_enum && style == SqlAsStyle::String {
        seq!["Default"@, "Copy"@, "Clone"@, "Debug"@, "PartialEq"@]
    } else {
        seq!["Default"@, "Clone"@, "Debug"@, "PartialEq"@]
    };
    if style == SqlAsStyle::Borsh {
        common + seq!["sqlited::borsh::BorshSerialize"@, "sqlited::borsh::BorshDeserialize"@]
    } else {
        common + seq!["serde::Serialize"@, "serde::Deserialize"@]
    }
}

/// The `repr` of the item: `transparent` for a newtype struct, `u8` for an enum serialized
/// whole (`json`, `jsonb`, `binary`, `borsh`), none otherwise (an enum stored as text or as a
/// number keeps its default representation).
pub open spec fn expansion_repr(style: SqlAsStyle, item: SqlAsItem) -> Option<Seq<char>> {
    match item {
        SqlAsItem::Struct { newtype } => if newtype {
            Some("transparent"@)
        } else {
            None
        },
        SqlAsItem::Enum(_) => if style == SqlAsStyle::Int || style == SqlAsStyle::String {
            None
        } else {
            Some("u8"@)
        },
        SqlAsItem::Other => None,
    }
}

/// The text of an optional string.
pub open spec fn text_of(o: Option<String>) -> Option<Seq<char>> {
    match o {
        Some(s) => Some(s@),
        None => None,
    }
}

fn push_owned(v: &mut Vec<String>, s: &str)
    ensures
        final(v)@.len() == old(v)@.len() + 1,
        forall|i: int| 0 <= i < old(v)@.len() ==> final(v)@[i] == old(v)@[i],
        final(v)@.last()@ == s@,
{
    v.push(s.to_owned());
}

/// The derives of `expansion_derives`.
fn derives_for(style: SqlAsStyle, is_enum: bool) -> (r: Vec<String>)
    ensures
        string_views(r@) == expansion_derives(style, is_enum),
{
    let mut v: Vec<String> = Vec::new();
    push_owned(&mut v, "Default");
    if is_enum && style == SqlAsStyle::String {
        push_owned(&mut v, "Copy");
    }
    push_owned(&mut v, "Clone");
    push_owned(&mut v, "Debug");
    push_owned(&mut v, "PartialEq");
    if style == SqlAsStyle::Borsh {
        push_owned(&mut v, "sqlited::borsh::BorshSerialize");
        push_owned(&mut v, "sqlited::borsh::BorshDeserialize");
    } else {
        push_owned(&mut v, "serde::Serialize");
        push_owned(&mut v, "serde::Deserialize");
    }
    assert(string_views(v@) =~= expansion_derives(style, is_enum));
    v
}

/// What `sql_as(style)` on an item comes to: the item must be a struct or an enum, and the
/// style one that suits it; an enum in `string` style is stored by the text of its variants,
/// one in `int` style by their numbers. The expansion derives `expansion_derives`, has the
/// `repr` of `expansion_repr`, and a newtype struct gets `Deref`, `DerefMut` and `From`.
pub fn sql_as(style: &str, item: &SqlAsItem) -> (r: Result<SqlAsExpansion, String>)
    requires
        style@.len() < usize::MAX,
        item matches SqlAsItem::Enum(vs) ==> !numbering_overflows(vs@),
    ensures
        item is Other ==> (r matches Err(m) && m@ == "sql_as can only be applied to structs or enums"@),
        r matches Ok(x) ==> {
            &&& x.storage matches SqlAsPlan::Serialized(st) ==> string_views(x.derives@) == expansion_derives(
                st,
                item is Enum,
            ) && text_of(x.repr) == expansion_repr(st, *item)
            &&& x.storage is TextEnum ==> string_views(x.derives@) == expansion_derives(SqlAsStyle::String, true)
                && x.repr is None
            &&& x.storage is IntEnum ==> string_views(x.derives@) == expansion_derives(SqlAsStyle::Int, true)
                && x.repr is None
            &&& x.newtype_impls == (*item matches SqlAsItem::Struct { newtype } && newtype)
        },
        item matches SqlAsItem::Struct { .. } ==> match r {
            Ok(x) => x.storage matches SqlAsPlan::Serialized(st) && style_outcome(style@, struct_styles()) == Ok::<
                SqlAsStyle,
                Seq<char>,
            >(st),
            Err(m) => style_outcome(style@, struct_styles()) == Err::<SqlAsStyle, Seq<char>>(m@),
        },
        item matches SqlAsItem::Enum(vs) ==> match r {
            Ok(x) => match x.storage {
                SqlAsPlan::Serialized(st) => style_outcome(style@, enum_styles()) == Ok::<SqlAsStyle, Seq<char>>(st)
                    && st != SqlAsStyle::String && st != SqlAsStyle::Int,
                SqlAsPlan::TextEnum(labels) => {
                    &&& style_outcome(style@, enum_styles()) == Ok::<SqlAsStyle, Seq<char>>(SqlAsStyle::String)
                    &&& labels@.len() == vs@.len()
                    &&& forall|i: int|
                        0 <= i < vs@.len() ==> (#[trigger] labels@[i]).0@ == vs@[i].name@ && labels@[i].1@
                            == variant_label(vs@[i])
                },
                SqlAsPlan::IntEnum(values) => style_outcome(style@, enum_styles()) == Ok::<SqlAsStyle, Seq<char>>(
                    SqlAsStyle::Int,
                ) && int_numbering(vs@).0 == Ok::<Seq<(Seq<char>, int)>, Seq<char>>(numbered_view(values@)),
            },
            Err(m) => style_outcome(style@, enum_styles()) == Err::<SqlAsStyle, Seq<char>>(m@) || (style_outcome(
                style@,
                enum_styles(),
            ) == Ok::<SqlAsStyle, Seq<char>>(SqlAsStyle::Int) && int_numbering(vs@).0 == Err::<
                Seq<(Seq<char>, int)>,
                Seq<char>,
            >(m@)),
        },
{
    match item {
        SqlAsItem::Struct { newtype } => match validate_style(style, false) {
            Ok(st) => {
                let repr = if *newtype {
                    Some("transparent".to_owned())
                } else {
                    None
                };
                Ok(SqlAsExpansion {
                    derives: derives_for(st, false),
                    repr,
                    newtype_impls: *newtype,
                    storage: SqlAsPlan::Serialized(st),
                })
            },
            Err(m) => Err(m),
        },
        SqlAsItem::Enum(vs) => match validate_style(style, true) {
            Ok(st) => match st {
                SqlAsStyle::String => Ok(SqlAsExpansion {
                    derives: derives_for(st, true),
                    repr: None,
                    newtype_impls: false,
                    storage: SqlAsPlan::TextEnum(string_variant_labels(vs.as_slice())),
                }),
                SqlAsStyle::Int => match int_variant_values(vs.as_slice()) {
                    Ok(v) => Ok(SqlAsExpansion {
                        derives: derives_for(st, true),
                        repr: None,
                        newtype_impls: false,
                        storage: SqlAsPlan::IntEnum(v),
                    }),
                    Err(m) => Err(m),
                },
                _ => Ok(SqlAsExpansion {
                    derives: derives_for(st, true),
                    repr: Some("u8".to_owned()),
                    newtype_impls: false,
                    storage: SqlAsPlan::Serialized(st),
                }),
            },
            Err(m) => Err(m),
        },
        SqlAsItem::Other => Err("sql_as can only be applied to structs or enums".to_owned()),
    }
}

} // verus!
