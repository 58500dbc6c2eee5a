use vstd::prelude::*;
use vstd::utf8::{valid_utf8, decode_utf8};
use crate::convert::{FromSql, FromSqlError, FromSqlErrorView, ToSql, ToSqlError, spec_utf8_error_text, to_sql_view, utf8_of, utf8_to_string};
use crate::text::{int_decimal, push_i64_decimal, push_str_chars, str_chars, str_eq, str_views, string_from_chars};
use crate::value::{SqlData, SqlType, SqlValue};
use crate::params::Bound;

verus! {

// ---------------------------------------------------------------------------
// SQLite type names

/// Types with a SQLite column type name.
pub trait SqliteTypeName {
    spec fn spec_sql_type_name() -> Seq<char>;

    spec fn spec_is_integer_type() -> bool;

    /// The SQLite type name of the column that stores this type.
    fn sql_type_name() -> (r: &'static str)
        ensures
            r@ == Self::spec_sql_type_name(),
    ;

    /// Whether the type is an integer type (usable as an auto-increment key).
    fn is_integer_type() -> (r: bool)
        ensures
            r == Self::spec_is_integer_type(),
    ;
}

impl SqliteTypeName for i32 {
    open spec fn spec_sql_type_name() -> Seq<char> {
        "INTEGER"@
    }

    open spec fn spec_is_integer_type() -> bool {
        true
    }

    fn sql_type_name() -> (r: &'static str) {
        "INTEGER"
    }

    fn is_integer_type() -> (r: bool) {
        true
    }
}

impl SqliteTypeName for i64 {
    open spec fn spec_sql_type_name() -> Seq<char> {
        "INTEGER"@
    }

    open spec fn spec_is_integer_type() -> bool {
        true
    }

    fn sql_type_name() -> (r: &'static str) {
        "INTEGER"
    }

    fn is_integer_type() -> (r: bool) {
        true
    }
}

impl SqliteTypeName for i16 {
    open spec fn spec_sql_type_name() -> Seq<char> {
        "INTEGER"@
    }

    open spec fn spec_is_integer_type() -> bool {
        true
    }

    fn sql_type_name() -> (r: &'static str) {
        "INTEGER"
    }

    fn is_integer_type() -> (r: bool) {
        true
    }
}

impl SqliteTypeName for i8 {
    open spec fn spec_sql_type_name() -> Seq<char> {
        "INTEGER"@
    }

    open spec fn spec_is_integer_type() -> bool {
        true
    }

    fn sql_type_name() -> (r: &'static str) {
        "INTEGER"
    }

    fn is_integer_type() -> (r: bool) {
        true
    }
}

impl SqliteTypeName for u64 {
    open spec fn spec_sql_type_name() -> Seq<char> {
        "INTEGER"@
    }

    open spec fn spec_is_integer_type() -> bool {
        true
    }

    fn sql_type_name() -> (r: &'static str) {
        "INTEGER"
    }

    fn is_integer_type() -> (r: bool) {
        true
    }
}

impl SqliteTypeName for u32 {
    open spec fn spec_sql_type_name() -> Seq<char> {
        "INTEGER"@
    }

    open spec fn spec_is_integer_type() -> bool {
        true
    }

    fn sql_type_name() -> (r: &'static str) {
        "INTEGER"
    }

    fn is_integer_type() -> (r: bool) {
        true
    }
}

impl SqliteTypeName for u16 {
    open spec fn spec_sql_type_name() -> Seq<char> {
        "INTEGER"@
    }

    open spec fn spec_is_integer_type() -> bool {
        true
    }

    fn sql_type_name() -> (r: &'static str) {
        "INTEGER"
    }

    fn is_integer_type() -> (r: bool) {
        true
    }
}

impl SqliteTypeName for u8 {
    open spec fn spec_sql_type_name() -> Seq<char> {
        "INTEGER"@
    }

    open spec fn spec_is_integer_type() -> bool {
        true
    }

    fn sql_type_name() -> (r: &'static str) {
        "INTEGER"
    }

    fn is_integer_type() -> (r: bool) {
        true
    }
}

/// Booleans are stored as INTEGER but are no integer key type.
impl SqliteTypeName for bool {
    open spec fn spec_sql_type_name() -> Seq<char> {
        "INTEGER"@
    }

    open spec fn spec_is_integer_type() -> bool {
        false
    }

    fn sql_type_name() -> (r: &'static str) {
        "INTEGER"
    }

    fn is_integer_type() -> (r: bool) {
        false
    }
}

impl SqliteTypeName for String {
    open spec fn spec_sql_type_name() -> Seq<char> {
        "TEXT"@
    }

    open spec fn spec_is_integer_type() -> bool {
        false
    }

    fn sql_type_name() -> (r: &'static str) {
        "TEXT"
    }

    fn is_integer_type() -> (r: bool) {
        false
    }
}

impl<T: FromSql + ToSql> SqliteTypeName for Vec<T> {
    open spec fn spec_sql_type_name() -> Seq<char> {
        "BLOB"@
    }

    open spec fn spec_is_integer_type() -> bool {
        false
    }

    fn sql_type_name() -> (r: &'static str) {
        "BLOB"
    }

    fn is_integer_type() -> (r: bool) {
        false
    }
}

/// An optional value is stored in a column of the inner type.
impl<T: SqliteTypeName> SqliteTypeName for Option<T> {
    open spec fn spec_sql_type_name() -> Seq<char> {
        T::spec_sql_type_name()
    }

    open spec fn spec_is_integer_type() -> bool {
        T::spec_is_integer_type()
    }

    fn sql_type_name() -> (r: &'static str) {
        T::sql_type_name()
    }

    fn is_integer_type() -> (r: bool) {
        T::is_integer_type()
    }
}

/// The four storage class names a custom type may be stored as.
pub open spec fn is_storage_name(n: Seq<char>) -> bool {
    n == "TEXT"@ || n == "INTEGER"@ || n == "REAL"@ || n == "BLOB"@
}

/// The storage class of a storage class name.
pub open spec fn storage_of_name(n: Seq<char>) -> Option<SqlType> {
    if n == "TEXT"@ {
        Some(SqlType::Text)
    } else if n == "INTEGER"@ {
        Some(SqlType::Integer)
    } else if n == "REAL"@ {
        Some(SqlType::Real)
    } else if n == "BLOB"@ {
        Some(SqlType::Blob)
    } else {
        None
    }
}

/// Maps a type name ("TEXT", "INTEGER", "REAL", "BLOB") to its storage class.
pub fn sql_type_from_name(name: &str) -> (r: Option<SqlType>)
    ensures
        r == storage_of_name(name@),
{
    if str_eq(name, "TEXT") {
        Some(SqlType::Text)
    } else if str_eq(name, "INTEGER") {
        Some(SqlType::Integer)
    } else if str_eq(name, "REAL") {
        Some(SqlType::Real)
    } else if str_eq(name, "BLOB") {
        Some(SqlType::Blob)
    } else {
        None
    }
}

// ---------------------------------------------------------------------------
// Conversion errors of custom types

/// Why a SQL value does not convert into a custom type.
#[derive(Debug)]
pub enum ConversionError {
    /// The value has the wrong storage class.
    InvalidType,
    /// The integer does not fit the requested type.
    OutOfRange(i64),
    /// The blob does not have the expected size.
    InvalidBlobSize { expected_size: usize, blob_size: usize },
    /// Any other failure, with its message.
    Other(String),
}

pub enum ConversionErrorView {
    InvalidType,
    OutOfRange(i64),
    InvalidBlobSize { expected_size: usize, blob_size: usize },
    Other(Seq<char>),
}

impl View for ConversionError {
    type V = ConversionErrorView;

    open spec fn view(&self) -> ConversionErrorView {
        match self {
            ConversionError::InvalidType => ConversionErrorView::InvalidType,
            ConversionError::OutOfRange(i) => ConversionErrorView::OutOfRange(*i),
            ConversionError::InvalidBlobSize { expected_size, blob_size } =>
                ConversionErrorView::InvalidBlobSize { expected_size: *expected_size, blob_size: *blob_size },
            ConversionError::Other(m) => ConversionErrorView::Other(m@),
        }
    }
}

/// How a conversion error is reported as a `FromSqlError`.
pub open spec fn conversion_message(e: ConversionErrorView) -> FromSqlErrorView {
    match e {
        ConversionErrorView::InvalidType => FromSqlErrorView::InvalidType(
            "Invalid type for Timestamp conversion"@,
        ),
        ConversionErrorView::OutOfRange(_) => FromSqlErrorView::InvalidType(
            "Value out of range for Timestamp conversion"@,
        ),
        ConversionErrorView::Other(m) => FromSqlErrorView::InvalidType(
            "Underlying error during Timestamp conversion: "@ + m,
        ),
        ConversionErrorView::InvalidBlobSize { .. } => FromSqlErrorView::InvalidType("Unknown error"@),
    }
}

fn owned(s: &str) -> (r: String)
    ensures
        r@ == s@,
{
    s.to_owned()
}

impl FromSqlError {
    /// Reports a conversion error as a `FromSqlError`.
    pub fn from_conversion(err: ConversionError) -> (r: FromSqlError)
        ensures
            r@ == conversion_message(err@),
    {
        match err {
            ConversionError::InvalidType => FromSqlError::InvalidType(
                owned("Invalid type for Timestamp conversion"),
            ),
            ConversionError::OutOfRange(_) => FromSqlError::InvalidType(
                owned("Value out of range for Timestamp conversion"),
            ),
            ConversionError::Other(m) => {
                let mut out: Vec<char> = Vec::new();
                push_str_chars(&mut out, "Underlying error during Timestamp conversion: ");
                push_str_chars(&mut out, m.as_str());
                FromSqlError::InvalidType(string_from_chars(out.as_slice()))
            },
            ConversionError::InvalidBlobSize { .. } => FromSqlError::InvalidType(owned("Unknown error")),
        }
    }
}

// ---------------------------------------------------------------------------
// Custom types

/// A custom type stored in SQLite through a conversion of its own.
pub trait SqliteBindableValue: Sized {
    spec fn spec_to_sql_value(&self) -> Result<SqlData, Seq<char>>;

    spec fn spec_from_sql_value_error(v: SqlData) -> Option<ConversionErrorView>;

    spec fn spec_from_sql_value(v: SqlData, x: Self) -> bool;

    spec fn spec_sqlite_type_name() -> Seq<char>;

    /// Converts this value into a SQL value.
    fn to_sql_value(&self) -> (r: Bound)
        ensures
            to_sql_view(r) == self.spec_to_sql_value(),
    ;

    /// Converts a SQL value into this type.
    fn from_sql_value(value: &SqlValue) -> (r: Result<Self, ConversionError>)
        ensures
            match r {
                Ok(x) => Self::spec_from_sql_value_error(value@) is None && Self::spec_from_sql_value(
                    value@,
                    x,
                ),
                Err(e) => Self::spec_from_sql_value_error(value@) == Some(e@),
            },
    ;

    /// The storage class name of the column ("TEXT", "INTEGER", "REAL" or "BLOB").
    fn sqlite_type_name() -> (r: &'static str)
        ensures
            r@ == Self::spec_sqlite_type_name(),
            is_storage_name(r@),
    ;
}

/// Wrapper that gives a custom type the `ToSql`, `FromSql` and `SqliteTypeName` of its
/// conversion.
#[derive(Debug)]
pub struct SqliteCustomType<T: SqliteBindableValue>(pub T);

impl<T: SqliteBindableValue> FromSql for SqliteCustomType<T> {
    open spec fn spec_from_sql_error(v: SqlData) -> Option<FromSqlErrorView> {
        match T::spec_from_sql_value_error(v) {
            Some(e) => Some(conversion_message(e)),
            None => None,
        }
    }

    open spec fn spec_from_sql_value(v: SqlData, x: Self) -> bool {
        T::spec_from_sql_value(v, x.0)
    }

    fn from_sql(value: &SqlValue) -> (r: Result<Self, FromSqlError>) {
        match T::from_sql_value(value) {
            Ok(x) => Ok(SqliteCustomType(x)),
            Err(e) => Err(FromSqlError::from_conversion(e)),
        }
    }
}

impl<T: SqliteBindableValue> ToSql for SqliteCustomType<T> {
    open spec fn spec_to_sql(&self) -> Result<SqlData, Seq<char>> {
        self.0.spec_to_sql_value()
    }

    open spec fn spec_sql_type(&self) -> SqlType {
        storage_of_name(T::spec_sqlite_type_name())->0
    }

    open spec fn spec_is_dynamic(&self) -> bool {
        false
    }

    fn to_sql(&self) -> (r: Result<SqlValue, ToSqlError>) {
        self.0.to_sql_value()
    }

    fn sql_type(&self) -> (r: SqlType) {
        match sql_type_from_name(T::sqlite_type_name()) {
            Some(t) => t,
            None => SqlType::Text,
        }
    }

    fn is_dynamic(&self) -> (r: bool) {
        false
    }
}

impl<T: SqliteBindableValue> SqliteTypeName for SqliteCustomType<T> {
    open spec fn spec_sql_type_name() -> Seq<char> {
        T::spec_sqlite_type_name()
    }

    open spec fn spec_is_integer_type() -> bool {
        T::spec_sqlite_type_name() == "INTEGER"@
    }

    fn sql_type_name() -> (r: &'static str) {
        T::sqlite_type_name()
    }

    fn is_integer_type() -> (r: bool) {
        str_eq(T::sqlite_type_name(), "INTEGER")
    }
}

// ---------------------------------------------------------------------------
// Enumerations stored as text or integers

/// Whether `i` is the first position of `x` in `s`.
pub open spec fn is_first_match<T>(s: Seq<T>, x: T, i: int) -> bool {
    &&& 0 <= i < s.len()
    &&& s[i] == x
    &&& forall|j: int| 0 <= j < i ==> s[j] != x
}

/// Whether reading an enumeration stored as text ends in `r`: the value must be valid UTF-8
/// text, and its variant is the first whose label equals it.
pub open spec fn text_variant_outcome(labels: Seq<Seq<char>>, v: SqlData, r: Result<int, ConversionErrorView>) -> bool {
    match v {
        SqlData::Text(t) => if !valid_utf8(t) {
            r == Err::<int, ConversionErrorView>(ConversionErrorView::Other(spec_utf8_error_text(t)))
        } else {
            match r {
                Ok(i) => is_first_match(labels, decode_utf8(t), i),
                Err(e) => e == ConversionErrorView::InvalidType && forall|i: int|
                    0 <= i < labels.len() ==> labels[i] != decode_utf8(t),
            }
        },
        _ => r == Err::<int, ConversionErrorView>(ConversionErrorView::InvalidType),
    }
}

pub open spec fn index_result_view(r: Result<usize, ConversionError>) -> Result<int, ConversionErrorView> {
    match r {
        Ok(i) => Ok(i as int),
        Err(e) => Err(e@),
    }
}

/// The variant index of an enumeration stored as text.
pub fn variant_from_text(labels: &[&str], value: &SqlValue) -> (r: Result<usize, ConversionError>)
    ensures
        text_variant_outcome(str_views(labels@), value@, index_result_view(r)),
{
    let ghost ls = str_views(labels@);
    match value {
        SqlValue::Text(t) => {
            let s = match utf8_to_string(t.as_slice()) {
                Ok(s) => s,
                Err(m) => {
                    return Err(ConversionError::Other(m));
                },
            };
            let n = labels.len();
            for i in 0..n
                invariant
                    n == labels@.len(),
                    ls == str_views(labels@),
                    valid_utf8(t@),
                    value@ == SqlData::Text(t@),
                    s@ == decode_utf8(t@),
                    forall|j: int| 0 <= j < i ==> ls[j] != s@,
            {
                if str_eq(labels[i], s.as_str()) {
                    assert(ls[i as int] == s@);
                    return Ok(i);
                }
            }
            Err(ConversionError::InvalidType)
        },
        _ => Err(ConversionError::InvalidType),
    }
}

/// "Invalid integer value <v> for enum <name>".
pub open spec fn invalid_int_message(v: i64, name: Seq<char>) -> Seq<char> {
    "Invalid integer value "@ + int_decimal(v as int) + " for enum "@ + name
}

/// Whether reading an enumeration stored as an integer ends in `r`: the value must be an
/// integer, and its variant is the first whose number equals it.
pub open spec fn int_variant_outcome(numbers: Seq<i64>, name: Seq<char>, v: SqlData, r: Result<int, ConversionErrorView>) -> bool {
    match v {
        SqlData::Integer(x) => match r {
            Ok(i) => is_first_match(numbers, x, i),
            Err(e) => e == ConversionErrorView::Other(invalid_int_message(x, name)) && forall|i: int|
                0 <= i < numbers.len() ==> numbers[i] != x,
        },
        _ => r == Err::<int, ConversionErrorView>(ConversionErrorView::InvalidType),
    }
}

/// The variant index of an enumeration `enum_name` stored as an integer.
pub fn variant_from_integer(numbers: &[i64], enum_name: &str, value: &SqlValue) -> (r: Result<usize, ConversionError>)
    ensures
        int_variant_outcome(numbers@, enum_name@, value@, index_result_view(r)),
{
    match value {
        SqlValue::Integer(x) => {
            let x = *x;
            let n = numbers.len();
            for i in 0..n
                invariant
                    n == numbers@.len(),
                    value@ == SqlData::Integer(x),
                    forall|j: int| 0 <= j < i ==> numbers@[j] != x,
            {
                if numbers[i] == x {
                    return Ok(i);
                }
            }
            let mut m: Vec<char> = Vec::new();
            push_str_chars(&mut m, "Invalid integer value ");
            push_i64_decimal(&mut m, x);
            push_str_chars(&mut m, " for enum ");
            push_str_chars(&mut m, enum_name);
            Err(ConversionError::Other(string_from_chars(m.as_slice())))
        },
        _ => Err(ConversionError::InvalidType),
    }
}

/// The SQL value of an enumeration variant stored as text: its label.
pub fn text_of_variant(label: &str) -> (r: SqlValue)
    ensures
        r@ == SqlData::Text(utf8_of(label@)),
{
    SqlValue::Text(crate::convert::str_bytes(label))
}

} // verus!
