use vstd::prelude::*;
use vstd::utf8::{valid_utf8, decode_utf8};
use vstd::string::StringSliceAdditionalSpecFns;
use crate::text::{int_decimal, push_i64_decimal, push_str_chars, string_from_chars};
use crate::value::{SqlData, SqlType, SqlValue, copy_bytes, push_value_debug, value_debug};

verus! {

// ---------------------------------------------------------------------------
// Errors

/// A value could not be turned into a SQL value.
#[derive(Debug)]
pub struct ToSqlError {
    pub message: String,
}

/// A SQL value could not be turned into the requested type.
#[derive(Debug)]
pub enum FromSqlError {
    /// The database value was NULL.
    UnexpectedNull,
    /// The database value does not convert into the requested type.
    InvalidType(String),
    /// The underlying SQLite connection reported an error (its message).
    SqliteError(String),
}

pub enum FromSqlErrorView {
    UnexpectedNull,
    InvalidType(Seq<char>),
    SqliteError(Seq<char>),
}

impl View for FromSqlError {
    type V = FromSqlErrorView;

    open spec fn view(&self) -> FromSqlErrorView {
        match self {
            FromSqlError::UnexpectedNull => FromSqlErrorView::UnexpectedNull,
            FromSqlError::InvalidType(m) => FromSqlErrorView::InvalidType(m@),
            FromSqlError::SqliteError(m) => FromSqlErrorView::SqliteError(m@),
        }
    }
}

pub open spec fn to_sql_view(r: Result<SqlValue, ToSqlError>) -> Result<SqlData, Seq<char>> {
    match r {
        Ok(v) => Ok(v@),
        Err(e) => Err(e.message@),
    }
}

// ---------------------------------------------------------------------------
// Rust values to SQL values

/// A type whose values can be bound as SQL parameters.
pub trait ToSql {
    /// The SQL value (or the error message) that `to_sql` gives.
    spec fn spec_to_sql(&self) -> Result<SqlData, Seq<char>>;

    /// The storage class that `sql_type` reports.
    spec fn spec_sql_type(&self) -> SqlType;

    /// Whether the SQL type has to be read from the value itself.
    spec fn spec_is_dynamic(&self) -> bool;

    /// Converts this value into a SQL value.
    fn to_sql(&self) -> (r: Result<SqlValue, ToSqlError>)
        ensures
            to_sql_view(r) == self.spec_to_sql(),
    ;

    /// The SQL type of this value.
    fn sql_type(&self) -> (r: SqlType)
        ensures
            r == self.spec_sql_type(),
    ;

    /// Whether the SQL type of this value is only known from the value itself.
    fn is_dynamic(&self) -> (r: bool)
        ensures
            r == self.spec_is_dynamic(),
    ;
}

/// The SQL encoding of a `u64`: values above `i64::MAX` wrap into the negative range.
pub open spec fn u64_encode(x: u64) -> i64 {
    if x <= i64::MAX {
        x as i64
    } else {
        (x - 0x1_0000_0000_0000_0000) as i64
    }
}

/// Reads back a `u64` from its SQL encoding.
pub open spec fn u64_decode(i: i64) -> u64 {
    if i >= 0 {
        i as u64
    } else {
        (i + 0x1_0000_0000_0000_0000) as u64
    }
}

impl<'a, T: ToSql + ?Sized> ToSql for &'a T {
    open spec fn spec_to_sql(&self) -> Result<SqlData, Seq<char>> {
        (**self).spec_to_sql()
    }

    open spec fn spec_sql_type(&self) -> SqlType {
        (**self).spec_sql_type()
    }

    open spec fn spec_is_dynamic(&self) -> bool {
        (**self).spec_is_dynamic()
    }

    fn to_sql(&self) -> (r: Result<SqlValue, ToSqlError>) {
        (**self).to_sql()
    }

    fn sql_type(&self) -> (r: SqlType) {
        (**self).sql_type()
    }

    fn is_dynamic(&self) -> (r: bool) {
        (**self).is_dynamic()
    }
}

impl ToSql for bool {
    open spec fn spec_to_sql(&self) -> Result<SqlData, Seq<char>> {
        Ok(SqlData::Integer(if *self { 1 } else { 0 }))
    }

    open spec fn spec_sql_type(&self) -> SqlType {
        SqlType::Integer
    }

    open spec fn spec_is_dynamic(&self) -> bool {
        false
    }

    fn to_sql(&self) -> (r: Result<SqlValue, ToSqlError>) {
        Ok(SqlValue::Integer(if *self { 1 } else { 0 }))
    }

    fn sql_type(&self) -> (r: SqlType) {
        SqlType::Integer
    }

    fn is_dynamic(&self) -> (r: bool) {
        false
    }
}

impl ToSql for usize {
    open spec fn spec_to_sql(&self) -> Result<SqlData, Seq<char>> {
        Ok(SqlData::Integer(*self as i64))
    }

    open spec fn spec_sql_type(&self) -> SqlType {
        SqlType::Integer
    }

    open spec fn spec_is_dynamic(&self) -> bool {
        false
    }

    fn to_sql(&self) -> (r: Result<SqlValue, ToSqlError>) {
        Ok(SqlValue::Integer(*self as i64))
    }

    fn sql_type(&self) -> (r: SqlType) {
        SqlType::Integer
    }

    fn is_dynamic(&self) -> (r: bool) {
        false
    }
}

impl ToSql for i8 {
    open spec fn spec_to_sql(&self) -> Result<SqlData, Seq<char>> {
        Ok(SqlData::Integer(*self as i64))
    }

    open spec fn spec_sql_type(&self) -> SqlType {
        SqlType::Integer
    }

    open spec fn spec_is_dynamic(&self) -> bool {
        false
    }

    fn to_sql(&self) -> (r: Result<SqlValue, ToSqlError>) {
        Ok(SqlValue::Integer(*self as i64))
    }

    fn sql_type(&self) -> (r: SqlType) {
        SqlType::Integer
    }

    fn is_dynamic(&self) -> (r: bool) {
        false
    }
}

impl ToSql for i16 {
    open spec fn spec_to_sql(&self) -> Result<SqlData, Seq<char>> {
        Ok(SqlData::Integer(*self as i64))
    }

    open spec fn spec_sql_type(&self) -> SqlType {
        SqlType::Integer
    }

    open spec fn spec_is_dynamic(&self) -> bool {
        false
    }

    fn to_sql(&self) -> (r: Result<SqlValue, ToSqlError>) {
        Ok(SqlValue::Integer(*self as i64))
    }

    fn sql_type(&self) -> (r: SqlType) {
        SqlType::Integer
    }

    fn is_dynamic(&self) -> (r: bool) {
        false
    }
}

impl ToSql for i32 {
    open spec fn spec_to_sql(&self) -> Result<SqlData, Seq<char>> {
        Ok(SqlData::Integer(*self as i64))
    }

    open spec fn spec_sql_type(&self) -> SqlType {
        SqlType::Integer
    }

    open spec fn spec_is_dynamic(&self) -> bool {
        false
    }

    fn to_sql(&self) -> (r: Result<SqlValue, ToSqlError>) {
        Ok(SqlValue::Integer(*self as i64))
    }

    fn sql_type(&self) -> (r: SqlType) {
        SqlType::Integer
    }

    fn is_dynamic(&self) -> (r: bool) {
        false
    }
}

impl ToSql for i64 {
    open spec fn spec_to_sql(&self) -> Result<SqlData, Seq<char>> {
        Ok(SqlData::Integer(*self))
    }

    open spec fn spec_sql_type(&self) -> SqlType {
        SqlType::Integer
    }

    open spec fn spec_is_dynamic(&self) -> bool {
        false
    }

    fn to_sql(&self) -> (r: Result<SqlValue, ToSqlError>) {
        Ok(SqlValue::Integer(*self))
    }

    fn sql_type(&self) -> (r: SqlType) {
        SqlType::Integer
    }

    fn is_dynamic(&self) -> (r: bool) {
        false
    }
}

impl ToSql for u8 {
    open spec fn spec_to_sql(&self) -> Result<SqlData, Seq<char>> {
        Ok(SqlData::Integer(*self as i64))
    }

    open spec fn spec_sql_type(&self) -> SqlType {
        SqlType::Integer
    }

    open spec fn spec_is_dynamic(&self) -> bool {
        false
    }

    fn to_sql(&self) -> (r: Result<SqlValue, ToSqlError>) {
        Ok(SqlValue::Integer(*self as i64))
    }

    fn sql_type(&self) -> (r: SqlType) {
        SqlType::Integer
    }

    fn is_dynamic(&self) -> (r: bool) {
        false
    }
}

impl ToSql for u16 {
    open spec fn spec_to_sql(&self) -> Result<SqlData, Seq<char>> {
        Ok(SqlData::Integer(*self as i64))
    }

    open spec fn spec_sql_type(&self) -> SqlType {
        SqlType::Integer
    }

    open spec fn spec_is_dynamic(&self) -> bool {
        false
    }

    fn to_sql(&self) -> (r: Result<SqlValue, ToSqlError>) {
        Ok(SqlValue::Integer(*self as i64))
    }

    fn sql_type(&self) -> (r: SqlType) {
        SqlType::Integer
    }

    fn is_dynamic(&self) -> (r: bool) {
        false
    }
}

impl ToSql for u32 {
    open spec fn spec_to_sql(&self) -> Result<SqlData, Seq<char>> {
        Ok(SqlData::Integer(*self as i64))
    }

    open spec fn spec_sql_type(&self) -> SqlType {
        SqlType::Integer
    }

    open spec fn spec_is_dynamic(&self) -> bool {
        false
    }

    fn to_sql(&self) -> (r: Result<SqlValue, ToSqlError>) {
        Ok(SqlValue::Integer(*self as i64))
    }

    fn sql_type(&self) -> (r: SqlType) {
        SqlType::Integer
    }

    fn is_dynamic(&self) -> (r: bool) {
        false
    }
}

/// `u64` values that do not fit an `i64` are stored in the negative range `[i64::MIN, -1]`,
/// so that every `u64` survives a round trip through SQLite's 64-bit integers.
impl ToSql for u64 {
    open spec fn spec_to_sql(&self) -> Result<SqlData, Seq<char>> {
        Ok(SqlData::Integer(u64_encode(*self)))
    }

    open spec fn spec_sql_type(&self) -> SqlType {
        SqlType::Integer
    }

    open spec fn spec_is_dynamic(&self) -> bool {
        false
    }

    fn to_sql(&self) -> (r: Result<SqlValue, ToSqlError>) {
        let x = *self;
        if x <= i64::MAX as u64 {
            Ok(SqlValue::Integer(x as i64))
        } else {
            let offset: u64 = x - (i64::MAX as u64 + 1);
            Ok(SqlValue::Integer(i64::MIN + offset as i64))
        }
    }

    fn sql_type(&self) -> (r: SqlType) {
        SqlType::Integer
    }

    fn is_dynamic(&self) -> (r: bool) {
        false
    }
}

pub fn str_bytes(s: &str) -> (r: Vec<u8>)
    ensures
        r@ == s.spec_bytes(),
{
    let b = s.as_bytes();
    vstd::slice::slice_to_vec(b)
}

impl ToSql for str {
    open spec fn spec_to_sql(&self) -> Result<SqlData, Seq<char>> {
        Ok(SqlData::Text(self.spec_bytes()))
    }

    open spec fn spec_sql_type(&self) -> SqlType {
        SqlType::Text
    }

    open spec fn spec_is_dynamic(&self) -> bool {
        false
    }

    fn to_sql(&self) -> (r: Result<SqlValue, ToSqlError>) {
        Ok(SqlValue::Text(str_bytes(self)))
    }

    fn sql_type(&self) -> (r: SqlType) {
        SqlType::Text
    }

    fn is_dynamic(&self) -> (r: bool) {
        false
    }
}

/// The UTF-8 bytes of a character sequence.
pub open spec fn utf8_of(s: Seq<char>) -> Seq<u8> {
    vstd::utf8::encode_utf8(s)
}

impl ToSql for String {
    open spec fn spec_to_sql(&self) -> Result<SqlData, Seq<char>> {
        Ok(SqlData::Text(utf8_of(self@)))
    }

    open spec fn spec_sql_type(&self) -> SqlType {
        SqlType::Text
    }

    open spec fn spec_is_dynamic(&self) -> bool {
        false
    }

    fn to_sql(&self) -> (r: Result<SqlValue, ToSqlError>) {
        Ok(SqlValue::Text(str_bytes(self.as_str())))
    }

    fn sql_type(&self) -> (r: SqlType) {
        SqlType::Text
    }

    fn is_dynamic(&self) -> (r: bool) {
        false
    }
}

impl ToSql for [u8] {
    open spec fn spec_to_sql(&self) -> Result<SqlData, Seq<char>> {
        Ok(SqlData::Blob(self@))
    }

    open spec fn spec_sql_type(&self) -> SqlType {
        SqlType::Blob
    }

    open spec fn spec_is_dynamic(&self) -> bool {
        false
    }

    fn to_sql(&self) -> (r: Result<SqlValue, ToSqlError>) {
        Ok(SqlValue::Blob(vstd::slice::slice_to_vec(self)))
    }

    fn sql_type(&self) -> (r: SqlType) {
        SqlType::Blob
    }

    fn is_dynamic(&self) -> (r: bool) {
        false
    }
}

impl<T: ToSql> ToSql for Option<T> {
    open spec fn spec_to_sql(&self) -> Result<SqlData, Seq<char>> {
        match self {
            Some(v) => v.spec_to_sql(),
            None => Ok(SqlData::Null),
        }
    }

    open spec fn spec_sql_type(&self) -> SqlType {
        match self {
            Some(v) => v.spec_sql_type(),
            None => SqlType::Null,
        }
    }

    open spec fn spec_is_dynamic(&self) -> bool {
        match self {
            Some(v) => v.spec_is_dynamic(),
            None => false,
        }
    }

    fn to_sql(&self) -> (r: Result<SqlValue, ToSqlError>) {
        match self {
            Some(v) => v.to_sql(),
            None => Ok(SqlValue::Null),
        }
    }

    fn sql_type(&self) -> (r: SqlType) {
        match self {
            Some(v) => v.sql_type(),
            None => SqlType::Null,
        }
    }

    fn is_dynamic(&self) -> (r: bool) {
        match self {
            Some(v) => v.is_dynamic(),
            None => false,
        }
    }
}

// ---------------------------------------------------------------------------
// SQL values to Rust values

/// A type whose values can be read back from SQL values.
pub trait FromSql: Sized {
    /// The error that converting `v` gives, `None` when it converts.
    spec fn spec_from_sql_error(v: SqlData) -> Option<FromSqlErrorView>;

    /// Whether `x` is the value that `v` converts into.
    spec fn spec_from_sql_value(v: SqlData, x: Self) -> bool;

    /// Converts a SQL value into this type.
    fn from_sql(value: &SqlValue) -> (r: Result<Self, FromSqlError>)
        ensures
            match r {
                Ok(x) => Self::spec_from_sql_error(value@) is None && Self::spec_from_sql_value(value@, x),
                Err(e) => Self::spec_from_sql_error(value@) == Some(e@),
            },
    ;
}

/// "Expected <what>, got <value>", the message for a value of the wrong storage class.
pub open spec fn expected_message(what: Seq<char>, v: SqlData) -> Seq<char> {
    "Expected "@ + what + ", got "@ + value_debug(v)
}

/// "Integer value <i> out of range for <ty>".
pub open spec fn range_message(i: i64, ty: Seq<char>) -> Seq<char> {
    "Integer value "@ + int_decimal(i as int) + " out of range for "@ + ty
}

pub fn expected_error(what: &str, v: &SqlValue) -> (r: FromSqlError)
    ensures
        r@ == FromSqlErrorView::InvalidType(expected_message(what@, v@)),
{
    let mut m: Vec<char> = Vec::new();
    push_str_chars(&mut m, "Expected ");
    push_str_chars(&mut m, what);
    push_str_chars(&mut m, ", got ");
    push_value_debug(&mut m, v);
    FromSqlError::InvalidType(string_from_chars(m.as_slice()))
}

fn range_error(i: i64, ty: &str) -> (r: FromSqlError)
    ensures
        r@ == FromSqlErrorView::InvalidType(range_message(i, ty@)),
{
    let mut m: Vec<char> = Vec::new();
    push_str_chars(&mut m, "Integer value ");
    push_i64_decimal(&mut m, i);
    push_str_chars(&mut m, " out of range for ");
    push_str_chars(&mut m, ty);
    FromSqlError::InvalidType(string_from_chars(m.as_slice()))
}

/// The error for reading an integer type with bounds `lo..=hi` from `v`.
pub open spec fn int_range_error(v: SqlData, lo: int, hi: int, ty: Seq<char>) -> Option<FromSqlErrorView> {
    match v {
        SqlData::Integer(i) => if lo <= i <= hi {
            None
        } else {
            Some(FromSqlErrorView::InvalidType(range_message(i, ty)))
        },
        _ => Some(FromSqlErrorView::InvalidType(expected_message("INTEGER"@, v))),
    }
}

/// Whether `v` is the integer `x`.
pub open spec fn int_value_is(v: SqlData, x: int) -> bool {
    v matches SqlData::Integer(i) && i == x
}

impl FromSql for bool {
    open spec fn spec_from_sql_error(v: SqlData) -> Option<FromSqlErrorView> {
        match v {
            SqlData::Integer(_) => None,
            _ => Some(FromSqlErrorView::InvalidType(expected_message("INTEGER"@, v))),
        }
    }

    open spec fn spec_from_sql_value(v: SqlData, x: Self) -> bool {
        v matches SqlData::Integer(i) && x == (i != 0)
    }

    fn from_sql(value: &SqlValue) -> (r: Result<Self, FromSqlError>) {
        match value {
            SqlValue::Integer(i) => Ok(*i != 0),
            _ => Err(expected_error("INTEGER", value)),
        }
    }
}

impl FromSql for i64 {
    open spec fn spec_from_sql_error(v: SqlData) -> Option<FromSqlErrorView> {
        int_range_error(v, i64::MIN as int, i64::MAX as int, "i64"@)
    }

    open spec fn spec_from_sql_value(v: SqlData, x: Self) -> bool {
        int_value_is(v, x as int)
    }

    fn from_sql(value: &SqlValue) -> (r: Result<Self, FromSqlError>) {
        match value {
            SqlValue::Integer(i) => Ok(*i),
            _ => Err(expected_error("INTEGER", value)),
        }
    }
}

impl FromSql for i32 {
    open spec fn spec_from_sql_error(v: SqlData) -> Option<FromSqlErrorView> {
        int_range_error(v, i32::MIN as int, i32::MAX as int, "i32"@)
    }

    open spec fn spec_from_sql_value(v: SqlData, x: Self) -> bool {
        int_value_is(v, x as int)
    }

    fn from_sql(value: &SqlValue) -> (r: Result<Self, FromSqlError>) {
        match value {
            SqlValue::Integer(i) => {
                let i = *i;
                if i32::MIN as i64 <= i && i <= i32::MAX as i64 {
                    Ok(i as i32)
                } else {
                    Err(range_error(i, "i32"))
                }
            },
            _ => Err(expected_error("INTEGER", value)),
        }
    }
}

impl FromSql for i16 {
    open spec fn spec_from_sql_error(v: SqlData) -> Option<FromSqlErrorView> {
        int_range_error(v, i16::MIN as int, i16::MAX as int, "i16"@)
    }

    open spec fn spec_from_sql_value(v: SqlData, x: Self) -> bool {
        int_value_is(v, x as int)
    }

    fn from_sql(value: &SqlValue) -> (r: Result<Self, FromSqlError>) {
        match value {
            SqlValue::Integer(i) => {
                let i = *i;
                if i16::MIN as i64 <= i && i <= i16::MAX as i64 {
                    Ok(i as i16)
                } else {
                    Err(range_error(i, "i16"))
                }
            },
            _ => Err(expected_error("INTEGER", value)),
        }
    }
}

impl FromSql for i8 {
    open spec fn spec_from_sql_error(v: SqlData) -> Option<FromSqlErrorView> {
        int_range_error(v, i8::MIN as int, i8::MAX as int, "i8"@)
    }

    open spec fn spec_from_sql_value(v: SqlData, x: Self) -> bool {
        int_value_is(v, x as int)
    }

    fn from_sql(value: &SqlValue) -> (r: Result<Self, FromSqlError>) {
        match value {
            SqlValue::Integer(i) => {
                let i = *i;
                if i8::MIN as i64 <= i && i <= i8::MAX as i64 {
                    Ok(i as i8)
                } else {
                    Err(range_error(i, "i8"))
                }
            },
            _ => Err(expected_error("INTEGER", value)),
        }
    }
}

impl FromSql for usize {
    open spec fn spec_from_sql_error(v: SqlData) -> Option<FromSqlErrorView> {
        int_range_error(v, 0, usize::MAX as int, "usize"@)
    }

    open spec fn spec_from_sql_value(v: SqlData, x: Self) -> bool {
        int_value_is(v, x as int)
    }

    fn from_sql(value: &SqlValue) -> (r: Result<Self, FromSqlError>) {
        match value {
            SqlValue::Integer(i) => {
                let i = *i;
                if 0 <= i && (i as u64) <= usize::MAX as u64 {
                    Ok(i as usize)
                } else {
                    Err(range_error(i, "usize"))
                }
            },
            _ => Err(expected_error("INTEGER", value)),
        }
    }
}

impl FromSql for u32 {
    open spec fn spec_from_sql_error(v: SqlData) -> Option<FromSqlErrorView> {
        int_range_error(v, 0, u32::MAX as int, "u32"@)
    }

    open spec fn spec_from_sql_value(v: SqlData, x: Self) -> bool {
        int_value_is(v, x as int)
    }

    fn from_sql(value: &SqlValue) -> (r: Result<Self, FromSqlError>) {
        match value {
            SqlValue::Integer(i) => {
                let i = *i;
                if i < 0 {
                    return Err(range_error(i, "u32"));
                }
                if i <= u32::MAX as i64 {
                    Ok(i as u32)
                } else {
                    Err(range_error(i, "u32"))
                }
            },
            _ => Err(expected_error("INTEGER", value)),
        }
    }
}

impl FromSql for u16 {
    open spec fn spec_from_sql_error(v: SqlData) -> Option<FromSqlErrorView> {
        int_range_error(v, 0, u16::MAX as int, "u16"@)
    }

    open spec fn spec_from_sql_value(v: SqlData, x: Self) -> bool {
        int_value_is(v, x as int)
    }

    fn from_sql(value: &SqlValue) -> (r: Result<Self, FromSqlError>) {
        match value {
            SqlValue::Integer(i) => {
                let i = *i;
                if i < 0 {
                    return Err(range_error(i, "u16"));
                }
                if i <= u16::MAX as i64 {
                    Ok(i as u16)
                } else {
                    Err(range_error(i, "u16"))
                }
            },
            _ => Err(expected_error("INTEGER", value)),
        }
    }
}

impl FromSql for u8 {
    open spec fn spec_from_sql_error(v: SqlData) -> Option<FromSqlErrorView> {
        int_range_error(v, 0, u8::MAX as int, "u8"@)
    }

    open spec fn spec_from_sql_value(v: SqlData, x: Self) -> bool {
        int_value_is(v, x as int)
    }

    fn from_sql(value: &SqlValue) -> (r: Result<Self, FromSqlError>) {
        match value {
            SqlValue::Integer(i) => {
                let i = *i;
                if i < 0 {
                    return Err(range_error(i, "u8"));
                }
                if i <= u8::MAX as i64 {
                    Ok(i as u8)
                } else {
                    Err(range_error(i, "u8"))
                }
            },
            _ => Err(expected_error("INTEGER", value)),
        }
    }
}

/// Every SQL integer reads back as a `u64`: negative integers are the encodings of the
/// values above `i64::MAX`.
impl FromSql for u64 {
    open spec fn spec_from_sql_error(v: SqlData) -> Option<FromSqlErrorView> {
        match v {
            SqlData::Integer(_) => None,
            _ => Some(FromSqlErrorView::InvalidType(expected_message("INTEGER for u64"@, v))),
        }
    }

    open spec fn spec_from_sql_value(v: SqlData, x: Self) -> bool {
        v matches SqlData::Integer(i) && x == u64_decode(i)
    }

    fn from_sql(value: &SqlValue) -> (r: Result<Self, FromSqlError>) {
        match value {
            SqlValue::Integer(i) => {
                let i = *i;
                if i >= 0 {
                    Ok(i as u64)
                } else {
                    let offset: u64 = (i as i128 - i64::MIN as i128) as u64;
                    Ok((i64::MAX as u64 + 1) + offset)
                }
            },
            _ => Err(expected_error("INTEGER for u64", value)),
        }
    }
}

/// What `Utf8Error`'s `Display` writes for bytes that are not well-formed UTF-8 (where the
/// valid prefix ends and how long the bad sequence is), named and not spelled out.
pub uninterp spec fn spec_utf8_error_text(bytes: Seq<u8>) -> Seq<char>;

/// `std::str::from_utf8` from std, owned: `Ok` exactly when the bytes are well-formed
/// UTF-8, and then the decoded characters; else the text of the `Utf8Error`, named.
#[verifier::external_body]
pub(crate) fn utf8_to_string(bytes: &[u8]) -> (r: Result<String, String>)
    ensures
        r is Ok <==> valid_utf8(bytes@),
        r matches Ok(s) ==> s@ == decode_utf8(bytes@),
        r matches Err(m) ==> m@ == spec_utf8_error_text(bytes@),
{
    match std::str::from_utf8(bytes) {
        Ok(s) => Ok(s.to_owned()),
        Err(e) => Err(e.to_string()),
    }
}

impl FromSql for String {
    open spec fn spec_from_sql_error(v: SqlData) -> Option<FromSqlErrorView> {
        match v {
            SqlData::Text(t) => if valid_utf8(t) {
                None
            } else {
                Some(FromSqlErrorView::InvalidType("Invalid UTF-8 string"@))
            },
            _ => Some(FromSqlErrorView::InvalidType(expected_message("TEXT"@, v))),
        }
    }

    open spec fn spec_from_sql_value(v: SqlData, x: Self) -> bool {
        v matches SqlData::Text(t) && x@ == decode_utf8(t)
    }

    fn from_sql(value: &SqlValue) -> (r: Result<Self, FromSqlError>) {
        match value {
            SqlValue::Text(t) => match utf8_to_string(t.as_slice()) {
                Ok(s) => Ok(s),
                Err(_) => Err(FromSqlError::InvalidType(string_from_chars(
                    crate::text::str_chars("Invalid UTF-8 string").as_slice(),
                ))),
            },
            _ => Err(expected_error("TEXT", value)),
        }
    }
}

/// NULL reads as `None`; anything else is read as a `T`.
impl<T: FromSql> FromSql for Option<T> {
    open spec fn spec_from_sql_error(v: SqlData) -> Option<FromSqlErrorView> {
        match v {
            SqlData::Null => None,
            _ => T::spec_from_sql_error(v),
        }
    }

    open spec fn spec_from_sql_value(v: SqlData, x: Self) -> bool {
        match v {
            SqlData::Null => x is None,
            _ => x matches Some(y) && T::spec_from_sql_value(v, y),
        }
    }

    fn from_sql(value: &SqlValue) -> (r: Result<Self, FromSqlError>) {
        match value {
            SqlValue::Null => Ok(None),
            _ => match T::from_sql(value) {
                Ok(x) => Ok(Some(x)),
                Err(e) => Err(e),
            },
        }
    }
}

/// Raw bytes: a BLOB reads as its bytes; any other value is of the wrong type (rusqlite's
/// `ValueRef::as_blob`, whose error shows as `Invalid type`).
impl FromSql for Vec<u8> {
    open spec fn spec_from_sql_error(v: SqlData) -> Option<FromSqlErrorView> {
        match v {
            SqlData::Blob(_) => None,
            _ => Some(FromSqlErrorView::InvalidType("Invalid type"@)),
        }
    }

    open spec fn spec_from_sql_value(v: SqlData, x: Self) -> bool {
        v matches SqlData::Blob(b) && x@ == b
    }

    fn from_sql(value: &SqlValue) -> (r: Result<Self, FromSqlError>) {
        match value {
            SqlValue::Blob(b) => Ok(copy_bytes(b)),
            _ => Err(FromSqlError::InvalidType("Invalid type".to_owned())),
        }
    }
}

/// Bytes written with `to_sql` read back unchanged as a `Vec<u8>`.
pub proof fn lemma_bytes_round_trip(x: Seq<u8>)
    ensures
        <Vec<u8> as FromSql>::spec_from_sql_error(SqlData::Blob(x)) is None,
        forall|y: Vec<u8>| <Vec<u8> as FromSql>::spec_from_sql_value(SqlData::Blob(x), y) <==> y@ == x,
{
}

// ---------------------------------------------------------------------------
// Laws

/// A `u64` written with `to_sql` reads back unchanged with `from_sql`.
pub proof fn lemma_u64_round_trip(x: u64)
    ensures
        u64::spec_from_sql_error(SqlData::Integer(u64_encode(x))) is None,
        u64::spec_from_sql_value(SqlData::Integer(u64_encode(x)), x),
{
}

/// Every stored integer is the encoding of the `u64` it reads back as.
pub proof fn lemma_u64_encoding_onto(i: i64)
    ensures
        u64_encode(u64_decode(i)) == i,
{
}

/// An `i64` written with `to_sql` reads back unchanged with `from_sql`.
pub proof fn lemma_i64_round_trip(x: i64)
    ensures
        i64::spec_from_sql_error(x.spec_to_sql()->Ok_0) is None,
        i64::spec_from_sql_value(x.spec_to_sql()->Ok_0, x),
{
}

/// An `i32` written with `to_sql` reads back unchanged with `from_sql`.
pub proof fn lemma_i32_round_trip(x: i32)
    ensures
        i32::spec_from_sql_error(x.spec_to_sql()->Ok_0) is None,
        i32::spec_from_sql_value(x.spec_to_sql()->Ok_0, x),
{
}

/// An `i16` written with `to_sql` reads back unchanged with `from_sql`.
pub proof fn lemma_i16_round_trip(x: i16)
    ensures
        i16::spec_from_sql_error(x.spec_to_sql()->Ok_0) is None,
        i16::spec_from_sql_value(x.spec_to_sql()->Ok_0, x),
{
}

/// An `i8` written with `to_sql` reads back unchanged with `from_sql`.
pub proof fn lemma_i8_round_trip(x: i8)
    ensures
        i8::spec_from_sql_error(x.spec_to_sql()->Ok_0) is None,
        i8::spec_from_sql_value(x.spec_to_sql()->Ok_0, x),
{
}

/// A `u32` written with `to_sql` reads back unchanged with `from_sql`.
pub proof fn lemma_u32_round_trip(x: u32)
    ensures
        u32::spec_from_sql_error(x.spec_to_sql()->Ok_0) is None,
        u32::spec_from_sql_value(x.spec_to_sql()->Ok_0, x),
{
}

/// A `u16` written with `to_sql` reads back unchanged with `from_sql`.
pub proof fn lemma_u16_round_trip(x: u16)
    ensures
        u16::spec_from_sql_error(x.spec_to_sql()->Ok_0) is None,
        u16::spec_from_sql_value(x.spec_to_sql()->Ok_0, x),
{
}

/// A `u8` written with `to_sql` reads back unchanged with `from_sql`.
pub proof fn lemma_u8_round_trip(x: u8)
    ensures
        u8::spec_from_sql_error(x.spec_to_sql()->Ok_0) is None,
        u8::spec_from_sql_value(x.spec_to_sql()->Ok_0, x),
{
}

/// A `bool` written with `to_sql` reads back unchanged with `from_sql`.
pub proof fn lemma_bool_round_trip(x: bool)
    ensures
        bool::spec_from_sql_error(x.spec_to_sql()->Ok_0) is None,
        bool::spec_from_sql_value(x.spec_to_sql()->Ok_0, x),
{
}

/// A `String` written with `to_sql` reads back unchanged with `from_sql`: its UTF-8 bytes
/// are valid and decode to the same characters.
pub proof fn lemma_string_round_trip(x: String)
    ensures
        String::spec_from_sql_error(x.spec_to_sql()->Ok_0) is None,
        forall|y: String| String::spec_from_sql_value(x.spec_to_sql()->Ok_0, y) <==> y@ == x@,
{
    vstd::utf8::encode_utf8_valid_utf8(x@);
    vstd::utf8::encode_utf8_decode_utf8(x@);
}

} // verus!
