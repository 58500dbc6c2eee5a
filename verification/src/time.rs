use vstd::prelude::*;
use vstd::utf8::{decode_utf8, valid_utf8};
use crate::bindable::{ConversionError, ConversionErrorView, SqliteBindableValue, SqliteTypeName};
use crate::convert::{spec_utf8_error_text, utf8_to_string, FromSql, FromSqlError, FromSqlErrorView, ToSql, ToSqlError};
use crate::params::Bound;
use crate::value::{SqlData, SqlType, SqlValue};

verus! {

// ---------------------------------------------------------------------------
// What `chrono` computes

/// Whether `chrono` represents the instant `secs` seconds and `nsecs` nanoseconds after the
/// Unix epoch (its range is some 262,000 years either side of the common era; `nsecs` may
/// exceed a second only within a leap second).
pub uninterp spec fn spec_chrono_instant(secs: i64, nsecs: u32) -> bool;

/// What `DateTime::<Utc>::to_rfc3339` writes for an instant.
pub uninterp spec fn spec_rfc3339(secs: i64, nsecs: u32) -> Seq<char>;

/// The instant that `DateTime::parse_from_rfc3339` reads from a text, in UTC, if any.
pub uninterp spec fn spec_parse_rfc3339(text: Seq<char>) -> Option<(i64, u32)>;

/// The instant that `NaiveDateTime::parse_from_str` reads from a text with a format, taken
/// as UTC, if any.
pub uninterp spec fn spec_parse_naive(text: Seq<char>, format: Seq<char>) -> Option<(i64, u32)>;

/// `DateTime::<Utc>::from_timestamp` from `chrono`, then `timestamp` and
/// `timestamp_subsec_nanos` of the result: `Some` of the same seconds and nanoseconds
/// exactly when `chrono` represents the instant (its documentation promises the round trip).
#[verifier::external_body]
fn chrono_from_timestamp(secs: i64, nsecs: u32) -> (r: Option<(i64, u32)>)
    ensures
        r is Some <==> spec_chrono_instant(secs, nsecs),
        r matches Some(p) ==> p == (secs, nsecs),
{
    match chrono::DateTime::from_timestamp(secs, nsecs) {
        Some(d) => Some((d.timestamp(), d.timestamp_subsec_nanos())),
        None => None,
    }
}

/// `DateTime::<Utc>::from_timestamp_millis` from `chrono`: as its source shows, the
/// milliseconds are split into whole seconds (rounded down) and the nanoseconds of the rest,
/// which go to `from_timestamp`.
#[verifier::external_body]
fn chrono_from_timestamp_millis(millis: i64) -> (r: Option<(i64, u32)>)
    ensures
        r is Some <==> spec_chrono_instant((millis as int / 1000) as i64, ((millis as int % 1000) * 1_000_000) as u32),
        r matches Some(p) ==> p == ((millis as int / 1000) as i64, ((millis as int % 1000) * 1_000_000) as u32),
{
    match chrono::DateTime::from_timestamp_millis(millis) {
        Some(d) => Some((d.timestamp(), d.timestamp_subsec_nanos())),
        None => None,
    }
}

/// Whether an instant falls in the years 0 to 9999 and outside a leap second: the instants
/// whose RFC 3339 text has a four-digit year and a seconds field below 60.
pub open spec fn four_digit_year_instant(secs: i64, nsecs: u32) -> bool {
    -62_167_219_200 <= secs <= 253_402_300_799 && nsecs < 1_000_000_000
}

/// `DateTime::<Utc>::to_rfc3339` from `chrono`, for an instant it represents: the text is
/// named and not spelled out. For an instant with a four-digit year outside a leap second,
/// `write_rfc3339` writes each field in full (the nanoseconds to as many digits as they
/// need) with the offset `+00:00`, and `parse_from_rfc3339` reads that text back as the same
/// instant. Of other instants (a signed year of five digits, a leap second) nothing is said.
#[verifier::external_body]
fn chrono_rfc3339(secs: i64, nsecs: u32) -> (r: String)
    requires
        spec_chrono_instant(secs, nsecs),
    ensures
        r@ == spec_rfc3339(secs, nsecs),
        four_digit_year_instant(secs, nsecs) ==> spec_parse_rfc3339(r@) == Some((secs, nsecs)),
{
    match chrono::DateTime::from_timestamp(secs, nsecs) {
        Some(d) => d.to_rfc3339(),
        None => String::new(),
    }
}

/// `DateTime::parse_from_rfc3339` from `chrono`: the instant read, if any, as seconds and
/// nanoseconds since the epoch, is named; it is one `chrono` represents.
#[verifier::external_body]
fn chrono_parse_rfc3339(text: &str) -> (r: Option<(i64, u32)>)
    ensures
        r == spec_parse_rfc3339(text@),
        r matches Some(p) ==> spec_chrono_instant(p.0, p.1),
{
    match chrono::DateTime::parse_from_rfc3339(text) {
        Ok(d) => Some((d.timestamp(), d.timestamp_subsec_nanos())),
        Err(_) => None,
    }
}

/// `NaiveDateTime::parse_from_str` from `chrono`, taken as UTC: the instant read, if any,
/// is named; it is one `chrono` represents.
#[verifier::external_body]
fn chrono_parse_naive(text: &str, format: &str) -> (r: Option<(i64, u32)>)
    ensures
        r == spec_parse_naive(text@, format@),
        r matches Some(p) ==> spec_chrono_instant(p.0, p.1),
{
    match chrono::NaiveDateTime::parse_from_str(text, format) {
        Ok(n) => {
            let u = n.and_utc();
            Some((u.timestamp(), u.timestamp_subsec_nanos()))
        },
        Err(_) => None,
    }
}

// ---------------------------------------------------------------------------
// Timestamp: an instant stored as whole seconds

/// An instant in UTC, stored as the number of seconds since the Unix epoch.
#[derive(Debug, Clone, Copy)]
pub struct Timestamp {
    secs: i64,
    nanos: u32,
}

impl Timestamp {
    /// The seconds since the epoch.
    pub closed spec fn spec_secs(&self) -> i64 {
        self.secs
    }

    /// The nanoseconds past those seconds.
    pub closed spec fn spec_nanos(&self) -> u32 {
        self.nanos
    }

    #[verifier::type_invariant]
    spec fn representable(&self) -> bool {
        spec_chrono_instant(self.secs, self.nanos)
    }

    /// The instant `secs` seconds and `nanos` nanoseconds after the epoch, if `chrono`
    /// represents it.
    pub fn from_parts(secs: i64, nanos: u32) -> (r: Option<Self>)
        ensures
            r is Some <==> spec_chrono_instant(secs, nanos),
            r matches Some(t) ==> t.spec_secs() == secs && t.spec_nanos() == nanos,
    {
        match chrono_from_timestamp(secs, nanos) {
            Some((s, n)) => Some(Timestamp { secs: s, nanos: n }),
            None => None,
        }
    }

    /// The seconds since the epoch (`DateTime::timestamp`).
    pub fn timestamp(&self) -> (r: i64)
        ensures
            r == self.spec_secs(),
    {
        self.secs
    }

    /// The nanoseconds past the seconds.
    pub fn timestamp_subsec_nanos(&self) -> (r: u32)
        ensures
            r == self.spec_nanos(),
    {
        self.nanos
    }
}

/// What reading an integer as a timestamp gives: seconds when `chrono` represents them,
/// else milliseconds when it represents those; any other value is of the wrong type.
pub open spec fn timestamp_outcome(v: SqlData) -> Result<(i64, u32), ConversionErrorView> {
    match v {
        SqlData::Integer(t) => if spec_chrono_instant(t, 0) {
            Ok((t, 0u32))
        } else if spec_chrono_instant((t as int / 1000) as i64, ((t as int % 1000) * 1_000_000) as u32) {
            Ok(((t as int / 1000) as i64, ((t as int % 1000) * 1_000_000) as u32))
        } else {
            Err(ConversionErrorView::InvalidType)
        },
        _ => Err(ConversionErrorView::InvalidType),
    }
}

impl SqliteBindableValue for Timestamp {
    open spec fn spec_to_sql_value(&self) -> Result<SqlData, Seq<char>> {
        Ok(SqlData::Integer(self.spec_secs()))
    }

    open spec fn spec_from_sql_value_error(v: SqlData) -> Option<ConversionErrorView> {
        match timestamp_outcome(v) {
            Ok(_) => None,
            Err(e) => Some(e),
        }
    }

    open spec fn spec_from_sql_value(v: SqlData, x: Self) -> bool {
        timestamp_outcome(v) == Ok::<(i64, u32), ConversionErrorView>((x.spec_secs(), x.spec_nanos()))
    }

    open spec fn spec_sqlite_type_name() -> Seq<char> {
        "INTEGER"@
    }

    fn to_sql_value(&self) -> (r: Bound) {
        Ok(SqlValue::Integer(self.secs))
    }

    fn from_sql_value(value: &SqlValue) -> (r: Result<Self, ConversionError>) {
        match value {
            SqlValue::Integer(t) => {
                let t = *t;
                match chrono_from_timestamp(t, 0) {
                    Some((s, n)) => Ok(Timestamp { secs: s, nanos: n }),
                    None => match chrono_from_timestamp_millis(t) {
                        Some((s, n)) => Ok(Timestamp { secs: s, nanos: n }),
                        None => Err(ConversionError::InvalidType),
                    },
                }
            },
            _ => Err(ConversionError::InvalidType),
        }
    }

    fn sqlite_type_name() -> (r: &'static str) {
        proof {
            reveal_strlit("INTEGER");
        }
        "INTEGER"
    }
}

impl ToSql for Timestamp {
    open spec fn spec_to_sql(&self) -> Result<SqlData, Seq<char>> {
        Ok(SqlData::Integer(self.spec_secs()))
    }

    open spec fn spec_sql_type(&self) -> SqlType {
        SqlType::Integer
    }

    open spec fn spec_is_dynamic(&self) -> bool {
        false
    }

    fn to_sql(&self) -> (r: Result<SqlValue, ToSqlError>) {
        self.to_sql_value()
    }

    fn sql_type(&self) -> (r: SqlType) {
        SqlType::Integer
    }

    fn is_dynamic(&self) -> (r: bool) {
        false
    }
}

impl FromSql for Timestamp {
    open spec fn spec_from_sql_error(v: SqlData) -> Option<FromSqlErrorView> {
        match timestamp_outcome(v) {
            Ok(_) => None,
            Err(e) => Some(crate::bindable::conversion_message(e)),
        }
    }

    open spec fn spec_from_sql_value(v: SqlData, x: Self) -> bool {
        timestamp_outcome(v) == Ok::<(i64, u32), ConversionErrorView>((x.spec_secs(), x.spec_nanos()))
    }

    fn from_sql(value: &SqlValue) -> (r: Result<Self, FromSqlError>) {
        match Timestamp::from_sql_value(value) {
            Ok(t) => Ok(t),
            Err(e) => Err(FromSqlError::from_conversion(e)),
        }
    }
}

impl SqliteTypeName for Timestamp {
    open spec fn spec_sql_type_name() -> Seq<char> {
        "INTEGER"@
    }

    open spec fn spec_is_integer_type() -> bool {
        true
    }

    fn sql_type_name() -> (r: &'static str) {
        "INTEGER"
    }

    fn is_integer_type() -> (r: bool) {
        true
    }
}

/// A timestamp reads back as its whole second: what `to_sql` writes for it is an integer
/// that `from_sql` turns into the same second, without nanoseconds.
pub proof fn lemma_timestamp_round_trip(x: Timestamp)
    requires
        spec_chrono_instant(x.spec_secs(), 0),
    ensures
        Timestamp::spec_from_sql_error(x.spec_to_sql()->Ok_0) is None,
        timestamp_outcome(x.spec_to_sql()->Ok_0) == Ok::<(i64, u32), ConversionErrorView>((x.spec_secs(), 0u32)),
{
}

// ---------------------------------------------------------------------------
// UtcDateTime: an instant stored as RFC 3339 text

/// An instant in UTC, stored as RFC 3339 text.
#[derive(Debug, Clone, Copy)]
pub struct UtcDateTime {
    secs: i64,
    nanos: u32,
}

/// What reading a text as an instant gives: RFC 3339 first, then SQLite's
/// `%Y-%m-%d %H:%M:%S` taken as UTC, then the same with fractional seconds; any other text,
/// or any other value, is of the wrong type, and bytes that are not UTF-8 are reported as `from_utf8` reports them.
pub open spec fn datetime_outcome(v: SqlData) -> Result<(i64, u32), ConversionErrorView> {
    match v {
        SqlData::Text(t) => if !valid_utf8(t) {
            Err(ConversionErrorView::Other(spec_utf8_error_text(t)))
        } else {
            let s = decode_utf8(t);
            if spec_parse_rfc3339(s) is Some {
                Ok(spec_parse_rfc3339(s)->0)
            } else if spec_parse_naive(s, "%Y-%m-%d %H:%M:%S"@) is Some {
                Ok(spec_parse_naive(s, "%Y-%m-%d %H:%M:%S"@)->0)
            } else if spec_parse_naive(s, "%Y-%m-%d %H:%M:%S%.f"@) is Some {
                Ok(spec_parse_naive(s, "%Y-%m-%d %H:%M:%S%.f"@)->0)
            } else {
                Err(ConversionErrorView::InvalidType)
            }
        },
        _ => Err(ConversionErrorView::InvalidType),
    }
}

impl UtcDateTime {
    /// The seconds since the epoch.
    pub closed spec fn spec_secs(&self) -> i64 {
        self.secs
    }

    /// The nanoseconds past those seconds.
    pub closed spec fn spec_nanos(&self) -> u32 {
        self.nanos
    }

    #[verifier::type_invariant]
    spec fn representable(&self) -> bool {
        spec_chrono_instant(self.secs, self.nanos)
    }

    /// The instant `secs` seconds and `nanos` nanoseconds after the epoch, if `chrono`
    /// represents it.
    pub fn from_parts(secs: i64, nanos: u32) -> (r: Option<Self>)
        ensures
            r is Some <==> spec_chrono_instant(secs, nanos),
            r matches Some(t) ==> t.spec_secs() == secs && t.spec_nanos() == nanos,
    {
        match chrono_from_timestamp(secs, nanos) {
            Some((s, n)) => Some(UtcDateTime { secs: s, nanos: n }),
            None => None,
        }
    }

    /// The seconds since the epoch.
    pub fn timestamp(&self) -> (r: i64)
        ensures
            r == self.spec_secs(),
    {
        self.secs
    }

    /// The nanoseconds past the seconds.
    pub fn timestamp_subsec_nanos(&self) -> (r: u32)
        ensures
            r == self.spec_nanos(),
    {
        self.nanos
    }

    /// The instant as RFC 3339 text.
    pub fn to_rfc3339(&self) -> (r: String)
        ensures
            r@ == spec_rfc3339(self.spec_secs(), self.spec_nanos()),
            four_digit_year_instant(self.spec_secs(), self.spec_nanos())
                ==> spec_parse_rfc3339(r@) == Some((self.spec_secs(), self.spec_nanos())),
    {
        proof {
            use_type_invariant(self);
        }
        chrono_rfc3339(self.secs, self.nanos)
    }
}

impl SqliteBindableValue for UtcDateTime {
    open spec fn spec_to_sql_value(&self) -> Result<SqlData, Seq<char>> {
        Ok(SqlData::Text(crate::convert::utf8_of(spec_rfc3339(self.spec_secs(), self.spec_nanos()))))
    }

    open spec fn spec_from_sql_value_error(v: SqlData) -> Option<ConversionErrorView> {
        match datetime_outcome(v) {
            Ok(_) => None,
            Err(e) => Some(e),
        }
    }

    open spec fn spec_from_sql_value(v: SqlData, x: Self) -> bool {
        datetime_outcome(v) == Ok::<(i64, u32), ConversionErrorView>((x.spec_secs(), x.spec_nanos()))
    }

    open spec fn spec_sqlite_type_name() -> Seq<char> {
        "TEXT"@
    }

    fn to_sql_value(&self) -> (r: Bound) {
        let s = self.to_rfc3339();
        Ok(SqlValue::Text(crate::convert::str_bytes(s.as_str())))
    }

    fn from_sql_value(value: &SqlValue) -> (r: Result<Self, ConversionError>) {
        match value {
            SqlValue::Text(t) => {
                let s = match utf8_to_string(t.as_slice()) {
                    Ok(s) => s,
                    Err(m) => {
                        return Err(ConversionError::Other(m));
                    },
                };
                let text = s.as_str();
                match chrono_parse_rfc3339(text) {
                    Some((a, b)) => {
                        return Ok(UtcDateTime { secs: a, nanos: b });
                    },
                    None => {},
                }
                match chrono_parse_naive(text, "%Y-%m-%d %H:%M:%S") {
                    Some((a, b)) => {
                        return Ok(UtcDateTime { secs: a, nanos: b });
                    },
                    None => {},
                }
                match chrono_parse_naive(text, "%Y-%m-%d %H:%M:%S%.f") {
                    Some((a, b)) => Ok(UtcDateTime { secs: a, nanos: b }),
                    None => Err(ConversionError::InvalidType),
                }
            },
            _ => Err(ConversionError::InvalidType),
        }
    }

    fn sqlite_type_name() -> (r: &'static str) {
        proof {
            reveal_strlit("TEXT");
        }
        "TEXT"
    }
}

impl ToSql for UtcDateTime {
    open spec fn spec_to_sql(&self) -> Result<SqlData, Seq<char>> {
        Ok(SqlData::Text(crate::convert::utf8_of(spec_rfc3339(self.spec_secs(), self.spec_nanos()))))
    }

    open spec fn spec_sql_type(&self) -> SqlType {
        SqlType::Text
    }

    open spec fn spec_is_dynamic(&self) -> bool {
        false
    }

    /// For an instant with a four-digit year outside a leap second, what this writes
    /// `from_sql` reads back as the same instant and as no other.
    fn to_sql(&self) -> (r: Result<SqlValue, ToSqlError>)
        ensures
            four_digit_year_instant(self.spec_secs(), self.spec_nanos()) ==> {
                &&& UtcDateTime::spec_from_sql_error(self.spec_to_sql()->Ok_0) is None
                &&& forall|y: UtcDateTime| #[trigger] <UtcDateTime as FromSql>::spec_from_sql_value(self.spec_to_sql()->Ok_0, y)
                    <==> (y.spec_secs() == self.spec_secs() && y.spec_nanos() == self.spec_nanos())
            },
    {
        let s = self.to_rfc3339();
        proof {
            vstd::utf8::encode_utf8_valid_utf8(s@);
            vstd::utf8::encode_utf8_decode_utf8(s@);
        }
        Ok(SqlValue::Text(crate::convert::str_bytes(s.as_str())))
    }

    fn sql_type(&self) -> (r: SqlType) {
        SqlType::Text
    }

    fn is_dynamic(&self) -> (r: bool) {
        false
    }
}

impl FromSql for UtcDateTime {
    open spec fn spec_from_sql_error(v: SqlData) -> Option<FromSqlErrorView> {
        match datetime_outcome(v) {
            Ok(_) => None,
            Err(e) => Some(crate::bindable::conversion_message(e)),
        }
    }

    open spec fn spec_from_sql_value(v: SqlData, x: Self) -> bool {
        datetime_outcome(v) == Ok::<(i64, u32), ConversionErrorView>((x.spec_secs(), x.spec_nanos()))
    }

    fn from_sql(value: &SqlValue) -> (r: Result<Self, FromSqlError>) {
        match UtcDateTime::from_sql_value(value) {
            Ok(t) => Ok(t),
            Err(e) => Err(FromSqlError::from_conversion(e)),
        }
    }
}

impl SqliteTypeName for UtcDateTime {
    open spec fn spec_sql_type_name() -> Seq<char> {
        "TEXT"@
    }

    open spec fn spec_is_integer_type() -> bool {
        false
    }

    fn sql_type_name() -> (r: &'static str) {
        "TEXT"
    }

    fn is_integer_type() -> (r: bool) {
        false
    }
}

} // verus!
