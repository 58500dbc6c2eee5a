use vstd::prelude::*;
use vstd::utf8::{decode_utf8, valid_utf8};
use crate::bindable::SqliteTypeName;
use crate::convert::{expected_error, expected_message, str_bytes, utf8_of, FromSql, FromSqlError, FromSqlErrorView, ToSql, ToSqlError};
use crate::value::{SqlData, SqlType, SqlValue};

verus! {

/// What `Pubkey`'s `Display` writes for a key's bytes (base58), named here and not spelled
/// out.
pub uninterp spec fn spec_base58(bytes: Seq<u8>) -> Seq<char>;

/// What `Pubkey::from_str` reads from a text: the key's bytes, if the text is a key.
pub uninterp spec fn spec_parse_pubkey(text: Seq<char>) -> Option<Seq<u8>>;

/// `Pubkey::new_from_array` and `to_string` from `solana_pubkey`: the base58 text of the
/// bytes, named and not spelled out. `from_str` reads the same bytes back from that text
/// (the text of thirty-two bytes is at most forty-four characters, which `from_str`
/// accepts and decodes to those bytes).
#[verifier::external_body]
fn pubkey_text(bytes: [u8; 32]) -> (r: String)
    ensures
        r@ == spec_base58(bytes@),
        spec_parse_pubkey(r@) == Some(bytes@),
{
    solana_pubkey::Pubkey::new_from_array(bytes).to_string()
}

/// `Pubkey::from_str` and `to_bytes` from `solana_pubkey`: the bytes of the key the text
/// writes, if it writes one; named and not spelled out.
#[verifier::external_body]
fn pubkey_parse(text: &str) -> (r: Option<[u8; 32]>)
    ensures
        match r {
            Some(b) => spec_parse_pubkey(text@) == Some(b@),
            None => spec_parse_pubkey(text@) is None,
        },
{
    match <solana_pubkey::Pubkey as core::str::FromStr>::from_str(text) {
        Ok(k) => Some(k.to_bytes()),
        Err(_) => None,
    }
}

/// A public key: its thirty-two bytes. It is stored as its base58 text.
#[derive(Debug, Clone, Copy)]
pub struct Pubkey {
    pub bytes: [u8; 32],
}

impl Pubkey {
    /// The key with these bytes.
    pub fn new_from_array(bytes: [u8; 32]) -> (r: Self)
        ensures
            r.bytes == bytes,
    {
        Pubkey { bytes }
    }

    /// The key's base58 text, from which the key is read back.
    pub fn to_string(&self) -> (r: String)
        ensures
            r@ == spec_base58(self.bytes@),
            spec_parse_pubkey(r@) == Some(self.bytes@),
    {
        pubkey_text(self.bytes)
    }
}

proof fn lemma_text_read_back(key: Pubkey)
    requires
        spec_parse_pubkey(spec_base58(key.bytes@)) == Some(key.bytes@),
    ensures
        Pubkey::spec_from_sql_error(key.spec_to_sql()->Ok_0) is None,
        forall|y: Pubkey| Pubkey::spec_from_sql_value(key.spec_to_sql()->Ok_0, y) <==> y.bytes@ == key.bytes@,
{
    vstd::utf8::encode_utf8_valid_utf8(spec_base58(key.bytes@));
    vstd::utf8::encode_utf8_decode_utf8(spec_base58(key.bytes@));
}

impl ToSql for Pubkey {
    open spec fn spec_to_sql(&self) -> Result<SqlData, Seq<char>> {
        Ok(SqlData::Text(utf8_of(spec_base58(self.bytes@))))
    }

    open spec fn spec_sql_type(&self) -> SqlType {
        SqlType::Text
    }

    open spec fn spec_is_dynamic(&self) -> bool {
        false
    }

    /// What this writes, `from_sql` reads back as this key and as no other.
    fn to_sql(&self) -> (r: Result<SqlValue, ToSqlError>)
        ensures
            Pubkey::spec_from_sql_error(self.spec_to_sql()->Ok_0) is None,
            forall|y: Pubkey| #[trigger] Pubkey::spec_from_sql_value(self.spec_to_sql()->Ok_0, y) <==> y.bytes@ == self.bytes@,
    {
        let s = self.to_string();
        proof {
            lemma_text_read_back(*self);
        }
        Ok(SqlValue::Text(str_bytes(s.as_str())))
    }

    fn sql_type(&self) -> (r: SqlType) {
        SqlType::Text
    }

    fn is_dynamic(&self) -> (r: bool) {
        false
    }
}

impl FromSql for Pubkey {
    open spec fn spec_from_sql_error(v: SqlData) -> Option<FromSqlErrorView> {
        match v {
            SqlData::Text(t) => if !valid_utf8(t) {
                Some(FromSqlErrorView::InvalidType("Invalid UTF-8 string for Pubkey"@))
            } else if spec_parse_pubkey(decode_utf8(t)) is None {
                Some(FromSqlErrorView::InvalidType("Invalid Pubkey format"@))
            } else {
                None
            },
            _ => Some(FromSqlErrorView::InvalidType(expected_message("TEXT for Pubkey"@, v))),
        }
    }

    open spec fn spec_from_sql_value(v: SqlData, x: Self) -> bool {
        v matches SqlData::Text(t) && spec_parse_pubkey(decode_utf8(t)) == Some(x.bytes@)
    }

    fn from_sql(value: &SqlValue) -> (r: Result<Self, FromSqlError>) {
        match value {
            SqlValue::Text(_) => {
                let s = match String::from_sql(value) {
                    Ok(s) => s,
                    Err(_) => {
                        return Err(FromSqlError::InvalidType("Invalid UTF-8 string for Pubkey".to_owned()));
                    },
                };
                match pubkey_parse(s.as_str()) {
                    Some(b) => Ok(Pubkey { bytes: b }),
                    None => Err(FromSqlError::InvalidType("Invalid Pubkey format".to_owned())),
                }
            },
            _ => Err(expected_error("TEXT for Pubkey", value)),
        }
    }
}

impl SqliteTypeName for Pubkey {
    open spec fn spec_sql_type_name() -> Seq<char> {
        "TEXT"@
    }

    open spec fn spec_is_integer_type() -> bool {
        false
    }

    fn sql_type_name() -> (r: &'static str) {
        "TEXT"
    }

    fn is_integer_type() -> (r: bool) {
        false
    }
}

} // verus!
