use vstd::prelude::*;
use crate::savepoint::{is_v4_uuid, random_uuid_bytes, uuid_hyphenated, uuid_to_string};
use crate::text::{chars_to_string, push_str_chars};

verus! {

/// The path of a shared in-memory database with this name: SQLite's
/// `file:<name>?mode=memory&cache=shared`.
pub open spec fn shared_memory_path_text(name: Seq<char>) -> Seq<char> {
    "file:"@ + name + "?mode=memory&cache=shared"@
}

/// The path that opens the shared in-memory database with this name.
pub fn shared_memory_path(name: &str) -> (r: String)
    ensures
        r@ == shared_memory_path_text(name@),
{
    let mut v: Vec<char> = Vec::new();
    push_str_chars(&mut v, "file:");
    push_str_chars(&mut v, name);
    push_str_chars(&mut v, "?mode=memory&cache=shared");
    chars_to_string(&v)
}

/// The file name of a temporary database made unique by a UUID: `sqlited_`, the UUID's
/// hyphenated form, and `.db`.
pub open spec fn temp_file_name_text(b: Seq<u8>) -> Seq<char> {
    "sqlited_"@ + uuid_hyphenated(b) + ".db"@
}

/// A file name for a temporary database, made unique by a random UUID.
pub fn temp_database_file_name() -> (r: String)
    ensures
        exists|b: Seq<u8>| is_v4_uuid(b) && r@ == temp_file_name_text(b),
{
    let b = random_uuid_bytes();
    let u = uuid_to_string(b);
    let mut v: Vec<char> = Vec::new();
    push_str_chars(&mut v, "sqlited_");
    push_str_chars(&mut v, u.as_str());
    push_str_chars(&mut v, ".db");
    let r = chars_to_string(&v);
    assert(r@ == temp_file_name_text(b@));
    r
}

} // verus!
