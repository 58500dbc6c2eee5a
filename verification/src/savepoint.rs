use vstd::prelude::*;
use crate::statements::hex_of;
use crate::text::{chars_to_string, push_str_chars, str_chars};

verus! {

/// What can go wrong with a savepoint.
#[derive(Debug)]
pub enum SavepointError {
    /// The database refused a statement; its message.
    SqliteError(String),
    /// The savepoint was committed or rolled back before.
    SavepointAlreadyFinished,
}

impl SavepointError {
    /// The message of the error.
    pub fn to_string(&self) -> (r: String)
        ensures
            r@ == (match *self {
                SavepointError::SqliteError(m) => "SQLite error: "@ + m@,
                SavepointError::SavepointAlreadyFinished => "Savepoint already finished"@,
            }),
    {
        match self {
            SavepointError::SqliteError(m) => {
                let mut v: Vec<char> = Vec::new();
                push_str_chars(&mut v, "SQLite error: ");
                push_str_chars(&mut v, m.as_str());
                chars_to_string(&v)
            },
            SavepointError::SavepointAlreadyFinished => "Savepoint already finished".to_owned(),
        }
    }
}

/// Where a savepoint stands.
#[derive(Debug, Copy, Clone, PartialEq, Eq, Structural)]
pub enum SavepointStatus {
    /// Open: statements run inside it.
    Active,
    /// Released, its work kept.
    Committed,
    /// Rolled back and released, its work undone.
    RolledBack,
}

/// A savepoint inside a transaction: its name and where it stands. The statements that
/// open, release and roll it back are the library's to write; running them is the
/// connection's work.
#[derive(Debug)]
pub struct Savepoint {
    name: String,
    status: SavepointStatus,
}

/// What `Uuid::new_v4` and `Uuid::into_bytes` from the `uuid` crate give: sixteen random
/// bytes, but for the version (the high half of byte 6 is 4) and the variant (the two high
/// bits of byte 8 are `10`), which `new_v4` sets. Nothing else is promised of them.
#[verifier::external_body]
pub(crate) fn random_uuid_bytes() -> (r: [u8; 16])
    ensures
        r@[6] / 16 == 4,
        r@[8] / 64 == 2,
{
    uuid::Uuid::new_v4().into_bytes()
}

/// Whether sixteen bytes are those of a random (version 4, RFC 4122 variant) UUID: the high
/// half of byte 6 is 4 and the two high bits of byte 8 are `10`.
pub open spec fn is_v4_uuid(b: Seq<u8>) -> bool {
    b.len() == 16 && b[6] / 16 == 4 && b[8] / 64 == 2
}

/// A UUID as `Uuid`'s `Display` writes it: the bytes in lowercase hexadecimal, in groups of
/// 4, 2, 2, 2 and 6 bytes separated by `-`.
pub open spec fn uuid_hyphenated(b: Seq<u8>) -> Seq<char> {
    hex_of(b.subrange(0, 4)) + seq!['-'] + hex_of(b.subrange(4, 6)) + seq!['-'] + hex_of(b.subrange(6, 8))
        + seq!['-'] + hex_of(b.subrange(8, 10)) + seq!['-'] + hex_of(b.subrange(10, 16))
}

/// `Uuid::from_bytes` and `to_string` from the `uuid` crate: the hyphenated lowercase form
/// of the bytes, as `uuid`'s formatting code writes it.
#[verifier::external_body]
pub(crate) fn uuid_to_string(b: [u8; 16]) -> (r: String)
    ensures
        r@ == uuid_hyphenated(b@),
{
    uuid::Uuid::from_bytes(b).to_string()
}

/// `s` with every `-` replaced by `_`.
pub open spec fn dashes_to_underscores(s: Seq<char>) -> Seq<char> {
    s.map_values(|c: char| if c == '-' { '_' } else { c })
}

/// The name of a savepoint made unique by a UUID: `sp_` and the UUID's hyphenated form
/// with `_` in place of `-`.
pub open spec fn unique_name(b: Seq<u8>) -> Seq<char> {
    "sp_"@ + dashes_to_underscores(uuid_hyphenated(b))
}

/// The name for a savepoint made unique by the UUID with these bytes.
pub fn unique_savepoint_name(b: [u8; 16]) -> (r: String)
    ensures
        r@ == unique_name(b@),
{
    let u = uuid_to_string(b);
    let cs = str_chars(u.as_str());
    let mut out: Vec<char> = Vec::new();
    push_str_chars(&mut out, "sp_");
    let ghost start = out@;
    let n = cs.len();
    for i in 0..n
        invariant
            n == cs@.len(),
            out@ == start + dashes_to_underscores(cs@.take(i as int)),
    {
        let c = cs[i];
        out.push(if c == '-' { '_' } else { c });
        proof {
            assert(dashes_to_underscores(cs@.take(i + 1)) == dashes_to_underscores(cs@.take(i as int)).push(
                if c == '-' { '_' } else { c },
            ));
        }
    }
    assert(cs@.take(n as int) == cs@);
    chars_to_string(&out)
}

/// A statement naming a savepoint: `prefix` and the name.
fn named_statement(prefix: &str, name: &str) -> (r: String)
    ensures
        r@ == prefix@ + name@,
{
    let mut v: Vec<char> = Vec::new();
    push_str_chars(&mut v, prefix);
    push_str_chars(&mut v, name);
    chars_to_string(&v)
}

impl Savepoint {
    /// The savepoint's name.
    pub closed spec fn spec_name(&self) -> Seq<char> {
        self.name@
    }

    /// Where the savepoint stands.
    pub closed spec fn spec_status(&self) -> SavepointStatus {
        self.status
    }

    /// An open savepoint with this name.
    pub fn new(name: &str) -> (r: Self)
        ensures
            r.spec_name() == name@,
            r.spec_status() == SavepointStatus::Active,
    {
        Savepoint { name: name.to_owned(), status: SavepointStatus::Active }
    }

    /// An open savepoint with a name made unique by a random UUID.
    pub fn new_unique() -> (r: Self)
        ensures
            exists|b: Seq<u8>| is_v4_uuid(b) && r.spec_name() == unique_name(b),
            r.spec_status() == SavepointStatus::Active,
    {
        let b = random_uuid_bytes();
        let name = unique_savepoint_name(b);
        Savepoint { name, status: SavepointStatus::Active }
    }

    /// The statement that opens the savepoint: `SAVEPOINT` and its name.
    pub fn begin_statement(&self) -> (r: String)
        ensures
            r@ == "SAVEPOINT "@ + self.spec_name(),
    {
        named_statement("SAVEPOINT ", self.name.as_str())
    }

    /// The statements that commit the savepoint (`RELEASE` and its name); a savepoint that
    /// is not open is refused.
    pub fn commit_statements(&self) -> (r: Result<Vec<String>, SavepointError>)
        ensures
            match r {
                Ok(v) => self.spec_status() == SavepointStatus::Active && v@.len() == 1 && v@[0]@ == "RELEASE "@
                    + self.spec_name(),
                Err(e) => self.spec_status() != SavepointStatus::Active && e is SavepointAlreadyFinished,
            },
    {
        if self.status != SavepointStatus::Active {
            return Err(SavepointError::SavepointAlreadyFinished);
        }
        let mut v: Vec<String> = Vec::new();
        v.push(named_statement("RELEASE ", self.name.as_str()));
        Ok(v)
    }

    /// The statements that roll the savepoint back (`ROLLBACK TO` and `RELEASE` with its
    /// name); a savepoint that is not open is refused.
    pub fn rollback_statements(&self) -> (r: Result<Vec<String>, SavepointError>)
        ensures
            match r {
                Ok(v) => self.spec_status() == SavepointStatus::Active && v@.len() == 2 && v@[0]@ == "ROLLBACK TO "@
                    + self.spec_name() && v@[1]@ == "RELEASE "@ + self.spec_name(),
                Err(e) => self.spec_status() != SavepointStatus::Active && e is SavepointAlreadyFinished,
            },
    {
        if self.status != SavepointStatus::Active {
            return Err(SavepointError::SavepointAlreadyFinished);
        }
        let mut v: Vec<String> = Vec::new();
        v.push(named_statement("ROLLBACK TO ", self.name.as_str()));
        v.push(named_statement("RELEASE ", self.name.as_str()));
        Ok(v)
    }

    /// The statements to run when the savepoint is dropped: an open savepoint is rolled
    /// back; a finished one needs nothing.
    pub fn drop_statements(&self) -> (r: Vec<String>)
        ensures
            self.spec_status() == SavepointStatus::Active ==> r@.len() == 2 && r@[0]@ == "ROLLBACK TO "@
                + self.spec_name() && r@[1]@ == "RELEASE "@ + self.spec_name(),
            self.spec_status() != SavepointStatus::Active ==> r@.len() == 0,
    {
        match self.rollback_statements() {
            Ok(v) => v,
            Err(_) => Vec::new(),
        }
    }

    /// Whether statements may run inside the savepoint: only while it is open.
    pub fn accepts_statements(&self) -> (r: bool)
        ensures
            r == (self.spec_status() == SavepointStatus::Active),
    {
        self.status == SavepointStatus::Active
    }

    /// Marks an open savepoint committed, once its commit statements ran; a finished one is
    /// left as it is.
    pub fn mark_committed(&mut self)
        ensures
            final(self).spec_name() == old(self).spec_name(),
            final(self).spec_status() == (if old(self).spec_status() == SavepointStatus::Active {
                SavepointStatus::Committed
            } else {
                old(self).spec_status()
            }),
    {
        if self.status == SavepointStatus::Active {
            self.status = SavepointStatus::Committed;
        }
    }

    /// Marks an open savepoint rolled back, once its rollback statements ran; a finished
    /// one is left as it is.
    pub fn mark_rolled_back(&mut self)
        ensures
            final(self).spec_name() == old(self).spec_name(),
            final(self).spec_status() == (if old(self).spec_status() == SavepointStatus::Active {
                SavepointStatus::RolledBack
            } else {
                old(self).spec_status()
            }),
    {
        if self.status == SavepointStatus::Active {
            self.status = SavepointStatus::RolledBack;
        }
    }

    /// The savepoint's name.
    pub fn name(&self) -> (r: &str)
        ensures
            r@ == self.spec_name(),
    {
        self.name.as_str()
    }

    /// Where the savepoint stands.
    pub fn status(&self) -> (r: SavepointStatus)
        ensures
            r == self.spec_status(),
    {
        self.status
    }
}

/// A savepoint is finished at most once: marking an open savepoint committed or rolled back
/// finishes it, and a finished savepoint stays as it is whatever is marked next.
pub proof fn lemma_finished_once(s: SavepointStatus, committed: bool)
    ensures
        ({
            let marked = if s == SavepointStatus::Active {
                if committed {
                    SavepointStatus::Committed
                } else {
                    SavepointStatus::RolledBack
                }
            } else {
                s
            };
            &&& marked != SavepointStatus::Active
            &&& s != SavepointStatus::Active ==> marked == s
        }),
{
}

} // verus!
