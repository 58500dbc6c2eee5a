use vstd::prelude::*;
use crate::convert::str_bytes;
use crate::text::{chars_to_string, push_all, push_str_chars, spec_lowercase, str_chars, str_to_lowercase};

verus! {

// ---------------------------------------------------------------------------
// Whitespace, trimming and splitting

/// Whether a character has the Unicode `White_Space` property, as `char::is_whitespace`
/// answers: tab to carriage return, space, next line, no-break space, ogham space mark, the
/// spaces from en quad to hair space, line and paragraph separators, narrow no-break space,
/// medium mathematical space and ideographic space (25 code points).
pub open spec fn spec_is_whitespace(c: char) -> bool {
    let u = c as u32;
    (0x09 <= u <= 0x0D) || u == 0x20 || u == 0x85 || u == 0xA0 || u == 0x1680 || (0x2000 <= u <= 0x200A)
        || u == 0x2028 || u == 0x2029 || u == 0x202F || u == 0x205F || u == 0x3000
}

/// Whether a character is Unicode whitespace (see `spec_is_whitespace`).
pub(crate) fn char_is_whitespace(c: char) -> (r: bool)
    ensures
        r == spec_is_whitespace(c),
{
    let u = c as u32;
    (0x09 <= u && u <= 0x0D) || u == 0x20 || u == 0x85 || u == 0xA0 || u == 0x1680 || (0x2000 <= u && u <= 0x200A)
        || u == 0x2028 || u == 0x2029 || u == 0x202F || u == 0x205F || u == 0x3000
}

/// Whether a character is whitespace.
pub open spec fn ws() -> spec_fn(char) -> bool {
    |c: char| spec_is_whitespace(c)
}

/// Whether a character is one of the quotes `"`, `` ` `` and `'`.
pub open spec fn is_quote(c: char) -> bool {
    c == '"' || c == '`' || c == '\''
}

/// Whether a character is a quote.
pub open spec fn quote() -> spec_fn(char) -> bool {
    |c: char| is_quote(c)
}

/// How many characters at the start of `s` meet `p`.
pub open spec fn lead_count(s: Seq<char>, p: spec_fn(char) -> bool) -> nat
    decreases s.len(),
{
    if s.len() > 0 && p(s[0]) {
        1 + lead_count(s.drop_first(), p)
    } else {
        0
    }
}

/// How many characters at the end of `s` meet `p`.
pub open spec fn trail_count(s: Seq<char>, p: spec_fn(char) -> bool) -> nat
    decreases s.len(),
{
    if s.len() > 0 && p(s.last()) {
        1 + trail_count(s.drop_last(), p)
    } else {
        0
    }
}

/// `s` without the characters that meet `p` at either end (`str::trim_matches`).
pub open spec fn trim_by(s: Seq<char>, p: spec_fn(char) -> bool) -> Seq<char> {
    let a = lead_count(s, p);
    if a == s.len() {
        Seq::empty()
    } else {
        s.subrange(a as int, s.len() - trail_count(s, p))
    }
}

/// `s` without whitespace at either end (`str::trim`).
pub open spec fn trimmed(s: Seq<char>) -> Seq<char> {
    trim_by(s, ws())
}

proof fn lemma_lead_count(s: Seq<char>, p: spec_fn(char) -> bool, i: int)
    requires
        0 <= i <= s.len(),
        forall|k: int| 0 <= k < i ==> p(#[trigger] s[k]),
        i == s.len() || !p(s[i]),
    ensures
        lead_count(s, p) == i,
    decreases i,
{
    if i > 0 {
        lemma_lead_count(s.drop_first(), p, i - 1);
        assert(p(s[0]));
    }
}

proof fn lemma_trail_count(s: Seq<char>, p: spec_fn(char) -> bool, j: int)
    requires
        0 < j <= s.len(),
        forall|k: int| j <= k < s.len() ==> p(#[trigger] s[k]),
        !p(s[j - 1]),
    ensures
        trail_count(s, p) == s.len() - j,
    decreases s.len() - j,
{
    if j < s.len() {
        assert(p(s[s.len() - 1]));
        lemma_trail_count(s.drop_last(), p, j);
    }
}

proof fn lemma_lead_stop(s: Seq<char>, p: spec_fn(char) -> bool)
    ensures
        lead_count(s, p) <= s.len(),
        lead_count(s, p) < s.len() ==> !p(s[lead_count(s, p) as int]),
        forall|k: int| 0 <= k < lead_count(s, p) ==> p(#[trigger] s[k]),
    decreases s.len(),
{
    if s.len() > 0 && p(s[0]) {
        lemma_lead_stop(s.drop_first(), p);
        assert forall|k: int| 0 <= k < lead_count(s, p) implies p(#[trigger] s[k]) by {
            if k > 0 {
                assert(s[k] == s.drop_first()[k - 1]);
            }
        }
    }
}

proof fn lemma_trail_stop(s: Seq<char>, p: spec_fn(char) -> bool)
    ensures
        trail_count(s, p) <= s.len(),
        trail_count(s, p) < s.len() ==> !p(s[s.len() - 1 - trail_count(s, p)]),
    decreases s.len(),
{
    if s.len() > 0 && p(s.last()) {
        lemma_trail_stop(s.drop_last(), p);
    }
}

/// Trimming twice is trimming once: what is left after trimming starts and ends with
/// characters that do not meet `p`.
pub proof fn lemma_trim_idempotent(s: Seq<char>, p: spec_fn(char) -> bool)
    ensures
        trim_by(trim_by(s, p), p) == trim_by(s, p),
{
    lemma_lead_stop(s, p);
    lemma_trail_stop(s, p);
    let a = lead_count(s, p);
    let t = trim_by(s, p);
    if a < s.len() {
        let b = trail_count(s, p);
        // the last character that meets `p` from the end lies after the first that does not
        assert(s.len() - 1 - b >= a) by {
            if s.len() - 1 - b < a {
                lemma_trail_all(s, p, b);
                assert(p(s[a as int]));
            }
        }
        assert(t.len() > 0);
        assert(t[0] == s[a as int]);
        assert(lead_count(t, p) == 0);
        assert(t.last() == s[s.len() - 1 - b]);
        assert(trail_count(t, p) == 0);
        assert(t.subrange(0, t.len() as int) == t);
    }
}

proof fn lemma_trail_all(s: Seq<char>, p: spec_fn(char) -> bool, b: nat)
    requires
        b == trail_count(s, p),
    ensures
        forall|k: int| s.len() - b <= k < s.len() ==> p(#[trigger] s[k]),
    decreases s.len(),
{
    lemma_trail_stop(s, p);
    if s.len() > 0 && p(s.last()) {
        lemma_trail_all(s.drop_last(), p, trail_count(s.drop_last(), p));
        assert forall|k: int| s.len() - b <= k < s.len() implies p(#[trigger] s[k]) by {
            if k < s.len() - 1 {
                assert(s[k] == s.drop_last()[k]);
            }
        }
    }
}

/// `s` without the characters that meet `is_ws` (whitespace when `true`, quotes when `false`)
/// at either end.
pub fn trim_chars(s: &[char], whitespace: bool) -> (r: Vec<char>)
    ensures
        r@ == trim_by(s@, if whitespace { ws() } else { quote() }),
{
    let ghost p: spec_fn(char) -> bool = if whitespace { ws() } else { quote() };
    let n = s.len();
    let mut i: usize = 0;
    while i < n
        invariant
            i <= n == s@.len(),
            p == (if whitespace { ws() } else { quote() }),
            forall|k: int| 0 <= k < i ==> p(#[trigger] s@[k]),
        ensures
            i <= n,
            forall|k: int| 0 <= k < i ==> p(#[trigger] s@[k]),
            i == n || !p(s@[i as int]),
        decreases n - i,
    {
        let hit = if whitespace { char_is_whitespace(s[i]) } else { s[i] == '"' || s[i] == '`' || s[i] == '\'' };
        if !hit {
            break;
        }
        i = i + 1;
    }
    proof {
        lemma_lead_count(s@, p, i as int);
    }
    if i == n {
        return Vec::new();
    }
    let mut j: usize = n;
    loop
        invariant
            i < j <= n == s@.len(),
            p == (if whitespace { ws() } else { quote() }),
            lead_count(s@, p) == i,
            !p(s@[i as int]),
            forall|k: int| j <= k < n ==> p(#[trigger] s@[k]),
        ensures
            i < j <= n,
            !p(s@[j - 1]),
            forall|k: int| j <= k < n ==> p(#[trigger] s@[k]),
        decreases j,
    {
        let c = s[j - 1];
        let hit = if whitespace { char_is_whitespace(c) } else { c == '"' || c == '`' || c == '\'' };
        if !hit {
            break;
        }
        j = j - 1;
    }
    proof {
        lemma_trail_count(s@, p, j as int);
    }
    copy_range(s, i, j)
}

/// The characters of `s` from `i` up to `j`.
pub fn copy_range(s: &[char], i: usize, j: usize) -> (r: Vec<char>)
    requires
        i <= j <= s@.len(),
    ensures
        r@ == s@.subrange(i as int, j as int),
{
    let mut r: Vec<char> = Vec::new();
    for k in i..j
        invariant
            i <= j <= s@.len(),
            r@ == s@.subrange(i as int, k as int),
    {
        r.push(s[k]);
    }
    r
}

/// The pieces of `s` between the characters that meet `p` (`str::split`): one more piece
/// than there are such characters.
pub open spec fn split_by(s: Seq<char>, p: spec_fn(char) -> bool) -> Seq<Seq<char>>
    decreases s.len(),
{
    if s.len() == 0 {
        seq![Seq::empty()]
    } else {
        let rest = split_by(s.drop_last(), p);
        if p(s.last()) {
            rest.push(Seq::empty())
        } else {
            rest.update(rest.len() - 1, rest.last().push(s.last()))
        }
    }
}

proof fn lemma_split_by_len(s: Seq<char>, p: spec_fn(char) -> bool)
    ensures
        split_by(s, p).len() >= 1,
    decreases s.len(),
{
    if s.len() > 0 {
        lemma_split_by_len(s.drop_last(), p);
    }
}

/// The pieces that are not empty, in order.
pub open spec fn nonempty_pieces(pieces: Seq<Seq<char>>) -> Seq<Seq<char>>
    decreases pieces.len(),
{
    if pieces.len() == 0 {
        Seq::empty()
    } else {
        let rest = nonempty_pieces(pieces.drop_last());
        if pieces.last().len() > 0 {
            rest.push(pieces.last())
        } else {
            rest
        }
    }
}

/// The pieces trimmed, those left empty dropped, in order.
pub open spec fn trimmed_nonempty(pieces: Seq<Seq<char>>) -> Seq<Seq<char>>
    decreases pieces.len(),
{
    if pieces.len() == 0 {
        Seq::empty()
    } else {
        let rest = trimmed_nonempty(pieces.drop_last());
        if trimmed(pieces.last()).len() > 0 {
            rest.push(trimmed(pieces.last()))
        } else {
            rest
        }
    }
}

proof fn lemma_trimmed_nonempty_items(pieces: Seq<Seq<char>>)
    ensures
        forall|i: int|
            0 <= i < trimmed_nonempty(pieces).len() ==> (#[trigger] trimmed_nonempty(pieces)[i]).len() > 0
                && trimmed(trimmed_nonempty(pieces)[i]) == trimmed_nonempty(pieces)[i],
    decreases pieces.len(),
{
    if pieces.len() > 0 {
        lemma_trimmed_nonempty_items(pieces.drop_last());
        lemma_trim_idempotent(pieces.last(), ws());
        let rest = trimmed_nonempty(pieces.drop_last());
        let all = trimmed_nonempty(pieces);
        assert forall|i: int| 0 <= i < all.len() implies (#[trigger] all[i]).len() > 0 && trimmed(all[i]) == all[i] by {
            if i < rest.len() {
                assert(all[i] == rest[i]);
            } else {
                assert(all[i] == trimmed(pieces.last()));
            }
        }
    }
}

/// Every statement of a script is non-empty and has no whitespace at either end.
pub proof fn lemma_statements_trimmed(sql: Seq<char>)
    ensures
        forall|i: int|
            0 <= i < sql_statements(sql).len() ==> (#[trigger] sql_statements(sql)[i]).len() > 0 && trimmed(
                sql_statements(sql)[i],
            ) == sql_statements(sql)[i],
{
    lemma_trimmed_nonempty_items(split_by(sql, |c: char| c == ';'));
}

/// The words of `s` (`str::split_whitespace`).
pub open spec fn words(s: Seq<char>) -> Seq<Seq<char>> {
    nonempty_pieces(split_by(s, ws()))
}

/// The statements of a script: its pieces between `;`, trimmed, the empty ones dropped.
pub open spec fn sql_statements(sql: Seq<char>) -> Seq<Seq<char>> {
    trimmed_nonempty(split_by(sql, |c: char| c == ';'))
}

/// The character views of a sequence of character vectors.
pub open spec fn vec_views(v: Seq<Vec<char>>) -> Seq<Seq<char>> {
    v.map_values(|x: Vec<char>| x@)
}

/// Splits `s` at the characters that are whitespace (when `whitespace`) or equal to `sep`.
pub fn split_chars(s: &[char], sep: char, whitespace: bool) -> (r: Vec<Vec<char>>)
    ensures
        vec_views(r@) == split_by(s@, if whitespace { ws() } else { |c: char| c == sep }),
{
    let ghost p: spec_fn(char) -> bool = if whitespace { ws() } else { |c: char| c == sep };
    let mut pieces: Vec<Vec<char>> = Vec::new();
    let mut cur: Vec<char> = Vec::new();
    let n = s.len();
    for i in 0..n
        invariant
            n == s@.len(),
            p == (if whitespace { ws() } else { |c: char| c == sep }),
            vec_views(pieces@).push(cur@) == split_by(s@.take(i as int), p),
    {
        proof {
            lemma_split_by_len(s@.take(i as int), p);
            assert(s@.take(i + 1).drop_last() == s@.take(i as int));
            assert(s@.take(i + 1).last() == s@[i as int]);
        }
        let c = s[i];
        let hit = if whitespace { char_is_whitespace(c) } else { c == sep };
        if hit {
            let mut done: Vec<char> = Vec::new();
            std::mem::swap(&mut done, &mut cur);
            let ghost before = pieces@;
            pieces.push(done);
            proof {
                assert(vec_views(pieces@) == vec_views(before).push(done@));
            }
        } else {
            cur.push(c);
        }
        proof {
            assert(vec_views(pieces@).push(cur@) == split_by(s@.take(i + 1), p));
        }
    }
    let ghost before = pieces@;
    pieces.push(cur);
    proof {
        assert(vec_views(pieces@) == vec_views(before).push(cur@));
        assert(s@.take(n as int) == s@);
    }
    pieces
}

/// The words of `s` (`str::split_whitespace`).
pub fn split_words(s: &[char]) -> (r: Vec<Vec<char>>)
    ensures
        vec_views(r@) == words(s@),
{
    let pieces = split_chars(s, ' ', true);
    let mut r: Vec<Vec<char>> = Vec::new();
    let n = pieces.len();
    for i in 0..n
        invariant
            n == pieces@.len(),
            vec_views(r@) == nonempty_pieces(vec_views(pieces@).take(i as int)),
    {
        proof {
            let vs = vec_views(pieces@);
            assert(vs.take(i + 1).drop_last() == vs.take(i as int));
            assert(vs.take(i + 1).last() == pieces@[i as int]@);
        }
        if pieces[i].len() > 0 {
            let ghost before = r@;
            let w = copy_range(pieces[i].as_slice(), 0, pieces[i].len());
            r.push(w);
            proof {
                assert(pieces@[i as int]@.subrange(0, pieces@[i as int]@.len() as int) == pieces@[i as int]@);
                assert(vec_views(r@) == vec_views(before).push(w@));
            }
        }
    }
    assert(vec_views(pieces@).take(n as int) == vec_views(pieces@));
    r
}

/// The statements of a migration script: the pieces between `;`, trimmed, empty ones dropped.
pub fn split_sql_statements(sql: &str) -> (r: Vec<String>)
    ensures
        crate::text::string_views(r@) == sql_statements(sql@),
{
    let chars = str_chars(sql);
    let pieces = split_chars(chars.as_slice(), ';', false);
    let mut r: Vec<String> = Vec::new();
    let n = pieces.len();
    for i in 0..n
        invariant
            n == pieces@.len(),
            crate::text::string_views(r@) == trimmed_nonempty(vec_views(pieces@).take(i as int)),
    {
        proof {
            let vs = vec_views(pieces@);
            assert(vs.take(i + 1).drop_last() == vs.take(i as int));
            assert(vs.take(i + 1).last() == pieces@[i as int]@);
        }
        let t = trim_chars(pieces[i].as_slice(), true);
        if t.len() > 0 {
            let ghost before = r@;
            let st = chars_to_string(&t);
            r.push(st);
            proof {
                assert(crate::text::string_views(r@) == crate::text::string_views(before).push(st@));
            }
        }
    }
    proof {
        assert(vec_views(pieces@).take(n as int) == vec_views(pieces@));
        assert((|c: char| c == ';') == (if false { ws() } else { |c: char| c == ';' }));
    }
    r
}

// ---------------------------------------------------------------------------
// Keys under which applied statements are recorded

/// What `md5::compute` returns for some bytes: their MD5 digest, named here and not
/// spelled out.
pub uninterp spec fn spec_md5(data: Seq<u8>) -> Seq<u8>;

/// `md5::compute` from the `md5` crate: the digest's sixteen bytes are the MD5 digest of
/// `data`, named and not spelled out.
#[verifier::external_body]
fn md5_digest(data: &[u8]) -> (r: [u8; 16])
    ensures
        r@ == spec_md5(data@),
{
    md5::compute(data).0
}

/// The lowercase hexadecimal digit of a value below sixteen.
pub open spec fn hex_digit(d: int) -> char {
    if d < 10 {
        ((48 + d) as u8) as char
    } else {
        ((87 + d) as u8) as char
    }
}

/// Two lowercase hexadecimal digits per byte (`{:02x}` on each), in order.
pub open spec fn hex_of(b: Seq<u8>) -> Seq<char>
    decreases b.len(),
{
    if b.len() == 0 {
        Seq::empty()
    } else {
        hex_of(b.drop_last()) + seq![hex_digit(b.last() as int / 16), hex_digit(b.last() as int % 16)]
    }
}

fn hex_char(d: u8) -> (r: char)
    requires
        d < 16,
    ensures
        r == hex_digit(d as int),
{
    if d < 10 {
        (48u8 + d) as char
    } else {
        (87u8 + d) as char
    }
}

/// Whether `s` begins with `prefix`.
pub open spec fn starts_with(s: Seq<char>, prefix: Seq<char>) -> bool {
    prefix.len() <= s.len() && s.take(prefix.len() as int) == prefix
}

fn starts_with_chars(s: &[char], prefix: &str) -> (r: bool)
    ensures
        r == starts_with(s@, prefix@),
{
    let p = str_chars(prefix);
    if p.len() > s.len() {
        return false;
    }
    let n = p.len();
    for i in 0..n
        invariant
            n == p@.len() <= s@.len(),
            p@ == prefix@,
            forall|k: int| 0 <= k < i ==> s@[k] == p@[k],
    {
        if s[i] != p[i] {
            return false;
        }
    }
    assert(s@.take(n as int) == p@);
    true
}

fn chars_equal_str(a: &[char], b: &str) -> (r: bool)
    ensures
        r == (a@ == b@),
{
    let v = str_chars(b);
    crate::text::chars_eq(a, v.as_slice())
}

/// The key under which a statement is recorded once applied: for a `CREATE TABLE`
/// statement, `create_table:` and the table's name (after `IF NOT EXISTS`, quotes removed);
/// for any other, `sql:` and the MD5 digest in hexadecimal of the statement, trimmed and in
/// lowercase.
pub open spec fn statement_key(statement: Seq<char>) -> Seq<char> {
    let l = spec_lowercase(trimmed(statement));
    let parts = words(l);
    if starts_with(l, "create table"@) && parts.len() >= 3 {
        let name = if parts[2] == "if"@ && parts.len() >= 6 {
            parts[5]
        } else {
            parts[2]
        };
        "create_table:"@ + trim_by(name, quote())
    } else {
        "sql:"@ + hex_of(spec_md5(crate::convert::utf8_of(l)))
    }
}

/// A statement's key does not depend on whitespace around it.
pub proof fn lemma_statement_key_trim(statement: Seq<char>)
    ensures
        statement_key(trimmed(statement)) == statement_key(statement),
{
    lemma_trim_idempotent(statement, ws());
}

/// The key under which a statement is recorded once applied.
pub fn get_statement_key(statement: &str) -> (r: String)
    ensures
        r@ == statement_key(statement@),
{
    let chars = str_chars(statement);
    let t = trim_chars(chars.as_slice(), true);
    let ts = chars_to_string(&t);
    let lower = str_to_lowercase(ts.as_str());
    let l = str_chars(lower.as_str());
    let parts = split_words(l.as_slice());
    let mut out: Vec<char> = Vec::new();
    if starts_with_chars(l.as_slice(), "create table") && parts.len() >= 3 {
        let name = if chars_equal_str(parts[2].as_slice(), "if") && parts.len() >= 6 {
            &parts[5]
        } else {
            &parts[2]
        };
        let bare = trim_chars(name.as_slice(), false);
        push_str_chars(&mut out, "create_table:");
        push_all(&mut out, bare.as_slice());
        proof {
            assert(vec_views(parts@)[2] == parts@[2]@);
            if parts@.len() >= 6 {
                assert(vec_views(parts@)[5] == parts@[5]@);
            }
        }
    } else {
        let bytes = str_bytes(lower.as_str());
        let digest = md5_digest(bytes.as_slice());
        push_str_chars(&mut out, "sql:");
        let ghost start = out@;
        for i in 0..16
            invariant
                out@ == start + hex_of(digest@.take(i as int)),
        {
            proof {
                assert(digest@.take(i + 1).drop_last() == digest@.take(i as int));
            }
            let b = digest[i];
            out.push(hex_char(b / 16));
            out.push(hex_char(b % 16));
        }
        assert(digest@.take(16) == digest@);
    }
    chars_to_string(&out)
}

// ---------------------------------------------------------------------------
// Applying a database's migrations

/// One piece of migration work: the key it is recorded under once applied, and its
/// statements, run in order.
#[derive(Debug)]
pub struct MigrationUnit {
    pub key: String,
    pub statements: Vec<String>,
}

/// A unit as its key and the text of its statements.
pub open spec fn unit_view(u: MigrationUnit) -> (Seq<char>, Seq<Seq<char>>) {
    (u.key@, crate::text::string_views(u.statements@))
}

/// The units of the migrations that tables declare, as `(name, up, down)`: one per
/// migration, recorded under its name, with the statements of its `up` script; those whose
/// name begins with `error` (a declaration that could not be read) are skipped.
pub open spec fn table_units(ms: Seq<(String, String, Option<String>)>) -> Seq<(Seq<char>, Seq<Seq<char>>)>
    decreases ms.len(),
{
    if ms.len() == 0 {
        Seq::empty()
    } else {
        let rest = table_units(ms.drop_last());
        let m = ms.last();
        if starts_with(m.0@, "error"@) {
            rest
        } else {
            rest.push((m.0@, sql_statements(m.1@)))
        }
    }
}

proof fn lemma_error_entry_skipped(ms: Seq<(String, String, Option<String>)>, i: int)
    requires
        0 <= i < ms.len(),
        starts_with(ms[i].0@, "error"@),
    ensures
        table_units(ms) == table_units(ms.remove(i)),
    decreases ms.len(),
{
    if i == ms.len() - 1 {
        assert(ms.remove(i) =~= ms.drop_last());
    } else {
        let r = ms.remove(i);
        assert(r.drop_last() =~= ms.drop_last().remove(i));
        assert(r.last() == ms.last());
        lemma_error_entry_skipped(ms.drop_last(), i);
    }
}

/// A table migration whose name begins with `error` changes nothing: the work of applying a
/// database's migrations is the same with that entry as without it, so it is neither run
/// nor recorded.
pub proof fn lemma_error_migration_dropped(
    ms: Seq<(String, String, Option<String>)>,
    scripts: Seq<String>,
    i: int,
)
    requires
        0 <= i < ms.len(),
        starts_with(ms[i].0@, "error"@),
    ensures
        table_units(ms) + script_units(scripts) == table_units(ms.remove(i)) + script_units(scripts),
{
    lemma_error_entry_skipped(ms, i);
}

/// What one table contributes to the joined list: its migrations, or none when they could
/// not be produced.
pub open spec fn table_part(t: Option<Vec<(String, String, Option<String>)>>) -> Seq<(String, String, Option<String>)> {
    match t {
        Some(v) => v@,
        None => Seq::empty(),
    }
}

/// The migrations of a database's tables joined into one list, table after table.
pub open spec fn joined_migrations(tables: Seq<Option<Vec<(String, String, Option<String>)>>>) -> Seq<
    (String, String, Option<String>),
>
    decreases tables.len(),
{
    if tables.len() == 0 {
        Seq::empty()
    } else {
        table_part(tables[0]) + joined_migrations(tables.drop_first())
    }
}

/// Joins the migrations of a database's tables (`(name, up, down)` each), table after
/// table, in the order given; a table whose migrations could not be produced (`None`)
/// contributes none.
pub fn get_all_table_migrations(tables: Vec<Option<Vec<(String, String, Option<String>)>>>) -> (r: Vec<
    (String, String, Option<String>),
>)
    ensures
        r@ == joined_migrations(tables@),
{
    let ghost all = tables@;
    let mut rest = tables;
    let mut out: Vec<(String, String, Option<String>)> = Vec::new();
    while rest.len() > 0
        invariant
            out@ + joined_migrations(rest@) == joined_migrations(all),
        decreases rest.len(),
    {
        let ghost before = rest@;
        let t = rest.remove(0);
        proof {
            assert(rest@ =~= before.drop_first());
            assert(joined_migrations(before) == table_part(t) + joined_migrations(rest@));
        }
        match t {
            Some(mut v) => {
                let ghost vv = v@;
                out.append(&mut v);
                proof {
                    assert(out@ + joined_migrations(rest@) =~= (out@.subrange(0, out@.len() - vv.len() as int))
                        + (vv + joined_migrations(rest@)));
                }
            },
            None => {
                assert(table_part(t) =~= Seq::<(String, String, Option<String>)>::empty());
                assert(out@ + joined_migrations(rest@) =~= out@ + (table_part(t) + joined_migrations(rest@)));
            },
        }
    }
    assert(joined_migrations(rest@) =~= Seq::<(String, String, Option<String>)>::empty());
    assert(out@ + joined_migrations(rest@) =~= out@);
    out
}

/// One unit per statement, recorded under the statement's key.
pub open spec fn statement_units(stmts: Seq<Seq<char>>) -> Seq<(Seq<char>, Seq<Seq<char>>)> {
    stmts.map_values(|st: Seq<char>| (statement_key(st), seq![st]))
}

/// The units of plain migration scripts, script after script.
pub open spec fn script_units(scripts: Seq<String>) -> Seq<(Seq<char>, Seq<Seq<char>>)>
    decreases scripts.len(),
{
    if scripts.len() == 0 {
        Seq::empty()
    } else {
        script_units(scripts.drop_last()) + statement_units(sql_statements(scripts.last()@))
    }
}

/// The work of applying a database's migrations, in order: first the migrations its tables
/// declare (`(name, up, down)`), then each statement of each plain script.
pub fn migration_units(table_migrations: &[(String, String, Option<String>)], scripts: &[String]) -> (r: Vec<MigrationUnit>)
    ensures
        r@.map_values(|u: MigrationUnit| unit_view(u)) == table_units(table_migrations@) + script_units(scripts@),
{
    let mut r: Vec<MigrationUnit> = Vec::new();
    let n = table_migrations.len();
    for i in 0..n
        invariant
            n == table_migrations@.len(),
            r@.map_values(|u: MigrationUnit| unit_view(u)) == table_units(table_migrations@.take(i as int)),
    {
        proof {
            assert(table_migrations@.take(i + 1).drop_last() == table_migrations@.take(i as int));
        }
        let name = table_migrations[i].0.as_str();
        let ns = str_chars(name);
        if !starts_with_chars(ns.as_slice(), "error") {
            let ghost before = r@;
            let u = MigrationUnit {
                key: name.to_owned(),
                statements: split_sql_statements(table_migrations[i].1.as_str()),
            };
            r.push(u);
            proof {
                assert(r@.map_values(|u: MigrationUnit| unit_view(u)) == before.map_values(
                    |u: MigrationUnit| unit_view(u),
                ).push(unit_view(u)));
            }
        }
    }
    assert(table_migrations@.take(n as int) == table_migrations@);
    let ghost table_part = r@.map_values(|u: MigrationUnit| unit_view(u));
    let m = scripts.len();
    for j in 0..m
        invariant
            m == scripts@.len(),
            table_part == table_units(table_migrations@),
            r@.map_values(|u: MigrationUnit| unit_view(u)) == table_part + script_units(scripts@.take(j as int)),
    {
        proof {
            assert(scripts@.take(j + 1).drop_last() == scripts@.take(j as int));
        }
        let stmts = split_sql_statements(scripts[j].as_str());
        let ghost base = r@.map_values(|u: MigrationUnit| unit_view(u));
        let ghost sv = crate::text::string_views(stmts@);
        let k = stmts.len();
        for t in 0..k
            invariant
                k == stmts@.len(),
                sv == crate::text::string_views(stmts@),
                r@.map_values(|u: MigrationUnit| unit_view(u)) == base + statement_units(sv.take(t as int)),
        {
            let ghost before = r@;
            let key = get_statement_key(stmts[t].as_str());
            let mut one: Vec<String> = Vec::new();
            one.push(stmts[t].clone());
            let u = MigrationUnit { key, statements: one };
            r.push(u);
            proof {
                assert(crate::text::string_views(one@) == seq![sv[t as int]]);
                assert(statement_units(sv.take(t + 1)) == statement_units(sv.take(t as int)).push(
                    (statement_key(sv[t as int]), seq![sv[t as int]]),
                ));
                assert(r@.map_values(|u: MigrationUnit| unit_view(u)) == before.map_values(
                    |u: MigrationUnit| unit_view(u),
                ).push(unit_view(u)));
            }
        }
        proof {
            assert(sv.take(k as int) == sv);
        }
    }
    assert(scripts@.take(m as int) == scripts@);
    r
}

} // verus!
