use vstd::prelude::*;
use crate::sql_tokens::{parse_sql_no_quotes, split_point, sql_text, SqlToken};
use crate::statements::{split_sql_statements, sql_statements};
use crate::text::{chars_to_string, contains, contains_str, push_str_chars, str_chars, string_views};

verus! {

/// What `sqlformat::format` returns for a statement, with no parameters and the default
/// options: the statement laid out for reading, named here and not spelled out.
pub uninterp spec fn spec_sqlformat(sql: Seq<char>) -> Seq<char>;

/// `sqlformat::format` from the `sqlformat` crate, with no parameters and the default
/// options (two-space indent, keywords as written, one blank line between queries): the
/// result is named and not spelled out.
#[verifier::external_body]
pub(crate) fn format_sql(sql: &str) -> (r: String)
    ensures
        r@ == spec_sqlformat(sql@),
{
    sqlformat::format(sql, &sqlformat::QueryParams::None, sqlformat::FormatOptions::default())
}

/// `rusqlite::Connection`, carried through as it is.
#[verifier::external_type_specification]
#[verifier::external_body]
pub struct ExConnection(rusqlite::Connection);

/// A connection to a new, empty in-memory database on which nothing has been run. It is made
/// only by `open_in_memory` and used once, by `prepare`, which takes it.
pub struct FreshDatabase {
    conn: rusqlite::Connection,
}

/// What the bundled SQLite answers when asked to prepare `sql` on a new, empty in-memory
/// database: `Ok` when it prepares, else the message of its error as rusqlite writes it.
/// The crate is built against the SQLite that rusqlite bundles, so the answer is a function
/// of the statement; it is named here and not spelled out.
pub uninterp spec fn spec_prepare(sql: Seq<char>) -> Result<(), Seq<char>>;

/// `rusqlite::Connection::open_in_memory` from the `rusqlite` crate: a connection to a new,
/// empty in-memory database, or the message of the error. Which of the two comes back rests
/// on the machine (memory, the SQLite library's start-up), so nothing is promised of it.
#[verifier::external_body]
fn open_in_memory() -> (r: Result<FreshDatabase, String>) {
    match rusqlite::Connection::open_in_memory() {
        Ok(c) => Ok(FreshDatabase { conn: c }),
        Err(e) => Err(e.to_string()),
    }
}

/// `rusqlite::Connection::prepare` from the `rusqlite` crate, on a new, empty in-memory
/// database: `Ok` exactly when the bundled SQLite prepares the statement, else the message
/// of the error it reported (`spec_prepare`).
#[verifier::external_body]
fn prepare(db: FreshDatabase, sql: &str) -> (r: Result<(), String>)
    ensures
        match r {
            Ok(_) => spec_prepare(sql@) == Ok::<(), Seq<char>>(()),
            Err(m) => spec_prepare(sql@) == Err::<(), Seq<char>>(m@),
        },
{
    let r = match db.conn.prepare(sql) {
        Ok(_) => Ok(()),
        Err(e) => Err(e.to_string()),
    };
    r
}

/// What an outcome of preparing holds, as text.
pub open spec fn outcome_view(o: Result<Result<(), String>, String>) -> Result<Result<(), Seq<char>>, Seq<char>> {
    match o {
        Err(m) => Err(m@),
        Ok(Ok(_)) => Ok(Ok(())),
        Ok(Err(m)) => Ok(Err(m@)),
    }
}

/// Whether `o` is an outcome that preparing `sql` on an empty in-memory database can have:
/// no connection could be opened (with some message), or SQLite's answer on that statement.
pub open spec fn prepare_outcome(sql: Seq<char>, o: Result<Result<(), Seq<char>>, Seq<char>>) -> bool {
    o is Err || o == Ok::<Result<(), Seq<char>>, Seq<char>>(spec_prepare(sql))
}

/// What preparing a statement on an empty in-memory database gave: `Err` with the message
/// when no connection could be opened, else `Ok` of SQLite's answer on the statement.
fn prepare_in_memory(sql: &str) -> (r: Result<Result<(), String>, String>)
    ensures
        prepare_outcome(sql@, outcome_view(r)),
{
    match open_in_memory() {
        Ok(db) => Ok(prepare(db, sql)),
        Err(m) => Err(m),
    }
}

/// Whether SQLite's complaint is only about the schema (a table, column or collation it
/// does not know, or a database it cannot open), which an empty database always has.
pub open spec fn schema_only(msg: Seq<char>) -> bool {
    contains(msg, "no such table:"@) || contains(msg, "no such column:"@) || contains(msg, "no such collation"@)
        || contains(msg, "unable to open database file"@)
}

/// The verdict on a statement from what preparing it on an empty database gave: fine when
/// it prepared or SQLite only missed the schema; otherwise the message names the error and
/// the statement.
pub open spec fn verdict(stmt: Seq<char>, outcome: Result<Result<(), Seq<char>>, Seq<char>>) -> Result<(), Seq<char>> {
    match outcome {
        Err(m) => Err("Failed to get SQLite connection: "@ + m),
        Ok(Ok(_)) => Ok(()),
        Ok(Err(m)) => if schema_only(m) {
            Ok(())
        } else {
            Err("SQL 语法错误: "@ + m + "\n查询语句: "@ + stmt)
        },
    }
}

/// The verdict SQLite's answer gives a statement, a connection having been opened.
pub open spec fn sqlite_verdict(stmt: Seq<char>) -> Result<(), Seq<char>> {
    verdict(stmt, Ok(spec_prepare(stmt)))
}

/// The message when no connection could be opened.
pub open spec fn connection_failure(m: Seq<char>) -> Seq<char> {
    "Failed to get SQLite connection: "@ + m
}

/// A result as text.
pub open spec fn check_view(r: Result<(), String>) -> Result<(), Seq<char>> {
    match r {
        Ok(_) => Ok(()),
        Err(m) => Err(m@),
    }
}

/// Whether `r` is what checking `stmt` can give: SQLite's verdict on it, or the failure to
/// open a connection (with some message).
pub open spec fn check_outcome(stmt: Seq<char>, r: Result<(), Seq<char>>) -> bool {
    r == sqlite_verdict(stmt) || exists|m: Seq<char>| r == Err::<(), Seq<char>>(#[trigger] connection_failure(m))
}

/// The verdict on a statement from what preparing it gave (see `verdict`).
pub fn syntax_verdict(stmt: &str, outcome: Result<Result<(), String>, String>) -> (r: Result<(), String>)
    ensures
        check_view(r) == verdict(stmt@, outcome_view(outcome)),
{
    match outcome {
        Err(m) => {
            let mut v: Vec<char> = Vec::new();
            push_str_chars(&mut v, "Failed to get SQLite connection: ");
            push_str_chars(&mut v, m.as_str());
            Err(chars_to_string(&v))
        },
        Ok(Ok(_)) => Ok(()),
        Ok(Err(m)) => {
            let cs = str_chars(m.as_str());
            let c = cs.as_slice();
            if contains_str(c, "no such table:") || contains_str(c, "no such column:") || contains_str(
                c,
                "no such collation",
            ) || contains_str(c, "unable to open database file") {
                Ok(())
            } else {
                let mut v: Vec<char> = Vec::new();
                push_str_chars(&mut v, "SQL 语法错误: ");
                push_str_chars(&mut v, m.as_str());
                push_str_chars(&mut v, "\n查询语句: ");
                push_str_chars(&mut v, stmt);
                Err(chars_to_string(&v))
            }
        },
    }
}

/// Checks that a statement is valid SQL by preparing it on an empty in-memory database: the
/// result is SQLite's verdict on the statement (`sqlite_verdict`), unless no connection could
/// be opened, which is reported as such.
pub fn check_sql_syntax(stmt: &str) -> (r: Result<(), String>)
    ensures
        check_outcome(stmt@, check_view(r)),
{
    let outcome = prepare_in_memory(stmt);
    let ghost o = outcome_view(outcome);
    let r = syntax_verdict(stmt, outcome);
    proof {
        if let Err(m) = o {
            assert(check_view(r) == Err::<(), Seq<char>>(connection_failure(m)));
        }
    }
    r
}

/// Statements joined by `;` and a new line, ending in `;` (empty when there are none).
pub open spec fn assembled(stmts: Seq<Seq<char>>) -> Seq<char> {
    if stmts.len() == 0 {
        Seq::empty()
    } else {
        let joined = crate::text::join(stmts, ";\n"@);
        if joined.len() > 0 && joined.last() == ';' {
            joined
        } else {
            joined.push(';')
        }
    }
}

/// Checked SQL with at least one statement ends in `;`; with none it is empty.
pub proof fn lemma_assembled_ends_with_semicolon(stmts: Seq<Seq<char>>)
    ensures
        stmts.len() > 0 ==> assembled(stmts).len() > 0 && assembled(stmts).last() == ';',
        stmts.len() == 0 ==> assembled(stmts).len() == 0,
{
}

/// Joins statements with `;` and a new line and makes sure the whole ends in `;`.
pub fn assemble_statements(stmts: &[String]) -> (r: String)
    ensures
        r@ == assembled(string_views(stmts@)),
{
    if stmts.len() == 0 {
        return String::new();
    }
    let mut v: Vec<char> = Vec::new();
    crate::text::push_joined_strings(&mut v, stmts, ";\n");
    let n = v.len();
    if !(n > 0 && v[n - 1] == ';') {
        v.push(';');
    }
    chars_to_string(&v)
}

/// The statements of `sql`, each laid out by `sqlformat`.
pub open spec fn formatted_statements(sql: Seq<char>) -> Seq<Seq<char>> {
    sql_statements(sql).map_values(|s: Seq<char>| spec_sqlformat(s))
}

/// Whether SQLite's verdict passes each of the first `i` statements.
pub open spec fn all_pass(stmts: Seq<Seq<char>>, i: int) -> bool {
    forall|j: int| 0 <= j < i ==> #[trigger] sqlite_verdict(stmts[j]) is Ok
}

/// What checking and laying out SQL can give: the statements laid out and joined, when
/// SQLite's verdict passes each; otherwise the error of the first statement whose check
/// fails (SQLite's verdict on it, or the failure to open a connection).
pub open spec fn process_outcome(sql: Seq<char>, r: Result<Seq<char>, Seq<char>>) -> bool {
    match r {
        Ok(s) => all_pass(sql_statements(sql), sql_statements(sql).len() as int) && s == assembled(
            formatted_statements(sql),
        ),
        Err(m) => fails_with(sql, m),
    }
}

/// Whether checking some statement of `sql` fails with `m`, every statement before it
/// passing SQLite's verdict.
pub open spec fn fails_with(sql: Seq<char>, m: Seq<char>) -> bool {
    exists|i: int|
        0 <= i < sql_statements(sql).len() && all_pass(sql_statements(sql), i) && #[trigger] check_outcome(
            sql_statements(sql)[i],
            Err::<(), Seq<char>>(m),
        )
}

/// When SQLite passes every statement of `sql`, checking it can fail only for want of a
/// connection.
pub proof fn lemma_passing_sql_fails_only_to_connect(sql: Seq<char>, m: Seq<char>)
    requires
        all_pass(sql_statements(sql), sql_statements(sql).len() as int),
        fails_with(sql, m),
    ensures
        exists|c: Seq<char>| m == connection_failure(c),
{
    let i = choose|i: int|
        0 <= i < sql_statements(sql).len() && all_pass(sql_statements(sql), i) && #[trigger] check_outcome(
            sql_statements(sql)[i],
            Err::<(), Seq<char>>(m),
        );
    assert(sqlite_verdict(sql_statements(sql)[i]) is Ok);
    let c = choose|c: Seq<char>| Err::<(), Seq<char>>(m) == Err::<(), Seq<char>>(#[trigger] connection_failure(c));
    assert(m == connection_failure(c));
}

/// A result of `process_sql` as text.
pub open spec fn text_result(r: Result<String, String>) -> Result<Seq<char>, Seq<char>> {
    match r {
        Ok(s) => Ok(s@),
        Err(m) => Err(m@),
    }
}

/// Checks and lays out SQL: each statement (the pieces between `;`, trimmed, empty ones
/// dropped) must prepare on an empty database, but for a missing schema; the statements are
/// laid out and joined (see `assembled`). The first statement that fails the check is the
/// error. So the result is `Ok` exactly when SQLite passes every statement and a connection
/// could be opened for each.
pub fn process_sql(sql: &str) -> (r: Result<String, String>)
    ensures
        process_outcome(sql@, text_result(r)),
{
    let stmts = split_sql_statements(sql);
    let ghost views = string_views(stmts@);
    let mut out: Vec<String> = Vec::new();
    let n = stmts.len();
    for i in 0..n
        invariant
            n == stmts@.len(),
            views == string_views(stmts@),
            views == sql_statements(sql@),
            string_views(out@) == views.take(i as int).map_values(|s: Seq<char>| spec_sqlformat(s)),
            all_pass(views, i as int),
    {
        let checked = check_sql_syntax(stmts[i].as_str());
        assert(views[i as int] == stmts@[i as int]@);
        match checked {
            Ok(_) => {
                assert(sqlite_verdict(views[i as int]) is Ok) by {
                    if sqlite_verdict(views[i as int]) is Err {
                        let m = choose|m: Seq<char>| check_view(checked) == Err::<(), Seq<char>>(#[trigger] connection_failure(m));
                    }
                }
            },
            Err(m) => {
                assert(check_outcome(sql_statements(sql@)[i as int], Err::<(), Seq<char>>(m@)));
                assert(all_pass(sql_statements(sql@), i as int));
                assert(text_result(Err::<String, String>(m)) == Err::<Seq<char>, Seq<char>>(m@));
                return Err(m);
            },
        }
        let ghost before = out@;
        let f = format_sql(stmts[i].as_str());
        out.push(f);
        proof {
            assert(string_views(out@) == string_views(before).push(f@));
            assert(views.take(i + 1) == views.take(i as int).push(views[i as int]));
            assert(views.take(i + 1).map_values(|s: Seq<char>| spec_sqlformat(s)) == views.take(i as int).map_values(
                |s: Seq<char>| spec_sqlformat(s),
            ).push(spec_sqlformat(views[i as int])));
        }
    }
    assert(views.take(n as int) == views);
    Ok(assemble_statements(out.as_slice()))
}

/// The SQL part of tokens written without quotes, as text (see `parse_sql_no_quotes`).
pub open spec fn sql_part(ts: Seq<SqlToken>) -> Seq<char> {
    match split_point(ts) {
        Some(p) => sql_text(ts.take(p)),
        None => sql_text(ts),
    }
}

/// SQL written without quotes, checked and laid out, with the parameters that follow it:
/// the SQL part becomes text (see `parse_sql_no_quotes`) and goes through `process_sql`.
pub fn sql_no_quotes(tokens: Vec<SqlToken>) -> (r: Result<(String, Option<Vec<SqlToken>>), String>)
    ensures
        r matches Ok((s, _)) ==> s@ == assembled(formatted_statements(sql_part(tokens@))),
        r matches Ok((_, p)) ==> match split_point(tokens@) {
            Some(k) => p matches Some(ps) && ps@ == tokens@.skip(k + 1),
            None => p is None,
        },
        r matches Ok((s, _)) ==> process_outcome(sql_part(tokens@), Ok::<Seq<char>, Seq<char>>(s@)),
        r matches Err(m) ==> process_outcome(sql_part(tokens@), Err::<Seq<char>, Seq<char>>(m@)),
{
    let ghost ts = tokens@;
    let (sql, params) = parse_sql_no_quotes(tokens);
    assert(sql@ == sql_part(ts));
    match process_sql(sql.as_str()) {
        Ok(s) => Ok((s, params)),
        Err(m) => Err(m),
    }
}

} // verus!
