use sqlited::sql_check::{assemble_statements, process_sql, sql_no_quotes, syntax_verdict};
use sqlited::sql_tokens::{find_complex_parameter_separator, parse_sql, parse_sql_no_quotes, Delim, SqlToken};

fn id(s: &str) -> SqlToken {
    SqlToken::Ident(s.to_string())
}

fn p(c: char) -> SqlToken {
    SqlToken::Punct { ch: c, joint: false }
}

fn int_lit(s: &str) -> SqlToken {
    SqlToken::Literal { text: s.to_string(), int_digits: Some(s.to_string()) }
}

fn group(stream: Vec<SqlToken>, text: &str) -> SqlToken {
    SqlToken::Group { delimiter: Delim::Parenthesis, stream, text: text.to_string() }
}

#[test]
fn select_with_table_and_numbered_placeholder() {
    let ts = vec![id("SELECT"), p('*'), id("FROM"), id("User"), id("WHERE"), id("id"), p('='), p('?'), int_lit("1")];
    assert_eq!(parse_sql(&ts), "SELECT * FROM user WHERE id = ?1");
}

#[test]
fn insert_with_groups() {
    let ts = vec![
        id("INSERT"),
        id("INTO"),
        id("UserProfile"),
        group(vec![id("name"), p(','), id("age")], "(name , age)"),
        id("VALUES"),
        group(vec![p('?'), p(','), p('?')], "(? , ?)"),
    ];
    assert_eq!(parse_sql(&ts), "INSERT INTO user_profile (name, age) VALUES (?, ?)");
}

#[test]
fn schema_qualified_table_and_joins() {
    let ts = vec![id("SELECT"), id("a"), id("FROM"), id("main"), p('.'), id("BlogPost"), id("LEFT"), id("JOIN"), id("Author"), id("ON"), id("x")];
    assert_eq!(parse_sql(&ts), "SELECT a FROM main.blog_post LEFT JOIN author ON x");
}

#[test]
fn upsert_do_nothing() {
    let ts = vec![id("ON"), id("CONFLICT"), id("DO"), id("NOTHING")];
    assert_eq!(parse_sql(&ts), "ON CONFLICT DO NOTHING");
}

#[test]
fn parameters_after_from_in_select() {
    let ts = vec![id("SELECT"), id("a"), p(','), id("b"), id("FROM"), id("t"), id("WHERE"), id("x"), p('='), p('?'), p(','), int_lit("5")];
    assert_eq!(find_complex_parameter_separator(&ts), Some(10));
    let (sql, params) = parse_sql_no_quotes(ts);
    assert_eq!(sql, "SELECT a, b FROM t WHERE x = ?");
    let params = params.unwrap();
    assert_eq!(params.len(), 1);
}

#[test]
fn no_parameters_split_for_update_set_or_conflict() {
    let ts = vec![id("UPDATE"), id("t"), id("SET"), id("a"), p('='), p('?'), p(','), id("b"), p('='), p('?')];
    assert_eq!(find_complex_parameter_separator(&ts), None);
    let (sql, params) = parse_sql_no_quotes(ts);
    assert_eq!(sql, "UPDATE t SET a = ?, b = ?");
    assert!(params.is_none());
    let ts = vec![id("INSERT"), id("INTO"), id("t"), id("on"), id("conflict"), p(','), int_lit("1")];
    assert_eq!(find_complex_parameter_separator(&ts), None);
}

#[test]
fn plain_statements_split_at_first_comma() {
    let ts = vec![id("INSERT"), id("INTO"), id("t"), id("VALUES"), group(vec![p('?')], "(?)"), p(','), int_lit("1")];
    let (sql, params) = parse_sql_no_quotes(ts);
    assert_eq!(sql, "INSERT INTO t VALUES (?)");
    assert_eq!(params.unwrap().len(), 1);
}

#[test]
fn statements_checked_and_laid_out() {
    let out = process_sql("SELECT 1; SELECT 2").unwrap();
    let expected = format!(
        "{};\n{};",
        sqlformat::format("SELECT 1", &sqlformat::QueryParams::None, sqlformat::FormatOptions::default()),
        sqlformat::format("SELECT 2", &sqlformat::QueryParams::None, sqlformat::FormatOptions::default())
    );
    assert_eq!(out, expected);
    assert_eq!(process_sql(" ; ").unwrap(), "");
    assert!(process_sql("SELECT * FROM missing_table").is_ok());
    assert!(process_sql("SELEC 1").unwrap_err().starts_with("SQL 语法错误: "));
}

#[test]
fn verdicts() {
    assert!(syntax_verdict("x", Ok(Ok(()))).is_ok());
    assert!(syntax_verdict("x", Ok(Err("no such column: y".to_string()))).is_ok());
    assert_eq!(
        syntax_verdict("x", Ok(Err("near \"x\": syntax error".to_string()))).unwrap_err(),
        "SQL 语法错误: near \"x\": syntax error\n查询语句: x"
    );
    assert_eq!(syntax_verdict("x", Err("boom".to_string())).unwrap_err(), "Failed to get SQLite connection: boom");
}

#[test]
fn assembled_ends_with_semicolon() {
    assert_eq!(assemble_statements(&["a".to_string(), "b;".to_string()]), "a;\nb;");
    assert_eq!(assemble_statements(&["a".to_string()]), "a;");
    assert_eq!(assemble_statements(&[]), "");
}

#[test]
fn whole_macro_input() {
    let ts = vec![id("SELECT"), id("name"), id("FROM"), id("User"), p(','), int_lit("3")];
    let (sql, params) = sql_no_quotes(ts).unwrap();
    let expected = format!(
        "{};",
        sqlformat::format("SELECT name FROM user", &sqlformat::QueryParams::None, sqlformat::FormatOptions::default())
    );
    assert_eq!(sql, expected);
    assert_eq!(params.unwrap().len(), 1);
}
