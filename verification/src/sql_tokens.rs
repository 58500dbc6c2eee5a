use vstd::prelude::*;
use crate::text::{
    char_is_uppercase, chars_to_string, convert_to_snake_name, push_all, push_str_chars, spec_is_uppercase,
    spec_snake_name, spec_uppercase, str_chars, str_eq, str_to_uppercase,
};

verus! {

/// How a group of tokens is delimited.
#[derive(Debug, Clone, Copy, PartialEq, Eq, Structural)]
pub enum Delim {
    Parenthesis,
    Bracket,
    Brace,
    Invisible,
}

/// A token of SQL written without quotes, as the compiler hands it over.
#[derive(Debug)]
pub enum SqlToken {
    /// A word.
    Ident(String),
    /// A literal as written; for an integer literal, its value in base-10 digits as well.
    Literal { text: String, int_digits: Option<String> },
    /// A punctuation character; `joint` when the next character belongs to the same operator.
    Punct { ch: char, joint: bool },
    /// Tokens between delimiters, and the group as a whole prints.
    Group { delimiter: Delim, stream: Vec<SqlToken>, text: String },
}

/// Words that the compiler's parser does not take as plain identifiers.
pub open spec fn is_reserved_word(s: Seq<char>) -> bool {
    ||| s == "_"@ || s == "abstract"@ || s == "as"@ || s == "async"@ || s == "await"@ || s == "become"@
    ||| s == "box"@ || s == "break"@ || s == "const"@ || s == "continue"@ || s == "crate"@ || s == "do"@
    ||| s == "dyn"@ || s == "else"@ || s == "enum"@ || s == "extern"@ || s == "false"@ || s == "final"@
    ||| s == "fn"@ || s == "for"@ || s == "if"@ || s == "impl"@ || s == "in"@ || s == "let"@ || s == "loop"@
    ||| s == "macro"@ || s == "match"@ || s == "mod"@ || s == "move"@ || s == "mut"@ || s == "override"@
    ||| s == "priv"@ || s == "pub"@ || s == "ref"@ || s == "return"@ || s == "Self"@ || s == "self"@
    ||| s == "static"@ || s == "struct"@ || s == "super"@ || s == "trait"@ || s == "true"@ || s == "try"@
    ||| s == "type"@ || s == "typeof"@ || s == "unsafe"@ || s == "unsized"@ || s == "use"@
    ||| s == "virtual"@ || s == "where"@ || s == "while"@ || s == "yield"@
}


/// Whether a word is one the compiler's parser does not take as a plain identifier.
pub fn reserved_word(s: &str) -> (r: bool)
    ensures
        r == is_reserved_word(s@),
{
    let words: [&str; 52] = [
        "_",
        "abstract",
        "as",
        "async",
        "await",
        "become",
        "box",
        "break",
        "const",
        "continue",
        "crate",
        "do",
        "dyn",
        "else",
        "enum",
        "extern",
        "false",
        "final",
        "fn",
        "for",
        "if",
        "impl",
        "in",
        "let",
        "loop",
        "macro",
        "match",
        "mod",
        "move",
        "mut",
        "override",
        "priv",
        "pub",
        "ref",
        "return",
        "Self",
        "self",
        "static",
        "struct",
        "super",
        "trait",
        "true",
        "try",
        "type",
        "typeof",
        "unsafe",
        "unsized",
        "use",
        "virtual",
        "where",
        "while",
        "yield",
    ];
    let ghost views = crate::text::str_views(words@);
    proof {
        assert(views == seq![
            "_"@, "abstract"@, "as"@, "async"@, "await"@, "become"@, "box"@, "break"@, "const"@,
            "continue"@, "crate"@, "do"@, "dyn"@, "else"@, "enum"@, "extern"@, "false"@, "final"@,
            "fn"@, "for"@, "if"@, "impl"@, "in"@, "let"@, "loop"@, "macro"@, "match"@, "mod"@,
            "move"@, "mut"@, "override"@, "priv"@, "pub"@, "ref"@, "return"@, "Self"@, "self"@,
            "static"@, "struct"@, "super"@, "trait"@, "true"@, "try"@, "type"@, "typeof"@,
            "unsafe"@, "unsized"@, "use"@, "virtual"@, "where"@, "while"@, "yield"@,
        ]);
        assert(is_reserved_word(s@) <==> views.contains(s@)) by {
            if is_reserved_word(s@) {
                // the word is one of the entries
                assert(exists|k: int| 0 <= k < views.len() && views[k] == s@) by {
                    if s@ == "_"@ { assert(views[0] == s@); }
                    else if s@ == "abstract"@ { assert(views[1] == s@); }
                    else if s@ == "as"@ { assert(views[2] == s@); }
                    else if s@ == "async"@ { assert(views[3] == s@); }
                    else if s@ == "await"@ { assert(views[4] == s@); }
                    else if s@ == "become"@ { assert(views[5] == s@); }
                    else if s@ == "box"@ { assert(views[6] == s@); }
                    else if s@ == "break"@ { assert(views[7] == s@); }
                    else if s@ == "const"@ { assert(views[8] == s@); }
                    else if s@ == "continue"@ { assert(views[9] == s@); }
                    else if s@ == "crate"@ { assert(views[10] == s@); }
                    else if s@ == "do"@ { assert(views[11] == s@); }
                    else if s@ == "dyn"@ { assert(views[12] == s@); }
                    else if s@ == "else"@ { assert(views[13] == s@); }
                    else if s@ == "enum"@ { assert(views[14] == s@); }
                    else if s@ == "extern"@ { assert(views[15] == s@); }
                    else if s@ == "false"@ { assert(views[16] == s@); }
                    else if s@ == "final"@ { assert(views[17] == s@); }
                    else if s@ == "fn"@ { assert(views[18] == s@); }
                    else if s@ == "for"@ { assert(views[19] == s@); }
                    else if s@ == "if"@ { assert(views[20] == s@); }
                    else if s@ == "impl"@ { assert(views[21] == s@); }
                    else if s@ == "in"@ { assert(views[22] == s@); }
                    else if s@ == "let"@ { assert(views[23] == s@); }
                    else if s@ == "loop"@ { assert(views[24] == s@); }
                    else if s@ == "macro"@ { assert(views[25] == s@); }
                    else if s@ == "match"@ { assert(views[26] == s@); }
                    else if s@ == "mod"@ { assert(views[27] == s@); }
                    else if s@ == "move"@ { assert(views[28] == s@); }
                    else if s@ == "mut"@ { assert(views[29] == s@); }
                    else if s@ == "override"@ { assert(views[30] == s@); }
                    else if s@ == "priv"@ { assert(views[31] == s@); }
                    else if s@ == "pub"@ { assert(views[32] == s@); }
                    else if s@ == "ref"@ { assert(views[33] == s@); }
                    else if s@ == "return"@ { assert(views[34] == s@); }
                    else if s@ == "Self"@ { assert(views[35] == s@); }
                    else if s@ == "self"@ { assert(views[36] == s@); }
                    else if s@ == "static"@ { assert(views[37] == s@); }
                    else if s@ == "struct"@ { assert(views[38] == s@); }
                    else if s@ == "super"@ { assert(views[39] == s@); }
                    else if s@ == "trait"@ { assert(views[40] == s@); }
                    else if s@ == "true"@ { assert(views[41] == s@); }
                    else if s@ == "try"@ { assert(views[42] == s@); }
                    else if s@ == "type"@ { assert(views[43] == s@); }
                    else if s@ == "typeof"@ { assert(views[44] == s@); }
                    else if s@ == "unsafe"@ { assert(views[45] == s@); }
                    else if s@ == "unsized"@ { assert(views[46] == s@); }
                    else if s@ == "use"@ { assert(views[47] == s@); }
                    else if s@ == "virtual"@ { assert(views[48] == s@); }
                    else if s@ == "where"@ { assert(views[49] == s@); }
                    else if s@ == "while"@ { assert(views[50] == s@); }
                    else { assert(views[51] == s@); }
                }
            }
        }
    }
    let n = words.len();
    for i in 0..n
        invariant
            n == words@.len(),
            views == crate::text::str_views(words@),
            is_reserved_word(s@) <==> views.contains(s@),
            forall|k: int| 0 <= k < i ==> views[k] != s@,
    {
        if str_eq(s, words[i]) {
            assert(views[i as int] == s@);
            return true;
        }
    }
    false
}

// ---------------------------------------------------------------------------
// Writing tokens out as SQL text

/// `sql` with a space after it when the next token wants one and it does not end in one.
pub open spec fn ensure_space(sql: Seq<char>, needs: bool) -> Seq<char> {
    if needs && sql.len() > 0 && sql.last() != ' ' {
        sql.push(' ')
    } else {
        sql
    }
}

/// `sql` without its trailing space, if any.
pub open spec fn trim_space(sql: Seq<char>) -> Seq<char> {
    if sql.len() > 0 && sql.last() == ' ' {
        sql.drop_last()
    } else {
        sql
    }
}

/// The text after adding `tok`: with a space before it if `before` (and the last token
/// allowed one), else with no space before it; `after` says whether the next token may be
/// spaced from it.
pub open spec fn pushed(st: (Seq<char>, bool), tok: Seq<char>, before: bool, after: bool) -> (Seq<char>, bool) {
    let s = if before {
        ensure_space(st.0, st.1)
    } else {
        trim_space(st.0)
    };
    (s + tok, after)
}

/// How a punctuation character is spaced: before and after.
pub open spec fn punct_spacing(c: char) -> (bool, bool) {
    if c == '.' {
        (false, false)
    } else if c == ',' || c == ';' {
        (false, true)
    } else if c == '(' || c == '[' {
        (true, false)
    } else if c == ')' || c == ']' {
        (false, true)
    } else {
        (true, true)
    }
}

/// A token as it prints.
pub open spec fn token_text(t: SqlToken) -> Seq<char> {
    match t {
        SqlToken::Ident(s) => s@,
        SqlToken::Literal { text, .. } => text@,
        SqlToken::Punct { ch, .. } => seq![ch],
        SqlToken::Group { text, .. } => text@,
    }
}

/// The text after adding a token as it prints, spaced by its kind.
pub open spec fn push_token_text(st: (Seq<char>, bool), t: SqlToken) -> (Seq<char>, bool) {
    match t {
        SqlToken::Punct { ch, .. } => pushed(st, seq![ch], punct_spacing(ch).0, punct_spacing(ch).1),
        _ => pushed(st, token_text(t), true, true),
    }
}

/// Whether a token is the word `name`.
pub open spec fn is_word(t: SqlToken, name: Seq<char>) -> bool {
    t matches SqlToken::Ident(s) && s@ == name
}

/// Whether a token is a word the parser takes as a plain identifier.
pub open spec fn is_plain_ident(t: SqlToken) -> bool {
    t matches SqlToken::Ident(s) && !is_reserved_word(s@)
}

/// Whether a token is the punctuation character `c`.
pub open spec fn is_punct(t: SqlToken, c: char) -> bool {
    t matches SqlToken::Punct { ch, .. } && ch == c
}

/// Whether a token is `:` joined to the next character.
pub open spec fn is_joint_colon(t: SqlToken) -> bool {
    t matches SqlToken::Punct { ch, joint } && ch == ':' && joint
}

/// The text of a word token.
pub open spec fn word_text(t: SqlToken) -> Seq<char> {
    match t {
        SqlToken::Ident(s) => s@,
        _ => Seq::empty(),
    }
}

/// A table's name as written in SQL: a name beginning with an uppercase letter is taken as
/// a type's name and turned into its snake-case table name; any other stays as it is.
pub open spec fn table_text(name: Seq<char>) -> Seq<char> {
    if name.len() > 0 && spec_is_uppercase(name[0]) {
        spec_snake_name(name)
    } else {
        name
    }
}

/// After `FROM`, `JOIN`, `UPDATE` or `INTO` at `j`: a table name (alone, or after a schema
/// and `.`) is written as `table_text` gives it; anything else is left for the main loop.
pub open spec fn table_step(ts: Seq<SqlToken>, j: int, st: (Seq<char>, bool)) -> (int, (Seq<char>, bool)) {
    if 0 <= j < ts.len() && is_plain_ident(ts[j]) && !(j + 1 < ts.len() && is_punct(ts[j + 1], '.')) && !(j + 2
        < ts.len() && is_joint_colon(ts[j + 1]) && is_punct(ts[j + 2], ':')) {
        (j + 1, pushed(st, table_text(word_text(ts[j])), true, true))
    } else if 0 <= j && j + 2 < ts.len() && is_plain_ident(ts[j]) && is_punct(ts[j + 1], '.') && is_plain_ident(
        ts[j + 2],
    ) {
        let s1 = pushed(st, word_text(ts[j]), true, false);
        let s2 = pushed(s1, seq!['.'], false, false);
        (j + 3, pushed(s2, table_text(word_text(ts[j + 2])), false, true))
    } else {
        (j, st)
    }
}

/// The opening and closing text of a delimiter.
pub open spec fn delim_text(d: Delim) -> (Seq<char>, Seq<char>) {
    match d {
        Delim::Parenthesis => (seq!['('], seq![')']),
        Delim::Bracket => (seq!['['], seq![']']),
        Delim::Brace => (seq!['{'], seq!['}']),
        Delim::Invisible => (Seq::empty(), Seq::empty()),
    }
}

/// The text built from the tokens from `i` on, starting from `st`: `FROM`, `JOIN`,
/// `UPDATE` and `INTO` are followed by a table name; `DO` by `UPDATE`, `NOTHING` or any one
/// token; `?` and an integer make one placeholder; a group is written with its delimiters
/// around its own tokens; any other token is written as it prints.
pub open spec fn run(ts: Seq<SqlToken>, i: int, st: (Seq<char>, bool)) -> (Seq<char>, bool)
    decreases ts, ts.len() - i,
{
    if i < 0 || i >= ts.len() {
        st
    } else {
        let t = ts[i];
        if is_word(t, "FROM"@) || is_word(t, "UPDATE"@) || is_word(t, "INTO"@) {
            let (j, s2) = table_step(ts, i + 1, pushed(st, word_text(t), true, true));
            run(ts, j, s2)
        } else if is_word(t, "JOIN"@) {
            let s1 = pushed(st, "JOIN"@, true, true);
            let (k, s2) = if i + 1 < ts.len() && is_word(ts[i + 1], "JOIN"@) {
                (i + 2, pushed(s1, "JOIN"@, true, true))
            } else {
                (i + 1, s1)
            };
            let (j, s3) = table_step(ts, k, s2);
            run(ts, j, s3)
        } else if is_word(t, "DO"@) {
            let s1 = pushed(st, "DO"@, true, true);
            if i + 1 < ts.len() && (is_word(ts[i + 1], "UPDATE"@) || is_word(ts[i + 1], "NOTHING"@)) {
                run(ts, i + 2, pushed(s1, word_text(ts[i + 1]), true, true))
            } else if i + 1 < ts.len() {
                run(ts, i + 2, push_token_text(s1, ts[i + 1]))
            } else {
                run(ts, i + 1, s1)
            }
        } else if is_punct(t, '?') && i + 1 < ts.len() && ts[i + 1] matches SqlToken::Literal { int_digits: Some(_), .. } {
            let d = ts[i + 1]->int_digits->0;
            run(ts, i + 2, pushed(st, seq!['?'] + d@, true, true))
        } else {
            match t {
                SqlToken::Group { delimiter, stream, .. } => {
                    proof {
                        assert(decreases_to!(ts => ts[i]));
                    }
                    let s1 = pushed(st, delim_text(delimiter).0, true, false);
                    let inner = sql_text(stream@);
                    run(ts, i + 1, pushed((s1.0 + inner, false), delim_text(delimiter).1, false, true))
                },
                _ => run(ts, i + 1, push_token_text(st, t)),
            }
        }
    }
}

/// Whether `p` begins `s`.
pub open spec fn begins(s: Seq<char>, p: Seq<char>) -> bool {
    p.len() <= s.len() && s.take(p.len() as int) == p
}

/// Whether a text does not end in a space (so trimming leaves it whole).
pub open spec fn settled(p: Seq<char>) -> bool {
    p.len() == 0 || p.last() != ' '
}

proof fn lemma_begins_more(s: Seq<char>, p: Seq<char>, x: Seq<char>)
    requires
        begins(s, p),
    ensures
        begins(s + x, p),
{
    assert((s + x).take(p.len() as int) =~= s.take(p.len() as int));
}

proof fn lemma_trim_keeps(s: Seq<char>, p: Seq<char>)
    requires
        begins(s, p),
        settled(p),
    ensures
        begins(trim_space(s), p),
{
    if s.len() > 0 && s.last() == ' ' {
        if s.len() == p.len() {
            assert(s.take(p.len() as int) =~= s);
            assert(s.last() == p.last());
        }
        assert(s.drop_last().take(p.len() as int) =~= s.take(p.len() as int));
    }
}

proof fn lemma_pushed_keeps(st: (Seq<char>, bool), p: Seq<char>, tok: Seq<char>, before: bool, after: bool)
    requires
        begins(st.0, p),
        settled(p),
    ensures
        begins(pushed(st, tok, before, after).0, p),
{
    let a = if before {
        ensure_space(st.0, st.1)
    } else {
        trim_space(st.0)
    };
    if before {
        if st.1 && st.0.len() > 0 && st.0.last() != ' ' {
            lemma_begins_more(st.0, p, seq![' ']);
            assert(st.0 + seq![' '] =~= st.0.push(' '));
        }
    } else {
        lemma_trim_keeps(st.0, p);
    }
    lemma_begins_more(a, p, tok);
}

proof fn lemma_table_step_keeps(ts: Seq<SqlToken>, j: int, st: (Seq<char>, bool), p: Seq<char>)
    requires
        begins(st.0, p),
        settled(p),
    ensures
        begins(table_step(ts, j, st).1.0, p),
{
    if 0 <= j < ts.len() && is_plain_ident(ts[j]) && !(j + 1 < ts.len() && is_punct(ts[j + 1], '.')) && !(j + 2
        < ts.len() && is_joint_colon(ts[j + 1]) && is_punct(ts[j + 2], ':')) {
        lemma_pushed_keeps(st, p, table_text(word_text(ts[j])), true, true);
    } else if 0 <= j && j + 2 < ts.len() && is_plain_ident(ts[j]) && is_punct(ts[j + 1], '.') && is_plain_ident(
        ts[j + 2],
    ) {
        let s1 = pushed(st, word_text(ts[j]), true, false);
        let s2 = pushed(s1, seq!['.'], false, false);
        lemma_pushed_keeps(st, p, word_text(ts[j]), true, false);
        lemma_pushed_keeps(s1, p, seq!['.'], false, false);
        lemma_pushed_keeps(s2, p, table_text(word_text(ts[j + 2])), false, true);
    }
}

proof fn lemma_push_token_keeps(st: (Seq<char>, bool), t: SqlToken, p: Seq<char>)
    requires
        begins(st.0, p),
        settled(p),
    ensures
        begins(push_token_text(st, t).0, p),
{
    match t {
        SqlToken::Punct { ch, .. } => lemma_pushed_keeps(st, p, seq![ch], punct_spacing(ch).0, punct_spacing(ch).1),
        _ => lemma_pushed_keeps(st, p, token_text(t), true, true),
    }
}

/// Text already written, up to a character other than a space, stays at the start of what
/// the tokens from `i` on make of it: later tokens only add text after it.
pub proof fn lemma_run_keeps_written(ts: Seq<SqlToken>, i: int, st: (Seq<char>, bool), p: Seq<char>)
    requires
        begins(st.0, p),
        settled(p),
    ensures
        begins(run(ts, i, st).0, p),
    decreases ts.len() - i,
{
    if 0 <= i < ts.len() {
        let t = ts[i];
        if is_word(t, "FROM"@) || is_word(t, "UPDATE"@) || is_word(t, "INTO"@) {
            let s1 = pushed(st, word_text(t), true, true);
            lemma_pushed_keeps(st, p, word_text(t), true, true);
            lemma_table_step_keeps(ts, i + 1, s1, p);
            let (j, s2) = table_step(ts, i + 1, s1);
            if j > i {
                lemma_run_keeps_written(ts, j, s2, p);
            }
        } else if is_word(t, "JOIN"@) {
            let s1 = pushed(st, "JOIN"@, true, true);
            lemma_pushed_keeps(st, p, "JOIN"@, true, true);
            let (k, s2) = if i + 1 < ts.len() && is_word(ts[i + 1], "JOIN"@) {
                (i + 2, pushed(s1, "JOIN"@, true, true))
            } else {
                (i + 1, s1)
            };
            lemma_pushed_keeps(s1, p, "JOIN"@, true, true);
            lemma_table_step_keeps(ts, k, s2, p);
            let (j, s3) = table_step(ts, k, s2);
            lemma_run_keeps_written(ts, j, s3, p);
        } else if is_word(t, "DO"@) {
            let s1 = pushed(st, "DO"@, true, true);
            lemma_pushed_keeps(st, p, "DO"@, true, true);
            if i + 1 < ts.len() && (is_word(ts[i + 1], "UPDATE"@) || is_word(ts[i + 1], "NOTHING"@)) {
                lemma_pushed_keeps(s1, p, word_text(ts[i + 1]), true, true);
                lemma_run_keeps_written(ts, i + 2, pushed(s1, word_text(ts[i + 1]), true, true), p);
            } else if i + 1 < ts.len() {
                lemma_push_token_keeps(s1, ts[i + 1], p);
                lemma_run_keeps_written(ts, i + 2, push_token_text(s1, ts[i + 1]), p);
            } else {
                lemma_run_keeps_written(ts, i + 1, s1, p);
            }
        } else if is_punct(t, '?') && i + 1 < ts.len() && ts[i + 1] matches SqlToken::Literal { int_digits: Some(_), .. } {
            let d = ts[i + 1]->int_digits->0;
            lemma_pushed_keeps(st, p, seq!['?'] + d@, true, true);
            lemma_run_keeps_written(ts, i + 2, pushed(st, seq!['?'] + d@, true, true), p);
        } else {
            match t {
                SqlToken::Group { delimiter, stream, .. } => {
                    let s1 = pushed(st, delim_text(delimiter).0, true, false);
                    lemma_pushed_keeps(st, p, delim_text(delimiter).0, true, false);
                    let inner = sql_text(stream@);
                    lemma_begins_more(s1.0, p, inner);
                    lemma_pushed_keeps((s1.0 + inner, false), p, delim_text(delimiter).1, false, true);
                    lemma_run_keeps_written(
                        ts,
                        i + 1,
                        pushed((s1.0 + inner, false), delim_text(delimiter).1, false, true),
                        p,
                    );
                },
                _ => {
                    lemma_push_token_keeps(st, t, p);
                    lemma_run_keeps_written(ts, i + 1, push_token_text(st, t), p);
                },
            }
        }
    }
}

/// A statement opening with `FROM`, `UPDATE`, `INTO` or `JOIN` and a type's name (a plain word
/// beginning with an uppercase letter, not followed by `.` or `::`) is written with that
/// word, a space and the name's snake-case table name (a table name, never empty, ends in
/// a character other than a space): `UPDATE UserProfile SET ..` becomes
/// `UPDATE user_profile SET ..`, as `FROM`, `INTO` and `JOIN` do.
pub proof fn lemma_table_name_after_keyword(ts: Seq<SqlToken>, w: Seq<char>)
    requires
        w == "FROM"@ || w == "UPDATE"@ || w == "INTO"@ || w == "JOIN"@,
        ts.len() >= 2,
        w == "JOIN"@ ==> !is_word(ts[1], "JOIN"@),
        is_word(ts[0], w),
        is_plain_ident(ts[1]),
        word_text(ts[1]).len() > 0,
        spec_is_uppercase(word_text(ts[1])[0]),
        settled(spec_snake_name(word_text(ts[1]))),
        spec_snake_name(word_text(ts[1])).len() > 0,
        !(ts.len() > 2 && is_punct(ts[2], '.')),
        !(ts.len() > 3 && is_joint_colon(ts[2]) && is_punct(ts[3], ':')),
    ensures
        begins(sql_text(ts), w + " "@ + spec_snake_name(word_text(ts[1]))),
{
    reveal_strlit("FROM");
    reveal_strlit("UPDATE");
    reveal_strlit("INTO");
    reveal_strlit("JOIN");
    reveal_strlit(" ");
    let st0 = (Seq::<char>::empty(), false);
    let s1 = pushed(st0, word_text(ts[0]), true, true);
    assert(s1.0 =~= w);
    assert(s1.1);
    let name = word_text(ts[1]);
    let s2 = pushed(s1, table_text(name), true, true);
    assert(table_text(name) == spec_snake_name(name));
    let p = w + " "@ + spec_snake_name(name);
    assert(s2.0 =~= p);
    assert(table_step(ts, 1, s1) == (2int, s2));
    if w == "JOIN"@ {
        assert(pushed(st0, "JOIN"@, true, true) == s1);
    }
    assert(run(ts, 0, st0) == run(ts, 2, s2));
    assert(s2.0.take(p.len() as int) =~= p);
    lemma_run_keeps_written(ts, 2, s2, p);
    lemma_trim_keeps(run(ts, 0, st0).0, p);
}

/// A `?` followed by an integer literal is written as one placeholder: a statement that
/// opens with `?` and the literal `n` begins `?n`, with no space between.
pub proof fn lemma_numbered_placeholder(ts: Seq<SqlToken>, d: String)
    requires
        ts.len() >= 2,
        is_punct(ts[0], '?'),
        ts[1] matches SqlToken::Literal { int_digits: Some(x), .. } && x == d,
        settled(d@),
    ensures
        begins(sql_text(ts), seq!['?'] + d@),
{
    let st0 = (Seq::<char>::empty(), false);
    let p = seq!['?'] + d@;
    let s1 = pushed(st0, p, true, true);
    assert(s1.0 =~= p);
    assert(run(ts, 0, st0) == run(ts, 2, s1));
    assert(s1.0.take(p.len() as int) =~= p);
    lemma_run_keeps_written(ts, 2, s1, p);
    lemma_trim_keeps(run(ts, 0, st0).0, p);
}

/// The SQL text the tokens make, without a trailing space.
pub open spec fn sql_text(ts: Seq<SqlToken>) -> Seq<char>
    decreases ts, ts.len() + 1,
{
    trim_space(run(ts, 0, (Seq::empty(), false)).0)
}

/// SQL text being written from tokens, and whether the next token may be spaced from the
/// last.
pub struct SqlBuilder {
    sql: Vec<char>,
    needs_leading_space: bool,
}

impl SqlBuilder {
    /// The text so far and the spacing the next token gets.
    pub closed spec fn state(&self) -> (Seq<char>, bool) {
        (self.sql@, self.needs_leading_space)
    }

    /// An empty text.
    pub fn new() -> (r: Self)
        ensures
            r.state() == (Seq::<char>::empty(), false),
    {
        SqlBuilder { sql: Vec::new(), needs_leading_space: false }
    }

    /// Adds a space unless the text is empty, ends in a space or the last token wants none.
    pub fn ensure_space(&mut self)
        ensures
            final(self).state() == (ensure_space(old(self).state().0, old(self).state().1), old(self).state().1),
    {
        let n = self.sql.len();
        if self.needs_leading_space && n > 0 && self.sql[n - 1] != ' ' {
            self.sql.push(' ');
        }
    }

    /// Removes a trailing space, if any.
    pub fn trim_trailing_space(&mut self)
        ensures
            final(self).state() == (trim_space(old(self).state().0), old(self).state().1),
    {
        let n = self.sql.len();
        if n > 0 && self.sql[n - 1] == ' ' {
            self.sql.pop();
        }
    }

    /// Adds a token's text, spaced from the last one if `space_before`; `space_after` says
    /// whether the next may be spaced from it.
    pub fn push(&mut self, token: &str, space_before: bool, space_after: bool)
        ensures
            final(self).state() == pushed(old(self).state(), token@, space_before, space_after),
    {
        if space_before {
            self.ensure_space();
        } else {
            self.trim_trailing_space();
        }
        push_str_chars(&mut self.sql, token);
        self.needs_leading_space = space_after;
    }

    fn push_chars(&mut self, token: &[char], space_before: bool, space_after: bool)
        ensures
            final(self).state() == pushed(old(self).state(), token@, space_before, space_after),
    {
        if space_before {
            self.ensure_space();
        } else {
            self.trim_trailing_space();
        }
        push_all(&mut self.sql, token);
        self.needs_leading_space = space_after;
    }

    /// Adds a token as it prints, spaced by its kind.
    pub fn push_token(&mut self, token: &SqlToken)
        ensures
            final(self).state() == push_token_text(old(self).state(), *token),
    {
        match token {
            SqlToken::Ident(s) => self.push(s.as_str(), true, true),
            SqlToken::Literal { text, .. } => self.push(text.as_str(), true, true),
            SqlToken::Punct { ch, .. } => {
                let c = *ch;
                let (before, after) = if c == '.' {
                    (false, false)
                } else if c == ',' || c == ';' {
                    (false, true)
                } else if c == '(' || c == '[' {
                    (true, false)
                } else if c == ')' || c == ']' {
                    (false, true)
                } else {
                    (true, true)
                };
                let one: Vec<char> = vec![c];
                self.push_chars(one.as_slice(), before, after);
            },
            SqlToken::Group { text, .. } => self.push(text.as_str(), true, true),
        }
    }

    /// The text, without a trailing space.
    pub fn finalize(self) -> (r: String)
        ensures
            r@ == trim_space(self.state().0),
    {
        let mut b = self;
        b.trim_trailing_space();
        chars_to_string(&b.sql)
    }
}

fn word_is(t: &SqlToken, name: &str) -> (r: bool)
    ensures
        r == is_word(*t, name@),
{
    match t {
        SqlToken::Ident(s) => str_eq(s.as_str(), name),
        _ => false,
    }
}

fn punct_is(t: &SqlToken, c: char) -> (r: bool)
    ensures
        r == is_punct(*t, c),
{
    match t {
        SqlToken::Punct { ch, .. } => *ch == c,
        _ => false,
    }
}

fn plain_ident(t: &SqlToken) -> (r: bool)
    ensures
        r == is_plain_ident(*t),
{
    match t {
        SqlToken::Ident(s) => !reserved_word(s.as_str()),
        _ => false,
    }
}

fn joint_colon(t: &SqlToken) -> (r: bool)
    ensures
        r == is_joint_colon(*t),
{
    match t {
        SqlToken::Punct { ch, joint } => *ch == ':' && *joint,
        _ => false,
    }
}

fn word_of(t: &SqlToken) -> (r: &str)
    ensures
        r@ == word_text(*t),
{
    proof {
        reveal_strlit("");
    }
    match t {
        SqlToken::Ident(s) => s.as_str(),
        _ => "",
    }
}

/// A table's name as written in SQL (see `table_text`).
pub fn table_name_text(name: &str) -> (r: String)
    ensures
        r@ == table_text(name@),
{
    let cs = str_chars(name);
    if cs.len() > 0 && char_is_uppercase(cs[0]) {
        convert_to_snake_name(name)
    } else {
        name.to_owned()
    }
}

/// Writes the table name that may follow a keyword at `j`; the position after it.
fn parse_optional_table_name(ts: &[SqlToken], j: usize, b: &mut SqlBuilder) -> (r: usize)
    requires
        j <= ts@.len(),
    ensures
        (r as int, final(b).state()) == table_step(ts@, j as int, old(b).state()),
        j <= r <= ts@.len(),
{
    let n = ts.len();
    if j < n && plain_ident(&ts[j]) && !(n - j > 1 && punct_is(&ts[j + 1], '.')) && !(n - j > 2 && joint_colon(
        &ts[j + 1],
    ) && punct_is(&ts[j + 2], ':')) {
        let t = table_name_text(word_of(&ts[j]));
        b.push(t.as_str(), true, true);
        j + 1
    } else if j < n && n - j > 2 && plain_ident(&ts[j]) && punct_is(&ts[j + 1], '.') && plain_ident(&ts[j + 2]) {
        b.push(word_of(&ts[j]), true, false);
        b.push(".", false, false);
        proof {
            reveal_strlit(".");
        }
        let t = table_name_text(word_of(&ts[j + 2]));
        b.push(t.as_str(), false, true);
        j + 3
    } else {
        j
    }
}

/// The SQL text that tokens written without quotes make (see `run`): keywords that take a
/// table are followed by the table's name in snake case, `?` and an integer make one
/// placeholder, groups keep their delimiters, and tokens are spaced by their kinds.
pub fn parse_sql(ts: &[SqlToken]) -> (r: String)
    ensures
        r@ == sql_text(ts@),
    decreases ts@,
{
    let mut b = SqlBuilder::new();
    let n = ts.len();
    let mut i: usize = 0;
    while i < n
        invariant
            n == ts@.len(),
            i <= n,
            run(ts@, i as int, b.state()) == run(ts@, 0, (Seq::<char>::empty(), false)),
        decreases n - i,
    {
        let ghost st = b.state();
        let ghost i0 = i;
        let t = &ts[i];
        if word_is(t, "FROM") || word_is(t, "UPDATE") || word_is(t, "INTO") {
            b.push(word_of(t), true, true);
            i = parse_optional_table_name(ts, i + 1, &mut b);
            assert(run(ts@, i0 as int, st) == run(ts@, i as int, b.state()));
        } else if word_is(t, "JOIN") {
            b.push("JOIN", true, true);
            let k = if i + 1 < n && word_is(&ts[i + 1], "JOIN") {
                b.push("JOIN", true, true);
                i + 2
            } else {
                i + 1
            };
            i = parse_optional_table_name(ts, k, &mut b);
            assert(run(ts@, i0 as int, st) == run(ts@, i as int, b.state()));
        } else if word_is(t, "DO") {
            b.push("DO", true, true);
            if i + 1 < n && (word_is(&ts[i + 1], "UPDATE") || word_is(&ts[i + 1], "NOTHING")) {
                b.push(word_of(&ts[i + 1]), true, true);
                i = i + 2;
            } else if i + 1 < n {
                b.push_token(&ts[i + 1]);
                i = i + 2;
            } else {
                i = i + 1;
            }
            assert(run(ts@, i0 as int, st) == run(ts@, i as int, b.state()));
        } else if punct_is(t, '?') && i + 1 < n && (match &ts[i + 1] {
            SqlToken::Literal { int_digits: Some(_), .. } => true,
            _ => false,
        }) {
            match &ts[i + 1] {
                SqlToken::Literal { int_digits: Some(d), .. } => {
                    let mut p: Vec<char> = vec!['?'];
                    push_str_chars(&mut p, d.as_str());
                    assert(p@ == seq!['?'] + d@);
                    b.push_chars(p.as_slice(), true, true);
                },
                _ => {},
            }
            i = i + 2;
            assert(run(ts@, i0 as int, st) == run(ts@, i as int, b.state()));
        } else {
            match t {
                SqlToken::Group { delimiter, stream, .. } => {
                    let (open, close) = match delimiter {
                        Delim::Parenthesis => ("(", ")"),
                        Delim::Bracket => ("[", "]"),
                        Delim::Brace => ("{", "}"),
                        Delim::Invisible => ("", ""),
                    };
                    proof {
                        reveal_strlit("(");
                        reveal_strlit(")");
                        reveal_strlit("[");
                        reveal_strlit("]");
                        reveal_strlit("{");
                        reveal_strlit("}");
                        reveal_strlit("");
                        assert(decreases_to!(ts@ => ts@[i as int]));
                    }
                    assert(open@ == delim_text(*delimiter).0 && close@ == delim_text(*delimiter).1);
                    b.push(open, true, false);
                    let ghost s1 = b.state();
                    let inner = parse_sql(stream.as_slice());
                    push_str_chars(&mut b.sql, inner.as_str());
                    b.needs_leading_space = false;
                    assert(b.state() == (s1.0 + sql_text(stream@), false));
                    b.push(close, false, true);
                    assert(run(ts@, i0 as int, st) == run(ts@, i + 1, b.state()));
                },
                _ => {
                    b.push_token(t);
                    assert(run(ts@, i0 as int, st) == run(ts@, i + 1, b.state()));
                },
            }
            i = i + 1;
        }
        assert(run(ts@, i0 as int, st) == run(ts@, i as int, b.state()));
    }
    b.finalize()
}

// ---------------------------------------------------------------------------
// Where the SQL ends and the parameters begin

/// Whether a token is a word whose uppercase form is `w`.
pub open spec fn upper_is(t: SqlToken, w: Seq<char>) -> bool {
    t matches SqlToken::Ident(s) && spec_uppercase(s@) == w
}

/// Whether some token is a word whose uppercase form is `w`.
pub open spec fn has_upper(ts: Seq<SqlToken>, w: Seq<char>) -> bool {
    exists|i: int| 0 <= i < ts.len() && upper_is(#[trigger] ts[i], w)
}

/// Whether `SET` follows `UPDATE` (an `UPDATE ... SET` statement).
pub open spec fn update_set(ts: Seq<SqlToken>) -> bool {
    exists|i: int| 0 <= i < ts.len() && upper_is(#[trigger] ts[i], "SET"@) && has_upper(ts.take(i), "UPDATE"@)
}

/// Whether `CONFLICT` directly follows `ON`.
pub open spec fn on_conflict(ts: Seq<SqlToken>) -> bool {
    exists|i: int| 0 < i < ts.len() && upper_is(#[trigger] ts[i], "CONFLICT"@) && upper_is(ts[i - 1], "ON"@)
}

/// How many `(` less `)` come before position `i`.
pub open spec fn paren_depth(ts: Seq<SqlToken>, i: int) -> int
    decreases i,
{
    if i <= 0 || i > ts.len() {
        0
    } else {
        paren_depth(ts, i - 1) + if is_punct(ts[i - 1], '(') {
            1int
        } else if is_punct(ts[i - 1], ')') {
            -1int
        } else {
            0int
        }
    }
}

/// Whether the comma at `i` separates the SQL from its parameters: it is not within
/// parentheses and, in a `SELECT`, it comes after `FROM`.
pub open spec fn separates(ts: Seq<SqlToken>, i: int, select: bool) -> bool {
    is_punct(ts[i], ',') && paren_depth(ts, i) == 0 && (!select || has_upper(ts.take(i), "FROM"@))
}

/// The first separating comma from `i` on.
pub open spec fn first_separator_from(ts: Seq<SqlToken>, i: int, select: bool) -> Option<int>
    decreases ts.len() - i,
{
    if i < 0 || i >= ts.len() {
        None
    } else if separates(ts, i, select) {
        Some(i)
    } else {
        first_separator_from(ts, i + 1, select)
    }
}

/// The first comma from `i` on.
pub open spec fn first_comma_from(ts: Seq<SqlToken>, i: int) -> Option<int>
    decreases ts.len() - i,
{
    if i < 0 || i >= ts.len() {
        None
    } else if is_punct(ts[i], ',') {
        Some(i)
    } else {
        first_comma_from(ts, i + 1)
    }
}

/// Where the parameters of a `SELECT`, `UPDATE` or `ON CONFLICT` statement begin: none
/// for an `UPDATE ... SET` or an `ON CONFLICT`; otherwise after the first comma outside
/// parentheses (in a `SELECT`, after `FROM`).
pub open spec fn complex_separator(ts: Seq<SqlToken>) -> Option<int> {
    if on_conflict(ts) || update_set(ts) {
        None
    } else {
        first_separator_from(ts, 0, has_upper(ts, "SELECT"@))
    }
}

/// Whether the tokens hold `SELECT`, `UPDATE` or `CONFLICT` (in any case).
pub open spec fn needs_special_handling(ts: Seq<SqlToken>) -> bool {
    has_upper(ts, "SELECT"@) || has_upper(ts, "UPDATE"@) || has_upper(ts, "CONFLICT"@)
}

/// The comma that ends the SQL, if any.
pub open spec fn split_point(ts: Seq<SqlToken>) -> Option<int> {
    if needs_special_handling(ts) {
        complex_separator(ts)
    } else {
        first_comma_from(ts, 0)
    }
}

fn upper_word_is(t: &SqlToken, w: &str) -> (r: bool)
    ensures
        r == upper_is(*t, w@),
{
    match t {
        SqlToken::Ident(s) => {
            let u = str_to_uppercase(s.as_str());
            str_eq(u.as_str(), w)
        },
        _ => false,
    }
}

/// The position of the comma after which the parameters of a `SELECT`, `UPDATE` or
/// `ON CONFLICT` statement begin (see `complex_separator`).
pub fn find_complex_parameter_separator(ts: &[SqlToken]) -> (r: Option<usize>)
    ensures
        match r {
            Some(p) => complex_separator(ts@) == Some(p as int),
            None => complex_separator(ts@) is None,
        },
{
    let n = ts.len();
    let mut select = false;
    let mut update_seen = false;
    let mut set_after_update = false;
    for i in 0..n
        invariant
            n == ts@.len(),
            select == has_upper(ts@.take(i as int), "SELECT"@),
            update_seen == has_upper(ts@.take(i as int), "UPDATE"@),
            set_after_update == update_set(ts@.take(i as int)),
            !on_conflict(ts@.take(i as int)),
    {
        let ghost pre = ts@.take(i as int);
        let ghost cur = ts@.take(i + 1);
        proof {
            assert(cur == pre.push(ts@[i as int]));
            assert forall|w: Seq<char>| has_upper(cur, w) <==> (has_upper(pre, w) || upper_is(ts@[i as int], w)) by {
                if has_upper(cur, w) {
                    let k = choose|k: int| 0 <= k < cur.len() && upper_is(#[trigger] cur[k], w);
                    if k < i {
                        assert(pre[k] == cur[k]);
                    }
                }
                if has_upper(pre, w) {
                    let k = choose|k: int| 0 <= k < pre.len() && upper_is(#[trigger] pre[k], w);
                    assert(cur[k] == pre[k]);
                }
                if upper_is(ts@[i as int], w) {
                    assert(cur[i as int] == ts@[i as int]);
                }
            }
            assert forall|k: int| 0 <= k <= i implies #[trigger] cur.take(k) == pre.take(k) || k == i + 1 by {}
        }
        let t = &ts[i];
        if upper_word_is(t, "CONFLICT") && i > 0 && upper_word_is(&ts[i - 1], "ON") {
            proof {
                lemma_on_conflict_extends(ts@, i as int);
            }
            return None;
        }
        if upper_word_is(t, "SELECT") {
            select = true;
        } else if upper_word_is(t, "SET") && update_seen {
            set_after_update = true;
        }
        if upper_word_is(t, "UPDATE") {
            update_seen = true;
        }
        proof {
            lemma_update_set_step(ts@, i as int);
            lemma_on_conflict_step(ts@, i as int);
            reveal_strlit("SELECT");
            reveal_strlit("SET");
            reveal_strlit("UPDATE");
            assert("SELECT"@.len() != "SET"@.len());
        }
    }
    assert(ts@.take(n as int) == ts@);
    if set_after_update {
        return None;
    }
    let mut depth: i128 = 0;
    let mut after_from = false;
    for i in 0..n
        invariant
            n == ts@.len(),
            n <= usize::MAX,
            select == has_upper(ts@, "SELECT"@),
            !on_conflict(ts@) && !update_set(ts@),
            depth as int == paren_depth(ts@, i as int),
            -(i as int) <= depth <= i,
            after_from == has_upper(ts@.take(i as int), "FROM"@),
            first_separator_from(ts@, 0, select) == first_separator_from(ts@, i as int, select),
    {
        let ghost pre = ts@.take(i as int);
        let ghost cur = ts@.take(i + 1);
        proof {
            assert(cur == pre.push(ts@[i as int]));
            assert(has_upper(cur, "FROM"@) <==> (has_upper(pre, "FROM"@) || upper_is(ts@[i as int], "FROM"@))) by {
                if has_upper(cur, "FROM"@) {
                    let k = choose|k: int| 0 <= k < cur.len() && upper_is(#[trigger] cur[k], "FROM"@);
                    if k < i {
                        assert(pre[k] == cur[k]);
                    }
                }
                if has_upper(pre, "FROM"@) {
                    let k = choose|k: int| 0 <= k < pre.len() && upper_is(#[trigger] pre[k], "FROM"@);
                    assert(cur[k] == pre[k]);
                }
                if upper_is(ts@[i as int], "FROM"@) {
                    assert(cur[i as int] == ts@[i as int]);
                }
            }
        }
        let t = &ts[i];
        if punct_is(t, ',') && depth == 0 && (!select || after_from) {
            proof {
                assert(separates(ts@, i as int, select));
            }
            return Some(i);
        }
        if upper_word_is(t, "FROM") {
            after_from = true;
        }
        if punct_is(t, '(') {
            depth = depth + 1;
        } else if punct_is(t, ')') {
            depth = depth - 1;
        }
    }
    None
}

proof fn lemma_on_conflict_extends(ts: Seq<SqlToken>, i: int)
    requires
        0 < i < ts.len(),
        upper_is(ts[i], "CONFLICT"@),
        upper_is(ts[i - 1], "ON"@),
    ensures
        on_conflict(ts),
{
}

proof fn lemma_on_conflict_step(ts: Seq<SqlToken>, i: int)
    requires
        0 <= i < ts.len(),
        !on_conflict(ts.take(i)),
        !(i > 0 && upper_is(ts[i], "CONFLICT"@) && upper_is(ts[i - 1], "ON"@)),
    ensures
        !on_conflict(ts.take(i + 1)),
{
    if on_conflict(ts.take(i + 1)) {
        let k = choose|k: int| 0 < k < ts.take(i + 1).len() && upper_is(#[trigger] ts.take(i + 1)[k], "CONFLICT"@)
            && upper_is(ts.take(i + 1)[k - 1], "ON"@);
        if k < i {
            assert(ts.take(i)[k] == ts.take(i + 1)[k]);
            assert(ts.take(i)[k - 1] == ts.take(i + 1)[k - 1]);
        }
    }
}

proof fn lemma_update_set_step(ts: Seq<SqlToken>, i: int)
    requires
        0 <= i < ts.len(),
    ensures
        update_set(ts.take(i + 1)) <==> (update_set(ts.take(i)) || (upper_is(ts[i], "SET"@) && has_upper(ts.take(i), "UPDATE"@))),
{
    let pre = ts.take(i);
    let cur = ts.take(i + 1);
    assert(cur.take(i) == pre);
    if update_set(cur) {
        let k = choose|k: int| 0 <= k < cur.len() && upper_is(#[trigger] cur[k], "SET"@) && has_upper(cur.take(k), "UPDATE"@);
        if k < i {
            assert(pre[k] == cur[k]);
            assert(pre.take(k) == cur.take(k));
        }
    }
    if update_set(pre) {
        let k = choose|k: int| 0 <= k < pre.len() && upper_is(#[trigger] pre[k], "SET"@) && has_upper(pre.take(k), "UPDATE"@);
        assert(cur[k] == pre[k]);
        assert(pre.take(k) == cur.take(k));
    }
    if upper_is(ts[i], "SET"@) && has_upper(pre, "UPDATE"@) {
        assert(cur[i] == ts[i]);
        assert(cur.take(i) == pre);
    }
}

/// Whether the tokens need the careful search for the parameters' comma.
fn special_handling(ts: &[SqlToken]) -> (r: bool)
    ensures
        r == needs_special_handling(ts@),
{
    let n = ts.len();
    for i in 0..n
        invariant
            n == ts@.len(),
            forall|k: int|
                0 <= k < i ==> !upper_is(#[trigger] ts@[k], "SELECT"@) && !upper_is(ts@[k], "UPDATE"@) && !upper_is(
                    ts@[k],
                    "CONFLICT"@,
                ),
    {
        if upper_word_is(&ts[i], "SELECT") || upper_word_is(&ts[i], "UPDATE") || upper_word_is(&ts[i], "CONFLICT") {
            return true;
        }
    }
    false
}

fn first_comma(ts: &[SqlToken]) -> (r: Option<usize>)
    ensures
        match r {
            Some(p) => first_comma_from(ts@, 0) == Some(p as int),
            None => first_comma_from(ts@, 0) is None,
        },
{
    let n = ts.len();
    for i in 0..n
        invariant
            n == ts@.len(),
            first_comma_from(ts@, 0) == first_comma_from(ts@, i as int),
    {
        if punct_is(&ts[i], ',') {
            return Some(i);
        }
    }
    None
}

/// Splits SQL written without quotes from the parameters after it: the tokens up to the
/// comma that ends the SQL become SQL text (see `parse_sql`); those after it, if any, are
/// the parameters.
pub fn parse_sql_no_quotes(tokens: Vec<SqlToken>) -> (r: (String, Option<Vec<SqlToken>>))
    ensures
        match split_point(tokens@) {
            Some(p) => r.0@ == sql_text(tokens@.take(p)) && (r.1 matches Some(ps) && ps@ == tokens@.skip(p + 1)),
            None => r.0@ == sql_text(tokens@) && r.1 is None,
        },
{
    let mut all = tokens;
    let pos = if special_handling(all.as_slice()) {
        find_complex_parameter_separator(all.as_slice())
    } else {
        first_comma(all.as_slice())
    };
    match pos {
        Some(p) => {
            let ghost whole = all@;
            proof {
                if needs_special_handling(whole) {
                    lemma_separator_in_range(whole);
                    assert(complex_separator(whole) == Some(p as int));
                } else {
                    lemma_comma_in_range(whole, 0);
                    assert(first_comma_from(whole, 0) == Some(p as int));
                }
                assert(p < whole.len());
            }
            assert(p < all.len());
            assert(all@.len() <= usize::MAX);
            let params = all.split_off(p + 1);
            all.truncate(p);
            assert(all@ == whole.take(p as int));
            let sql = parse_sql(all.as_slice());
            (sql, Some(params))
        },
        None => {
            let sql = parse_sql(all.as_slice());
            (sql, None)
        },
    }
}

proof fn lemma_comma_in_range(ts: Seq<SqlToken>, i: int)
    ensures
        first_comma_from(ts, i) matches Some(p) ==> i <= p < ts.len(),
    decreases ts.len() - i,
{
    if 0 <= i < ts.len() && !is_punct(ts[i], ',') {
        lemma_comma_in_range(ts, i + 1);
    }
}

proof fn lemma_separator_from_in_range(ts: Seq<SqlToken>, i: int, select: bool)
    ensures
        first_separator_from(ts, i, select) matches Some(p) ==> i <= p < ts.len(),
    decreases ts.len() - i,
{
    if 0 <= i < ts.len() && !separates(ts, i, select) {
        lemma_separator_from_in_range(ts, i + 1, select);
    }
}

proof fn lemma_separator_in_range(ts: Seq<SqlToken>)
    ensures
        complex_separator(ts) matches Some(p) ==> 0 <= p < ts.len(),
{
    lemma_separator_from_in_range(ts, 0, has_upper(ts, "SELECT"@));
}

} // verus!
