use vstd::prelude::*;

verus! {

/// What `char::is_uppercase` answers for a character (Unicode `Uppercase` property).
pub uninterp spec fn spec_is_uppercase(c: char) -> bool;

/// The first character of what `char::to_lowercase` yields for a character.
pub uninterp spec fn spec_lower_first(c: char) -> char;

/// What `str::to_lowercase` returns for a string (full Unicode lowercase mapping).
pub uninterp spec fn spec_lowercase(s: Seq<char>) -> Seq<char>;

/// Whether a character is ASCII.
pub open spec fn is_ascii_char(c: char) -> bool {
    (c as u32) < 128
}

/// Whether a character is an ASCII capital letter, `A` to `Z`.
pub open spec fn is_ascii_upper(c: char) -> bool {
    65 <= (c as u32) <= 90
}

/// Whether a character is an ASCII small letter, `a` to `z`.
pub open spec fn is_ascii_lower(c: char) -> bool {
    97 <= (c as u32) <= 122
}

/// An ASCII capital letter as its small letter; any other character as it is.
pub open spec fn ascii_lower_char(c: char) -> char {
    if is_ascii_upper(c) {
        ((c as u32) + 32) as char
    } else {
        c
    }
}

/// An ASCII small letter as its capital letter; any other character as it is.
pub open spec fn ascii_upper_char(c: char) -> char {
    if is_ascii_lower(c) {
        ((c as u32) - 32) as char
    } else {
        c
    }
}

/// Whether every character of `s` is ASCII.
pub open spec fn all_ascii(s: Seq<char>) -> bool {
    forall|i: int| 0 <= i < s.len() ==> is_ascii_char(#[trigger] s[i])
}

/// `s` with its ASCII capital letters made small.
pub open spec fn ascii_lowercase(s: Seq<char>) -> Seq<char> {
    s.map_values(|c: char| ascii_lower_char(c))
}

/// `s` with its ASCII small letters made capital.
pub open spec fn ascii_uppercase(s: Seq<char>) -> Seq<char> {
    s.map_values(|c: char| ascii_upper_char(c))
}

/// `char::is_uppercase` from std: the result is the Unicode `Uppercase` property of `c`,
/// named here and not spelled out. Among ASCII characters that property holds of `A` to
/// `Z` alone.
#[verifier::external_body]
pub(crate) fn char_is_uppercase(c: char) -> (r: bool)
    ensures
        r == spec_is_uppercase(c),
        is_ascii_char(c) ==> (r <==> is_ascii_upper(c)),
{
    c.is_uppercase()
}

/// `char::to_lowercase` from std, first character of the mapping. The std documentation
/// says the iterator yields one or more characters, so `next` always has one; which one is
/// named and not spelled out. An ASCII character maps to itself made small (`A` to `Z` to
/// `a` to `z`, the rest unchanged), as the documentation's ASCII note says.
#[verifier::external_body]
pub(crate) fn char_lower_first(c: char) -> (r: char)
    ensures
        r == spec_lower_first(c),
        is_ascii_char(c) ==> r == ascii_lower_char(c),
{
    c.to_lowercase().next().unwrap()
}

/// `str::to_lowercase` from std: the result is the Unicode lowercase mapping of `s`,
/// named here and not spelled out. On ASCII text it is `to_ascii_lowercase`: `A` to `Z`
/// become `a` to `z`, every other character stays.
#[verifier::external_body]
pub(crate) fn str_to_lowercase(s: &str) -> (r: String)
    ensures
        r@ == spec_lowercase(s@),
        all_ascii(s@) ==> r@ == ascii_lowercase(s@),
{
    s.to_lowercase()
}

/// Collects characters into a `String` (std's `FromIterator<char>` for `String`): the string
/// holds exactly those characters, in order.
#[verifier::external_body]
pub(crate) fn string_from_chars(v: &[char]) -> (r: String)
    ensures
        r@ == v@,
{
    v.iter().collect()
}

/// Copies the characters of a string slice into a vector.
pub fn str_chars(s: &str) -> (r: Vec<char>)
    ensures
        r@ == s@,
{
    let mut v: Vec<char> = Vec::new();
    for c in iter: s.chars()
        invariant
            v@ == iter.seq().take(iter.index() as int),
    {
        v.push(c);
    }
    v
}

/// Appends all characters of `src` to `dst`.
pub fn push_all(dst: &mut Vec<char>, src: &[char])
    ensures
        final(dst)@ == old(dst)@ + src@,
{
    let n = src.len();
    for i in 0..n
        invariant
            n == src@.len(),
            dst@ == old(dst)@ + src@.take(i as int),
    {
        dst.push(src[i]);
        assert(src@.take(i + 1) == src@.take(i as int).push(src@[i as int]));
    }
    assert(src@.take(n as int) == src@);
}

/// Appends the characters of `s` to `dst`.
pub fn push_str_chars(dst: &mut Vec<char>, s: &str)
    ensures
        final(dst)@ == old(dst)@ + s@,
{
    let c = str_chars(s);
    push_all(dst, c.as_slice());
}

// ---------------------------------------------------------------------------
// Snake case

/// The characters that one input character contributes to a snake-case name.
pub open spec fn snake_piece(c: char, first: bool) -> Seq<char> {
    if spec_is_uppercase(c) {
        if first {
            seq![spec_lower_first(c)]
        } else {
            seq!['_', spec_lower_first(c)]
        }
    } else {
        seq![c]
    }
}

/// Snake-case body of a camel-case name: every uppercase letter is lowered, and preceded by
/// `_` unless it is the first character.
pub open spec fn snake_body(s: Seq<char>) -> Seq<char>
    decreases s.len(),
{
    if s.len() == 0 {
        Seq::empty()
    } else {
        snake_body(s.drop_last()) + snake_piece(s.last(), s.len() == 1)
    }
}

/// The snake-case name of a struct name: `snake_body`, then lowered as a whole.
pub open spec fn spec_snake_name(s: Seq<char>) -> Seq<char> {
    spec_lowercase(snake_body(s))
}

/// The characters an ASCII character contributes to a snake-case name: a capital letter
/// becomes `_` (unless it comes first) and its small letter; any other stays.
pub open spec fn ascii_snake_piece(c: char, first: bool) -> Seq<char> {
    if is_ascii_upper(c) {
        if first {
            seq![ascii_lower_char(c)]
        } else {
            seq!['_', ascii_lower_char(c)]
        }
    } else {
        seq![c]
    }
}

/// The snake-case name of an ASCII name.
pub open spec fn ascii_snake(s: Seq<char>) -> Seq<char>
    decreases s.len(),
{
    if s.len() == 0 {
        Seq::empty()
    } else {
        ascii_snake(s.drop_last()) + ascii_snake_piece(s.last(), s.len() == 1)
    }
}

/// Whether `s` has no ASCII capital letter.
pub open spec fn no_ascii_upper(s: Seq<char>) -> bool {
    forall|i: int| 0 <= i < s.len() ==> !is_ascii_upper(#[trigger] s[i])
}

/// Text with no ASCII capital letter is its own ASCII lowercase.
pub proof fn lemma_ascii_lowercase_keeps(s: Seq<char>)
    requires
        no_ascii_upper(s),
    ensures
        ascii_lowercase(s) == s,
{
    assert(ascii_lowercase(s) =~= s);
}

/// Converts a camel-case struct name into the snake-case table name (`UserProfile` to
/// `user_profile`). For an ASCII name that is `ascii_snake`: each capital letter becomes `_`
/// (but at the start) and its small letter, so no capital letter remains.
pub fn convert_to_snake_name(struct_name: &str) -> (r: String)
    ensures
        r@ == spec_snake_name(struct_name@),
        all_ascii(struct_name@) ==> r@ == ascii_snake(struct_name@) && all_ascii(r@) && no_ascii_upper(r@),
{
    let chars = str_chars(struct_name);
    let n = chars.len();
    let mut result: Vec<char> = Vec::new();
    for i in 0..n
        invariant
            n == chars@.len(),
            chars@ == struct_name@,
            result@ == snake_body(chars@.take(i as int)),
            all_ascii(chars@) ==> result@ == ascii_snake(chars@.take(i as int)) && all_ascii(result@)
                && no_ascii_upper(result@),
    {
        let c = chars[i];
        assert(chars@.take(i + 1).drop_last() == chars@.take(i as int));
        assert(chars@.take(i + 1).last() == c);
        let ghost before = result@;
        if char_is_uppercase(c) {
            if i > 0 {
                result.push('_');
            }
            result.push(char_lower_first(c));
        } else {
            result.push(c);
        }
        proof {
            if all_ascii(chars@) {
                assert(is_ascii_char(chars@[i as int]));
                assert(result@ == before + ascii_snake_piece(c, i == 0));
                assert forall|k: int| 0 <= k < result@.len() implies is_ascii_char(#[trigger] result@[k]) && !is_ascii_upper(result@[k]) by {
                    if k >= before.len() {
                        assert(is_ascii_char(result@[k]));
                    }
                }
            }
        }
    }
    assert(chars@.take(n as int) == chars@);
    let body = string_from_chars(result.as_slice());
    let r = str_to_lowercase(body.as_str());
    proof {
        if all_ascii(struct_name@) {
            lemma_ascii_lowercase_keeps(result@);
        }
    }
    r
}

// ---------------------------------------------------------------------------
// Edit distance

pub open spec fn min3(x: int, y: int, z: int) -> int {
    if x <= y && x <= z {
        x
    } else if y <= z {
        y
    } else {
        z
    }
}

/// Levenshtein distance between two character sequences (insertions, deletions and
/// substitutions each cost one).
pub open spec fn levenshtein(a: Seq<char>, b: Seq<char>) -> nat
    decreases a.len() + b.len(),
{
    if a.len() == 0 {
        b.len()
    } else if b.len() == 0 {
        a.len()
    } else {
        let cost: int = if a.last() == b.last() { 0 } else { 1 };
        min3(
            levenshtein(a.drop_last(), b) as int + 1,
            levenshtein(a, b.drop_last()) as int + 1,
            levenshtein(a.drop_last(), b.drop_last()) as int + cost,
        ) as nat
    }
}

proof fn lemma_levenshtein_bound(a: Seq<char>, b: Seq<char>)
    ensures
        levenshtein(a, b) <= if a.len() >= b.len() { a.len() } else { b.len() },
    decreases a.len() + b.len(),
{
    if a.len() > 0 && b.len() > 0 {
        lemma_levenshtein_bound(a.drop_last(), b.drop_last());
    }
}

/// The distance is symmetric: turning `b` into `a` takes as many edits as turning `a` into
/// `b`.
pub proof fn lemma_levenshtein_symmetric(a: Seq<char>, b: Seq<char>)
    ensures
        levenshtein(a, b) == levenshtein(b, a),
    decreases a.len() + b.len(),
{
    if a.len() > 0 && b.len() > 0 {
        lemma_levenshtein_symmetric(a.drop_last(), b);
        lemma_levenshtein_symmetric(a, b.drop_last());
        lemma_levenshtein_symmetric(a.drop_last(), b.drop_last());
    }
}

/// The distance is zero exactly between equal texts.
pub proof fn lemma_levenshtein_zero_iff_equal(a: Seq<char>, b: Seq<char>)
    ensures
        levenshtein(a, b) == 0 <==> a == b,
    decreases a.len() + b.len(),
{
    if a.len() == 0 || b.len() == 0 {
        if a.len() == 0 && b.len() == 0 {
            assert(a =~= b);
        }
    } else {
        lemma_levenshtein_zero_iff_equal(a.drop_last(), b.drop_last());
        if a == b {
            assert(a.drop_last() == b.drop_last());
        }
        if levenshtein(a, b) == 0 {
            assert(a.drop_last() == b.drop_last());
            assert(a =~= a.drop_last().push(a.last()));
            assert(b =~= b.drop_last().push(b.last()));
        }
    }
}

/// The distance is at least the difference of the lengths and at most the longer length.
pub proof fn lemma_levenshtein_bounds(a: Seq<char>, b: Seq<char>)
    ensures
        a.len() - b.len() <= levenshtein(a, b),
        b.len() - a.len() <= levenshtein(a, b),
        levenshtein(a, b) <= if a.len() >= b.len() { a.len() } else { b.len() },
    decreases a.len() + b.len(),
{
    lemma_levenshtein_bound(a, b);
    if a.len() > 0 && b.len() > 0 {
        lemma_levenshtein_bounds(a.drop_last(), b);
        lemma_levenshtein_bounds(a, b.drop_last());
        lemma_levenshtein_bounds(a.drop_last(), b.drop_last());
    }
}

/// Each choice of the recurrence bounds the distance from above.
proof fn lemma_levenshtein_steps(a: Seq<char>, b: Seq<char>)
    requires
        a.len() > 0,
        b.len() > 0,
    ensures
        levenshtein(a, b) <= levenshtein(a.drop_last(), b) + 1,
        levenshtein(a, b) <= levenshtein(a, b.drop_last()) + 1,
        levenshtein(a, b) <= levenshtein(a.drop_last(), b.drop_last()) + if a.last() == b.last() { 0int } else { 1int },
        levenshtein(a, b) == levenshtein(a.drop_last(), b) + 1 || levenshtein(a, b) == levenshtein(a, b.drop_last())
            + 1 || levenshtein(a, b) == levenshtein(a.drop_last(), b.drop_last()) + if a.last() == b.last() {
            0int
        } else {
            1int
        },
{
}

/// The triangle inequality: going from `a` to `c` by way of `b` takes no fewer edits than
/// going directly.
pub proof fn lemma_levenshtein_triangle(a: Seq<char>, b: Seq<char>, c: Seq<char>)
    ensures
        levenshtein(a, c) <= levenshtein(a, b) + levenshtein(b, c),
    decreases a.len() + b.len() + c.len(),
{
    lemma_levenshtein_bounds(a, c);
    lemma_levenshtein_bounds(a, b);
    lemma_levenshtein_bounds(b, c);
    if a.len() > 0 && b.len() > 0 && c.len() > 0 {
        lemma_levenshtein_triangle(a.drop_last(), b, c);
        lemma_levenshtein_triangle(a, b, c.drop_last());
        lemma_levenshtein_triangle(a, b.drop_last(), c);
        lemma_levenshtein_triangle(a, b.drop_last(), c.drop_last());
        lemma_levenshtein_triangle(a.drop_last(), b.drop_last(), c);
        lemma_levenshtein_triangle(a.drop_last(), b.drop_last(), c.drop_last());
        lemma_levenshtein_steps(a, b);
        lemma_levenshtein_steps(b, c);
        lemma_levenshtein_steps(a, c);
    }
}

/// One edit of a text: a character inserted before a position, the character at a position
/// removed, or the character at a position replaced.
pub enum CharEdit {
    Insert(int, char),
    Delete(int),
    Substitute(int, char),
}

/// The last character of a text.
pub open spec fn last_char(s: Seq<char>) -> char {
    s.last()
}

/// The character at a position of a text.
pub open spec fn char_at(s: Seq<char>, i: int) -> char {
    s[i]
}

/// Whether an edit's position lies in the text.
pub open spec fn edit_fits(s: Seq<char>, e: CharEdit) -> bool {
    match e {
        CharEdit::Insert(i, _) => 0 <= i <= s.len(),
        CharEdit::Delete(i) => 0 <= i < s.len(),
        CharEdit::Substitute(i, _) => 0 <= i < s.len(),
    }
}

/// The text after an edit.
pub open spec fn apply_edit(s: Seq<char>, e: CharEdit) -> Seq<char> {
    match e {
        CharEdit::Insert(i, c) => s.insert(i, c),
        CharEdit::Delete(i) => s.remove(i),
        CharEdit::Substitute(i, c) => s.update(i, c),
    }
}

/// Whether the edits, made in order, each where it fits, turn `a` into `b`.
pub open spec fn edits_turn(a: Seq<char>, es: Seq<CharEdit>, b: Seq<char>) -> bool
    decreases es.len(),
{
    if es.len() == 0 {
        a == b
    } else {
        edit_fits(a, es[0]) && edits_turn(apply_edit(a, es[0]), es.drop_first(), b)
    }
}

/// Edits that turn `a` into `b`, one per unit of distance, read off the recurrence.
pub open spec fn edit_script(a: Seq<char>, b: Seq<char>) -> Seq<CharEdit>
    decreases a.len() + b.len(),
{
    if a.len() == 0 && b.len() == 0 {
        Seq::empty()
    } else if b.len() == 0 {
        seq![CharEdit::Delete(a.len() - 1)] + edit_script(a.drop_last(), b)
    } else if a.len() == 0 {
        edit_script(a, b.drop_last()).push(CharEdit::Insert(b.len() - 1, last_char(b)))
    } else if levenshtein(a, b) == levenshtein(a.drop_last(), b) + 1 {
        seq![CharEdit::Delete(a.len() - 1)] + edit_script(a.drop_last(), b)
    } else if levenshtein(a, b) == levenshtein(a, b.drop_last()) + 1 {
        edit_script(a, b.drop_last()).push(CharEdit::Insert(b.len() - 1, last_char(b)))
    } else if a.last() == b.last() {
        edit_script(a.drop_last(), b.drop_last())
    } else {
        edit_script(a.drop_last(), b.drop_last()).push(CharEdit::Substitute(b.len() - 1, last_char(b)))
    }
}

proof fn lemma_append_edit(a: Seq<char>, es: Seq<CharEdit>, m: Seq<char>, e: CharEdit)
    requires
        edits_turn(a, es, m),
        edit_fits(m, e),
    ensures
        edits_turn(a, es.push(e), apply_edit(m, e)),
    decreases es.len(),
{
    if es.len() == 0 {
        assert(es.push(e) =~= seq![e]);
        lemma_one_edit_turns(m, e);
    } else {
        lemma_append_edit(apply_edit(a, es[0]), es.drop_first(), m, e);
        assert(es.push(e).drop_first() =~= es.drop_first().push(e));
        assert(es.push(e)[0] == es[0]);
    }
}

proof fn lemma_edits_concat(a: Seq<char>, es1: Seq<CharEdit>, m: Seq<char>, es2: Seq<CharEdit>, b: Seq<char>)
    requires
        edits_turn(a, es1, m),
        edits_turn(m, es2, b),
    ensures
        edits_turn(a, es1 + es2, b),
    decreases es1.len(),
{
    if es1.len() == 0 {
        assert(es1 + es2 =~= es2);
    } else {
        lemma_edits_concat(apply_edit(a, es1[0]), es1.drop_first(), m, es2, b);
        assert((es1 + es2).drop_first() =~= es1.drop_first() + es2);
        assert((es1 + es2)[0] == es1[0]);
    }
}

proof fn lemma_edits_keep_last(s: Seq<char>, es: Seq<CharEdit>, t: Seq<char>, x: char)
    requires
        edits_turn(s, es, t),
    ensures
        edits_turn(s.push(x), es, t.push(x)),
    decreases es.len(),
{
    if es.len() > 0 {
        let e = es[0];
        let m = apply_edit(s, e);
        assert(apply_edit(s.push(x), e) =~= m.push(x));
        lemma_edits_keep_last(m, es.drop_first(), t, x);
    }
}

proof fn lemma_one_edit_turns(a: Seq<char>, e: CharEdit)
    requires
        edit_fits(a, e),
    ensures
        edits_turn(a, seq![e], apply_edit(a, e)),
{
    let es = seq![e];
    assert(es[0] == e);
    assert(es.drop_first() =~= Seq::<CharEdit>::empty());
    assert(edits_turn(apply_edit(a, e), es.drop_first(), apply_edit(a, e)));
}

/// `edit_script` turns `a` into `b` with as many edits as the distance.
proof fn lemma_edit_script(a: Seq<char>, b: Seq<char>)
    ensures
        edits_turn(a, edit_script(a, b), b),
        edit_script(a, b).len() == levenshtein(a, b),
    decreases a.len() + b.len(),
{
    if a.len() == 0 && b.len() == 0 {
        assert(a =~= b);
    } else if b.len() == 0 || (a.len() > 0 && levenshtein(a, b) == levenshtein(a.drop_last(), b) + 1) {
        lemma_edit_script(a.drop_last(), b);
        let e = CharEdit::Delete(a.len() - 1);
        assert(apply_edit(a, e) =~= a.drop_last());
        lemma_one_edit_turns(a, e);
        lemma_edits_concat(a, seq![e], a.drop_last(), edit_script(a.drop_last(), b), b);
        assert(edit_script(a, b) == seq![e] + edit_script(a.drop_last(), b));
        assert(edits_turn(a, edit_script(a, b), b));
    } else if a.len() == 0 || levenshtein(a, b) == levenshtein(a, b.drop_last()) + 1 {
        lemma_edit_script(a, b.drop_last());
        lemma_append_edit(a, edit_script(a, b.drop_last()), b.drop_last(), CharEdit::Insert(b.len() - 1, last_char(b)));
        assert(apply_edit(b.drop_last(), CharEdit::Insert(b.len() - 1, last_char(b))) =~= b);
        assert(edit_script(a, b) == edit_script(a, b.drop_last()).push(CharEdit::Insert(b.len() - 1, last_char(b))));
    } else {
        lemma_levenshtein_steps(a, b);
        lemma_edit_script(a.drop_last(), b.drop_last());
        lemma_edits_keep_last(a.drop_last(), edit_script(a.drop_last(), b.drop_last()), b.drop_last(), a.last());
        assert(a.drop_last().push(a.last()) =~= a);
        if a.last() == b.last() {
            assert(b.drop_last().push(a.last()) =~= b);
            assert(edit_script(a, b) == edit_script(a.drop_last(), b.drop_last()));
        } else {
            let m = b.drop_last().push(a.last());
            lemma_append_edit(a, edit_script(a.drop_last(), b.drop_last()), m, CharEdit::Substitute(b.len() - 1, last_char(b)));
            assert(apply_edit(m, CharEdit::Substitute(b.len() - 1, last_char(b))) =~= b);
            assert(edit_script(a, b) == edit_script(a.drop_last(), b.drop_last()).push(
                CharEdit::Substitute(b.len() - 1, last_char(b)),
            ));
        }
    }
}

/// One edit moves a text by a distance of at most one.
proof fn lemma_one_edit_distance(s: Seq<char>, e: CharEdit)
    requires
        edit_fits(s, e),
    ensures
        levenshtein(s, apply_edit(s, e)) <= 1,
    decreases s.len(),
{
    let t = apply_edit(s, e);
    match e {
        CharEdit::Insert(i, c) => {
            if i == s.len() {
                assert(t.drop_last() =~= s);
                lemma_levenshtein_zero_iff_equal(s, s);
                if s.len() > 0 {
                    lemma_levenshtein_steps(s, t);
                }
            } else {
                assert(t.last() == s.last());
                assert(t.drop_last() =~= s.drop_last().insert(i, c));
                lemma_one_edit_distance(s.drop_last(), e);
                lemma_levenshtein_steps(s, t);
            }
        },
        CharEdit::Delete(i) => {
            let back = CharEdit::Insert(i, char_at(s, i));
            assert(apply_edit(t, back) =~= s);
            lemma_one_edit_distance(t, back);
            lemma_levenshtein_symmetric(s, t);
        },
        CharEdit::Substitute(i, c) => {
            if i == s.len() - 1 {
                assert(t.drop_last() =~= s.drop_last());
                lemma_levenshtein_zero_iff_equal(s.drop_last(), s.drop_last());
                lemma_levenshtein_steps(s, t);
            } else {
                assert(t.last() == s.last());
                assert(t.drop_last() =~= s.drop_last().update(i, c));
                lemma_one_edit_distance(s.drop_last(), e);
                lemma_levenshtein_steps(s, t);
            }
        },
    }
}

proof fn lemma_edits_at_least(a: Seq<char>, es: Seq<CharEdit>, b: Seq<char>)
    requires
        edits_turn(a, es, b),
    ensures
        levenshtein(a, b) <= es.len(),
    decreases es.len(),
{
    if es.len() == 0 {
        lemma_levenshtein_zero_iff_equal(a, b);
    } else {
        let m = apply_edit(a, es[0]);
        lemma_edits_at_least(m, es.drop_first(), b);
        lemma_one_edit_distance(a, es[0]);
        lemma_levenshtein_triangle(a, m, b);
    }
}

/// The distance is the least number of edits (insertions, deletions, substitutions of one
/// character) that turn `a` into `b`: some that many edits do it, and no fewer can.
pub proof fn lemma_levenshtein_least_edits(a: Seq<char>, b: Seq<char>)
    ensures
        exists|es: Seq<CharEdit>| edits_turn(a, es, b) && es.len() == levenshtein(a, b),
        forall|es: Seq<CharEdit>| edits_turn(a, es, b) ==> levenshtein(a, b) <= es.len(),
{
    lemma_edit_script(a, b);
    assert forall|es: Seq<CharEdit>| edits_turn(a, es, b) implies levenshtein(a, b) <= es.len() by {
        lemma_edits_at_least(a, es, b);
    }
}

/// Levenshtein distance between two strings, counted in characters.
pub fn levenshtein_distance(a: &str, b: &str) -> (r: usize)
    requires
        a@.len() < usize::MAX,
        b@.len() < usize::MAX,
    ensures
        r == levenshtein(a@, b@),
{
    let av = str_chars(a);
    let bv = str_chars(b);
    let a_len = av.len();
    let b_len = bv.len();
    if a_len == 0 {
        return b_len;
    }
    if b_len == 0 {
        return a_len;
    }
    let ghost sa = av@;
    let ghost sb = bv@;
    // prev[j] = distance between the first i-1 chars of a and the first j chars of b
    let mut prev: Vec<usize> = Vec::new();
    for j in 0..b_len + 1
        invariant
            b_len == sb.len(),
            prev@.len() == j,
            forall|k: int| 0 <= k < j ==> prev@[k] == levenshtein(sa.take(0), sb.take(k)),
    {
        assert(sa.take(0).len() == 0);
        prev.push(j);
    }
    let mut i: usize = 1;
    while i <= a_len
        invariant
            1 <= i <= a_len + 1,
            a_len == sa.len(),
            b_len == sb.len(),
            av@ == sa,
            bv@ == sb,
            a_len < usize::MAX,
            b_len < usize::MAX,
            prev@.len() == b_len + 1,
            forall|k: int|
                0 <= k <= b_len ==> prev@[k] == levenshtein(sa.take(i - 1), sb.take(k)),
        decreases a_len + 1 - i,
    {
        let mut cur: Vec<usize> = Vec::new();
        cur.push(i);
        assert(sb.take(0).len() == 0);
        assert(levenshtein(sa.take(i as int), sb.take(0)) == i);
        let mut j: usize = 1;
        while j <= b_len
            invariant
                1 <= i <= a_len,
                1 <= j <= b_len + 1,
                a_len == sa.len(),
                b_len == sb.len(),
                av@ == sa,
                bv@ == sb,
                a_len < usize::MAX,
                b_len < usize::MAX,
                prev@.len() == b_len + 1,
                cur@.len() == j,
                forall|k: int|
                    0 <= k <= b_len ==> prev@[k] == levenshtein(sa.take(i - 1), sb.take(k)),
                forall|k: int| 0 <= k < j ==> cur@[k] == levenshtein(sa.take(i as int), sb.take(k)),
            decreases b_len + 1 - j,
        {
            let ghost x = sa.take(i as int);
            let ghost y = sb.take(j as int);
            assert(x.drop_last() == sa.take(i - 1));
            assert(y.drop_last() == sb.take(j - 1));
            proof {
                lemma_levenshtein_bound(sa.take(i - 1), sb.take(j as int));
                lemma_levenshtein_bound(sa.take(i as int), sb.take(j - 1));
                lemma_levenshtein_bound(sa.take(i - 1), sb.take(j - 1));
            }
            let cost: usize = if av[i - 1] == bv[j - 1] { 0 } else { 1 };
            let del = prev[j] + 1;
            let ins = cur[j - 1] + 1;
            let sub = prev[j - 1] + cost;
            let m = if del <= ins && del <= sub {
                del
            } else if ins <= sub {
                ins
            } else {
                sub
            };
            cur.push(m);
            j = j + 1;
        }
        prev = cur;
        i = i + 1;
    }
    assert(sa.take(a_len as int) == sa);
    assert(sb.take(b_len as int) == sb);
    prev[b_len]
}

/// The index of the first entry of `valid` whose distance to `input` is smallest.
pub open spec fn is_first_closest(input: Seq<char>, valid: Seq<Seq<char>>, k: int) -> bool {
    &&& 0 <= k < valid.len()
    &&& forall|j: int| 0 <= j < valid.len() ==> levenshtein(input, valid[j]) >= levenshtein(input, valid[k])
    &&& forall|j: int| 0 <= j < k ==> levenshtein(input, valid[j]) > levenshtein(input, valid[k])
}

/// Spelling help: the entry of `valid_types` closest to `input` by edit distance (the first
/// one on a tie), provided it is at most 3 edits away.
pub fn find_closest_match<'a>(input: &str, valid_types: &'a [&'a str]) -> (r: Option<&'a str>)
    requires
        input@.len() < usize::MAX,
        forall|j: int| 0 <= j < valid_types@.len() ==> (#[trigger] valid_types@[j])@.len() < usize::MAX,
    ensures
        r is None <==> (valid_types@.len() == 0 || forall|j: int| 0 <= j < valid_types@.len()
            ==> levenshtein(input@, (#[trigger] valid_types@[j])@) > 3),
        r matches Some(s) ==> exists|k: int|
            is_first_closest(input@, str_views(valid_types@), k) && s == valid_types@[k]
            && levenshtein(input@, valid_types@[k]@) <= 3,
{
    let n = valid_types.len();
    if n == 0 {
        return None;
    }
    let ghost vs = str_views(valid_types@);
    let mut best: usize = 0;
    let mut best_d: usize = levenshtein_distance(input, valid_types[0]);
    for i in 1..n
        invariant
            n == valid_types@.len(),
            n > 0,
            vs == str_views(valid_types@),
            forall|j: int| 0 <= j < valid_types@.len() ==> (#[trigger] valid_types@[j])@.len() < usize::MAX,
            input@.len() < usize::MAX,
            best < i,
            best_d == levenshtein(input@, vs[best as int]),
            forall|j: int| 0 <= j < i ==> levenshtein(input@, #[trigger] vs[j]) >= best_d,
            forall|j: int| 0 <= j < best ==> levenshtein(input@, #[trigger] vs[j]) > best_d,
    {
        let d = levenshtein_distance(input, valid_types[i]);
        if d < best_d {
            best = i;
            best_d = d;
        }
    }
    assert(is_first_closest(input@, vs, best as int));
    if best_d <= 3 {
        Some(valid_types[best])
    } else {
        assert forall|j: int| 0 <= j < valid_types@.len() implies levenshtein(input@, (#[trigger] valid_types@[j])@) > 3 by {
            assert(vs[j] == valid_types@[j]@);
        }
        None
    }
}

/// The name to suggest for a misspelt one: the first of `names` closest to `t` by edit
/// distance, when at most three edits away.
pub open spec fn closest_name(t: Seq<char>, names: Seq<Seq<char>>) -> Option<Seq<char>> {
    if exists|k: int| is_first_closest(t, names, k) && levenshtein(t, names[k]) <= 3 {
        Some(names[choose|k: int| is_first_closest(t, names, k) && levenshtein(t, names[k]) <= 3])
    } else {
        None
    }
}

proof fn lemma_first_closest_unique(t: Seq<char>, names: Seq<Seq<char>>, k1: int, k2: int)
    requires
        is_first_closest(t, names, k1),
        is_first_closest(t, names, k2),
    ensures
        k1 == k2,
{
    assert(levenshtein(t, names[k1]) >= levenshtein(t, names[k2]));
    assert(levenshtein(t, names[k2]) >= levenshtein(t, names[k1]));
}

/// The name of `names` to suggest for `t`, if any.
pub fn suggest_name<'a>(t: &str, names: &'a [&'a str]) -> (r: Option<&'a str>)
    requires
        t@.len() < usize::MAX,
        forall|j: int| 0 <= j < names@.len() ==> (#[trigger] names@[j])@.len() < usize::MAX,
    ensures
        match r {
            Some(s) => closest_name(t@, str_views(names@)) == Some(s@),
            None => closest_name(t@, str_views(names@)) is None,
        },
{
    let ghost views = str_views(names@);
    let found = find_closest_match(t, names);
    match found {
        Some(s) => {
            proof {
                let k = choose|k: int| is_first_closest(t@, views, k) && s == names@[k]
                    && levenshtein(t@, names@[k]@) <= 3;
                assert(is_first_closest(t@, views, k) && levenshtein(t@, views[k]) <= 3);
                let c = choose|c: int| is_first_closest(t@, views, c) && levenshtein(t@, views[c]) <= 3;
                lemma_first_closest_unique(t@, views, k, c);
            }
        },
        None => {
            proof {
                assert forall|k: int| !(is_first_closest(t@, views, k) && levenshtein(t@, views[k]) <= 3) by {
                    if 0 <= k < views.len() {
                        assert(views[k] == names@[k]@);
                    }
                }
            }
        },
    }
    found
}

} // verus!

verus! {

// ---------------------------------------------------------------------------
// Decimal rendering of integers

/// The ASCII digit for a value below ten.
pub open spec fn digit_char(d: nat) -> char {
    ((48 + d) as u8) as char
}

/// Decimal digits of a natural number, most significant first, without leading zeros.
pub open spec fn nat_decimal(n: nat) -> Seq<char>
    decreases n,
{
    if n < 10 {
        seq![digit_char(n)]
    } else {
        nat_decimal(n / 10) + seq![digit_char(n % 10)]
    }
}

/// Decimal rendering of an integer as Rust's `Display` writes it (a leading `-` when negative).
pub open spec fn int_decimal(i: int) -> Seq<char> {
    if i < 0 {
        seq!['-'] + nat_decimal((-i) as nat)
    } else {
        nat_decimal(i as nat)
    }
}

/// Appends the decimal digits of `n`.
pub fn push_u64_decimal(dst: &mut Vec<char>, n: u64)
    ensures
        final(dst)@ == old(dst)@ + nat_decimal(n as nat),
    decreases n,
{
    if n >= 10 {
        push_u64_decimal(dst, n / 10);
    }
    let d: u8 = (n % 10) as u8;
    dst.push((48u8 + d) as char);
}

/// Appends the decimal rendering of `i`.
pub fn push_i64_decimal(dst: &mut Vec<char>, i: i64)
    ensures
        final(dst)@ == old(dst)@ + int_decimal(i as int),
{
    if i < 0 {
        dst.push('-');
        let mag: u64 = (0i128 - (i as i128)) as u64;
        push_u64_decimal(dst, mag);
    } else {
        push_u64_decimal(dst, i as u64);
    }
}

} // verus!

verus! {

// ---------------------------------------------------------------------------
// Comparisons

/// Whether two strings hold the same characters.
pub fn str_eq(a: &str, b: &str) -> (r: bool)
    ensures
        r == (a@ == b@),
{
    let x = str_chars(a);
    let y = str_chars(b);
    chars_eq(x.as_slice(), y.as_slice())
}

/// Whether two character slices are equal.
pub fn chars_eq(a: &[char], b: &[char]) -> (r: bool)
    ensures
        r == (a@ == b@),
{
    if a.len() != b.len() {
        return false;
    }
    let n = a.len();
    for i in 0..n
        invariant
            n == a@.len(),
            n == b@.len(),
            forall|k: int| 0 <= k < i ==> a@[k] == b@[k],
    {
        if a[i] != b[i] {
            return false;
        }
    }
    assert(a@ =~= b@);
    true
}

/// ASCII lowercase of one character (`char::to_ascii_lowercase`): `A`..`Z` map to
/// `a`..`z`, everything else is unchanged.
pub open spec fn ascii_lower(c: char) -> char {
    if 'A' <= c && c <= 'Z' {
        ((c as u32) + 32) as char
    } else {
        c
    }
}

pub fn char_ascii_lower(c: char) -> (r: char)
    ensures
        r == ascii_lower(c),
{
    if 'A' <= c && c <= 'Z' {
        let b: u8 = c as u8;
        (b + 32) as char
    } else {
        c
    }
}

/// Equality of two character sequences ignoring ASCII case (`str::eq_ignore_ascii_case`).
pub open spec fn eq_ignore_ascii_case(a: Seq<char>, b: Seq<char>) -> bool {
    a.len() == b.len() && forall|i: int| 0 <= i < a.len() ==> ascii_lower(a[i]) == ascii_lower(b[i])
}

pub fn str_eq_ignore_ascii_case(a: &str, b: &str) -> (r: bool)
    ensures
        r == eq_ignore_ascii_case(a@, b@),
{
    let x = str_chars(a);
    let y = str_chars(b);
    if x.len() != y.len() {
        return false;
    }
    let n = x.len();
    for i in 0..n
        invariant
            n == x@.len(),
            n == y@.len(),
            x@ == a@,
            y@ == b@,
            forall|k: int| 0 <= k < i ==> ascii_lower(x@[k]) == ascii_lower(y@[k]),
    {
        if char_ascii_lower(x[i]) != char_ascii_lower(y[i]) {
            return false;
        }
    }
    true
}

// ---------------------------------------------------------------------------
// Joining

/// The parts separated by `sep` (`[S]::join`).
pub open spec fn join(parts: Seq<Seq<char>>, sep: Seq<char>) -> Seq<char>
    decreases parts.len(),
{
    if parts.len() == 0 {
        Seq::empty()
    } else if parts.len() == 1 {
        parts[0]
    } else {
        join(parts.drop_last(), sep) + sep + parts.last()
    }
}

/// The character views of a sequence of string slices.
pub open spec fn str_views(v: Seq<&str>) -> Seq<Seq<char>> {
    v.map_values(|s: &str| s@)
}

/// The character views of a sequence of strings.
pub open spec fn string_views(v: Seq<String>) -> Seq<Seq<char>> {
    v.map_values(|s: String| s@)
}

/// Appends the strings of `parts`, separated by `sep`.
pub fn push_joined(dst: &mut Vec<char>, parts: &[&str], sep: &str)
    ensures
        final(dst)@ == old(dst)@ + join(str_views(parts@), sep@),
{
    let n = parts.len();
    let ghost views = str_views(parts@);
    for i in 0..n
        invariant
            n == parts@.len(),
            views == str_views(parts@),
            dst@ == old(dst)@ + join(views.take(i as int), sep@),
    {
        assert(views.take(i + 1).drop_last() == views.take(i as int));
        if i > 0 {
            push_str_chars(dst, sep);
        }
        push_str_chars(dst, parts[i]);
        assert(views.take(i + 1).last() == parts@[i as int]@);
    }
    assert(views.take(n as int) == views);
}

/// Appends the strings of `parts`, separated by `sep`.
pub fn push_joined_strings(dst: &mut Vec<char>, parts: &[String], sep: &str)
    ensures
        final(dst)@ == old(dst)@ + join(string_views(parts@), sep@),
{
    let n = parts.len();
    let ghost views = string_views(parts@);
    for i in 0..n
        invariant
            n == parts@.len(),
            views == string_views(parts@),
            dst@ == old(dst)@ + join(views.take(i as int), sep@),
    {
        assert(views.take(i + 1).drop_last() == views.take(i as int));
        if i > 0 {
            push_str_chars(dst, sep);
        }
        push_str_chars(dst, parts[i].as_str());
        assert(views.take(i + 1).last() == parts@[i as int]@);
    }
    assert(views.take(n as int) == views);
}

} // verus!

verus! {

// ---------------------------------------------------------------------------
// Searching

/// Whether `n` occurs in `h` starting at position `i`.
pub open spec fn occurs_at(h: Seq<char>, n: Seq<char>, i: int) -> bool {
    0 <= i && i + n.len() <= h.len() && h.subrange(i, i + n.len()) == n
}

/// Whether `n` occurs somewhere in `h` (`str::contains`).
pub open spec fn contains(h: Seq<char>, n: Seq<char>) -> bool {
    exists|i: int| occurs_at(h, n, i)
}

/// A text occurs in any text that has it between two others.
pub proof fn lemma_contains_middle(a: Seq<char>, n: Seq<char>, b: Seq<char>)
    ensures
        contains(a + n + b, n),
{
    assert((a + n + b).subrange(a.len() as int, (a.len() + n.len()) as int) =~= n);
    assert(occurs_at(a + n + b, n, a.len() as int));
}

/// What occurs in a part of a text occurs in the text.
pub proof fn lemma_contains_trans(h: Seq<char>, m: Seq<char>, n: Seq<char>)
    requires
        contains(h, m),
        contains(m, n),
    ensures
        contains(h, n),
{
    let i = choose|i: int| occurs_at(h, m, i);
    let j = choose|j: int| occurs_at(m, n, j);
    assert(h.subrange(i + j, i + j + n.len()) =~= m.subrange(j, j + n.len()));
    assert(occurs_at(h, n, i + j));
}

/// Whether `n` occurs in `h` at position `i`.
pub fn occurs_at_exec(h: &[char], n: &[char], i: usize) -> (r: bool)
    ensures
        r == occurs_at(h@, n@, i as int),
{
    if i > h.len() || n.len() > h.len() - i {
        return false;
    }
    let m = n.len();
    for k in 0..m
        invariant
            m == n@.len(),
            i + m <= h@.len(),
            h@.len() == h.len(),
            forall|j: int| 0 <= j < k ==> h@[i + j] == n@[j],
    {
        if h[i + k] != n[k] {
            assert(h@.subrange(i as int, i + m)[k as int] != n@[k as int]);
            return false;
        }
    }
    assert(h@.subrange(i as int, i + m) =~= n@);
    true
}

/// Whether `n` occurs in `h`.
pub fn contains_chars(h: &[char], n: &[char]) -> (r: bool)
    ensures
        r == contains(h@, n@),
{
    if n.len() > h.len() {
        assert forall|i: int| !occurs_at(h@, n@, i) by {}
        return false;
    }
    if n.len() == 0 {
        assert(h@.subrange(0, 0) =~= n@);
        assert(occurs_at(h@, n@, 0));
        return true;
    }
    let count = h.len() - n.len() + 1;
    for i in 0..count
        invariant
            count + n@.len() == h@.len() + 1,
            forall|j: int| 0 <= j < i ==> !occurs_at(h@, n@, j),
    {
        if occurs_at_exec(h, n, i) {
            return true;
        }
    }
    assert forall|j: int| !occurs_at(h@, n@, j) by {
        if 0 <= j && j + n@.len() <= h@.len() {
            assert(j < count);
        }
    }
    false
}

/// Whether `n` occurs in `h`, for a literal needle.
pub fn contains_str(h: &[char], n: &str) -> (r: bool)
    ensures
        r == contains(h@, n@),
{
    let nv = str_chars(n);
    contains_chars(h, nv.as_slice())
}

/// The characters of `s` other than spaces (`str::replace(" ", "")`).
pub open spec fn without_spaces(s: Seq<char>) -> Seq<char>
    decreases s.len(),
{
    if s.len() == 0 {
        Seq::empty()
    } else if s.last() == ' ' {
        without_spaces(s.drop_last())
    } else {
        without_spaces(s.drop_last()).push(s.last())
    }
}

pub fn remove_spaces(s: &[char]) -> (r: Vec<char>)
    ensures
        r@ == without_spaces(s@),
{
    let mut out: Vec<char> = Vec::new();
    let n = s.len();
    for i in 0..n
        invariant
            n == s@.len(),
            out@ == without_spaces(s@.take(i as int)),
    {
        assert(s@.take(i + 1).drop_last() == s@.take(i as int));
        if s[i] != ' ' {
            out.push(s[i]);
        }
    }
    assert(s@.take(n as int) == s@);
    out
}

} // verus!

verus! {

/// What `str::to_uppercase` returns for a string (full Unicode uppercase mapping).
pub uninterp spec fn spec_uppercase(s: Seq<char>) -> Seq<char>;

/// `str::to_uppercase` from std: the result is the Unicode uppercase mapping of `s`, named
/// here and not spelled out. On ASCII text it is `to_ascii_uppercase`: `a` to `z` become
/// `A` to `Z`, every other character stays.
#[verifier::external_body]
pub(crate) fn str_to_uppercase(s: &str) -> (r: String)
    ensures
        r@ == spec_uppercase(s@),
        all_ascii(s@) ==> r@ == ascii_uppercase(s@),
{
    s.to_uppercase()
}

/// Builds a string from characters: the string of `v`.
pub fn chars_to_string(v: &Vec<char>) -> (r: String)
    ensures
        r@ == v@,
{
    string_from_chars(v.as_slice())
}

} // verus!
