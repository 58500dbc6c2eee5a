use vstd::prelude::*;
use vstd::utf8::*;
use crate::text::{int_decimal, nat_decimal, push_i64_decimal, push_str_chars, push_u64_decimal};

verus! {

/// The storage classes of SQLite (the declared type of a bound value).
#[derive(Clone, Copy, Debug, PartialEq, Eq, Structural)]
pub enum SqlType {
    Null,
    Integer,
    Real,
    Text,
    Blob,
}

/// A value bound to, or read from, a SQLite statement. A real number is carried by the bit
/// pattern of its IEEE-754 `f64`; text is carried as the bytes SQLite stores.
#[derive(Debug)]
pub enum SqlValue {
    Null,
    Integer(i64),
    Real(u64),
    Text(Vec<u8>),
    Blob(Vec<u8>),
}

/// The mathematical content of a `SqlValue`.
pub enum SqlData {
    Null,
    Integer(i64),
    Real(u64),
    Text(Seq<u8>),
    Blob(Seq<u8>),
}

impl View for SqlValue {
    type V = SqlData;

    open spec fn view(&self) -> SqlData {
        match self {
            SqlValue::Null => SqlData::Null,
            SqlValue::Integer(i) => SqlData::Integer(*i),
            SqlValue::Real(r) => SqlData::Real(*r),
            SqlValue::Text(t) => SqlData::Text(t@),
            SqlValue::Blob(b) => SqlData::Blob(b@),
        }
    }
}

pub fn copy_bytes(v: &Vec<u8>) -> (r: Vec<u8>)
    ensures
        r@ == v@,
{
    let mut out: Vec<u8> = Vec::new();
    let n = v.len();
    for i in 0..n
        invariant
            n == v@.len(),
            out@ == v@.take(i as int),
    {
        out.push(v[i]);
        assert(v@.take(i + 1) == v@.take(i as int).push(v@[i as int]));
    }
    assert(v@.take(n as int) == v@);
    out
}

impl SqlValue {
    /// A copy of this value with the same content.
    pub fn duplicate(&self) -> (r: SqlValue)
        ensures
            r@ == self@,
    {
        match self {
            SqlValue::Null => SqlValue::Null,
            SqlValue::Integer(i) => SqlValue::Integer(*i),
            SqlValue::Real(r) => SqlValue::Real(*r),
            SqlValue::Text(t) => SqlValue::Text(copy_bytes(t)),
            SqlValue::Blob(b) => SqlValue::Blob(copy_bytes(b)),
        }
    }
}

/// The bytes as Rust's `Debug` lists them, without the brackets: decimal values joined by
/// `", "`.
pub open spec fn byte_list(b: Seq<u8>) -> Seq<char>
    decreases b.len(),
{
    if b.len() == 0 {
        Seq::empty()
    } else if b.len() == 1 {
        nat_decimal(b[0] as nat)
    } else {
        byte_list(b.drop_last()) + seq![',', ' '] + nat_decimal(b.last() as nat)
    }
}

/// How rusqlite's `ValueRef` shows a value in an error message (its derived `Debug`):
/// `Null`, `Integer(5)`, `Text([104, 105])`, `Blob([])`. A real number is shown by its
/// storage class alone, `Real`.
pub open spec fn value_debug(v: SqlData) -> Seq<char> {
    match v {
        SqlData::Null => seq!['N', 'u', 'l', 'l'],
        SqlData::Integer(i) => seq!['I', 'n', 't', 'e', 'g', 'e', 'r', '('] + int_decimal(i as int) + seq![')'],
        SqlData::Real(_) => seq!['R', 'e', 'a', 'l'],
        SqlData::Text(t) => seq!['T', 'e', 'x', 't', '(', '['] + byte_list(t) + seq![']', ')'],
        SqlData::Blob(b) => seq!['B', 'l', 'o', 'b', '(', '['] + byte_list(b) + seq![']', ')'],
    }
}

/// Appends the bytes as `byte_list` shows them.
fn push_byte_list(dst: &mut Vec<char>, b: &Vec<u8>)
    ensures
        final(dst)@ == old(dst)@ + byte_list(b@),
{
    let ghost start = dst@;
    let n = b.len();
    for i in 0..n
        invariant
            n == b@.len(),
            dst@ == start + byte_list(b@.take(i as int)),
    {
        let ghost before = dst@;
        if i > 0 {
            dst.push(',');
            dst.push(' ');
        }
        push_u64_decimal(dst, b[i] as u64);
        proof {
            let t = b@.take(i + 1);
            assert(t.drop_last() == b@.take(i as int));
            assert(t.last() == b@[i as int]);
            if i == 0 {
                assert(t.len() == 1);
                assert(byte_list(b@.take(0)) == Seq::<char>::empty());
                assert(dst@ == start + byte_list(t));
            } else {
                assert(dst@ == before + seq![',', ' '] + nat_decimal(b@[i as int] as nat));
                assert(dst@ == start + byte_list(t));
            }
        }
    }
    assert(b@.take(n as int) == b@);
}

/// Appends `value_debug` of a value.
pub fn push_value_debug(dst: &mut Vec<char>, v: &SqlValue)
    ensures
        final(dst)@ == old(dst)@ + value_debug(v@),
{
    let ghost start = dst@;
    match v {
        SqlValue::Null => {
            dst.push('N');
            dst.push('u');
            dst.push('l');
            dst.push('l');
            assert(dst@ == start + value_debug(v@));
        },
        SqlValue::Integer(i) => {
            dst.push('I');
            dst.push('n');
            dst.push('t');
            dst.push('e');
            dst.push('g');
            dst.push('e');
            dst.push('r');
            dst.push('(');
            push_i64_decimal(dst, *i);
            dst.push(')');
            assert(dst@ == start + value_debug(v@));
        },
        SqlValue::Real(_) => {
            dst.push('R');
            dst.push('e');
            dst.push('a');
            dst.push('l');
            assert(dst@ == start + value_debug(v@));
        },
        SqlValue::Text(t) => {
            dst.push('T');
            dst.push('e');
            dst.push('x');
            dst.push('t');
            dst.push('(');
            dst.push('[');
            push_byte_list(dst, t);
            dst.push(']');
            dst.push(')');
            assert(dst@ == start + value_debug(v@));
        },
        SqlValue::Blob(b) => {
            dst.push('B');
            dst.push('l');
            dst.push('o');
            dst.push('b');
            dst.push('(');
            dst.push('[');
            push_byte_list(dst, b);
            dst.push(']');
            dst.push(')');
            assert(dst@ == start + value_debug(v@));
        },
    }
}

} // verus!
