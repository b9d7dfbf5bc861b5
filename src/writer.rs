use vstd::prelude::*;
use crate::text::{chars_of, digit_value, string_of};

verus! {

/// The decimal digit for `d`.
pub open spec fn digit_char(d: nat) -> char {
    if d == 1 {
        '1'
    } else if d == 2 {
        '2'
    } else if d == 3 {
        '3'
    } else if d == 4 {
        '4'
    } else if d == 5 {
        '5'
    } else if d == 6 {
        '6'
    } else if d == 7 {
        '7'
    } else if d == 8 {
        '8'
    } else if d == 9 {
        '9'
    } else {
        '0'
    }
}

/// `n` in decimal notation, without leading zeros.
pub open spec fn nat_text(n: nat) -> Seq<char>
    decreases n,
{
    if n < 10 {
        seq![digit_char(n)]
    } else {
        nat_text(n / 10).push(digit_char(n % 10))
    }
}

/// Each item followed by a line break.
pub open spec fn lines(items: Seq<Seq<char>>) -> Seq<char>
    decreases items.len(),
{
    if items.len() == 0 {
        Seq::empty()
    } else {
        lines(items.drop_last()) + items.last() + seq!['\n']
    }
}

/// The items separated by single spaces.
pub open spec fn joined(items: Seq<Seq<char>>) -> Seq<char>
    decreases items.len(),
{
    if items.len() == 0 {
        Seq::empty()
    } else if items.len() == 1 {
        items[0]
    } else {
        joined(items.drop_last()) + seq![' '] + items.last()
    }
}

/// A counted list: the count on a line, `(` on a line, each item on a line, `)` on a line.
pub open spec fn single_data_text(items: Seq<Seq<char>>) -> Seq<char> {
    nat_text(items.len()) + seq!['\n', '('] + seq!['\n'] + lines(items) + seq![')', '\n']
}

/// A row of a fixed-width list: the items within parentheses.
pub open spec fn fixed_row_text(row: Seq<Seq<char>>) -> Seq<char> {
    seq!['('] + joined(row) + seq![')']
}

/// A row of a variable-width list: its length, then the items within parentheses.
pub open spec fn counted_row_text(row: Seq<Seq<char>>) -> Seq<char> {
    nat_text(row.len()) + fixed_row_text(row)
}

/// A row as a counted or a fixed-width row.
pub open spec fn row_text(row: Seq<Seq<char>>, counted: bool) -> Seq<char> {
    if counted {
        counted_row_text(row)
    } else {
        fixed_row_text(row)
    }
}

/// Each row on a line.
pub open spec fn rows_lines(rows: Seq<Seq<Seq<char>>>, counted: bool) -> Seq<char>
    decreases rows.len(),
{
    if rows.len() == 0 {
        Seq::empty()
    } else {
        rows_lines(rows.drop_last(), counted) + row_text(rows.last(), counted) + seq!['\n']
    }
}

/// A counted list of rows: the count on a line, `(` on a line, each row on a line, `)` on a
/// line.
pub open spec fn rows_text(rows: Seq<Seq<Seq<char>>>, counted: bool) -> Seq<char> {
    nat_text(rows.len()) + seq!['\n', '('] + seq!['\n'] + rows_lines(rows, counted) + seq![')', '\n']
}

/// The views of a sequence of strings.
pub open spec fn views(v: Seq<String>) -> Seq<Seq<char>> {
    v.map_values(|s: String| s@)
}

/// The views of a sequence of rows of strings.
pub open spec fn row_views(v: Seq<Vec<String>>) -> Seq<Seq<Seq<char>>> {
    v.map_values(|r: Vec<String>| views(r@))
}

pub proof fn lemma_nat_text_digits(n: nat)
    ensures
        nat_text(n).len() > 0,
        forall|i: int| 0 <= i < nat_text(n).len() ==> crate::text::is_digit(#[trigger] nat_text(n)[i]),
        crate::text::digits_value(nat_text(n)) == n,
    decreases n,
{
    if n >= 10 {
        lemma_nat_text_digits(n / 10);
        let t = nat_text(n);
        assert(t.drop_last() =~= nat_text(n / 10));
        assert(digit_value(digit_char(n % 10)) == n % 10);
        assert(n == (n / 10) * 10 + n % 10);
        assert(crate::text::digits_value(t) == crate::text::digits_value(t.drop_last()) * 10
            + digit_value(t.last()));
    } else {
        assert(nat_text(n).drop_last() =~= Seq::<char>::empty());
        assert(crate::text::digits_value(Seq::<char>::empty()) == 0);
        assert(digit_value(digit_char(n)) == n);
    }
}

/// Appends the characters of `t`.
pub fn push_str(out: &mut Vec<char>, t: &str)
    ensures
        final(out)@ == old(out)@ + t@,
{
    let tc = chars_of(t);
    push_chars(out, &tc);
}

/// Appends the characters of `t`.
pub fn push_chars(out: &mut Vec<char>, t: &Vec<char>)
    ensures
        final(out)@ == old(out)@ + t@,
{
    let ghost start = out@;
    let mut i: usize = 0;
    while i < t.len()
        invariant
            i <= t.len(),
            out@ == start + t@.take(i as int),
        decreases t.len() - i,
    {
        out.push(t[i]);
        i = i + 1;
        assert(out@ =~= start + t@.take(i as int));
    }
    assert(t@.take(i as int) =~= t@);
}

pub fn digit_to_char(d: usize) -> (r: char)
    requires
        d < 10,
    ensures
        r == digit_char(d as nat),
{
    match d {
        1 => '1',
        2 => '2',
        3 => '3',
        4 => '4',
        5 => '5',
        6 => '6',
        7 => '7',
        8 => '8',
        9 => '9',
        _ => '0',
    }
}

/// Appends `n` in decimal notation.
pub fn push_usize(out: &mut Vec<char>, n: usize)
    ensures
        final(out)@ == old(out)@ + nat_text(n as nat),
    decreases n,
{
    if n < 10 {
        out.push(digit_to_char(n));
    } else {
        push_usize(out, n / 10);
        out.push(digit_to_char(n % 10));
    }
}

/// The string of the characters of `v`.
pub fn string_of_chars(v: &Vec<char>) -> (r: String)
    ensures
        r@ == v@,
{
    string_of(v.as_slice())
}

/// A copy of each string.
pub fn copy_strings(v: &Vec<String>) -> (r: Vec<String>)
    ensures
        views(r@) == views(v@),
{
    let mut r: Vec<String> = Vec::new();
    let mut i: usize = 0;
    while i < v.len()
        invariant
            i <= v@.len(),
            views(r@) == views(v@.take(i as int)),
        decreases v.len() - i,
    {
        let c = v[i].clone();
        let ghost before = r@;
        r.push(c);
        proof {
            assert(views(r@) =~= views(before).push(v@[i as int]@));
            assert(views(v@.take(i + 1)) =~= views(v@.take(i as int)).push(v@[i as int]@));
        }
        i = i + 1;
    }
    assert(v@.take(i as int) =~= v@);
    r
}

/// `n` in decimal notation.
pub fn usize_to_string(n: usize) -> (r: String)
    ensures
        r@ == nat_text(n as nat),
{
    let mut out: Vec<char> = Vec::new();
    push_usize(&mut out, n);
    string_of(&out)
}

/// Appends each item followed by a line break.
pub fn push_lines(out: &mut Vec<char>, items: &Vec<String>)
    ensures
        final(out)@ == old(out)@ + lines(views(items@)),
{
    let ghost start = out@;
    let mut i: usize = 0;
    while i < items.len()
        invariant
            i <= items.len(),
            out@ == start + lines(views(items@.take(i as int))),
        decreases items.len() - i,
    {
        push_str(out, items[i].as_str());
        out.push('\n');
        i = i + 1;
        proof {
            let v = views(items@.take(i as int));
            assert(v.drop_last() =~= views(items@.take(i - 1)));
            assert(out@ =~= start + lines(v));
        }
    }
    assert(items@.take(i as int) =~= items@);
}

/// Appends the items separated by single spaces.
#[verifier::rlimit(60)]
pub fn push_joined(out: &mut Vec<char>, items: &Vec<String>)
    ensures
        final(out)@ == old(out)@ + joined(views(items@)),
{
    let ghost start = out@;
    let mut i: usize = 0;
    while i < items.len()
        invariant
            i <= items.len(),
            out@ == start + joined(views(items@.take(i as int))),
        decreases items.len() - i,
    {
        if i > 0 {
            out.push(' ');
        }
        push_str(out, items[i].as_str());
        i = i + 1;
        proof {
            let v = views(items@.take(i as int));
            assert(v.drop_last() =~= views(items@.take(i - 1)));
            if i == 1 {
                assert(joined(views(items@.take(0))) =~= Seq::<char>::empty());
            }
            assert(out@ =~= start + joined(v));
        }
    }
    assert(items@.take(i as int) =~= items@);
}

/// Writes a counted list with one item on each line:
/// ```text
/// 3
/// (
/// a
/// b
/// c
/// )
/// ```
pub fn write_single_data(data: &Vec<String>) -> (r: String)
    ensures
        r@ == single_data_text(views(data@)),
{
    let mut out: Vec<char> = Vec::new();
    push_usize(&mut out, data.len());
    out.push('\n');
    out.push('(');
    out.push('\n');
    push_lines(&mut out, data);
    out.push(')');
    out.push('\n');
    assert(out@ =~= single_data_text(views(data@)));
    string_of(&out)
}

/// Writes the items separated by single spaces.
pub fn write_vector_content(data: &Vec<String>) -> (r: String)
    ensures
        r@ == joined(views(data@)),
{
    let mut out: Vec<char> = Vec::new();
    push_joined(&mut out, data);
    assert(out@ =~= joined(views(data@)));
    string_of(&out)
}

/// Appends a counted list of rows, each with its length in front when `counted`.
#[verifier::rlimit(60)]
pub fn push_rows(out: &mut Vec<char>, data: &Vec<Vec<String>>, counted: bool)
    ensures
        final(out)@ == old(out)@ + rows_text(row_views(data@), counted),
{
    let ghost start = out@;
    push_usize(out, data.len());
    out.push('\n');
    out.push('(');
    out.push('\n');
    let ghost head = out@;
    let mut i: usize = 0;
    while i < data.len()
        invariant
            i <= data.len(),
            out@ == head + rows_lines(row_views(data@.take(i as int)), counted),
        decreases data.len() - i,
    {
        if counted {
            push_usize(out, data[i].len());
        }
        out.push('(');
        push_joined(out, &data[i]);
        out.push(')');
        out.push('\n');
        i = i + 1;
        proof {
            let v = row_views(data@.take(i as int));
            assert(v.drop_last() =~= row_views(data@.take(i - 1)));
            assert(v.last() == views(data@[i - 1]@));
            assert(out@ =~= head + rows_lines(v, counted));
        }
    }
    out.push(')');
    out.push('\n');
    proof {
        assert(data@.take(i as int) =~= data@);
        assert(out@ =~= start + rows_text(row_views(data@), counted));
    }
}

/// Writes a counted list of variable-width rows, each row with its own length:
/// ```text
/// 2
/// (
/// 3(1 2 3)
/// 2(4 5)
/// )
/// ```
pub fn write_multi_data(data: &Vec<Vec<String>>) -> (r: String)
    ensures
        r@ == rows_text(row_views(data@), true),
{
    let mut out: Vec<char> = Vec::new();
    push_rows(&mut out, data, true);
    assert(out@ =~= rows_text(row_views(data@), true));
    string_of(&out)
}

/// Writes a counted list of fixed-width rows, without their lengths:
/// ```text
/// 2
/// (
/// (1 2 3)
/// (4 5 6)
/// )
/// ```
pub fn write_fixed_witdh_data(data: &Vec<Vec<String>>) -> (r: String)
    ensures
        r@ == rows_text(row_views(data@), false),
{
    let mut out: Vec<char> = Vec::new();
    push_rows(&mut out, data, false);
    assert(out@ =~= rows_text(row_views(data@), false));
    string_of(&out)
}

/// A flag as the digit `1` or `0`.
pub fn bool_as_num(b: bool) -> (r: usize)
    ensures
        r == (if b {
            1usize
        } else {
            0usize
        }),
{
    if b {
        1
    } else {
        0
    }
}

} // verus!
