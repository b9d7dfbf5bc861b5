use vstd::prelude::*;

verus! {

/// Whitespace as the grammar knows it: space, tab, line feed, carriage return.
pub open spec fn is_space(c: char) -> bool {
    c == ' ' || c == '\t' || c == '\n' || c == '\r'
}

pub open spec fn is_digit(c: char) -> bool {
    '0' <= c && c <= '9'
}

/// What `char::is_alphanumeric` says of a character.
pub uninterp spec fn alphanumeric(c: char) -> bool;

/// Characters of an unquoted word: letters and digits, `/`, `\`, `_` and `.`. An ASCII
/// character is a letter or digit when it is one of `a`-`z`, `A`-`Z`, `0`-`9`; any other
/// character when `char::is_alphanumeric` says so.
pub open spec fn is_word_char(c: char) -> bool {
    if c <= '\u{7f}' {
        ('a' <= c && c <= 'z') || ('A' <= c && c <= 'Z') || is_digit(c) || c == '/' || c == '\\'
            || c == '_' || c == '.'
    } else {
        alphanumeric(c)
    }
}

/// Characters that may stand in a number written in decimal notation.
pub open spec fn is_number_char(c: char) -> bool {
    is_digit(c) || c == '+' || c == '-' || c == '.' || c == 'e' || c == 'E'
}

/// Whether `t` occurs in `s` at position `p`.
pub open spec fn has_at(s: Seq<char>, p: int, t: Seq<char>) -> bool {
    0 <= p && p + t.len() <= s.len() && s.subrange(p, p + t.len()) == t
}

/// End of the run of whitespace that starts at `p`.
pub open spec fn ws_end(s: Seq<char>, p: int) -> int
    decreases s.len() - p,
{
    if 0 <= p < s.len() && is_space(s[p]) {
        ws_end(s, p + 1)
    } else {
        p
    }
}

/// End of the run of digits that starts at `p`.
pub open spec fn digits_end(s: Seq<char>, p: int) -> int
    decreases s.len() - p,
{
    if 0 <= p < s.len() && is_digit(s[p]) {
        digits_end(s, p + 1)
    } else {
        p
    }
}

/// End of the run of word characters that starts at `p`.
pub open spec fn word_end(s: Seq<char>, p: int) -> int
    decreases s.len() - p,
{
    if 0 <= p < s.len() && is_word_char(s[p]) {
        word_end(s, p + 1)
    } else {
        p
    }
}

/// End of the run of number characters that starts at `p`.
pub open spec fn number_end(s: Seq<char>, p: int) -> int
    decreases s.len() - p,
{
    if 0 <= p < s.len() && is_number_char(s[p]) {
        number_end(s, p + 1)
    } else {
        p
    }
}

/// Position of the first `c` at or after `p`, if there is one.
pub open spec fn find_char(s: Seq<char>, p: int, c: char) -> Option<int>
    decreases s.len() - p,
{
    if p < 0 || p >= s.len() {
        None
    } else if s[p] == c {
        Some(p)
    } else {
        find_char(s, p + 1, c)
    }
}

/// End of the line that starts at `p`: the first line break at or after `p`, or the end of `s`.
pub open spec fn line_end(s: Seq<char>, p: int) -> int
    decreases s.len() - p,
{
    if p < 0 || p >= s.len() {
        s.len() as int
    } else if s[p] == '\n' || s[p] == '\r' {
        p
    } else {
        line_end(s, p + 1)
    }
}

/// Position just after the first `*/` at or after `p`, if there is one.
pub open spec fn block_close(s: Seq<char>, p: int) -> Option<int>
    decreases s.len() - p,
{
    if p < 0 || p + 1 >= s.len() {
        None
    } else if s[p] == '*' && s[p + 1] == '/' {
        Some(p + 2)
    } else {
        block_close(s, p + 1)
    }
}

/// End of the insignificant text that starts at `p`: whitespace, line comments (`//` to the end
/// of the line) and block comments (`/*` to the first `*/`), in any number and order.
pub open spec fn skip_end(s: Seq<char>, p: int) -> int
    decreases s.len() - p,
{
    if 0 <= p < s.len() && is_space(s[p]) {
        skip_end(s, p + 1)
    } else if 0 <= p && p + 1 < s.len() && s[p] == '/' && s[p + 1] == '/' && p < line_end(
        s,
        p + 2,
    ) <= s.len() {
        skip_end(s, line_end(s, p + 2))
    } else if 0 <= p && p + 1 < s.len() && s[p] == '/' && s[p + 1] == '*' && block_close(
        s,
        p + 2,
    ) is Some && p < block_close(s, p + 2)->0 <= s.len() {
        skip_end(s, block_close(s, p + 2)->0)
    } else {
        p
    }
}

/// The word at `p`: the text between two double quotes (taken without them, as written: no
/// escapes), or a non-empty run of word characters; with the position after it.
pub open spec fn word_at(s: Seq<char>, p: int) -> Option<(Seq<char>, int)> {
    if 0 <= p < s.len() && s[p] == '"' {
        match find_char(s, p + 1, '"') {
            Some(q) => Some((s.subrange(p + 1, q), q + 1)),
            None => None,
        }
    } else if 0 <= p && word_end(s, p) > p {
        Some((s.subrange(p, word_end(s, p)), word_end(s, p)))
    } else {
        None
    }
}

/// The value of a decimal digit.
pub open spec fn digit_value(c: char) -> nat {
    if c == '1' {
        1
    } else if c == '2' {
        2
    } else if c == '3' {
        3
    } else if c == '4' {
        4
    } else if c == '5' {
        5
    } else if c == '6' {
        6
    } else if c == '7' {
        7
    } else if c == '8' {
        8
    } else if c == '9' {
        9
    } else {
        0
    }
}

/// The number that a non-empty run of decimal digits stands for.
pub open spec fn digits_value(t: Seq<char>) -> nat
    decreases t.len(),
{
    if t.len() == 0 {
        0
    } else {
        digits_value(t.drop_last()) * 10 + digit_value(t.last())
    }
}

pub open spec fn all_digits(t: Seq<char>) -> bool {
    forall|i: int| 0 <= i < t.len() ==> is_digit(#[trigger] t[i])
}

/// An integer literal: one or more decimal digits, no sign.
pub open spec fn is_integer_literal(t: Seq<char>) -> bool {
    t.len() > 0 && all_digits(t)
}

/// The digits of an unsigned integer written with an optional leading `+`.
pub open spec fn integer_digits(t: Seq<char>) -> Seq<char> {
    if t.len() > 0 && t[0] == '+' {
        t.drop_first()
    } else {
        t
    }
}

/// Whether `t` reads as an unsigned integer that fits in `usize`: an optional `+`, then one or
/// more decimal digits.
pub open spec fn reads_as_integer(t: Seq<char>) -> bool {
    is_integer_literal(integer_digits(t)) && digits_value(integer_digits(t)) <= usize::MAX
}

/// The value of an unsigned integer written with an optional leading `+`.
pub open spec fn integer_value(t: Seq<char>) -> nat {
    digits_value(integer_digits(t))
}

/// The integer literal at `p` whose value fits in `usize`, with the position after it.
pub open spec fn usize_at(s: Seq<char>, p: int) -> Option<(nat, int)> {
    let e = digits_end(s, p);
    if 0 <= p && e > p && digits_value(s.subrange(p, e)) <= usize::MAX {
        Some((digits_value(s.subrange(p, e)), e))
    } else {
        None
    }
}

/// A number in decimal notation: an optional sign, digits with an optional fractional part (at
/// least one digit in all), and an optional exponent `e` or `E` with an optional sign and digits.
/// Only decimal notation is read: the words `inf`, `infinity` and `nan` are no numbers here.
pub open spec fn is_float_literal(t: Seq<char>) -> bool {
    let a: int = if t.len() > 0 && (t[0] == '+' || t[0] == '-') {
        1
    } else {
        0
    };
    let b = digits_end(t, a);
    let c = if b < t.len() && t[b] == '.' {
        digits_end(t, b + 1)
    } else {
        b
    };
    let n_digits = if b < t.len() && t[b] == '.' {
        c - a - 1
    } else {
        c - a
    };
    &&& n_digits > 0
    &&& (c == t.len() || ((t[c] == 'e' || t[c] == 'E') && {
        let f: int = if c + 1 < t.len() && (t[c + 1] == '+' || t[c + 1] == '-') {
            c + 2
        } else {
            c + 1
        };
        digits_end(t, f) > f && digits_end(t, f) == t.len()
    }))
}

/// The number written at `p` in decimal notation, taken as the longest run of number
/// characters; with the position after it.
pub open spec fn float_at(s: Seq<char>, p: int) -> Option<(Seq<char>, int)> {
    let e = number_end(s, p);
    if 0 <= p <= s.len() && is_float_literal(s.subrange(p, e)) {
        Some((s.subrange(p, e), e))
    } else {
        None
    }
}


pub proof fn lemma_find_char_bounds(s: Seq<char>, p: int, c: char)
    ensures
        find_char(s, p, c) matches Some(k) ==> p <= k < s.len() && s[k] == c,
    decreases s.len() - p,
{
    if 0 <= p < s.len() && s[p] != c {
        lemma_find_char_bounds(s, p + 1, c);
    }
}

pub proof fn lemma_block_close_bounds(s: Seq<char>, p: int)
    ensures
        block_close(s, p) matches Some(k) ==> p + 2 <= k <= s.len(),
    decreases s.len() - p,
{
    if 0 <= p && p + 1 < s.len() && !(s[p] == '*' && s[p + 1] == '/') {
        lemma_block_close_bounds(s, p + 1);
    }
}

pub proof fn lemma_skip_end_bounds(s: Seq<char>, p: int)
    requires
        0 <= p <= s.len(),
    ensures
        p <= skip_end(s, p) <= s.len(),
    decreases s.len() - p,
{
    if 0 <= p < s.len() && is_space(s[p]) {
        lemma_skip_end_bounds(s, p + 1);
    } else if 0 <= p && p + 1 < s.len() && s[p] == '/' && s[p + 1] == '/' && p < line_end(
        s,
        p + 2,
    ) <= s.len() {
        lemma_skip_end_bounds(s, line_end(s, p + 2));
    } else if 0 <= p && p + 1 < s.len() && s[p] == '/' && s[p + 1] == '*' && block_close(
        s,
        p + 2,
    ) is Some && p < block_close(s, p + 2)->0 <= s.len() {
        lemma_skip_end_bounds(s, block_close(s, p + 2)->0);
    }
}

pub fn char_is_space(c: char) -> (r: bool)
    ensures
        r == is_space(c),
{
    c == ' ' || c == '\t' || c == '\n' || c == '\r'
}

pub fn char_is_digit(c: char) -> (r: bool)
    ensures
        r == is_digit(c),
{
    '0' <= c && c <= '9'
}

/// Relies on `char::is_alphanumeric`: whether the character is alphabetic or numeric.
#[verifier::external_body]
fn char_alphanumeric(c: char) -> (r: bool)
    ensures
        r == alphanumeric(c),
{
    c.is_alphanumeric()
}

pub fn char_is_word(c: char) -> (r: bool)
    ensures
        r == is_word_char(c),
{
    if c <= '\u{7f}' {
        ('a' <= c && c <= 'z') || ('A' <= c && c <= 'Z') || ('0' <= c && c <= '9') || c == '/'
            || c == '\\' || c == '_' || c == '.'
    } else {
        char_alphanumeric(c)
    }
}

pub fn char_is_number(c: char) -> (r: bool)
    ensures
        r == is_number_char(c),
{
    ('0' <= c && c <= '9') || c == '+' || c == '-' || c == '.' || c == 'e' || c == 'E'
}

/// The characters of a string, in order.
pub fn chars_of(s: &str) -> (r: Vec<char>)
    ensures
        r@ == s@,
{
    let mut r: Vec<char> = Vec::new();
    for c in it: s.chars()
        invariant
            it.seq() == s@,
            r@ == s@.take(it.index() as int),
    {
        r.push(c);
    }
    r
}

/// Relies on `FromIterator<char>` for `String`: the string holds the characters in order.
#[verifier::external_body]
pub fn string_of(v: &[char]) -> (r: String)
    ensures
        r@ == v@,
{
    v.iter().collect()
}

pub fn skip_space(s: &Vec<char>, p: usize) -> (r: usize)
    requires
        p <= s.len(),
    ensures
        r == ws_end(s@, p as int),
        p <= r <= s.len(),
{
    let mut q = p;
    while q < s.len() && char_is_space(s[q])
        invariant
            p <= q <= s.len(),
            ws_end(s@, p as int) == ws_end(s@, q as int),
        decreases s.len() - q,
    {
        q = q + 1;
    }
    q
}

pub fn skip_digits(s: &Vec<char>, p: usize) -> (r: usize)
    requires
        p <= s.len(),
    ensures
        r == digits_end(s@, p as int),
        p <= r <= s.len(),
{
    let mut q = p;
    while q < s.len() && char_is_digit(s[q])
        invariant
            p <= q <= s.len(),
            digits_end(s@, p as int) == digits_end(s@, q as int),
        decreases s.len() - q,
    {
        q = q + 1;
    }
    q
}

pub fn skip_word(s: &Vec<char>, p: usize) -> (r: usize)
    requires
        p <= s.len(),
    ensures
        r == word_end(s@, p as int),
        p <= r <= s.len(),
{
    let mut q = p;
    while q < s.len() && char_is_word(s[q])
        invariant
            p <= q <= s.len(),
            word_end(s@, p as int) == word_end(s@, q as int),
        decreases s.len() - q,
    {
        q = q + 1;
    }
    q
}

pub fn skip_number(s: &Vec<char>, p: usize) -> (r: usize)
    requires
        p <= s.len(),
    ensures
        r == number_end(s@, p as int),
        p <= r <= s.len(),
{
    let mut q = p;
    while q < s.len() && char_is_number(s[q])
        invariant
            p <= q <= s.len(),
            number_end(s@, p as int) == number_end(s@, q as int),
        decreases s.len() - q,
    {
        q = q + 1;
    }
    q
}

#[verifier::rlimit(60)]
pub fn find(s: &Vec<char>, p: usize, c: char) -> (r: Option<usize>)
    requires
        p <= s.len(),
    ensures
        r matches Some(q) ==> p <= q < s.len(),
        r == (match find_char(s@, p as int, c) {
            Some(q) => Some(q as usize),
            None => None::<usize>,
        }),
{
    let mut q = p;
    while q < s.len()
        invariant
            p <= q <= s.len(),
            find_char(s@, p as int, c) == find_char(s@, q as int, c),
        decreases s.len() - q,
    {
        proof {
            lemma_find_char_bounds(s@, q as int, c);
        }
        if s[q] == c {
            return Some(q);
        }
        q = q + 1;
    }
    proof {
        lemma_find_char_bounds(s@, q as int, c);
    }
    None
}

pub fn find_line_end(s: &Vec<char>, p: usize) -> (r: usize)
    requires
        p <= s.len(),
    ensures
        r == line_end(s@, p as int),
        p <= r <= s.len(),
{
    let mut q = p;
    while q < s.len() && s[q] != '\n' && s[q] != '\r'
        invariant
            p <= q <= s.len(),
            line_end(s@, p as int) == line_end(s@, q as int),
        decreases s.len() - q,
    {
        q = q + 1;
    }
    q
}

pub fn find_block_close(s: &Vec<char>, p: usize) -> (r: Option<usize>)
    requires
        p <= s.len(),
    ensures
        r matches Some(q) ==> p + 2 <= q <= s.len(),
        r == (match block_close(s@, p as int) {
            Some(q) => Some(q as usize),
            None => None::<usize>,
        }),
{
    let mut q = p;
    while q < s.len() && s.len() - q >= 2
        invariant
            p <= q <= s.len(),
            block_close(s@, p as int) == block_close(s@, q as int),
        decreases s.len() - q,
    {
        proof {
            lemma_block_close_bounds(s@, q as int);
        }
        if s[q] == '*' && s[q + 1] == '/' {
            return Some(q + 2);
        }
        q = q + 1;
    }
    None
}

/// Skips whitespace and comments.
#[verifier::rlimit(60)]
pub fn skip_insignificant(s: &Vec<char>, p: usize) -> (r: usize)
    requires
        p <= s.len(),
    ensures
        r == skip_end(s@, p as int),
        p <= r <= s.len(),
{
    let mut q = p;
    loop
        invariant
            p <= q <= s.len(),
            skip_end(s@, p as int) == skip_end(s@, q as int),
        decreases s.len() - q,
    {
        if q < s.len() && char_is_space(s[q]) {
            assert(skip_end(s@, q as int) == skip_end(s@, q + 1));
            q = q + 1;
        } else if q < s.len() && s.len() - q >= 2 && s[q] == '/' && s[q + 1] == '/' {
            let e = find_line_end(s, q + 2);
            assert(skip_end(s@, q as int) == skip_end(s@, e as int));
            q = e;
        } else if q < s.len() && s.len() - q >= 2 && s[q] == '/' && s[q + 1] == '*' {
            proof {
                lemma_block_close_bounds(s@, q + 2);
            }
            match find_block_close(s, q + 2) {
                Some(e) => {
                    assert(skip_end(s@, q as int) == skip_end(s@, e as int));
                    q = e;
                },
                None => {
                    return q;
                },
            }
        } else {
            return q;
        }
    }
}

/// Whether the characters of `t` stand in `s` at `p`.
pub fn has_text_at(s: &Vec<char>, p: usize, t: &Vec<char>) -> (r: bool)
    requires
        p <= s.len(),
    ensures
        r == has_at(s@, p as int, t@),
{
    if t.len() > s.len() - p {
        return false;
    }
    let mut i: usize = 0;
    while i < t.len()
        invariant
            i <= t.len(),
            p + t.len() <= s.len(),
            forall|j: int| 0 <= j < i ==> s@[p + j] == t@[j],
        decreases t.len() - i,
    {
        if s[p + i] != t[i] {
            assert(s@.subrange(p as int, p + t.len())[i as int] != t@[i as int]);
            return false;
        }
        i = i + 1;
    }
    assert(s@.subrange(p as int, p + t.len()) =~= t@);
    true
}

/// Whether `a` and `b` hold the same characters.
pub fn same_chars(a: &Vec<char>, b: &Vec<char>) -> (r: bool)
    ensures
        r == (a@ == b@),
{
    if a.len() != b.len() {
        return false;
    }
    let mut i: usize = 0;
    while i < a.len()
        invariant
            i <= a.len(),
            a.len() == b.len(),
            forall|j: int| 0 <= j < i ==> a@[j] == b@[j],
        decreases a.len() - i,
    {
        if a[i] != b[i] {
            return false;
        }
        i = i + 1;
    }
    assert(a@ =~= b@);
    true
}

/// The position after `c` when `c` follows `p` after whitespace.
pub open spec fn char_after_ws(s: Seq<char>, p: int, c: char) -> Option<int> {
    let q = ws_end(s, p);
    if 0 <= q < s.len() && s[q] == c {
        Some(q + 1)
    } else {
        None
    }
}

/// The position after `c` when `c` follows `p` after insignificant text.
pub open spec fn char_after_skip(s: Seq<char>, p: int, c: char) -> Option<int> {
    let q = skip_end(s, p);
    if 0 <= q < s.len() && s[q] == c {
        Some(q + 1)
    } else {
        None
    }
}

pub fn expect_after_ws(s: &Vec<char>, p: usize, c: char) -> (r: Option<usize>)
    requires
        p <= s.len(),
    ensures
        r == (match char_after_ws(s@, p as int, c) {
            Some(q) => Some(q as usize),
            None => None::<usize>,
        }),
        r matches Some(q) ==> p < q <= s.len(),
{
    let q = skip_space(s, p);
    if q < s.len() && s[q] == c {
        Some(q + 1)
    } else {
        None
    }
}

pub fn expect_after_skip(s: &Vec<char>, p: usize, c: char) -> (r: Option<usize>)
    requires
        p <= s.len(),
    ensures
        r == (match char_after_skip(s@, p as int, c) {
            Some(q) => Some(q as usize),
            None => None::<usize>,
        }),
        r matches Some(q) ==> p < q <= s.len(),
{
    let q = skip_insignificant(s, p);
    if q < s.len() && s[q] == c {
        Some(q + 1)
    } else {
        None
    }
}

/// Reads a word: see `word_at`.
pub fn read_word(s: &Vec<char>, p: usize) -> (r: Option<(Vec<char>, usize)>)
    requires
        p <= s.len(),
    ensures
        match word_at(s@, p as int) {
            Some((w, e)) => r matches Some((v, q)) && v@ == w && q == e && p < q <= s.len(),
            None => r is None,
        },
{
    proof {
        lemma_find_char_bounds(s@, p + 1, '"');
    }
    if p < s.len() && s[p] == '"' {
        match find(s, p + 1, '"') {
            Some(q) => Some((slice_chars(s, p + 1, q), q + 1)),
            None => None,
        }
    } else {
        let e = skip_word(s, p);
        if e > p {
            Some((slice_chars(s, p, e), e))
        } else {
            None
        }
    }
}

/// The characters of `s` from `a` up to `b`.
pub fn slice_chars(s: &Vec<char>, a: usize, b: usize) -> (r: Vec<char>)
    requires
        a <= b <= s.len(),
    ensures
        r@ == s@.subrange(a as int, b as int),
{
    let mut r: Vec<char> = Vec::new();
    let mut i = a;
    while i < b
        invariant
            a <= i <= b <= s.len(),
            r@ == s@.subrange(a as int, i as int),
        decreases b - i,
    {
        r.push(s[i]);
        i = i + 1;
        assert(r@ =~= s@.subrange(a as int, i as int));
    }
    r
}


pub proof fn lemma_digits_value_step(t: Seq<char>, i: int)
    requires
        0 <= i < t.len(),
    ensures
        digits_value(t.take(i + 1)) == digits_value(t.take(i)) * 10 + digit_value(t[i]),
{
    assert(t.take(i + 1).drop_last() =~= t.take(i));
}

pub proof fn lemma_digits_value_prefix(t: Seq<char>, i: int)
    requires
        0 <= i <= t.len(),
        all_digits(t),
    ensures
        digits_value(t.take(i)) <= digits_value(t),
    decreases t.len(),
{
    if i < t.len() {
        let u = t.drop_last();
        assert(t.take(i) =~= u.take(i));
        assert(all_digits(u)) by {
            assert forall|j: int| 0 <= j < u.len() implies is_digit(#[trigger] u[j]) by {
                assert(u[j] == t[j]);
            }
        }
        lemma_digits_value_prefix(u, i);
    } else {
        assert(t.take(i) =~= t);
    }
}

pub fn digit(c: char) -> (r: usize)
    ensures
        r == digit_value(c),
        r <= 9,
{
    match c {
        '1' => 1,
        '2' => 2,
        '3' => 3,
        '4' => 4,
        '5' => 5,
        '6' => 6,
        '7' => 7,
        '8' => 8,
        '9' => 9,
        _ => 0,
    }
}

/// The value of the integer literal `s[a..b]`, if it is one and its value fits in `usize`.
#[verifier::rlimit(60)]
pub fn integer_in(s: &Vec<char>, a: usize, b: usize) -> (r: Option<usize>)
    requires
        a <= b <= s.len(),
    ensures
        r == (if is_integer_literal(s@.subrange(a as int, b as int)) && digits_value(
            s@.subrange(a as int, b as int),
        ) <= usize::MAX {
            Some(digits_value(s@.subrange(a as int, b as int)) as usize)
        } else {
            None::<usize>
        }),
{
    let ghost t = s@.subrange(a as int, b as int);
    if a == b {
        return None;
    }
    let mut i = a;
    while i < b
        invariant
            a <= i <= b <= s.len(),
            t == s@.subrange(a as int, b as int),
            forall|j: int| 0 <= j < i - a ==> is_digit(#[trigger] t[j]),
        decreases b - i,
    {
        if !char_is_digit(s[i]) {
            assert(!is_digit(t[i - a]));
            return None;
        }
        i = i + 1;
    }
    assert(all_digits(t));
    let mut v: usize = 0;
    let mut i = a;
    while i < b
        invariant
            a <= i <= b <= s.len(),
            t == s@.subrange(a as int, b as int),
            all_digits(t),
            v == digits_value(t.take(i - a)),
        decreases b - i,
    {
        let d = digit(s[i]);
        proof {
            assert(is_digit(t[i - a]));
            lemma_digits_value_step(t, i - a);
        }
        if v > (usize::MAX - d) / 10 {
            proof {
                lemma_digits_value_prefix(t, i - a + 1);
                assert(v * 10 + d > usize::MAX) by (nonlinear_arith)
                    requires
                        v > (usize::MAX - d) / 10,
                        d <= 9,
                ;
            }
            return None;
        }
        proof {
            assert(v * 10 + d <= usize::MAX) by (nonlinear_arith)
                requires
                    v <= (usize::MAX - d) / 10,
                    d <= 9,
            ;
        }
        v = v * 10 + d;
        i = i + 1;
    }
    assert(t.take(b - a) =~= t);
    Some(v)
}

/// The value of `s[a..b]` when it reads as an unsigned integer: see `reads_as_integer`.
pub fn integer_span(s: &Vec<char>, a: usize, b: usize) -> (r: Option<usize>)
    requires
        a <= b <= s.len(),
    ensures
        r == (if reads_as_integer(s@.subrange(a as int, b as int)) {
            Some(integer_value(s@.subrange(a as int, b as int)) as usize)
        } else {
            None::<usize>
        }),
{
    let ghost t = s@.subrange(a as int, b as int);
    if a < b && s[a] == '+' {
        assert(integer_digits(t) =~= s@.subrange(a + 1, b as int));
        integer_in(s, a + 1, b)
    } else {
        assert(integer_digits(t) == t);
        integer_in(s, a, b)
    }
}

/// Reads an integer literal whose value fits in `usize`: see `usize_at`.
pub fn read_usize(s: &Vec<char>, p: usize) -> (r: Option<(usize, usize)>)
    requires
        p <= s.len(),
    ensures
        match usize_at(s@, p as int) {
            Some((v, e)) => r == Some((v as usize, e as usize)) && p < e <= s.len(),
            None => r is None,
        },
{
    let e = skip_digits(s, p);
    if e == p {
        return None;
    }
    proof {
        lemma_digits_run(s@, p as int);
    }
    match integer_in(s, p, e) {
        Some(v) => Some((v, e)),
        None => None,
    }
}

pub proof fn lemma_digits_run(s: Seq<char>, p: int)
    requires
        0 <= p <= s.len(),
    ensures
        p <= digits_end(s, p) <= s.len(),
        all_digits(s.subrange(p, digits_end(s, p))),
    decreases s.len() - p,
{
    if p < s.len() && is_digit(s[p]) {
        lemma_digits_run(s, p + 1);
        let e = digits_end(s, p);
        assert forall|j: int| 0 <= j < e - p implies is_digit(#[trigger] s.subrange(p, e)[j]) by {
            if j > 0 {
                assert(s.subrange(p, e)[j] == s.subrange(p + 1, e)[j - 1]);
            }
        }
    }
}

/// Whether `t` is a number in decimal notation: see `is_float_literal`.
#[verifier::rlimit(60)]
pub fn float_literal(t: &Vec<char>) -> (r: bool)
    ensures
        r == is_float_literal(t@),
{
    let a: usize = if t.len() > 0 && (t[0] == '+' || t[0] == '-') {
        1
    } else {
        0
    };
    let b = skip_digits(t, a);
    let dot = b < t.len() && t[b] == '.';
    let c = if dot {
        skip_digits(t, b + 1)
    } else {
        b
    };
    let n_digits = if dot {
        c - a - 1
    } else {
        c - a
    };
    if n_digits == 0 {
        return false;
    }
    if c == t.len() {
        return true;
    }
    if t[c] != 'e' && t[c] != 'E' {
        return false;
    }
    let f = if c + 1 < t.len() && (t[c + 1] == '+' || t[c + 1] == '-') {
        c + 2
    } else {
        c + 1
    };
    let g = skip_digits(t, f);
    g > f && g == t.len()
}

/// Reads a number in decimal notation: see `float_at`.
pub fn read_float(s: &Vec<char>, p: usize) -> (r: Option<(Vec<char>, usize)>)
    requires
        p <= s.len(),
    ensures
        match float_at(s@, p as int) {
            Some((w, e)) => r matches Some((v, q)) && v@ == w && q == e && p < q <= s.len(),
            None => r is None,
        },
{
    let e = skip_number(s, p);
    let t = slice_chars(s, p, e);
    if float_literal(&t) {
        if e == p {
            assert(!is_float_literal(t@));
        }
        Some((t, e))
    } else {
        None
    }
}


/// The position after `kw` when `kw` follows `p` after insignificant text.
pub open spec fn keyword_after_skip(s: Seq<char>, p: int, kw: Seq<char>) -> Option<int> {
    let q = skip_end(s, p);
    if has_at(s, q, kw) {
        Some(q + kw.len())
    } else {
        None
    }
}

/// The position after `kw` when `kw` follows `p` after whitespace.
pub open spec fn keyword_after_ws(s: Seq<char>, p: int, kw: Seq<char>) -> Option<int> {
    let q = ws_end(s, p);
    if has_at(s, q, kw) {
        Some(q + kw.len())
    } else {
        None
    }
}

pub fn expect_keyword_after_skip(s: &Vec<char>, p: usize, kw: &Vec<char>) -> (r: Option<usize>)
    requires
        p <= s.len(),
    ensures
        r == (match keyword_after_skip(s@, p as int, kw@) {
            Some(q) => Some(q as usize),
            None => None::<usize>,
        }),
        r matches Some(q) ==> p <= q <= s.len(),
{
    let q = skip_insignificant(s, p);
    if has_text_at(s, q, kw) {
        Some(q + kw.len())
    } else {
        None
    }
}

pub fn expect_keyword_after_ws(s: &Vec<char>, p: usize, kw: &Vec<char>) -> (r: Option<usize>)
    requires
        p <= s.len(),
    ensures
        r == (match keyword_after_ws(s@, p as int, kw@) {
            Some(q) => Some(q as usize),
            None => None::<usize>,
        }),
        r matches Some(q) ==> p <= q <= s.len(),
{
    let q = skip_space(s, p);
    if has_text_at(s, q, kw) {
        Some(q + kw.len())
    } else {
        None
    }
}

/// A text that the grammar does not accept at `position` (counted in characters).
#[derive(Debug, Clone, Copy, PartialEq, Eq)]
pub struct ParseError {
    pub position: usize,
}

/// The text of `s` from `e` on.
pub fn rest_of(s: &Vec<char>, e: usize) -> (r: String)
    requires
        e <= s.len(),
    ensures
        r@ == s@.subrange(e as int, s@.len() as int),
{
    let t = slice_chars(s, e, s.len());
    string_of(t.as_slice())
}

/// Reads a word at the start of `input`; returns what follows it, and the word.
pub fn string_val(input: &str) -> (r: Result<(String, String), ParseError>)
    ensures
        match word_at(input@, 0) {
            Some((w, e)) => r matches Ok((rest, v)) && v@ == w && rest@ == input@.subrange(
                e,
                input@.len() as int,
            ),
            None => r is Err,
        },
{
    let s = chars_of(input);
    match read_word(&s, 0) {
        Some((w, e)) => Ok((rest_of(&s, e), string_of(w.as_slice()))),
        None => Err(ParseError { position: 0 }),
    }
}

/// Reads an integer literal that fits in `usize` at the start of `input`; returns what follows
/// it, and its value.
pub fn usize_val(input: &str) -> (r: Result<(String, usize), ParseError>)
    ensures
        match usize_at(input@, 0) {
            Some((v, e)) => r matches Ok((rest, n)) && n == v && rest@ == input@.subrange(
                e,
                input@.len() as int,
            ),
            None => r is Err,
        },
{
    let s = chars_of(input);
    match read_usize(&s, 0) {
        Some((v, e)) => Ok((rest_of(&s, e), v)),
        None => Err(ParseError { position: 0 }),
    }
}

/// Skips the whitespace and comments at the start of `input`; returns what follows.
pub fn discard_garbage(input: &str) -> (r: String)
    ensures
        r@ == input@.subrange(skip_end(input@, 0), input@.len() as int),
{
    let s = chars_of(input);
    let e = skip_insignificant(&s, 0);
    rest_of(&s, e)
}

} // verus!
