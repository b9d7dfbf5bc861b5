use vstd::prelude::*;
use crate::field::{field_at, field_text, kw_nonuniform, kw_uniform, FieldView};
use crate::laws::{
    lemma_char_at, lemma_has_prefix, lemma_lines_append, lemma_split, lemma_usize_at,
    lemma_word_run, law_field_round_trip_at, valid_field, valid_number,
};
use crate::text::char_after_ws;
use crate::text::{
    char_after_skip, digits_end, digits_value, find_char, has_at, is_digit, is_float_literal,
    is_integer_literal, reads_as_integer, integer_digits, is_number_char, is_space, is_word_char, skip_end, usize_at, word_at,
    word_end, ws_end,
};
use crate::value::{
    named_structure_at, structure_text, block_at, entries_at, entries_insert, entries_text, entry_at, key_index, kw_list_word, list_at,
    trim_end, value_at, value_text, words_at, ValueView,
};
use crate::writer::{lines, nat_text, single_data_text};

verus! {

/// A key or a word of a list as the writer puts it down: a non-empty run of word characters
/// that does not start with `/` (which could open a comment).
pub open spec fn valid_word(k: Seq<char>) -> bool {
    k.len() > 0 && k[0] != '/' && forall|i: int| 0 <= i < k.len() ==> is_word_char(#[trigger] k[i])
}

/// A value that is not a block, in a form that the writer puts down and the reader takes back
/// as it was: a text is one that no earlier alternative of the value grammar takes (see
/// `valid_text`); a
/// number in decimal notation does not read as an integer; a field is valid; a list holds
/// words.
pub open spec fn valid_flat_value(v: ValueView) -> bool {
    match v {
        ValueView::Text(t) => valid_text(t),
        ValueView::Integer(n) => n <= usize::MAX,
        ValueView::Float(t) => valid_number(t) && !reads_as_integer(t),
        ValueView::Field(f) => valid_field(f),
        ValueView::List(l) => l.len() <= usize::MAX && forall|i: int|
            0 <= i < l.len() ==> valid_word(#[trigger] l[i]),
        ValueView::Structure(_, _) => false,
    }
}

/// A text that reads back as itself: non-empty, without `;`, neither starting nor ending with
/// whitespace, not starting with `/` or `{`, a leading double quote closed within it, a first
/// word that names no field kind, not starting with `List<word>`, and reading as no number.
pub open spec fn valid_text(t: Seq<char>) -> bool {
    &&& t.len() > 0
    &&& forall|i: int| 0 <= i < t.len() ==> #[trigger] t[i] != ';'
    &&& !is_space(t[0]) && t[0] != '/' && t[0] != '{'
    &&& !is_space(t.last())
    &&& (t[0] == '"' ==> find_char(t, 1, '"') is Some)
    &&& (word_at(t, 0) matches Some((w, _)) ==> w != kw_uniform() && w != kw_nonuniform())
    &&& !(t.len() >= 10 && t.subrange(0, 10) == kw_list_word())
    &&& !reads_as_integer(t)
    &&& !is_float_literal(t)
}

pub proof fn lemma_word_end_shift(s: Seq<char>, p: int, t: Seq<char>, i: int)
    requires
        has_at(s, p, t + seq![';']),
        0 <= i <= t.len(),
    ensures
        word_end(s, p + i) == p + word_end(t, i),
    decreases t.len() - i,
{
    lemma_split(s, p, t, seq![';']);
    lemma_char_at(s, p + t.len(), ';');
    if i < t.len() {
        assert(s[p + i] == t[i]) by {
            assert(s[p + i] == s.subrange(p, p + t.len())[i]);
        }
        lemma_word_end_shift(s, p, t, i + 1);
    }
}

pub proof fn lemma_find_char_shift(s: Seq<char>, p: int, t: Seq<char>, i: int, c: char)
    requires
        has_at(s, p, t),
        0 <= i <= t.len(),
        find_char(t, i, c) is Some,
    ensures
        find_char(s, p + i, c) == Some(p + find_char(t, i, c)->0),
    decreases t.len() - i,
{
    if i < t.len() {
        assert(s[p + i] == t[i]) by {
            assert(s[p + i] == s.subrange(p, p + t.len())[i]);
        }
        if t[i] != c {
            lemma_find_char_shift(s, p, t, i + 1, c);
        }
    }
}

pub proof fn lemma_find_char_at(s: Seq<char>, p: int, q: int, c: char)
    requires
        0 <= p <= q < s.len(),
        s[q] == c,
        forall|i: int| p <= i < q ==> #[trigger] s[i] != c,
    ensures
        find_char(s, p, c) == Some(q),
    decreases q - p,
{
    if p < q {
        lemma_find_char_at(s, p + 1, q, c);
    }
}

/// Text ending in a character other than whitespace is its own trimmed form.
pub proof fn lemma_trim_end_same(t: Seq<char>)
    requires
        t.len() > 0,
        !is_space(t.last()),
    ensures
        trim_end(t) == t,
{
}

/// Trimming keeps a prefix of the text, and keeps its first character when that is no
/// whitespace.
pub proof fn lemma_trim_end_prefix(t: Seq<char>)
    ensures
        trim_end(t).len() <= t.len(),
        forall|i: int| 0 <= i < trim_end(t).len() ==> #[trigger] trim_end(t)[i] == t[i],
        t.len() > 0 && !is_space(t[0]) ==> trim_end(t).len() > 0,
    decreases t.len(),
{
    if t.len() > 0 && is_space(t.last()) {
        lemma_trim_end_prefix(t.drop_last());
    }
}

/// Text that starts with a letter reads as no number.
pub proof fn lemma_letter_span(t: Seq<char>)
    requires
        t.len() > 0,
        ('a' <= t[0] && t[0] <= 'z') || ('A' <= t[0] && t[0] <= 'Z'),
    ensures
        !reads_as_integer(trim_end(t)),
        !is_float_literal(trim_end(t)),
{
    lemma_trim_end_prefix(t);
    let u = trim_end(t);
    assert(u[0] == t[0]);
    assert(!is_digit(u[0]));
    assert(digits_end(u, 0) == 0);
}

/// Text that starts with a letter at `p` reads as no number up to its first `;`.
pub proof fn lemma_letter_start(s: Seq<char>, p: int)
    requires
        0 <= p < s.len(),
        ('a' <= s[p] && s[p] <= 'z') || ('A' <= s[p] && s[p] <= 'Z'),
    ensures
        span_not_number(s, p),
{
    crate::text::lemma_find_char_bounds(s, p, ';');
    match find_char(s, p, ';') {
        Some(q) => {
            assert(q > p);
            assert(s.subrange(p, q)[0] == s[p]);
            lemma_letter_span(s.subrange(p, q));
        },
        None => {},
    }
}

/// A run of characters other than `;` followed by `;` at `p` is the span of the value there.
pub proof fn lemma_plain_span(s: Seq<char>, p: int, t: Seq<char>)
    requires
        has_at(s, p, t + seq![';']),
        t.len() > 0,
        forall|i: int| 0 <= i < t.len() ==> #[trigger] t[i] != ';',
        !is_space(t.last()),
    ensures
        find_char(s, p, ';') == Some(p + t.len()),
        s.subrange(p, p + t.len()) == t,
        trim_end(s.subrange(p, p + t.len())) == t,
{
    lemma_split(s, p, t, seq![';']);
    lemma_char_at(s, p + t.len(), ';');
    assert forall|i: int| p <= i < p + t.len() implies #[trigger] s[i] != ';' by {
        assert(s[i] == s.subrange(p, p + t.len())[i - p]);
    }
    lemma_find_char_at(s, p, p + t.len(), ';');
    lemma_trim_end_same(t);
}

/// An integer reads back as written.
pub proof fn lemma_integer_round_trip(s: Seq<char>, p: int, n: nat)
    requires
        n <= usize::MAX,
        has_at(s, p, value_text(ValueView::Integer(n))),
    ensures
        value_at(s, p) == Some((ValueView::Integer(n), p + value_text(ValueView::Integer(n)).len() - 1)),
{
    let nt = nat_text(n);
    crate::writer::lemma_nat_text_digits(n);
    assert(value_text(ValueView::Integer(n)) =~= nt + seq![';'] + seq!['\n']);
    lemma_split(s, p, nt + seq![';'], seq!['\n']);
    assert forall|i: int| 0 <= i < nt.len() implies #[trigger] nt[i] != ';' && !is_space(nt[i]) by {
        assert(is_digit(nt[i]));
    }
    lemma_plain_span(s, p, nt);
}

/// A number in decimal notation that does not read as an integer reads back as written.
#[verifier::rlimit(60)]
pub proof fn lemma_float_round_trip(s: Seq<char>, p: int, t: Seq<char>)
    requires
        valid_number(t),
        !reads_as_integer(t),
        has_at(s, p, value_text(ValueView::Float(t))),
    ensures
        value_at(s, p) == Some((ValueView::Float(t), p + value_text(ValueView::Float(t)).len() - 1)),
{
    assert(t.len() > 0) by {
        assert(digits_end(Seq::<char>::empty(), 0) == 0);
        if t.len() == 0 {
            assert(t =~= Seq::<char>::empty());
        }
    }
    assert(value_text(ValueView::Float(t)) =~= t + seq![';'] + seq!['\n']);
    lemma_split(s, p, t + seq![';'], seq!['\n']);
    assert forall|i: int| 0 <= i < t.len() implies #[trigger] t[i] != ';' && !is_space(t[i]) by {
        assert(is_number_char(t[i]));
    }
    lemma_plain_span(s, p, t);
}

/// A text that no earlier alternative takes reads back as written.
#[verifier::rlimit(60)]
pub proof fn lemma_text_round_trip(s: Seq<char>, p: int, t: Seq<char>)
    requires
        valid_flat_value(ValueView::Text(t)),
        has_at(s, p, value_text(ValueView::Text(t))),
    ensures
        value_at(s, p) == Some((ValueView::Text(t), p + value_text(ValueView::Text(t)).len() - 1)),
{
    let m = t.len() as int;
    assert(value_text(ValueView::Text(t)) =~= t + seq![';'] + seq!['\n']);
    lemma_split(s, p, t + seq![';'], seq!['\n']);
    lemma_plain_span(s, p, t);
    lemma_split(s, p, t, seq![';']);
    lemma_char_at(s, p + m, ';');
    assert(s[p] == t[0]) by {
        assert(s[p] == s.subrange(p, p + m)[0]);
    }
    assert(skip_end(s, p) == p);
    assert(field_at(s, p) is None) by {
        reveal(field_at);
        if t[0] == '"' {
            lemma_find_char_shift(s, p, t, 1, '"');
            let c = find_char(t, 1, '"')->0;
            crate::text::lemma_find_char_bounds(t, 1, '"');
            assert(s.subrange(p + 1, p + c) =~= t.subrange(1, c)) by {
                assert forall|k: int| 0 <= k < c - 1 implies #[trigger] s.subrange(p + 1, p + c)[k]
                    == t.subrange(1, c)[k] by {
                    assert(s[p + 1 + k] == s.subrange(p, p + m)[1 + k]);
                }
            }
            assert(word_at(t, 0) == Some((t.subrange(1, c), c + 1)));
        } else {
            lemma_word_end_shift(s, p, t, 0);
            let we = word_end(t, 0);
            crate::laws::lemma_word_end_bounds(t, 0);
            if we > 0 {
                assert(s.subrange(p, p + we) =~= t.subrange(0, we)) by {
                    assert forall|k: int| 0 <= k < we implies #[trigger] s.subrange(p, p + we)[k]
                        == t.subrange(0, we)[k] by {
                        assert(s[p + k] == s.subrange(p, p + m)[k]);
                    }
                }
            }
        }
    }
    assert(!has_at(s, p, kw_list_word())) by {
        if has_at(s, p, kw_list_word()) {
            if m >= 10 {
                assert(t.subrange(0, 10) =~= kw_list_word()) by {
                    assert forall|k: int| 0 <= k < 10 implies #[trigger] t.subrange(0, 10)[k]
                        == kw_list_word()[k] by {
                        assert(s[p + k] == s.subrange(p, p + m)[k]);
                        assert(s[p + k] == s.subrange(p, p + 10)[k]);
                    }
                }
            } else {
                assert(s[p + m] == s.subrange(p, p + 10)[m]);
                assert(kw_list_word()[m] != ';');
            }
        }
    }
    assert(list_at(s, p) is None) by {
        reveal(list_at);
    }
    assert(char_after_skip(s, p, '{') is None);
    assert(block_at(s, p) is None);
    lemma_value_at_alternatives(s, p);
}

/// A field value reads back as written.
pub proof fn lemma_field_value_round_trip(s: Seq<char>, p: int, f: FieldView)
    requires
        valid_field(f),
        has_at(s, p, value_text(ValueView::Field(f))),
    ensures
        value_at(s, p) == Some((ValueView::Field(f), p + value_text(ValueView::Field(f)).len() - 1)),
{
    let ft = field_text(f);
    assert(value_text(ValueView::Field(f)) =~= ft + seq![';'] + seq!['\n']);
    lemma_split(s, p, ft + seq![';'], seq!['\n']);
    law_field_round_trip_at(s, p, f);
    assert(span_not_number(s, p)) by {
        lemma_split(s, p, ft, seq![';']);
        assert(s[p] == ft[0]) by {
            assert(s[p] == s.subrange(p, p + ft.len())[0]);
        }
        lemma_letter_start(s, p);
    }
    lemma_value_at_alternatives(s, p);
}

/// The text up to the first `;` after `p`, if there is one, reads as no number.
pub open spec fn span_not_number(s: Seq<char>, p: int) -> bool {
    match find_char(s, p, ';') {
        Some(q) => !reads_as_integer(trim_end(s.subrange(p, q))) && !is_float_literal(
            trim_end(s.subrange(p, q)),
        ),
        None => true,
    }
}

/// Where the text up to the next `;` reads as no number, a value is a field, a list, a block
/// or a text, in that order.
pub proof fn lemma_value_at_alternatives(s: Seq<char>, p: int)
    requires
        span_not_number(s, p),
    ensures
        value_at(s, p) == match field_at(s, p) {
            Some((f, e)) => Some((ValueView::Field(f), e)),
            None => match list_at(s, p) {
                Some((l, e)) => Some((ValueView::List(l), e)),
                None => match block_at(s, p) {
                    Some((es, e)) => Some((ValueView::Structure(Seq::empty(), es), e)),
                    None => match find_char(s, p, ';') {
                        Some(e) => Some((ValueView::Text(s.subrange(p, e)), e + 1)),
                        None => None,
                    },
                },
            },
        },
{
}

/// The counted words that the writer put down, one on each line after `(`, read back whole.
#[verifier::rlimit(60)]
pub proof fn lemma_words_lines(s: Seq<char>, o: int, v: Seq<Seq<char>>, i: nat)
    requires
        forall|j: int| 0 <= j < v.len() ==> valid_word(#[trigger] v[j]),
        has_at(s, o, seq!['\n'] + lines(v) + seq![')']),
        i <= v.len(),
    ensures
        words_at(s, o, i) == Some((v.take(i as int), o + lines(v.take(i as int)).len())),
    decreases i,
{
    if i == 0 {
        assert(v.take(0) =~= Seq::<Seq<char>>::empty());
    } else {
        let k = (i - 1) as int;
        lemma_words_lines(s, o, v, (i - 1) as nat);
        let w = v.take(k);
        let x = v[k];
        let after = v.skip(i as int);
        assert(v =~= w + seq![x] + after);
        lemma_lines_append(w + seq![x], after);
        lemma_lines_append(w, seq![x]);
        assert(seq![x].drop_last() =~= Seq::<Seq<char>>::empty());
        assert(lines(Seq::<Seq<char>>::empty()) =~= Seq::<char>::empty());
        assert(lines(seq![x]) =~= x + seq!['\n']);
        let pre = seq!['\n'] + lines(w);
        assert(seq!['\n'] + lines(v) + seq![')'] =~= pre + x + seq!['\n'] + (lines(after) + seq![')']));
        lemma_split(s, o, pre + x + seq!['\n'], lines(after) + seq![')']);
        lemma_split(s, o, pre + x, seq!['\n']);
        lemma_split(s, o, pre, x);
        let q = o + lines(w).len();
        assert(pre[pre.len() - 1] == '\n') by {
            if w.len() > 0 {
                assert(lines(w) == lines(w.drop_last()) + w.last() + seq!['\n']);
            }
        }
        assert(s[q] == '\n') by {
            assert(s[q] == s.subrange(o, o + pre.len())[pre.len() - 1]);
        }
        assert(valid_word(x));
        let e = q + 1 + x.len();
        assert forall|j: int| q + 1 <= j < e implies is_word_char(#[trigger] s[j]) by {
            assert(s[j] == s.subrange(q + 1, e)[j - q - 1]);
        }
        lemma_char_at(s, e, '\n');
        assert(ws_end(s, q + 1) == q + 1);
        assert(ws_end(s, q) == q + 1);
        lemma_word_run(s, q + 1, e);
        assert(s[q + 1] != '"');
        assert(s.subrange(q + 1, e) =~= x);
        assert(v.take(i as int) =~= w.push(x));
        assert(v.take(i as int).drop_last() =~= w);
    }
}

/// The count of a list after a space reads back, with the `(` that follows.
#[verifier::rlimit(60)]
pub proof fn lemma_count_after_space(s: Seq<char>, p: int, n: nat, tail: Seq<char>)
    requires
        n <= usize::MAX,
        has_at(s, p, seq![' '] + nat_text(n) + seq!['\n', '('] + tail),
    ensures
        ws_end(s, p) == p + 1,
        usize_at(s, p + 1) == Some((n, p + 1 + nat_text(n).len())),
        char_after_skip(s, p + 1 + nat_text(n).len(), '(') == Some(p + 3 + nat_text(n).len()),
        has_at(s, p + 3 + nat_text(n).len(), tail),
{
    let nt = nat_text(n);
    crate::writer::lemma_nat_text_digits(n);
    lemma_split(s, p, seq![' '] + nt + seq!['\n', '('], tail);
    lemma_split(s, p, seq![' '] + nt, seq!['\n', '(']);
    lemma_split(s, p, seq![' '], nt);
    assert(seq!['\n'] + seq!['('] =~= seq!['\n', '(']);
    lemma_split(s, p + 1 + nt.len(), seq!['\n'], seq!['(']);
    lemma_char_at(s, p, ' ');
    lemma_char_at(s, p + 1 + nt.len(), '\n');
    lemma_char_at(s, p + 2 + nt.len(), '(');
    assert(s[p + 1] == nt[0]) by {
        assert(s[p + 1] == s.subrange(p + 1, p + 1 + nt.len())[0]);
    }
    assert(ws_end(s, p + 1) == p + 1);
    lemma_usize_at(s, p + 1, n);
    let q = p + 1 + nt.len();
    assert(skip_end(s, q + 1) == q + 1);
    assert(skip_end(s, q) == q + 1);
}

/// The words of a list, its `)` and the `;` after it read back.
#[verifier::rlimit(60)]
pub proof fn lemma_word_list_tail(s: Seq<char>, o: int, l: Seq<Seq<char>>, rest: Seq<char>)
    requires
        forall|j: int| 0 <= j < l.len() ==> valid_word(#[trigger] l[j]),
        has_at(s, o, seq!['\n'] + lines(l) + seq![')'] + (seq!['\n', ';'] + rest)),
    ensures
        words_at(s, o, l.len()) == Some((l, o + lines(l).len())),
        char_after_skip(s, o + lines(l).len(), ')') == Some(o + lines(l).len() + 2),
        char_after_ws(s, o + lines(l).len() + 2, ';') == Some(o + lines(l).len() + 4),
{
    lemma_split(s, o, seq!['\n'] + lines(l) + seq![')'], seq!['\n', ';'] + rest);
    lemma_words_lines(s, o, l, l.len());
    assert(l.take(l.len() as int) =~= l);
    let q: int = o + lines(l).len() as int;
    lemma_split(s, o, seq!['\n'] + lines(l), seq![')']);
    lemma_char_at(s, q + 1, ')');
    assert(s[q] == '\n') by {
        let pre = seq!['\n'] + lines(l);
        if l.len() > 0 {
            assert(lines(l) == lines(l.drop_last()) + l.last() + seq!['\n']);
        }
        assert(s[q] == s.subrange(o, o + pre.len())[pre.len() - 1]);
    }
    assert(skip_end(s, q + 1) == q + 1);
    assert(skip_end(s, q) == q + 1);
    let c = q + 2;
    assert(seq!['\n', ';'] + rest =~= seq!['\n'] + (seq![';'] + rest));
    lemma_split(s, c, seq!['\n'], seq![';'] + rest);
    lemma_split(s, c + 1, seq![';'], rest);
    lemma_char_at(s, c, '\n');
    lemma_char_at(s, c + 1, ';');
    assert(ws_end(s, c + 1) == c + 1);
    assert(ws_end(s, c) == c + 1);
}

/// What a list needs to read back: its keyword, its count, its words, `)` and `;`.
pub proof fn lemma_list_at_chain(s: Seq<char>, p: int, l: Seq<Seq<char>>, q: int, o: int, e: int)
    requires
        has_at(s, p, kw_list_word()),
        ws_end(s, p + 10) == p + 11,
        usize_at(s, p + 11) == Some((l.len(), q)),
        char_after_skip(s, q, '(') == Some(o),
        words_at(s, o, l.len()) == Some((l, e)),
        char_after_skip(s, e, ')') == Some(e + 2),
        char_after_ws(s, e + 2, ';') == Some(e + 4),
    ensures
        list_at(s, p) == Some((l, e + 4)),
{
    reveal(list_at);
}

pub proof fn lemma_list_text_shape(l: Seq<Seq<char>>)
    ensures
        value_text(ValueView::List(l)) == kw_list_word() + (seq![' '] + nat_text(l.len()) + seq![
            '\n',
            '(',
        ] + (seq!['\n'] + lines(l) + seq![')'] + (seq!['\n', ';'] + seq!['\n']))),
        value_text(ValueView::List(l)).len() == 18 + nat_text(l.len()).len() + lines(l).len(),
{
    assert(value_text(ValueView::List(l)) =~= kw_list_word() + (seq![' '] + nat_text(l.len())
        + seq!['\n', '('] + (seq!['\n'] + lines(l) + seq![')'] + (seq!['\n', ';'] + seq!['\n']))));
}

/// The text of a list of words reads back as that list.
#[verifier::rlimit(60)]
pub proof fn lemma_list_at_written(s: Seq<char>, p: int, l: Seq<Seq<char>>)
    requires
        valid_flat_value(ValueView::List(l)),
        has_at(s, p, value_text(ValueView::List(l))),
    ensures
        list_at(s, p) == Some((l, p + value_text(ValueView::List(l)).len() - 1)),
        s[p] == 'L',
{
    let n = l.len();
    let nt = nat_text(n);
    let m: int = nt.len() as int;
    let kw = kw_list_word();
    let tail = seq!['\n'] + lines(l) + seq![')'] + (seq!['\n', ';'] + seq!['\n']);
    lemma_list_text_shape(l);
    lemma_split(s, p, kw, seq![' '] + nt + seq!['\n', '('] + tail);
    assert(s[p] == 'L') by {
        assert(s[p] == s.subrange(p, p + 10)[0]);
    }
    lemma_count_after_space(s, p + 10, n, tail);
    lemma_word_list_tail(s, p + 13 + m, l, seq!['\n']);
    lemma_list_at_chain(s, p, l, p + 11 + m, p + 13 + m, p + 13 + m + lines(l).len());
}

/// Text that starts with `List<word>` at `p` is no field.
pub proof fn lemma_list_no_field(s: Seq<char>, p: int)
    requires
        has_at(s, p, kw_list_word()),
    ensures
        field_at(s, p) is None,
{
    reveal(field_at);
    assert forall|i: int| p <= i < p + 10 implies #[trigger] s[i] == kw_list_word()[i - p] by {
        assert(s[i] == s.subrange(p, p + 10)[i - p]);
    }
    assert(skip_end(s, p) == p);
    lemma_word_run(s, p, p + 4);
    assert(s.subrange(p, p + 4).len() != kw_uniform().len());
    assert(s.subrange(p, p + 4).len() != kw_nonuniform().len());
}

/// A list of words reads back as written.
pub proof fn lemma_list_round_trip(s: Seq<char>, p: int, l: Seq<Seq<char>>)
    requires
        valid_flat_value(ValueView::List(l)),
        has_at(s, p, value_text(ValueView::List(l))),
    ensures
        value_at(s, p) == Some((ValueView::List(l), p + value_text(ValueView::List(l)).len() - 1)),
{
    lemma_list_at_written(s, p, l);
    lemma_letter_start(s, p);
    assert(has_at(s, p, kw_list_word())) by {
        let vt = value_text(ValueView::List(l));
        lemma_list_text_shape(l);
        assert(kw_list_word() + vt.subrange(10, vt.len() as int) =~= vt);
        lemma_split(s, p, kw_list_word(), vt.subrange(10, vt.len() as int));
    }
    lemma_list_no_field(s, p);
    lemma_value_at_alternatives(s, p);
}

/// Reading back, wherever it stands, the text that `FoamValue::write` gives for a value other
/// than a block yields the same value, and stops just after its `;`.
pub proof fn law_flat_value_round_trip_at(s: Seq<char>, p: int, v: ValueView)
    requires
        valid_flat_value(v),
        has_at(s, p, value_text(v)),
    ensures
        value_at(s, p) == Some((v, p + value_text(v).len() - 1)),
{
    match v {
        ValueView::Text(t) => lemma_text_round_trip(s, p, t),
        ValueView::Integer(n) => lemma_integer_round_trip(s, p, n),
        ValueView::Float(t) => lemma_float_round_trip(s, p, t),
        ValueView::Field(f) => lemma_field_value_round_trip(s, p, f),
        ValueView::List(l) => lemma_list_round_trip(s, p, l),
        ValueView::Structure(_, _) => {},
    }
}

/// A value as the writer puts it down and the reader takes it back: a valid value other than a
/// block, or a block of valid entries.
pub open spec fn valid_value(v: ValueView) -> bool
    decreases v, 1nat,
{
    match v {
        ValueView::Structure(_, es) => valid_entries(es, es.len()),
        _ => valid_flat_value(v),
    }
}

/// The first `n` entries are valid: keys are words and distinct, values are valid, and a block
/// bound to a key carries that key as its name.
pub open spec fn valid_entries(es: Seq<(Seq<char>, ValueView)>, n: nat) -> bool
    decreases es, n,
{
    if n == 0 {
        true
    } else if n > es.len() {
        false
    } else {
        &&& valid_entries(es, (n - 1) as nat)
        &&& valid_word(es[n - 1].0)
        &&& key_index(es.take(n - 1), es[n - 1].0) is None
        &&& valid_value(es[n - 1].1)
        &&& (es[n - 1].1 matches ValueView::Structure(name, _) ==> name == es[n - 1].0)
    }
}

/// What the reader yields for a written value: the value itself, or for a block the same
/// entries without a name (a name comes from the key that the block is bound to).
pub open spec fn read_back(v: ValueView) -> ValueView {
    match v {
        ValueView::Structure(_, es) => ValueView::Structure(Seq::empty(), es),
        _ => v,
    }
}

pub proof fn lemma_valid_entry(es: Seq<(Seq<char>, ValueView)>, n: nat, j: int)
    requires
        valid_entries(es, n),
        0 <= j < n,
    ensures
        n <= es.len(),
        valid_word(es[j].0),
        key_index(es.take(j), es[j].0) is None,
        valid_value(es[j].1),
        es[j].1 matches ValueView::Structure(name, _) ==> name == es[j].0,
    decreases n,
{
    if j < n - 1 {
        lemma_valid_entry(es, (n - 1) as nat, j);
    }
}

#[verifier::rlimit(60)]
pub proof fn lemma_entries_text_prefix(es: Seq<(Seq<char>, ValueView)>, i: nat, n: nat)
    requires
        i <= n <= es.len(),
    ensures
        entries_text(es, i).len() <= entries_text(es, n).len(),
        entries_text(es, n).subrange(0, entries_text(es, i).len() as int) == entries_text(es, i),
    decreases n,
{
    if i < n {
        lemma_entries_text_prefix(es, i, (n - 1) as nat);
        let a = entries_text(es, (n - 1) as nat);
        let b = entries_text(es, n);
        assert(b == a + es[n - 1].0 + seq![' '] + value_text(es[n - 1].1));
        assert(b.subrange(0, entries_text(es, i).len() as int) =~= a.subrange(
            0,
            entries_text(es, i).len() as int,
        ));
    } else {
        assert(entries_text(es, n).subrange(0, entries_text(es, n).len() as int) =~= entries_text(
            es,
            n,
        ));
    }
}

/// The text of a valid value starts with a character other than whitespace, except a block,
/// which starts with a line break and then `{`.
#[verifier::rlimit(60)]
pub proof fn lemma_value_text_start(v: ValueView)
    requires
        valid_value(v),
    ensures
        value_text(v).len() > 1,
        !(v is Structure) ==> !is_space(value_text(v)[0]),
        v is Structure ==> value_text(v)[0] == '\n' && value_text(v)[1] == '{',
{
    let t = value_text(v);
    match v {
        ValueView::Text(w) => {
            assert(t[0] == w[0]);
        },
        ValueView::Integer(n) => {
            crate::writer::lemma_nat_text_digits(n);
            assert(t[0] == nat_text(n)[0]);
            assert(is_digit(nat_text(n)[0]));
        },
        ValueView::Float(w) => {
            assert(w.len() > 0) by {
                assert(digits_end(Seq::<char>::empty(), 0) == 0);
                if w.len() == 0 {
                    assert(w =~= Seq::<char>::empty());
                }
            }
            assert(t[0] == w[0]);
            assert(is_number_char(w[0]));
        },
        ValueView::Field(f) => {
            assert(t[0] == field_text(f)[0]);
        },
        ValueView::List(l) => {},
        ValueView::Structure(_, es) => {},
    }
}


pub proof fn lemma_ws_end_bounds(s: Seq<char>, p: int)
    requires
        0 <= p <= s.len(),
    ensures
        p <= ws_end(s, p) <= s.len(),
    decreases s.len() - p,
{
    if p < s.len() && is_space(s[p]) {
        lemma_ws_end_bounds(s, p + 1);
    }
}

pub proof fn lemma_value_text_end(v: ValueView)
    ensures
        value_text(v).len() > 0,
        value_text(v).last() == '\n',
{
}

/// A value that starts with `{` is a block, when one stands there.
#[verifier::rlimit(60)]
pub proof fn lemma_brace_value(s: Seq<char>, q: int, es: Seq<(Seq<char>, ValueView)>, e: int)
    requires
        0 <= q < s.len(),
        s[q] == '{',
        block_at(s, q) == Some((es, e)),
    ensures
        value_at(s, q) == Some((ValueView::Structure(Seq::empty(), es), e)),
{
    assert(span_not_number(s, q)) by {
        crate::text::lemma_find_char_bounds(s, q, ';');
        match find_char(s, q, ';') {
            Some(r) => {
                let t = s.subrange(q, r);
                assert(t[0] == '{');
                lemma_trim_end_prefix(t);
                let u = trim_end(t);
                assert(u[0] == '{');
                assert(digits_end(u, 0) == 0);
            },
            None => {},
        }
    }
    assert(field_at(s, q) is None) by {
        reveal(field_at);
        assert(skip_end(s, q) == q);
    }
    assert(list_at(s, q) is None) by {
        reveal(list_at);
        if has_at(s, q, kw_list_word()) {
            assert(s[q] == s.subrange(q, q + 10)[0]);
        }
    }
    lemma_value_at_alternatives(s, q);
}

pub proof fn lemma_block_text(s: Seq<char>, p: int, name: Seq<char>, es: Seq<(Seq<char>, ValueView)>)
    requires
        has_at(s, p, value_text(ValueView::Structure(name, es))),
    ensures
        s[p] == '\n',
        s[p + 1] == '{',
        has_at(s, p + 2, seq!['\n'] + entries_text(es, es.len()) + seq!['}']),
        value_text(ValueView::Structure(name, es)).len() == entries_text(es, es.len()).len() + 5,
{
    let et = entries_text(es, es.len());
    assert(value_text(ValueView::Structure(name, es)) =~= seq!['\n', '{'] + (seq!['\n'] + et + seq!['}']) + seq!['\n']);
    lemma_split(s, p, seq!['\n', '{'] + (seq!['\n'] + et + seq!['}']), seq!['\n']);
    lemma_split(s, p, seq!['\n', '{'], seq!['\n'] + et + seq!['}']);
    assert(seq!['\n'] + seq!['{'] =~= seq!['\n', '{']);
    lemma_split(s, p, seq!['\n'], seq!['{']);
    lemma_char_at(s, p, '\n');
    lemma_char_at(s, p + 1, '{');
}

/// A block of entries that the writer put down reads back as those entries.
#[verifier::rlimit(60)]
pub proof fn lemma_block_round_trip(s: Seq<char>, p: int, name: Seq<char>, es: Seq<(Seq<char>, ValueView)>)
    requires
        valid_entries(es, es.len()),
        has_at(s, p, value_text(ValueView::Structure(name, es))),
    ensures
        ws_end(s, p) == p + 1,
        value_at(s, p + 1) == Some((ValueView::Structure(Seq::empty(), es), p + value_text(ValueView::Structure(name, es)).len() - 1)),
        block_at(s, p) == Some((es, p + value_text(ValueView::Structure(name, es)).len() - 1)),
    decreases es, es.len() + 1,
{
    let et = entries_text(es, es.len());
    let o = p + 2;
    let e = o + et.len();
    lemma_block_text(s, p, name, es);
    assert(ws_end(s, p + 1) == p + 1);
    assert(ws_end(s, p) == p + 1);
    assert(entries_at(s, o, Seq::empty()) == (es, e)) by {
        lemma_entries_read(s, o, es, es.len());
        assert(es.take(es.len() as int) =~= es);
        lemma_split(s, o, seq!['\n'] + et, seq!['}']);
        lemma_char_at(s, e + 1, '}');
        assert(skip_end(s, e + 1) == e + 1);
        assert(skip_end(s, e) == e + 1);
        assert(entry_at(s, e) is None);
        assert(entries_at(s, e, es) == (es, e));
    }
    assert(s[e + 1] == '}') by {
        lemma_split(s, o, seq!['\n'] + et, seq!['}']);
        lemma_char_at(s, e + 1, '}');
    }
    assert(s[e] == '\n') by {
        lemma_entries_read(s, o, es, es.len());
    }
    assert(skip_end(s, e + 1) == e + 1);
    assert(skip_end(s, e) == e + 1);
    assert(block_at(s, p + 1) == Some((es, e + 2)));
    assert(skip_end(s, p + 1) == p + 1);
    assert(skip_end(s, p) == p + 1);
    assert(block_at(s, p) == Some((es, e + 2)));
    lemma_brace_value(s, p + 1, es, e + 2);
}

/// Written entries read back one after the other, in order.
#[verifier::rlimit(60)]
pub proof fn lemma_entries_read(s: Seq<char>, o: int, es: Seq<(Seq<char>, ValueView)>, i: nat)
    requires
        valid_entries(es, es.len()),
        has_at(s, o, seq!['\n'] + entries_text(es, es.len()) + seq!['}']),
        i <= es.len(),
    ensures
        entries_at(s, o, Seq::empty()) == entries_at(s, o + entries_text(es, i).len(), es.take(i as int)),
        s[o + entries_text(es, i).len()] == '\n',
        o + entries_text(es, i).len() < s.len(),
    decreases es, i,
{
    let n = es.len();
    let et = entries_text(es, n);
    lemma_split(s, o, seq!['\n'] + et, seq!['}']);
    lemma_split(s, o, seq!['\n'], et);
    lemma_char_at(s, o, '\n');
    lemma_char_at(s, o + 1 + et.len(), '}');
    lemma_entries_text_prefix(es, i, n);
    if i == 0 {
        assert(es.take(0) =~= Seq::<(Seq<char>, ValueView)>::empty());
    } else {
        let j = (i - 1) as nat;
        lemma_entries_read(s, o, es, j);
        lemma_valid_entry(es, n, j as int);
        let k = es[j as int].0;
        let v = es[j as int].1;
        let vt = value_text(v);
        let prev = entries_text(es, j);
        let cur = entries_text(es, i);
        let pos = o + prev.len();
        assert(cur == prev + k + seq![' '] + vt);
        assert(has_at(s, o + 1, cur)) by {
            assert(s.subrange(o + 1, o + 1 + cur.len()) =~= et.subrange(0, cur.len() as int)) by {
                assert forall|x: int| 0 <= x < cur.len() implies #[trigger] s.subrange(
                    o + 1,
                    o + 1 + cur.len(),
                )[x] == et.subrange(0, cur.len() as int)[x] by {
                    assert(s.subrange(o + 1, o + 1 + cur.len())[x] == s[o + 1 + x]);
                    assert(s[o + 1 + x] == s.subrange(o + 1, o + 1 + et.len())[x]);
                }
            }
        }
        lemma_split(s, o + 1, prev + k + seq![' '], vt);
        lemma_split(s, o + 1, prev + k, seq![' ']);
        lemma_split(s, o + 1, prev, k);
        let kb = pos + 1;
        let ke = kb + k.len();
        lemma_char_at(s, ke, ' ');
        assert forall|x: int| kb <= x < ke implies is_word_char(#[trigger] s[x]) by {
            assert(s[x] == s.subrange(kb, ke)[x - kb]);
        }
        assert(s[kb] == k[0]) by {
            assert(s[kb] == s.subrange(kb, ke)[0]);
        }
        assert(skip_end(s, kb) == kb);
        assert(skip_end(s, pos) == kb);
        lemma_word_run(s, kb, ke);
        assert(s.subrange(kb, ke) =~= k);
        assert(word_at(s, kb) == Some((k, ke)));
        lemma_value_text_start(v);
        let pv = ke + 1;
        assert(ws_end(s, ke) == ws_end(s, pv));
        lemma_value_round_trip_at(s, pv, v);
        let e = pv + vt.len() - 1;
        lemma_ws_end_bounds(s, pv);
        lemma_value_text_end(v);
        assert(s[e] == '\n') by {
            assert(s[e] == s.subrange(pv, pv + vt.len())[vt.len() - 1]);
        }
        assert(entry_at(s, pos) == Some((k, v, e)));
        assert(e == o + cur.len());
        assert(entries_insert(es.take(j as int), k, v) =~= es.take(i as int));
    }
}

/// Reading back, wherever it stands, the text that `FoamValue::write` gives for a valid value
/// yields the same value (a block without its name, which the key it is bound to gives back),
/// and stops just before the last line break of that text.
#[verifier::rlimit(60)]
pub proof fn lemma_value_round_trip_at(s: Seq<char>, p: int, v: ValueView)
    requires
        valid_value(v),
        has_at(s, p, value_text(v)),
    ensures
        value_at(s, ws_end(s, p)) == Some((read_back(v), p + value_text(v).len() - 1)),
    decreases v, 3nat,
{
    lemma_value_text_start(v);
    match v {
        ValueView::Structure(name, es) => {
            lemma_block_round_trip(s, p, name, es);
        },
        _ => {
            assert(s[p] == value_text(v)[0]) by {
                assert(s[p] == s.subrange(p, p + value_text(v).len())[0]);
            }
            assert(ws_end(s, p) == p);
            law_flat_value_round_trip_at(s, p, v);
        },
    }
}


/// Reading back the text that `FoamValue::write` gives for a valid value, as `FoamValue::parse`
/// does (after leading whitespace), yields the same value; a block comes back without its
/// name, which only the key it is bound to carries.
pub proof fn law_value_round_trip(v: ValueView, rest: Seq<char>)
    requires
        valid_value(v),
    ensures
        ({
            let s = value_text(v) + rest;
            value_at(s, ws_end(s, 0)) == Some((read_back(v), value_text(v).len() - 1))
        }),
{
    lemma_has_prefix(value_text(v), rest);
    lemma_value_round_trip_at(value_text(v) + rest, 0, v);
}

/// Reading back the text that `FoamStructure::write` gives for a named structure of valid
/// entries yields the same name and the same entries, in the same order.
#[verifier::rlimit(60)]
pub proof fn law_structure_round_trip(name: Seq<char>, es: Seq<(Seq<char>, ValueView)>, rest: Seq<char>)
    requires
        valid_word(name),
        valid_entries(es, es.len()),
    ensures
        named_structure_at(structure_text(name, es) + rest, 0) == Some((name, es, structure_text(name, es).len() - 1)),
{
    let vt = value_text(ValueView::Structure(name, es));
    let s = structure_text(name, es) + rest;
    let m = name.len() as int;
    assert(s =~= name + vt + rest);
    assert(structure_text(name, es).len() == m + vt.len());
    lemma_has_prefix(name + vt, rest);
    lemma_split(s, 0, name, vt);
    assert forall|i: int| 0 <= i < m implies is_word_char(#[trigger] s[i]) by {
        assert(s[i] == s.subrange(0, m)[i]);
    }
    assert(s[0] == name[0]);
    assert(skip_end(s, 0) == 0);
    lemma_block_round_trip(s, m, name, es);
    assert(s[m] == '\n') by {
        assert(s[m] == s.subrange(m, m + vt.len())[0]);
    }
    lemma_word_run(s, 0, m);
    assert(s.subrange(0, m) =~= name);
}


/// Reading back the text that `FoamFile::write` gives for a header of valid entries yields the
/// same entries, in the same order, and stops just after its closing brace.
pub proof fn law_header_round_trip(es: Seq<(Seq<char>, ValueView)>, rest: Seq<char>)
    requires
        valid_entries(es, es.len()),
    ensures
        crate::header::header_at(structure_text(crate::header::kw_foam_file(), es) + rest, 0)
            == Some((es, structure_text(crate::header::kw_foam_file(), es).len() - 1)),
{
    let name = crate::header::kw_foam_file();
    let vt = value_text(ValueView::Structure(name, es));
    let s = structure_text(name, es) + rest;
    assert(s =~= name + vt + rest);
    assert(structure_text(name, es).len() == 8 + vt.len());
    lemma_has_prefix(name + vt, rest);
    lemma_split(s, 0, name, vt);
    assert(s[0] == 'F') by {
        assert(s[0] == s.subrange(0, 8)[0]);
    }
    assert(skip_end(s, 0) == 0);
    lemma_block_round_trip(s, 8, name, es);
}


pub proof fn lemma_line_end_at(s: Seq<char>, p: int, q: int)
    requires
        0 <= p <= q < s.len(),
        s[q] == '\n',
        forall|i: int| p <= i < q ==> #[trigger] s[i] != '\n' && s[i] != '\r',
    ensures
        crate::text::line_end(s, p) == q,
    decreases q - p,
{
    if p < q {
        lemma_line_end_at(s, p + 1, q);
    }
}

/// Reading back the text that `FileContent::write` gives for a file of labels (an owner,
/// neighbour or set file) yields its header entries and then its labels, in order: the count
/// read is the number of labels written.
#[verifier::rlimit(100)]
pub proof fn law_label_file_round_trip(es: Seq<(Seq<char>, ValueView)>, v: Seq<nat>, rest: Seq<char>)
    requires
        valid_entries(es, es.len()),
        forall|j: int| 0 <= j < v.len() ==> #[trigger] v[j] <= usize::MAX,
        v.len() <= usize::MAX,
    ensures
        ({
            let h = structure_text(crate::header::kw_foam_file(), es);
            let s = h + crate::content::separator() + crate::mesh::label_list_text(v) + rest;
            &&& crate::header::header_at(s, 0) == Some((es, h.len() - 1))
            &&& crate::mesh::label_list_at(s, h.len() - 1) == Some((
                v,
                h.len() + crate::content::separator().len() + crate::mesh::label_list_text(v).len()
                    - 1,
            ))
        }),
{
    let h = structure_text(crate::header::kw_foam_file(), es);
    let sep = crate::content::separator();
    let llt = crate::mesh::label_list_text(v);
    let s = h + sep + llt + rest;
    assert(s =~= h + (sep + llt + rest));
    law_header_round_trip(es, sep + llt + rest);
    let e = h.len() - 1;
    let p = h.len() + sep.len() - 1;
    assert(s.subrange(p, p + 1 + llt.len()) =~= seq!['\n'] + llt) by {
        assert forall|k: int| 0 <= k < 1 + llt.len() implies #[trigger] s.subrange(
            p,
            p + 1 + llt.len(),
        )[k] == (seq!['\n'] + llt)[k] by {
            if k == 0 {
                assert(s[p] == sep[sep.len() - 1]);
            } else {
                assert(s[p + k] == llt[k - 1]);
            }
        }
    }
    crate::laws::law_label_list_round_trip(s, p, v);
    assert(s[e] == '\n') by {
        assert(s[e] == h[h.len() - 1]);
    }
    assert(s[e + 1] == '/' && s[e + 2] == '/') by {
        assert(s[e + 1] == sep[0]);
        assert(s[e + 2] == sep[1]);
    }
    assert forall|i: int| e + 3 <= i < p implies #[trigger] s[i] != '\n' && s[i] != '\r' by {
        assert(s[i] == sep[i - h.len()]);
    }
    assert(s[p] == '\n') by {
        assert(s[p] == sep[sep.len() - 1]);
    }
    lemma_line_end_at(s, e + 3, p);
    assert(skip_end(s, e + 1) == skip_end(s, p));
    assert(skip_end(s, e) == skip_end(s, e + 1));
}

} // verus!
