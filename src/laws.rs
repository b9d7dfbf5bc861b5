use vstd::prelude::*;
use crate::field::{
    field_at, field_text, kw_list_open, kw_nonuniform, kw_scalar, kw_uniform, kw_vector,
    number_after_ws, scalar_list_at, scalars_at, triple_at, triples_at, vector_list_at,
    FieldView,
};
use crate::text::char_after_ws;
use crate::text::{
    digits_end, digits_value, float_at, has_at, is_digit, is_float_literal, is_number_char,
    is_space, is_word_char, number_end, skip_end, usize_at, word_at, word_end, ws_end,
    char_after_skip,
};
use crate::writer::{fixed_row_text, joined, lines, nat_text, rows_lines, rows_text, single_data_text};
use crate::mesh::{label_list_at, label_list_text, label_texts, labels_at};
use crate::text::{char_after_ws as char_after_space, keyword_after_skip, keyword_after_ws};
use crate::value_laws::valid_word;
use crate::zones::{
    kw_cell_labels, kw_cell_zone, kw_list_label, kw_point_labels, kw_point_zone, kw_type, zone_at,
    zone_head_at, zone_head_text, zone_text,
};

verus! {

/// A number as the writer puts it down: decimal notation, made of number characters only.
pub open spec fn valid_number(x: Seq<char>) -> bool {
    is_float_literal(x) && forall|i: int| 0 <= i < x.len() ==> is_number_char(#[trigger] x[i])
}

pub open spec fn valid_numbers(v: Seq<Seq<char>>) -> bool {
    forall|i: int| 0 <= i < v.len() ==> valid_number(#[trigger] v[i])
}

pub open spec fn valid_triples(v: Seq<Seq<Seq<char>>>) -> bool {
    forall|i: int| 0 <= i < v.len() ==> (#[trigger] v[i]).len() == 3 && valid_numbers(v[i])
}

/// A field that the writer can put down and the reader take back: numbers in decimal notation,
/// vectors of three components, and counts that fit in `usize`.
pub open spec fn valid_field(f: FieldView) -> bool {
    match f {
        FieldView::UniformScalar(x) => valid_number(x),
        FieldView::UniformVector(v) => v.len() == 3 && valid_numbers(v),
        FieldView::Scalar(v) => valid_numbers(v) && v.len() <= usize::MAX,
        FieldView::Vector(v) => valid_triples(v) && v.len() <= usize::MAX,
    }
}

pub proof fn lemma_word_run(s: Seq<char>, p: int, q: int)
    requires
        0 <= p <= q <= s.len(),
        forall|i: int| p <= i < q ==> is_word_char(#[trigger] s[i]),
        q == s.len() || !is_word_char(s[q]),
    ensures
        word_end(s, p) == q,
    decreases q - p,
{
    if p < q {
        lemma_word_run(s, p + 1, q);
    }
}

pub proof fn lemma_number_run(s: Seq<char>, p: int, q: int)
    requires
        0 <= p <= q <= s.len(),
        forall|i: int| p <= i < q ==> is_number_char(#[trigger] s[i]),
        q == s.len() || !is_number_char(s[q]),
    ensures
        number_end(s, p) == q,
    decreases q - p,
{
    if p < q {
        lemma_number_run(s, p + 1, q);
    }
}

pub proof fn lemma_word_end_bounds(s: Seq<char>, p: int)
    requires
        0 <= p <= s.len(),
    ensures
        p <= word_end(s, p) <= s.len(),
    decreases s.len() - p,
{
    if p < s.len() && is_word_char(s[p]) {
        lemma_word_end_bounds(s, p + 1);
    }
}

pub proof fn lemma_digit_run(s: Seq<char>, p: int, q: int)
    requires
        0 <= p <= q <= s.len(),
        forall|i: int| p <= i < q ==> is_digit(#[trigger] s[i]),
        q == s.len() || !is_digit(s[q]),
    ensures
        digits_end(s, p) == q,
    decreases q - p,
{
    if p < q {
        lemma_digit_run(s, p + 1, q);
    }
}

/// A number that the writer put down is read back whole.
pub proof fn lemma_float_at(s: Seq<char>, p: int, x: Seq<char>)
    requires
        has_at(s, p, x),
        valid_number(x),
        p + x.len() == s.len() || !is_number_char(s[p + x.len()]),
    ensures
        float_at(s, p) == Some((x, p + x.len())),
{
    assert forall|i: int| p <= i < p + x.len() implies is_number_char(#[trigger] s[i]) by {
        assert(s[i] == s.subrange(p, p + x.len())[i - p]);
    }
    lemma_number_run(s, p, p + x.len());
}

/// A count that the writer put down is read back whole.
pub proof fn lemma_usize_at(s: Seq<char>, p: int, n: nat)
    requires
        has_at(s, p, nat_text(n)),
        n <= usize::MAX,
        p + nat_text(n).len() == s.len() || !is_digit(s[p + nat_text(n).len()]),
    ensures
        usize_at(s, p) == Some((n, p + nat_text(n).len())),
{
    let t = nat_text(n);
    crate::writer::lemma_nat_text_digits(n);
    assert forall|i: int| p <= i < p + t.len() implies is_digit(#[trigger] s[i]) by {
        assert(s[i] == s.subrange(p, p + t.len())[i - p]);
        assert(is_digit(t[i - p]));
    }
    lemma_digit_run(s, p, p + t.len());
}


#[verifier::rlimit(60)]
pub proof fn lemma_uniform_head(s: Seq<char>, p: int)
    requires
        has_at(s, p, kw_uniform() + seq![' ']),
        p + 8 < s.len(),
        !is_space(s[p + 8]),
    ensures
        skip_end(s, p) == p,
        word_at(s, p) == Some((kw_uniform(), p + 7)),
        ws_end(s, p + 7) == p + 8,
{
    assert forall|i: int| p <= i < p + 8 implies #[trigger] s[i] == (kw_uniform() + seq![' '])[i - p] by {
        assert(s[i] == s.subrange(p, p + 8)[i - p]);
    }
    assert(s[p] == 'u');
    assert(skip_end(s, p) == p);
    assert(s[p + 7] == ' ');
    lemma_word_run(s, p, p + 7);
    assert(s.subrange(p, p + 7) =~= kw_uniform());
    assert(ws_end(s, p + 8) == p + 8);
    assert(ws_end(s, p + 7) == ws_end(s, p + 8));
}

/// A uniform scalar field reads back as written.
#[verifier::rlimit(60)]
pub proof fn lemma_uniform_scalar_round_trip(s: Seq<char>, p: int, x: Seq<char>)
    requires
        valid_number(x),
        has_at(s, p, field_text(FieldView::UniformScalar(x)) + seq![';']),
    ensures
        field_at(s, p) == Some((FieldView::UniformScalar(x), p + field_text(FieldView::UniformScalar(x)).len() + 1)),
{
    reveal(field_at);
    let e: int = p + 8 + x.len() as int;
    assert(x.len() > 0);
    lemma_split(s, p, kw_uniform() + seq![' '] + x, seq![';']);
    lemma_split(s, p, kw_uniform() + seq![' '], x);
    assert(s[p + 8] == x[0]) by {
        assert(s[p + 8] == s.subrange(p + 8, e)[0]);
    }
    assert(is_number_char(x[0]));
    lemma_uniform_head(s, p);
    lemma_char_at(s, e, ';');
    lemma_float_at(s, p + 8, x);
    assert(ws_end(s, e) == e);
}


/// A number after optional whitespace reads back whole.
#[verifier::rlimit(60)]
pub proof fn lemma_number_after_ws(s: Seq<char>, p: int, q: int, x: Seq<char>)
    requires
        0 <= p <= q,
        forall|i: int| p <= i < q ==> is_space(#[trigger] s[i]),
        has_at(s, q, x),
        valid_number(x),
        q + x.len() < s.len(),
        !is_number_char(s[q + x.len()]),
    ensures
        number_after_ws(s, p) == Some((x, q + x.len())),
    decreases q - p,
{
    assert(x.len() > 0);
    assert(s[q] == s.subrange(q, q + x.len())[0]);
    assert(is_number_char(x[0]));
    if p < q {
        lemma_number_after_ws(s, p + 1, q, x);
        assert(ws_end(s, p) == ws_end(s, p + 1));
    } else {
        assert(ws_end(s, q) == q);
    }
    lemma_float_at(s, q, x);
}

/// Text that stands at `p` stands there piece by piece.
#[verifier::rlimit(60)]
pub proof fn lemma_split(s: Seq<char>, p: int, a: Seq<char>, b: Seq<char>)
    requires
        has_at(s, p, a + b),
    ensures
        has_at(s, p, a),
        has_at(s, p + a.len(), b),
{
    let w = s.subrange(p, p + a.len() + b.len());
    assert(w == a + b);
    assert forall|k: int| 0 <= k < a.len() implies #[trigger] s.subrange(p, p + a.len())[k] == a[k] by {
        assert(s.subrange(p, p + a.len())[k] == w[k]);
    }
    assert(s.subrange(p, p + a.len()) =~= a);
    assert forall|k: int| 0 <= k < b.len() implies #[trigger] s.subrange(
        p + a.len(),
        p + a.len() + b.len(),
    )[k] == b[k] by {
        assert(s.subrange(p + a.len(), p + a.len() + b.len())[k] == w[a.len() + k]);
    }
    assert(s.subrange(p + a.len(), p + a.len() + b.len()) =~= b);
}

pub proof fn lemma_has_prefix(a: Seq<char>, b: Seq<char>)
    ensures
        has_at(a + b, 0, a),
{
    assert((a + b).subrange(0, a.len() as int) =~= a);
}

pub proof fn lemma_char_at(s: Seq<char>, p: int, c: char)
    requires
        has_at(s, p, seq![c]),
    ensures
        0 <= p < s.len(),
        s[p] == c,
{
    assert(s[p] == s.subrange(p, p + 1)[0]);
}

/// A triple that the writer put down, `(x y z)`, reads back whole.
#[verifier::rlimit(60)]
pub proof fn lemma_triple_at(s: Seq<char>, p: int, v: Seq<Seq<char>>)
    requires
        v.len() == 3,
        valid_numbers(v),
        has_at(s, p, fixed_row_text(v)),
    ensures
        triple_at(s, p) == Some((v, p + fixed_row_text(v).len())),
{
    let x = v[0];
    let y = v[1];
    let z = v[2];
    assert(valid_number(x) && valid_number(y) && valid_number(z));
    assert(v.drop_last().drop_last().len() == 1);
    let j1 = joined(v.drop_last().drop_last());
    let j2 = joined(v.drop_last());
    let j3 = joined(v);
    assert(j2 == j1 + seq![' '] + y);
    assert(j1 == x);
    assert(j3 == j2 + seq![' '] + z);
    lemma_split(s, p, seq!['('] + j3, seq![')']);
    lemma_split(s, p, seq!['('], j3);
    let a = p + 1;
    lemma_split(s, a, j2 + seq![' '], z);
    lemma_split(s, a, j2, seq![' ']);
    lemma_split(s, a, j1 + seq![' '], y);
    lemma_split(s, a, j1, seq![' ']);
    let b = a + x.len() + 1;
    let c = b + y.len() + 1;
    let d = c + z.len();
    lemma_char_at(s, p, '(');
    lemma_char_at(s, a + x.len(), ' ');
    lemma_char_at(s, b + y.len(), ' ');
    lemma_char_at(s, d, ')');
    lemma_number_after_ws(s, a, a, x);
    lemma_number_after_ws(s, a + x.len(), b, y);
    lemma_number_after_ws(s, b + y.len(), c, z);
    assert(ws_end(s, d) == d);
    assert(seq![x, y, z] =~= v);
}


/// A uniform vector field reads back as written.
#[verifier::rlimit(60)]
pub proof fn lemma_uniform_vector_round_trip(s: Seq<char>, p: int, v: Seq<Seq<char>>)
    requires
        v.len() == 3,
        valid_numbers(v),
        has_at(s, p, field_text(FieldView::UniformVector(v)) + seq![';']),
    ensures
        field_at(s, p) == Some((FieldView::UniformVector(v), p + field_text(FieldView::UniformVector(v)).len() + 1)),
{
    reveal(field_at);
    let r = fixed_row_text(v);
    lemma_split(s, p, kw_uniform() + seq![' '] + r, seq![';']);
    lemma_split(s, p, kw_uniform() + seq![' '], r);
    assert(seq!['('] + r.subrange(1, r.len() as int) =~= r);
    lemma_split(s, p + 8, seq!['('], r.subrange(1, r.len() as int));
    lemma_char_at(s, p + 8, '(');
    lemma_uniform_head(s, p);
    assert(number_end(s, p + 8) == p + 8);
    assert(!is_float_literal(s.subrange(p + 8, p + 8)));
    lemma_triple_at(s, p + 8, v);
    let e: int = p + 8 + r.len() as int;
    lemma_char_at(s, e, ';');
    assert(ws_end(s, e) == e);
}

pub proof fn lemma_lines_append(a: Seq<Seq<char>>, b: Seq<Seq<char>>)
    ensures
        lines(a + b) == lines(a) + lines(b),
    decreases b.len(),
{
    if b.len() == 0 {
        assert(a + b =~= a);
        assert(lines(b) =~= Seq::<char>::empty());
        assert(lines(a) + lines(b) =~= lines(a));
    } else {
        lemma_lines_append(a, b.drop_last());
        assert((a + b).drop_last() =~= a + b.drop_last());
        assert((a + b).last() == b.last());
        assert(lines(a + b) =~= lines(a) + lines(b));
    }
}

/// The counted numbers that the writer put down, one on each line after `(`, read back whole.
#[verifier::rlimit(60)]
pub proof fn lemma_scalars_lines(s: Seq<char>, o: int, v: Seq<Seq<char>>, i: nat)
    requires
        valid_numbers(v),
        has_at(s, o, seq!['\n'] + lines(v) + seq![')']),
        i <= v.len(),
    ensures
        scalars_at(s, o, i) == Some((v.take(i as int), o + lines(v.take(i as int)).len())),
    decreases i,
{
    if i == 0 {
        assert(v.take(0) =~= Seq::<Seq<char>>::empty());
    } else {
        let k = (i - 1) as int;
        lemma_scalars_lines(s, o, v, (i - 1) as nat);
        let w = v.take(k);
        let x = v[k];
        let after = v.skip(i as int);
        assert(v =~= w + seq![x] + after);
        lemma_lines_append(w + seq![x], after);
        lemma_lines_append(w, seq![x]);
        assert(seq![x].drop_last() =~= Seq::<Seq<char>>::empty());
        assert(lines(Seq::<Seq<char>>::empty()) =~= Seq::<char>::empty());
        assert(lines(seq![x]) =~= x + seq!['\n']);
        let pre = seq!['\n'] + lines(w);
        assert(seq!['\n'] + lines(v) + seq![')'] =~= pre + x + seq!['\n'] + (lines(after) + seq![')']));
        lemma_split(s, o, pre + x + seq!['\n'], lines(after) + seq![')']);
        lemma_split(s, o, pre + x, seq!['\n']);
        lemma_split(s, o, pre, x);
        let q = o + lines(w).len();
        assert(pre[pre.len() - 1] == '\n') by {
            if w.len() > 0 {
                assert(lines(w) == lines(w.drop_last()) + w.last() + seq!['\n']);
            }
        }
        assert(s[q] == '\n') by {
            assert(s[q] == s.subrange(o, o + pre.len())[pre.len() - 1]);
        }
        assert(valid_number(x));
        assert(x.len() > 0);
        assert(seq![x[0]] + x.subrange(1, x.len() as int) =~= x);
        lemma_split(s, q + 1, seq![x[0]], x.subrange(1, x.len() as int));
        lemma_char_at(s, q + 1, x[0]);
        assert(is_number_char(x[0]));
        assert(skip_end(s, q + 1) == q + 1);
        assert(skip_end(s, q) == q + 1);
        lemma_char_at(s, q + 1 + x.len(), '\n');
        lemma_float_at(s, q + 1, x);
        assert(v.take(i as int) =~= w.push(x));
        assert(v.take(i as int).drop_last() =~= w);
    }
}


pub proof fn lemma_rows_lines_append(a: Seq<Seq<Seq<char>>>, b: Seq<Seq<Seq<char>>>, counted: bool)
    ensures
        rows_lines(a + b, counted) == rows_lines(a, counted) + rows_lines(b, counted),
    decreases b.len(),
{
    if b.len() == 0 {
        assert(a + b =~= a);
        assert(rows_lines(b, counted) =~= Seq::<char>::empty());
        assert(rows_lines(a, counted) + rows_lines(b, counted) =~= rows_lines(a, counted));
    } else {
        lemma_rows_lines_append(a, b.drop_last(), counted);
        assert((a + b).drop_last() =~= a + b.drop_last());
        assert((a + b).last() == b.last());
        assert(rows_lines(a + b, counted) =~= rows_lines(a, counted) + rows_lines(b, counted));
    }
}

/// The counted triples that the writer put down, one on each line after `(`, read back whole.
#[verifier::rlimit(60)]
pub proof fn lemma_triples_lines(s: Seq<char>, o: int, v: Seq<Seq<Seq<char>>>, i: nat)
    requires
        valid_triples(v),
        has_at(s, o, seq!['\n'] + rows_lines(v, false) + seq![')']),
        i <= v.len(),
    ensures
        triples_at(s, o, i) == Some((v.take(i as int), o + rows_lines(v.take(i as int), false).len())),
    decreases i,
{
    if i == 0 {
        assert(v.take(0) =~= Seq::<Seq<Seq<char>>>::empty());
    } else {
        let k = (i - 1) as int;
        lemma_triples_lines(s, o, v, (i - 1) as nat);
        let w = v.take(k);
        let x = v[k];
        let after = v.skip(i as int);
        assert(v =~= w + seq![x] + after);
        lemma_rows_lines_append(w + seq![x], after, false);
        lemma_rows_lines_append(w, seq![x], false);
        assert(seq![x].drop_last() =~= Seq::<Seq<Seq<char>>>::empty());
        assert(rows_lines(Seq::<Seq<Seq<char>>>::empty(), false) =~= Seq::<char>::empty());
        let r = fixed_row_text(x);
        assert(rows_lines(seq![x], false) =~= r + seq!['\n']);
        let pre = seq!['\n'] + rows_lines(w, false);
        assert(seq!['\n'] + rows_lines(v, false) + seq![')'] =~= pre + r + seq!['\n'] + (rows_lines(
            after,
            false,
        ) + seq![')']));
        lemma_split(s, o, pre + r + seq!['\n'], rows_lines(after, false) + seq![')']);
        lemma_split(s, o, pre + r, seq!['\n']);
        lemma_split(s, o, pre, r);
        let q = o + rows_lines(w, false).len();
        assert(pre[pre.len() - 1] == '\n') by {
            if w.len() > 0 {
                assert(rows_lines(w, false) == rows_lines(w.drop_last(), false) + crate::writer::row_text(
                    w.last(),
                    false,
                ) + seq!['\n']);
            }
        }
        assert(s[q] == '\n') by {
            assert(s[q] == s.subrange(o, o + pre.len())[pre.len() - 1]);
        }
        assert(x.len() == 3 && valid_numbers(x));
        assert(seq!['('] + r.subrange(1, r.len() as int) =~= r);
        lemma_split(s, q + 1, seq!['('], r.subrange(1, r.len() as int));
        lemma_char_at(s, q + 1, '(');
        assert(skip_end(s, q + 1) == q + 1);
        assert(skip_end(s, q) == q + 1);
        lemma_triple_at(s, q + 1, x);
        assert(v.take(i as int) =~= w.push(x));
        assert(v.take(i as int).drop_last() =~= w);
    }
}

#[verifier::rlimit(60)]
pub proof fn lemma_nonuniform_head(s: Seq<char>, p: int, kind: Seq<char>, body: Seq<char>)
    requires
        kind == kw_scalar() || kind == kw_vector(),
        has_at(s, p, kw_nonuniform() + seq![' '] + kw_list_open() + kind + seq!['>'] + body),
        body.len() > 0,
        is_space(body[0]),
    ensures
        skip_end(s, p) == p,
        word_at(s, p) == Some((kw_nonuniform(), p + 10)),
        ws_end(s, p + 10) == p + 11,
        has_at(s, p + 11, kw_list_open()),
        word_at(s, p + 16) == Some((kind, p + 22)),
        s[p + 22] == '>',
        has_at(s, p + 23, body),
{
    let a = kw_nonuniform() + seq![' '];
    let b = a + kw_list_open();
    let c = b + kind;
    let d = c + seq!['>'];
    lemma_split(s, p, d, body);
    lemma_split(s, p, c, seq!['>']);
    lemma_split(s, p, b, kind);
    lemma_split(s, p, a, kw_list_open());
    lemma_split(s, p, kw_nonuniform(), seq![' ']);
    lemma_char_at(s, p + 10, ' ');
    lemma_char_at(s, p + 22, '>');
    assert forall|i: int| p <= i < p + 10 implies #[trigger] s[i] == kw_nonuniform()[i - p] by {
        assert(s[i] == s.subrange(p, p + 10)[i - p]);
    }
    assert forall|i: int| p + 16 <= i < p + 22 implies #[trigger] s[i] == kind[i - p - 16] by {
        assert(s[i] == s.subrange(p + 16, p + 22)[i - p - 16]);
    }
    assert(s[p] == 'n');
    assert(skip_end(s, p) == p);
    lemma_word_run(s, p, p + 10);
    assert(s.subrange(p, p + 10) =~= kw_nonuniform());
    assert(s[p + 11] == 'L') by {
        assert(s[p + 11] == s.subrange(p + 11, p + 16)[0]);
    }
    assert(ws_end(s, p + 11) == p + 11);
    assert(ws_end(s, p + 10) == ws_end(s, p + 11));
    assert(s[p + 16] != '"');
    lemma_word_run(s, p + 16, p + 22);
    assert(s.subrange(p + 16, p + 22) =~= kind);
}


/// The count line of a list that the writer put down reads back, with the `(` that follows.
#[verifier::rlimit(60)]
pub proof fn lemma_count_open(s: Seq<char>, p: int, n: nat, tail: Seq<char>)
    requires
        n <= usize::MAX,
        has_at(s, p, seq!['\n'] + nat_text(n) + seq!['\n', '('] + tail),
    ensures
        skip_end(s, p) == p + 1,
        usize_at(s, p + 1) == Some((n, p + 1 + nat_text(n).len())),
        char_after_skip(s, p + 1 + nat_text(n).len(), '(') == Some(p + 3 + nat_text(n).len()),
        has_at(s, p + 3 + nat_text(n).len(), tail),
{
    let nt = nat_text(n);
    crate::writer::lemma_nat_text_digits(n);
    lemma_split(s, p, seq!['\n'] + nt + seq!['\n', '('], tail);
    lemma_split(s, p, seq!['\n'] + nt, seq!['\n', '(']);
    lemma_split(s, p, seq!['\n'], nt);
    assert(seq!['\n'] + seq!['('] =~= seq!['\n', '(']);
    lemma_split(s, p + 1 + nt.len(), seq!['\n'], seq!['(']);
    lemma_char_at(s, p, '\n');
    lemma_char_at(s, p + 1 + nt.len(), '\n');
    lemma_char_at(s, p + 2 + nt.len(), '(');
    assert(s[p + 1] == nt[0]) by {
        assert(s[p + 1] == s.subrange(p + 1, p + 1 + nt.len())[0]);
    }
    assert(is_digit(nt[0]));
    assert(skip_end(s, p + 1) == p + 1);
    lemma_usize_at(s, p + 1, n);
    let q = p + 1 + nt.len();
    assert(skip_end(s, q + 1) == q + 1);
    assert(skip_end(s, q) == q + 1);
}

/// The counted numbers that the writer put down after a line break read back whole.
#[verifier::rlimit(60)]
pub proof fn lemma_scalar_list_body(s: Seq<char>, p: int, v: Seq<Seq<char>>, after: Seq<char>)
    requires
        valid_numbers(v),
        v.len() <= usize::MAX,
        has_at(s, p, seq!['\n'] + single_data_text(v) + after),
    ensures
        scalar_list_at(s, p) == Some((v, p + single_data_text(v).len())),
        s[p + single_data_text(v).len()] == '\n',
        has_at(s, p + 1 + single_data_text(v).len(), after),
{
    lemma_split(s, p, seq!['\n'] + single_data_text(v), after);
    let n = v.len();
    let nt = nat_text(n);
    let sdt = single_data_text(v);
    let tail = seq!['\n'] + lines(v) + seq![')'] + (seq!['\n'] + after);
    assert(seq!['\n'] + sdt + after =~= seq!['\n'] + nt + seq!['\n', '('] + tail);
    lemma_count_open(s, p, n, tail);
    let o = p + 3 + nt.len();
    lemma_split(s, o, seq!['\n'] + lines(v) + seq![')'], seq!['\n'] + after);
    lemma_scalars_lines(s, o, v, n);
    assert(v.take(n as int) =~= v);
    let q: int = o + lines(v).len() as int;
    lemma_split(s, o, seq!['\n'] + lines(v), seq![')']);
    lemma_char_at(s, q + 1, ')');
    assert(s[q] == '\n') by {
        let pre = seq!['\n'] + lines(v);
        if v.len() > 0 {
            assert(lines(v) == lines(v.drop_last()) + v.last() + seq!['\n']);
        }
        assert(s[q] == s.subrange(o, o + pre.len())[pre.len() - 1]);
    }
    assert(skip_end(s, q + 1) == q + 1);
    assert(skip_end(s, q) == q + 1);
    lemma_split(s, q + 2, seq!['\n'], after);
    lemma_char_at(s, q + 2, '\n');
    assert(q + 2 == p + sdt.len());
}

/// The counted triples that the writer put down after a line break read back whole.
#[verifier::rlimit(60)]
pub proof fn lemma_vector_list_body(s: Seq<char>, p: int, v: Seq<Seq<Seq<char>>>, after: Seq<char>)
    requires
        valid_triples(v),
        v.len() <= usize::MAX,
        has_at(s, p, seq!['\n'] + rows_text(v, false) + after),
    ensures
        vector_list_at(s, p) == Some((v, p + rows_text(v, false).len())),
        s[p + rows_text(v, false).len()] == '\n',
        has_at(s, p + 1 + rows_text(v, false).len(), after),
{
    lemma_split(s, p, seq!['\n'] + rows_text(v, false), after);
    let n = v.len();
    let nt = nat_text(n);
    let rt = rows_text(v, false);
    let tail = seq!['\n'] + rows_lines(v, false) + seq![')'] + (seq!['\n'] + after);
    assert(seq!['\n'] + rt + after =~= seq!['\n'] + nt + seq!['\n', '('] + tail);
    lemma_count_open(s, p, n, tail);
    let o = p + 3 + nt.len();
    lemma_split(s, o, seq!['\n'] + rows_lines(v, false) + seq![')'], seq!['\n'] + after);
    lemma_triples_lines(s, o, v, n);
    assert(v.take(n as int) =~= v);
    let q: int = o + rows_lines(v, false).len() as int;
    lemma_split(s, o, seq!['\n'] + rows_lines(v, false), seq![')']);
    lemma_char_at(s, q + 1, ')');
    assert(s[q] == '\n') by {
        let pre = seq!['\n'] + rows_lines(v, false);
        if v.len() > 0 {
            assert(rows_lines(v, false) == rows_lines(v.drop_last(), false) + crate::writer::row_text(
                v.last(),
                false,
            ) + seq!['\n']);
        }
        assert(s[q] == s.subrange(o, o + pre.len())[pre.len() - 1]);
    }
    assert(skip_end(s, q + 1) == q + 1);
    assert(skip_end(s, q) == q + 1);
    lemma_split(s, q + 2, seq!['\n'], after);
    lemma_char_at(s, q + 2, '\n');
    assert(q + 2 == p + rt.len());
}

/// What a non-uniform field needs to read back: its head, its list and its `;`.
#[verifier::rlimit(60)]
pub proof fn lemma_nonuniform_field_at(s: Seq<char>, p: int, f: FieldView, c: int)
    requires
        f is Scalar || f is Vector,
        skip_end(s, p) == p,
        word_at(s, p) == Some((kw_nonuniform(), p + 10)),
        ws_end(s, p + 10) == p + 11,
        has_at(s, p + 11, kw_list_open()),
        word_at(s, p + 16) == Some((
            if f is Scalar {
                kw_scalar()
            } else {
                kw_vector()
            },
            p + 22,
        )),
        s[p + 22] == '>',
        f is Scalar ==> scalar_list_at(s, p + 23) == Some((f->Scalar_0, c)),
        f is Vector ==> vector_list_at(s, p + 23) == Some((f->Vector_0, c)),
        0 <= c,
        c + 1 < s.len(),
        s[c] == '\n',
        s[c + 1] == ';',
    ensures
        field_at(s, p) == Some((f, c + 2)),
{
    reveal(field_at);
    assert(kw_nonuniform().len() != kw_uniform().len());
    assert(kw_scalar()[0] != kw_vector()[0]);
    assert(ws_end(s, c + 1) == c + 1);
    assert(ws_end(s, c) == c + 1);
}

#[verifier::rlimit(60)]
pub proof fn lemma_nonuniform_text(f: FieldView)
    requires
        f is Scalar || f is Vector,
    ensures
        ({
            let kind = if f is Scalar {
                kw_scalar()
            } else {
                kw_vector()
            };
            let list = match f {
                FieldView::Scalar(v) => single_data_text(v),
                FieldView::Vector(v) => rows_text(v, false),
                _ => Seq::empty(),
            };
            &&& field_text(f) + seq![';'] == kw_nonuniform() + seq![' '] + kw_list_open() + kind
                + seq!['>'] + (seq!['\n'] + list + seq![';'])
            &&& field_text(f).len() == 24 + list.len()
        }),
{
    let kind = if f is Scalar {
        kw_scalar()
    } else {
        kw_vector()
    };
    let list = match f {
        FieldView::Scalar(v) => single_data_text(v),
        FieldView::Vector(v) => rows_text(v, false),
        _ => Seq::empty(),
    };
    assert(field_text(f) == kw_nonuniform() + seq![' '] + kw_list_open() + kind + seq!['>', '\n']
        + list);
    assert(field_text(f) + seq![';'] =~= kw_nonuniform() + seq![' '] + kw_list_open() + kind
        + seq!['>'] + (seq!['\n'] + list + seq![';']));
}

/// A non-uniform scalar field reads back as written.
pub proof fn lemma_scalar_round_trip(s: Seq<char>, p: int, v: Seq<Seq<char>>)
    requires
        valid_numbers(v),
        v.len() <= usize::MAX,
        has_at(s, p, field_text(FieldView::Scalar(v)) + seq![';']),
    ensures
        field_at(s, p) == Some((FieldView::Scalar(v), p + field_text(FieldView::Scalar(v)).len() + 1)),
{
    let f = FieldView::Scalar(v);
    let list = single_data_text(v);
    let body = seq!['\n'] + list + seq![';'];
    lemma_nonuniform_text(f);
    let c: int = p + 23 + list.len() as int;
    assert(field_at(s, p) == Some((f, c + 2))) by {
        lemma_nonuniform_head(s, p, kw_scalar(), body);
        lemma_scalar_list_body(s, p + 23, v, seq![';']);
        lemma_char_at(s, c + 1, ';');
        lemma_nonuniform_field_at(s, p, f, c);
    }
}

/// A non-uniform vector field reads back as written.
pub proof fn lemma_vector_round_trip(s: Seq<char>, p: int, v: Seq<Seq<Seq<char>>>)
    requires
        valid_triples(v),
        v.len() <= usize::MAX,
        has_at(s, p, field_text(FieldView::Vector(v)) + seq![';']),
    ensures
        field_at(s, p) == Some((FieldView::Vector(v), p + field_text(FieldView::Vector(v)).len() + 1)),
{
    let f = FieldView::Vector(v);
    let list = rows_text(v, false);
    let body = seq!['\n'] + list + seq![';'];
    lemma_nonuniform_text(f);
    let c: int = p + 23 + list.len() as int;
    assert(field_at(s, p) == Some((f, c + 2))) by {
        lemma_nonuniform_head(s, p, kw_vector(), body);
        lemma_vector_list_body(s, p + 23, v, seq![';']);
        lemma_char_at(s, c + 1, ';');
        lemma_nonuniform_field_at(s, p, f, c);
    }
}

/// Reading back, wherever it stands, the text that `FoamField::write` gives with the closing
/// `;` yields the same field and stops just after the `;`. So the count that is written is
/// always the number of elements, and repeated write and read cycles leave a field as it is.
pub proof fn law_field_round_trip_at(s: Seq<char>, p: int, f: FieldView)
    requires
        valid_field(f),
        has_at(s, p, field_text(f) + seq![';']),
    ensures
        field_at(s, p) == Some((f, p + field_text(f).len() + 1)),
{
    match f {
        FieldView::UniformScalar(x) => lemma_uniform_scalar_round_trip(s, p, x),
        FieldView::UniformVector(v) => lemma_uniform_vector_round_trip(s, p, v),
        FieldView::Scalar(v) => lemma_scalar_round_trip(s, p, v),
        FieldView::Vector(v) => lemma_vector_round_trip(s, p, v),
    }
}

/// Reading back the text that `FoamField::write` gives, with the closing `;` and whatever
/// follows, yields the same field and stops just after the `;`.
pub proof fn law_field_round_trip(f: FieldView, rest: Seq<char>)
    requires
        valid_field(f),
    ensures
        field_at(field_text(f) + seq![';'] + rest, 0) == Some((f, field_text(f).len() + 1int)),
{
    lemma_has_prefix(field_text(f) + seq![';'], rest);
    law_field_round_trip_at(field_text(f) + seq![';'] + rest, 0, f);
}


pub proof fn lemma_number_run_chars(s: Seq<char>, p: int)
    requires
        0 <= p <= s.len(),
    ensures
        p <= number_end(s, p) <= s.len(),
        forall|i: int| p <= i < number_end(s, p) ==> is_number_char(#[trigger] s[i]),
    decreases s.len() - p,
{
    if p < s.len() && is_number_char(s[p]) {
        lemma_number_run_chars(s, p + 1);
    }
}

/// A number read in decimal notation is one that the writer can put down again.
pub proof fn lemma_float_at_valid(s: Seq<char>, p: int)
    ensures
        float_at(s, p) matches Some((x, e)) ==> valid_number(x) && p < e <= s.len(),
{
    if 0 <= p <= s.len() {
        lemma_number_run_chars(s, p);
        let e = number_end(s, p);
        assert forall|i: int| 0 <= i < s.subrange(p, e).len() implies is_number_char(
            #[trigger] s.subrange(p, e)[i],
        ) by {
            assert(s.subrange(p, e)[i] == s[p + i]);
        }
        if e == p {
            assert(s.subrange(p, e) =~= Seq::<char>::empty());
            assert(digits_end(Seq::<char>::empty(), 0) == 0);
            assert(!is_float_literal(Seq::<char>::empty()));
        }
    }
}

#[verifier::rlimit(60)]
pub proof fn lemma_triple_at_valid(s: Seq<char>, p: int)
    ensures
        triple_at(s, p) matches Some((v, e)) ==> v.len() == 3 && valid_numbers(v) && p < e,
{
    if 0 <= p < s.len() && s[p] == '(' {
        let q0 = ws_end(s, p + 1);
        lemma_float_at_valid(s, q0);
        lemma_ws_end_ge(s, p + 1);
        match number_after_ws(s, p + 1) {
            Some((x, q1)) => {
                lemma_float_at_valid(s, ws_end(s, q1));
                lemma_ws_end_ge(s, q1);
                match number_after_ws(s, q1) {
                    Some((y, q2)) => {
                        lemma_float_at_valid(s, ws_end(s, q2));
                        lemma_ws_end_ge(s, q2);
                        match number_after_ws(s, q2) {
                            Some((z, q3)) => {
                                lemma_ws_end_ge(s, q3);
                                let v = seq![x, y, z];
                                assert(valid_numbers(v)) by {
                                    assert forall|i: int| 0 <= i < 3 implies valid_number(#[trigger] v[i]) by {
                                        if i == 0 {
                                            assert(v[i] == x);
                                        } else if i == 1 {
                                            assert(v[i] == y);
                                        } else {
                                            assert(v[i] == z);
                                        }
                                    }
                                }
                            },
                            None => {},
                        }
                    },
                    None => {},
                }
            },
            None => {},
        }
    }
}

pub proof fn lemma_ws_end_ge(s: Seq<char>, p: int)
    ensures
        p <= ws_end(s, p),
    decreases s.len() - p,
{
    if 0 <= p < s.len() && is_space(s[p]) {
        lemma_ws_end_ge(s, p + 1);
    }
}

#[verifier::rlimit(60)]
pub proof fn lemma_scalars_valid(s: Seq<char>, p: int, n: nat)
    ensures
        scalars_at(s, p, n) matches Some((v, e)) ==> valid_numbers(v) && v.len() == n,
    decreases n,
{
    if n > 0 {
        lemma_scalars_valid(s, p, (n - 1) as nat);
        match scalars_at(s, p, (n - 1) as nat) {
            Some((v, q)) => {
                lemma_float_at_valid(s, skip_end(s, q));
                match float_at(s, skip_end(s, q)) {
                    Some((x, e)) => {
                        assert forall|i: int| 0 <= i < v.push(x).len() implies valid_number(
                            #[trigger] v.push(x)[i],
                        ) by {
                            if i < v.len() {
                                assert(v.push(x)[i] == v[i]);
                            }
                        }
                    },
                    None => {},
                }
            },
            None => {},
        }
    }
}

#[verifier::rlimit(60)]
pub proof fn lemma_triples_valid(s: Seq<char>, p: int, n: nat)
    ensures
        triples_at(s, p, n) matches Some((v, e)) ==> valid_triples(v) && v.len() == n,
    decreases n,
{
    if n > 0 {
        lemma_triples_valid(s, p, (n - 1) as nat);
        match triples_at(s, p, (n - 1) as nat) {
            Some((v, q)) => {
                lemma_triple_at_valid(s, skip_end(s, q));
                match triple_at(s, skip_end(s, q)) {
                    Some((x, e)) => {
                        assert forall|i: int| 0 <= i < v.push(x).len() implies (#[trigger] v.push(
                            x,
                        )[i]).len() == 3 && valid_numbers(v.push(x)[i]) by {
                            if i < v.len() {
                                assert(v.push(x)[i] == v[i]);
                            }
                        }
                    },
                    None => {},
                }
            },
            None => {},
        }
    }
}

/// Every field that the reader accepts is one that the writer can put down again.
#[verifier::rlimit(60)]
pub proof fn lemma_field_at_valid(s: Seq<char>, p: int)
    ensures
        field_at(s, p) matches Some((f, e)) ==> valid_field(f),
{
    reveal(field_at);
    let q0 = skip_end(s, p);
    match word_at(s, q0) {
        Some((w, q1)) => {
            let q2 = ws_end(s, q1);
            lemma_float_at_valid(s, q2);
            lemma_triple_at_valid(s, q2);
            let q3 = word_at(s, q2 + 5);
            match q3 {
                Some((k, r)) => {
                    match usize_at(s, skip_end(s, r + 1)) {
                        Some((n, q)) => {
                            match char_after_skip(s, q, '(') {
                                Some(o) => {
                                    lemma_scalars_valid(s, o, n);
                                    lemma_triples_valid(s, o, n);
                                },
                                None => {},
                            }
                        },
                        None => {},
                    }
                },
                None => {},
            }
        },
        None => {},
    }
}

/// Whatever field the reader accepts, writing it and reading the text back yields the same
/// field: a declared count that was accepted equals the number of elements, and it is written
/// again as that number, so no count drifts over repeated cycles.
pub proof fn law_field_read_write_read(s: Seq<char>, p: int, rest: Seq<char>)
    ensures
        field_at(s, p) matches Some((f, e)) ==> field_at(field_text(f) + seq![';'] + rest, 0)
            == Some((f, field_text(f).len() + 1int)),
{
    lemma_field_at_valid(s, p);
    match field_at(s, p) {
        Some((f, e)) => law_field_round_trip(f, rest),
        None => {},
    }
}


/// The counted labels that the writer put down, one on each line after `(`, read back whole.
#[verifier::rlimit(60)]
pub proof fn lemma_labels_lines(s: Seq<char>, o: int, v: Seq<nat>, i: nat)
    requires
        forall|j: int| 0 <= j < v.len() ==> #[trigger] v[j] <= usize::MAX,
        has_at(s, o, seq!['\n'] + lines(label_texts(v)) + seq![')']),
        i <= v.len(),
    ensures
        labels_at(s, o, i) == Some((v.take(i as int), o + lines(label_texts(v.take(i as int))).len())),
    decreases i,
{
    if i == 0 {
        assert(v.take(0) =~= Seq::<nat>::empty());
        assert(label_texts(Seq::<nat>::empty()) =~= Seq::<Seq<char>>::empty());
    } else {
        let k = (i - 1) as int;
        lemma_labels_lines(s, o, v, (i - 1) as nat);
        let t = label_texts(v);
        let w = t.take(k);
        let x = t[k];
        let after = t.skip(i as int);
        assert(label_texts(v.take(k)) =~= w);
        assert(label_texts(v.take(i as int)) =~= w.push(x));
        assert(t =~= w + seq![x] + after);
        lemma_lines_append(w + seq![x], after);
        lemma_lines_append(w, seq![x]);
        assert(seq![x].drop_last() =~= Seq::<Seq<char>>::empty());
        assert(lines(Seq::<Seq<char>>::empty()) =~= Seq::<char>::empty());
        assert(lines(seq![x]) =~= x + seq!['\n']);
        assert(w.push(x) =~= w + seq![x]);
        let pre = seq!['\n'] + lines(w);
        assert(seq!['\n'] + lines(t) + seq![')'] =~= pre + x + seq!['\n'] + (lines(after) + seq![')']));
        lemma_split(s, o, pre + x + seq!['\n'], lines(after) + seq![')']);
        lemma_split(s, o, pre + x, seq!['\n']);
        lemma_split(s, o, pre, x);
        let q = o + lines(w).len();
        assert(pre[pre.len() - 1] == '\n') by {
            if w.len() > 0 {
                assert(lines(w) == lines(w.drop_last()) + w.last() + seq!['\n']);
            }
        }
        assert(s[q] == '\n') by {
            assert(s[q] == s.subrange(o, o + pre.len())[pre.len() - 1]);
        }
        assert(x == nat_text(v[k]));
        crate::writer::lemma_nat_text_digits(v[k]);
        assert(s[q + 1] == x[0]) by {
            assert(s[q + 1] == s.subrange(q + 1, q + 1 + x.len())[0]);
        }
        assert(is_digit(x[0]));
        assert(skip_end(s, q + 1) == q + 1);
        assert(skip_end(s, q) == q + 1);
        lemma_char_at(s, q + 1 + x.len(), '\n');
        lemma_usize_at(s, q + 1, v[k]);
        assert(v.take(i as int) =~= v.take(k).push(v[k]));
        assert(v.take(i as int).drop_last() =~= v.take(k));
    }
}

/// A counted list of labels that the writer put down, after a line break, reads back as those
/// labels: the count written is the number of labels.
#[verifier::rlimit(60)]
pub proof fn law_label_list_round_trip(s: Seq<char>, p: int, v: Seq<nat>)
    requires
        forall|j: int| 0 <= j < v.len() ==> #[trigger] v[j] <= usize::MAX,
        v.len() <= usize::MAX,
        has_at(s, p, seq!['\n'] + label_list_text(v)),
    ensures
        label_list_at(s, p) == Some((v, p + 1 + label_list_text(v).len() - 1)),
{
    let t = label_texts(v);
    let n = v.len();
    let nt = nat_text(n);
    assert(t.len() == n);
    let tail = seq!['\n'] + lines(t) + seq![')'] + seq!['\n'];
    assert(seq!['\n'] + label_list_text(v) =~= seq!['\n'] + nt + seq!['\n', '('] + tail);
    lemma_count_open(s, p, n, tail);
    let o = p + 3 + nt.len();
    lemma_split(s, o, seq!['\n'] + lines(t) + seq![')'], seq!['\n']);
    lemma_labels_lines(s, o, v, n);
    assert(v.take(n as int) =~= v);
    let q: int = o + lines(t).len() as int;
    lemma_split(s, o, seq!['\n'] + lines(t), seq![')']);
    lemma_char_at(s, q + 1, ')');
    assert(s[q] == '\n') by {
        let pre = seq!['\n'] + lines(t);
        if t.len() > 0 {
            assert(lines(t) == lines(t.drop_last()) + t.last() + seq!['\n']);
        }
        assert(s[q] == s.subrange(o, o + pre.len())[pre.len() - 1]);
    }
    assert(skip_end(s, q + 1) == q + 1);
    assert(skip_end(s, q) == q + 1);
    assert(skip_end(s, p) == p + 1);
}


/// A counted list of points that the writer put down, after a line break, reads back as those
/// points: the count written is the number of points.
pub proof fn law_point_list_round_trip(s: Seq<char>, p: int, v: Seq<Seq<Seq<char>>>, after: Seq<char>)
    requires
        valid_triples(v),
        v.len() <= usize::MAX,
        has_at(s, p, seq!['\n'] + rows_text(v, false) + after),
    ensures
        vector_list_at(s, p) == Some((v, p + rows_text(v, false).len())),
{
    lemma_vector_list_body(s, p, v, after);
}


pub proof fn lemma_zone_text_shape(name: Seq<char>, kind: Seq<char>, key: Seq<char>, labels: Seq<nat>)
    ensures
        zone_head_text(name, kind, key, labels) == name + (seq!['\n', '{', '\n'] + (kw_type() + (
        seq![' '] + (kind + (seq![';', '\n'] + (key + (seq![' '] + (kw_list_label() + ((seq!['\n']
            + label_list_text(labels)) + seq![';', '\n']))))))))),
{
    assert(zone_head_text(name, kind, key, labels) =~= name + (seq!['\n', '{', '\n'] + (kw_type() + (
    seq![' '] + (kind + (seq![';', '\n'] + (key + (seq![' '] + (kw_list_label() + ((seq!['\n']
        + label_list_text(labels)) + seq![';', '\n']))))))))));
}

/// A word at `p` that starts with a character other than whitespace and `/` is not skipped.
pub proof fn lemma_word_start(s: Seq<char>, p: int, w: Seq<char>)
    requires
        has_at(s, p, w),
        valid_word(w),
    ensures
        skip_end(s, p) == p,
        ws_end(s, p) == p,
        s[p] == w[0],
        forall|i: int| p <= i < p + w.len() ==> is_word_char(#[trigger] s[i]),
{
    assert forall|i: int| p <= i < p + w.len() implies is_word_char(#[trigger] s[i]) by {
        assert(s[i] == s.subrange(p, p + w.len())[i - p]);
    }
    assert(s[p] == s.subrange(p, p + w.len())[0]);
}

/// The head of a zone that the writer put down reads back: its name and its labels, up to and
/// including the `;` after the labels.
#[verifier::rlimit(100)]
pub proof fn lemma_zone_head_round_trip(
    s: Seq<char>,
    p: int,
    name: Seq<char>,
    kind: Seq<char>,
    key: Seq<char>,
    labels: Seq<nat>,
)
    requires
        valid_word(name),
        valid_word(kind),
        valid_word(key),
        forall|j: int| 0 <= j < labels.len() ==> #[trigger] labels[j] <= usize::MAX,
        labels.len() <= usize::MAX,
        has_at(s, p, zone_head_text(name, kind, key, labels)),
    ensures
        zone_head_at(s, p, kind, key) == Some((name, labels, p + zone_head_text(name, kind, key, labels).len() - 1)),
{
    let llt = label_list_text(labels);
    lemma_zone_text_shape(name, kind, key, labels);
    let b = p + name.len();
    let c = b + 3;
    let d = c + 5;
    let f = d + kind.len() + 2;
    let g = f + key.len() + 1;
    let h = g + 11;
    let r8 = seq![';', '\n'];
    let r7 = (seq!['\n'] + llt) + r8;
    let r6 = kw_list_label() + r7;
    let r5 = seq![' '] + r6;
    let r4 = key + r5;
    let r3 = seq![';', '\n'] + r4;
    let r2 = kind + r3;
    let r1 = seq![' '] + r2;
    let r0 = kw_type() + r1;
    let rr = seq!['\n', '{', '\n'] + r0;
    lemma_split(s, p, name, rr);
    lemma_split(s, b, seq!['\n', '{', '\n'], r0);
    lemma_split(s, c, kw_type(), r1);
    lemma_split(s, c + 4, seq![' '], r2);
    lemma_split(s, d, kind, r3);
    lemma_split(s, d + kind.len(), seq![';', '\n'], r4);
    lemma_split(s, f, key, r5);
    lemma_split(s, f + key.len(), seq![' '], r6);
    lemma_split(s, g, kw_list_label(), r7);
    lemma_split(s, h, seq!['\n'] + llt, r8);
    assert(s[b] == '\n' && s[b + 1] == '{' && s[b + 2] == '\n') by {
        assert(s[b] == s.subrange(b, b + 3)[0]);
        assert(s[b + 1] == s.subrange(b, b + 3)[1]);
        assert(s[b + 2] == s.subrange(b, b + 3)[2]);
    }
    assert(s[c] == 't') by {
        assert(s[c] == s.subrange(c, c + 4)[0]);
    }
    lemma_char_at(s, c + 4, ' ');
    assert(s[d + kind.len()] == ';' && s[d + kind.len() + 1] == '\n') by {
        assert(s[d + kind.len()] == s.subrange(d + kind.len(), d + kind.len() + 2)[0]);
        assert(s[d + kind.len() + 1] == s.subrange(d + kind.len(), d + kind.len() + 2)[1]);
    }
    lemma_char_at(s, f + key.len(), ' ');
    assert(s[g] == 'L') by {
        assert(s[g] == s.subrange(g, g + 11)[0]);
    }
    let e = h + llt.len();
    assert(s[e + 1] == ';' && s[e + 2] == '\n') by {
        assert(s[e + 1] == s.subrange(e + 1, e + 3)[0]);
        assert(s[e + 2] == s.subrange(e + 1, e + 3)[1]);
    }
    lemma_word_start(s, p, name);
    lemma_word_start(s, d, kind);
    lemma_word_start(s, f, key);
    // name
    lemma_word_run(s, p, b);
    assert(s.subrange(p, b) =~= name);
    assert(word_at(s, p) == Some((name, b)));
    // `{`
    assert(skip_end(s, b + 1) == b + 1);
    assert(skip_end(s, b) == b + 1);
    // `type <kind>;`
    assert(skip_end(s, c) == c);
    assert(skip_end(s, b + 2) == c);
    assert(keyword_after_skip(s, b + 2, kw_type()) == Some(c + 4));
    assert(ws_end(s, c + 4) == d);
    assert(keyword_after_ws(s, c + 4, kind) == Some(d + kind.len()));
    assert(ws_end(s, d + kind.len()) == d + kind.len());
    assert(char_after_space(s, d + kind.len(), ';') == Some(d + kind.len() + 1));
    // `<key> List<label>`
    assert(skip_end(s, d + kind.len() + 1) == f);
    assert(keyword_after_skip(s, d + kind.len() + 1, key) == Some(f + key.len()));
    assert(ws_end(s, g) == g);
    assert(ws_end(s, f + key.len()) == g);
    assert(keyword_after_ws(s, f + key.len(), kw_list_label()) == Some(h));
    // the labels
    law_label_list_round_trip(s, h, labels);
    // `;`
    assert(s[e] == '\n') by {
        let t = seq!['\n'] + llt;
        assert(t[t.len() - 1] == '\n');
        assert(s[e] == s.subrange(h, h + t.len())[t.len() - 1]);
    }
    assert(skip_end(s, e + 1) == e + 1);
    assert(skip_end(s, e) == e + 1);
}


/// A zone without a flip map that the writer put down reads back: the same name and the same
/// labels, whose count is written as their number. With the kind and key of cell zones and of
/// point zones, this is what `CellZone::write` and `PointZone::write` give and what
/// `CellZone::parse_at` and `PointZone::parse_at` read.
pub proof fn law_zone_round_trip(
    s: Seq<char>,
    p: int,
    name: Seq<char>,
    kind: Seq<char>,
    key: Seq<char>,
    labels: Seq<nat>,
)
    requires
        valid_word(name),
        (kind == kw_cell_zone() && key == kw_cell_labels()) || (kind == kw_point_zone() && key
            == kw_point_labels()),
        forall|j: int| 0 <= j < labels.len() ==> #[trigger] labels[j] <= usize::MAX,
        labels.len() <= usize::MAX,
        has_at(s, p, zone_text(name, kind, key, labels)),
    ensures
        zone_at(s, p, kind, key) == Some((name, labels, p + zone_text(name, kind, key, labels).len() - 1)),
{
    assert(valid_word(kind) && valid_word(key)) by {
        assert(is_word_char('c') && is_word_char('e') && is_word_char('l') && is_word_char('Z'));
        assert(is_word_char('o') && is_word_char('n') && is_word_char('L') && is_word_char('a'));
        assert(is_word_char('b') && is_word_char('s') && is_word_char('p') && is_word_char('i'));
        assert(is_word_char('t'));
    }
    let zht = zone_head_text(name, kind, key, labels);
    lemma_split(s, p, zht, seq!['}', '\n']);
    lemma_zone_head_round_trip(s, p, name, kind, key, labels);
    let q = p + zht.len() - 1;
    assert(s[q] == '\n') by {
        assert(zht[zht.len() - 1] == '\n');
        assert(s[q] == s.subrange(p, p + zht.len())[zht.len() - 1]);
    }
    assert(s[q + 1] == '}') by {
        assert(s[q + 1] == s.subrange(q + 1, q + 3)[0]);
    }
    assert(skip_end(s, q + 1) == q + 1);
    assert(skip_end(s, q) == q + 1);
}

} // verus!
