use vstd::prelude::*;
use crate::writer::{
    fixed_row_text, push_chars, push_joined, push_lines, push_rows, push_usize, rows_text,
    single_data_text, string_of_chars,
};
use crate::text::{
    char_after_skip, char_after_ws, expect_after_skip, expect_after_ws, float_at, has_at,
    has_text_at, read_float, read_usize, read_word, same_chars, skip_insignificant, skip_space,
    skip_end, string_of, usize_at, word_at, ws_end,
};

verus! {

/// A physical field: one value for the whole domain (uniform) or one per mesh entity
/// (non-uniform), scalar or vector valued. Each number keeps the decimal notation it was
/// written in.
#[derive(Debug, Clone, PartialEq)]
pub enum FoamField {
    UniformScalar(String),
    /// The three components of the vector.
    UniformVector(Vec<String>),
    Scalar(Vec<String>),
    /// Each vector with its three components.
    Vector(Vec<Vec<String>>),
}

/// What a field holds, as sequences of numbers in decimal notation.
pub enum FieldView {
    UniformScalar(Seq<char>),
    UniformVector(Seq<Seq<char>>),
    Scalar(Seq<Seq<char>>),
    Vector(Seq<Seq<Seq<char>>>),
}

impl View for FoamField {
    type V = FieldView;

    open spec fn view(&self) -> FieldView {
        match self {
            FoamField::UniformScalar(x) => FieldView::UniformScalar(x@),
            FoamField::UniformVector(v) => FieldView::UniformVector(crate::writer::views(v@)),
            FoamField::Scalar(v) => FieldView::Scalar(crate::writer::views(v@)),
            FoamField::Vector(v) => FieldView::Vector(crate::writer::row_views(v@)),
        }
    }
}

/// The shape of a field: a vector has three components.
pub open spec fn shape_ok(f: FieldView) -> bool {
    match f {
        FieldView::UniformVector(v) => v.len() == 3,
        FieldView::Vector(v) => forall|i: int| 0 <= i < v.len() ==> (#[trigger] v[i]).len() == 3,
        _ => true,
    }
}

impl FoamField {
    /// Well-formedness: each vector has three components.
    pub open spec fn well_formed(&self) -> bool {
        shape_ok(self@)
    }
}

pub open spec fn kw_uniform() -> Seq<char> {
    seq!['u', 'n', 'i', 'f', 'o', 'r', 'm']
}

pub open spec fn kw_nonuniform() -> Seq<char> {
    seq!['n', 'o', 'n', 'u', 'n', 'i', 'f', 'o', 'r', 'm']
}

pub open spec fn kw_list_open() -> Seq<char> {
    seq!['L', 'i', 's', 't', '<']
}

pub open spec fn kw_scalar() -> Seq<char> {
    seq!['s', 'c', 'a', 'l', 'a', 'r']
}

pub open spec fn kw_vector() -> Seq<char> {
    seq!['v', 'e', 'c', 't', 'o', 'r']
}

/// A number after whitespace.
pub open spec fn number_after_ws(s: Seq<char>, p: int) -> Option<(Seq<char>, int)> {
    float_at(s, ws_end(s, p))
}

/// Three numbers within parentheses on one span, `(x y z)`, starting at `p`.
pub open spec fn triple_at(s: Seq<char>, p: int) -> Option<(Seq<Seq<char>>, int)> {
    if 0 <= p < s.len() && s[p] == '(' {
        match number_after_ws(s, p + 1) {
            Some((x, q1)) => match number_after_ws(s, q1) {
                Some((y, q2)) => match number_after_ws(s, q2) {
                    Some((z, q3)) => match char_after_ws(s, q3, ')') {
                        Some(q4) => Some((seq![x, y, z], q4)),
                        None => None,
                    },
                    None => None,
                },
                None => None,
            },
            None => None,
        }
    } else {
        None
    }
}

/// `n` numbers, each after insignificant text.
pub open spec fn scalars_at(s: Seq<char>, p: int, n: nat) -> Option<(Seq<Seq<char>>, int)>
    decreases n,
{
    if n == 0 {
        Some((Seq::empty(), p))
    } else {
        match scalars_at(s, p, (n - 1) as nat) {
            Some((v, q)) => match float_at(s, skip_end(s, q)) {
                Some((x, e)) => Some((v.push(x), e)),
                None => None,
            },
            None => None,
        }
    }
}

/// `n` triples, each after insignificant text.
pub open spec fn triples_at(s: Seq<char>, p: int, n: nat) -> Option<(Seq<Seq<Seq<char>>>, int)>
    decreases n,
{
    if n == 0 {
        Some((Seq::empty(), p))
    } else {
        match triples_at(s, p, (n - 1) as nat) {
            Some((v, q)) => match triple_at(s, skip_end(s, q)) {
                Some((x, e)) => Some((v.push(x), e)),
                None => None,
            },
            None => None,
        }
    }
}

/// A counted list of numbers: the count, `(`, exactly that many numbers, `)`.
pub open spec fn scalar_list_at(s: Seq<char>, p: int) -> Option<(Seq<Seq<char>>, int)> {
    match usize_at(s, skip_end(s, p)) {
        Some((n, q)) => match char_after_skip(s, q, '(') {
            Some(o) => match scalars_at(s, o, n) {
                Some((v, e)) => match char_after_skip(s, e, ')') {
                    Some(c) => Some((v, c)),
                    None => None,
                },
                None => None,
            },
            None => None,
        },
        None => None,
    }
}

/// A counted list of triples: the count, `(`, exactly that many triples, `)`.
pub open spec fn vector_list_at(s: Seq<char>, p: int) -> Option<(Seq<Seq<Seq<char>>>, int)> {
    match usize_at(s, skip_end(s, p)) {
        Some((n, q)) => match char_after_skip(s, q, '(') {
            Some(o) => match triples_at(s, o, n) {
                Some((v, e)) => match char_after_skip(s, e, ')') {
                    Some(c) => Some((v, c)),
                    None => None,
                },
                None => None,
            },
            None => None,
        },
        None => None,
    }
}

/// Attaches the closing `;` to a field read up to `q`.
pub open spec fn with_semicolon(f: FieldView, s: Seq<char>, q: int) -> Option<(FieldView, int)> {
    match char_after_ws(s, q, ';') {
        Some(e) => Some((f, e)),
        None => None,
    }
}

/// A field starting at `p`, up to and including its closing `;`:
/// `uniform <x>;`, `uniform (<x> <y> <z>);`, `nonuniform List<scalar> <n> (<x>...);` or
/// `nonuniform List<vector> <n> ((<x> <y> <z>)...);`. A declared count is the exact number of
/// elements read: a list with fewer or more elements is no field.
#[verifier::opaque]
pub open spec fn field_at(s: Seq<char>, p: int) -> Option<(FieldView, int)> {
    match word_at(s, skip_end(s, p)) {
        Some((w, q1)) => if w == kw_uniform() {
            let q2 = ws_end(s, q1);
            match float_at(s, q2) {
                Some((x, q3)) => with_semicolon(FieldView::UniformScalar(x), s, q3),
                None => match triple_at(s, q2) {
                    Some((v, q3)) => with_semicolon(FieldView::UniformVector(v), s, q3),
                    None => None,
                },
            }
        } else if w == kw_nonuniform() {
            let q2 = ws_end(s, q1);
            if has_at(s, q2, kw_list_open()) {
                match word_at(s, q2 + 5) {
                    Some((k, q3)) => if 0 <= q3 < s.len() && s[q3] == '>' && k == kw_scalar() {
                        match scalar_list_at(s, q3 + 1) {
                            Some((v, q4)) => with_semicolon(FieldView::Scalar(v), s, q4),
                            None => None,
                        }
                    } else if 0 <= q3 < s.len() && s[q3] == '>' && k == kw_vector() {
                        match vector_list_at(s, q3 + 1) {
                            Some((v, q4)) => with_semicolon(FieldView::Vector(v), s, q4),
                            None => None,
                        }
                    } else {
                        None
                    },
                    None => None,
                }
            } else {
                None
            }
        } else {
            None
        },
        None => None,
    }
}

/// Reads a number after whitespace.
pub fn read_number_after_ws(s: &Vec<char>, p: usize) -> (r: Option<(String, usize)>)
    requires
        p <= s.len(),
    ensures
        match number_after_ws(s@, p as int) {
            Some((x, e)) => r matches Some((y, q)) && y@ == x && q == e && p < q <= s.len(),
            None => r is None,
        },
{
    let q = skip_space(s, p);
    match read_float(s, q) {
        Some((x, e)) => Some((string_of(x.as_slice()), e)),
        None => None,
    }
}

/// Reads a triple: see `triple_at`.
#[verifier::rlimit(60)]
pub fn read_triple(s: &Vec<char>, p: usize) -> (r: Option<(Vec<String>, usize)>)
    requires
        p <= s.len(),
    ensures
        match triple_at(s@, p as int) {
            Some((v, e)) => r matches Some((w, q)) && crate::writer::views(w@) == v && q == e
                && p < q <= s.len(),
            None => r is None,
        },
{
    if !(p < s.len() && s[p] == '(') {
        return None;
    }
    let (x, q1) = match read_number_after_ws(s, p + 1) {
        Some(t) => t,
        None => return None,
    };
    let (y, q2) = match read_number_after_ws(s, q1) {
        Some(t) => t,
        None => return None,
    };
    let (z, q3) = match read_number_after_ws(s, q2) {
        Some(t) => t,
        None => return None,
    };
    let q4 = match expect_after_ws(s, q3, ')') {
        Some(q) => q,
        None => return None,
    };
    let ghost (gx, gy, gz) = (x@, y@, z@);
    let v = vec![x, y, z];
    assert(crate::writer::views(v@) =~= seq![gx, gy, gz]);
    Some((v, q4))
}

/// Reads `n` numbers: see `scalars_at`.
#[verifier::rlimit(60)]
pub fn read_scalars(s: &Vec<char>, p: usize, n: usize) -> (r: Option<(Vec<String>, usize)>)
    requires
        p <= s.len(),
    ensures
        match scalars_at(s@, p as int, n as nat) {
            Some((v, e)) => r matches Some((w, q)) && crate::writer::views(w@) == v && q == e
                && p <= q <= s.len(),
            None => r is None,
        },
{
    let mut v: Vec<String> = Vec::new();
    let mut q = p;
    let mut i: usize = 0;
    while i < n
        invariant
            i <= n,
            p <= q <= s.len(),
            scalars_at(s@, p as int, i as nat) == Some((crate::writer::views(v@), q as int)),
        decreases n - i,
    {
        let o = skip_insignificant(s, q);
        match read_float(s, o) {
            Some((x, e)) => {
                let ghost old_v = v@;
                v.push(string_of(x.as_slice()));
                assert(crate::writer::views(v@) =~= crate::writer::views(old_v).push(x@));
                q = e;
            },
            None => {
                proof {
                    lemma_scalars_none(s@, p as int, i as nat, n as nat);
                }
                return None;
            },
        }
        i = i + 1;
    }
    Some((v, q))
}

pub proof fn lemma_scalars_none(s: Seq<char>, p: int, i: nat, n: nat)
    requires
        i < n,
        scalars_at(s, p, (i + 1) as nat) is None,
    ensures
        scalars_at(s, p, n) is None,
    decreases n,
{
    if n > i + 1 {
        lemma_scalars_none(s, p, i, (n - 1) as nat);
    }
}

pub proof fn lemma_triples_none(s: Seq<char>, p: int, i: nat, n: nat)
    requires
        i < n,
        triples_at(s, p, (i + 1) as nat) is None,
    ensures
        triples_at(s, p, n) is None,
    decreases n,
{
    if n > i + 1 {
        lemma_triples_none(s, p, i, (n - 1) as nat);
    }
}

/// Reads `n` triples: see `triples_at`.
#[verifier::rlimit(60)]
pub fn read_triples(s: &Vec<char>, p: usize, n: usize) -> (r: Option<(Vec<Vec<String>>, usize)>)
    requires
        p <= s.len(),
    ensures
        match triples_at(s@, p as int, n as nat) {
            Some((v, e)) => r matches Some((w, q)) && crate::writer::row_views(w@) == v && q == e
                && p <= q <= s.len(),
            None => r is None,
        },
{
    let mut v: Vec<Vec<String>> = Vec::new();
    let mut q = p;
    let mut i: usize = 0;
    while i < n
        invariant
            i <= n,
            p <= q <= s.len(),
            triples_at(s@, p as int, i as nat) == Some((crate::writer::row_views(v@), q as int)),
        decreases n - i,
    {
        let o = skip_insignificant(s, q);
        match read_triple(s, o) {
            Some((x, e)) => {
                let ghost old_v = v@;
                let ghost gx = crate::writer::views(x@);
                v.push(x);
                assert(crate::writer::row_views(v@) =~= crate::writer::row_views(old_v).push(gx));
                q = e;
            },
            None => {
                proof {
                    lemma_triples_none(s@, p as int, i as nat, n as nat);
                }
                return None;
            },
        }
        i = i + 1;
    }
    Some((v, q))
}

/// Reads a counted list of numbers: see `scalar_list_at`.
#[verifier::rlimit(60)]
pub fn read_scalar_list(s: &Vec<char>, p: usize) -> (r: Option<(Vec<String>, usize)>)
    requires
        p <= s.len(),
    ensures
        match scalar_list_at(s@, p as int) {
            Some((v, e)) => r matches Some((w, q)) && crate::writer::views(w@) == v && q == e
                && p < q <= s.len(),
            None => r is None,
        },
{
    let o = skip_insignificant(s, p);
    let (n, q) = match read_usize(s, o) {
        Some(t) => t,
        None => return None,
    };
    let o2 = match expect_after_skip(s, q, '(') {
        Some(x) => x,
        None => return None,
    };
    let (v, e) = match read_scalars(s, o2, n) {
        Some(t) => t,
        None => return None,
    };
    match expect_after_skip(s, e, ')') {
        Some(c) => Some((v, c)),
        None => None,
    }
}

/// Reads a counted list of triples: see `vector_list_at`.
#[verifier::rlimit(60)]
pub fn read_vector_list(s: &Vec<char>, p: usize) -> (r: Option<(Vec<Vec<String>>, usize)>)
    requires
        p <= s.len(),
    ensures
        match vector_list_at(s@, p as int) {
            Some((v, e)) => r matches Some((w, q)) && crate::writer::row_views(w@) == v && q == e
                && p < q <= s.len(),
            None => r is None,
        },
{
    let o = skip_insignificant(s, p);
    let (n, q) = match read_usize(s, o) {
        Some(t) => t,
        None => return None,
    };
    let o2 = match expect_after_skip(s, q, '(') {
        Some(x) => x,
        None => return None,
    };
    let (v, e) = match read_triples(s, o2, n) {
        Some(t) => t,
        None => return None,
    };
    match expect_after_skip(s, e, ')') {
        Some(c) => Some((v, c)),
        None => None,
    }
}

impl FoamField {
    /// Reads a field at `p`, up to and including its closing `;`: see `field_at`.
    #[verifier::rlimit(60)]
    pub fn parse_at(s: &Vec<char>, p: usize) -> (r: Option<(FoamField, usize)>)
        requires
            p <= s.len(),
        ensures
            match field_at(s@, p as int) {
                Some((f, e)) => r matches Some((g, q)) && g@ == f && q == e && p < q <= s.len()
                    && g.well_formed(),
                None => r is None,
            },
    {
        proof {
            crate::laws::lemma_field_at_valid(s@, p as int);
        }
        reveal(field_at);
        let q0 = skip_insignificant(s, p);
        let (w, q1) = match read_word(s, q0) {
            Some(t) => t,
            None => return None,
        };
        let kw_u = vec!['u', 'n', 'i', 'f', 'o', 'r', 'm'];
        let kw_n = vec!['n', 'o', 'n', 'u', 'n', 'i', 'f', 'o', 'r', 'm'];
        assert(kw_u@ == kw_uniform());
        assert(kw_n@ == kw_nonuniform());
        if same_chars(&w, &kw_u) {
            let q2 = skip_space(s, q1);
            match read_float(s, q2) {
                Some((x, q3)) => {
                    return match expect_after_ws(s, q3, ';') {
                        Some(e) => Some((FoamField::UniformScalar(string_of(x.as_slice())), e)),
                        None => None,
                    };
                },
                None => {},
            }
            match read_triple(s, q2) {
                Some((v, q3)) => match expect_after_ws(s, q3, ';') {
                    Some(e) => Some((FoamField::UniformVector(v), e)),
                    None => None,
                },
                None => None,
            }
        } else if same_chars(&w, &kw_n) {
            let q2 = skip_space(s, q1);
            let open = vec!['L', 'i', 's', 't', '<'];
            assert(open@ == kw_list_open());
            if !has_text_at(s, q2, &open) {
                return None;
            }
            let (k, q3) = match read_word(s, q2 + 5) {
                Some(t) => t,
                None => return None,
            };
            let kw_s = vec!['s', 'c', 'a', 'l', 'a', 'r'];
            let kw_v = vec!['v', 'e', 'c', 't', 'o', 'r'];
            assert(kw_s@ == kw_scalar());
            assert(kw_v@ == kw_vector());
            if q3 < s.len() && s[q3] == '>' && same_chars(&k, &kw_s) {
                match read_scalar_list(s, q3 + 1) {
                    Some((v, q4)) => match expect_after_ws(s, q4, ';') {
                        Some(e) => Some((FoamField::Scalar(v), e)),
                        None => None,
                    },
                    None => None,
                }
            } else if q3 < s.len() && s[q3] == '>' && same_chars(&k, &kw_v) {
                match read_vector_list(s, q3 + 1) {
                    Some((v, q4)) => match expect_after_ws(s, q4, ';') {
                        Some(e) => Some((FoamField::Vector(v), e)),
                        None => None,
                    },
                    None => None,
                }
            } else {
                None
            }
        } else {
            None
        }
    }
}


/// The text of a field, without the closing `;`.
pub open spec fn field_text(f: FieldView) -> Seq<char> {
    match f {
        FieldView::UniformScalar(x) => kw_uniform() + seq![' '] + x,
        FieldView::UniformVector(v) => kw_uniform() + seq![' '] + fixed_row_text(v),
        FieldView::Scalar(v) => kw_nonuniform() + seq![' '] + kw_list_open() + kw_scalar() + seq![
            '>',
            '\n',
        ] + single_data_text(v),
        FieldView::Vector(v) => kw_nonuniform() + seq![' '] + kw_list_open() + kw_vector() + seq![
            '>',
            '\n',
        ] + rows_text(v, false),
    }
}

impl FoamField {
    /// A deep copy of the field.
    #[verifier::rlimit(60)]
    pub fn deep_copy(&self) -> (r: FoamField)
        ensures
            r@ == self@,
    {
        match self {
            FoamField::UniformScalar(x) => FoamField::UniformScalar(x.clone()),
            FoamField::UniformVector(v) => FoamField::UniformVector(crate::writer::copy_strings(v)),
            FoamField::Scalar(v) => FoamField::Scalar(crate::writer::copy_strings(v)),
            FoamField::Vector(v) => {
                let mut r: Vec<Vec<String>> = Vec::new();
                let mut i: usize = 0;
                while i < v.len()
                    invariant
                        i <= v@.len(),
                        crate::writer::row_views(r@) == crate::writer::row_views(v@.take(i as int)),
                    decreases v.len() - i,
                {
                    let row = crate::writer::copy_strings(&v[i]);
                    let ghost before = r@;
                    r.push(row);
                    proof {
                        assert(crate::writer::row_views(r@) =~= crate::writer::row_views(before).push(
                            crate::writer::views(v@[i as int]@),
                        ));
                        assert(crate::writer::row_views(v@.take(i + 1)) =~= crate::writer::row_views(
                            v@.take(i as int),
                        ).push(crate::writer::views(v@[i as int]@)));
                    }
                    i = i + 1;
                }
                assert(v@.take(i as int) =~= v@);
                FoamField::Vector(r)
            },
        }
    }

    /// Appends the text of the field, without the closing `;`.
    #[verifier::rlimit(60)]
    pub fn write_to(&self, out: &mut Vec<char>)
        ensures
            final(out)@ == old(out)@ + field_text(self@),
    {
        let ghost start = out@;
        let kw_u = vec!['u', 'n', 'i', 'f', 'o', 'r', 'm', ' '];
        let head = vec!['n', 'o', 'n', 'u', 'n', 'i', 'f', 'o', 'r', 'm', ' ', 'L', 'i', 's', 't', '<'];
        match self {
            FoamField::UniformScalar(x) => {
                push_chars(out, &kw_u);
                crate::writer::push_str(out, x.as_str());
                assert(out@ =~= start + field_text(self@));
            },
            FoamField::UniformVector(v) => {
                push_chars(out, &kw_u);
                out.push('(');
                push_joined(out, v);
                out.push(')');
                assert(out@ =~= start + field_text(self@));
            },
            FoamField::Scalar(v) => {
                push_chars(out, &head);
                let tail = vec!['s', 'c', 'a', 'l', 'a', 'r', '>', '\n'];
                push_chars(out, &tail);
                push_usize(out, v.len());
                out.push('\n');
                out.push('(');
                out.push('\n');
                push_lines(out, v);
                out.push(')');
                out.push('\n');
                assert(out@ =~= start + field_text(self@));
            },
            FoamField::Vector(v) => {
                push_chars(out, &head);
                let tail = vec!['v', 'e', 'c', 't', 'o', 'r', '>', '\n'];
                push_chars(out, &tail);
                push_rows(out, v, false);
                assert(out@ =~= start + field_text(self@));
            },
        }
    }

    /// The text of the field, without the closing `;`. The count of a non-uniform field is
    /// always the number of its elements.
    pub fn write(&self) -> (r: String)
        ensures
            r@ == field_text(self@),
    {
        let mut out: Vec<char> = Vec::new();
        self.write_to(&mut out);
        assert(out@ =~= field_text(self@));
        string_of_chars(&out)
    }
}

} // verus!
