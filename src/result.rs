use vstd::prelude::*;
use crate::field::{field_at, field_text, FieldView, FoamField};
use crate::text::{
    digits_end, digits_value, expect_after_ws, expect_keyword_after_skip, has_at, integer_in,
    keyword_after_skip, char_after_skip, expect_after_skip, skip_digits, skip_space, ws_end,
};
use crate::value::{named_structure_at, structure_text, FoamStructure, ValueView};
use crate::writer::{nat_text, push_chars, push_str, push_usize, string_of_chars};

verus! {

/// An integer literal with an optional `-`, whose value fits in `i32`, at `p`; with the
/// position after it.
pub open spec fn i32_at(s: Seq<char>, p: int) -> Option<(int, int)> {
    let neg = 0 <= p < s.len() && s[p] == '-';
    let a = if neg {
        p + 1
    } else {
        p
    };
    let e = digits_end(s, a);
    let m = digits_value(s.subrange(a, e)) as int;
    let v = if neg {
        -m
    } else {
        m
    };
    if 0 <= p && e > a && i32::MIN <= v <= i32::MAX {
        Some((v, e))
    } else {
        None
    }
}

/// `n` integers, each after whitespace.
pub open spec fn ints_at(s: Seq<char>, p: int, n: nat) -> Option<(Seq<int>, int)>
    decreases n,
{
    if n == 0 {
        Some((Seq::empty(), p))
    } else {
        match ints_at(s, p, (n - 1) as nat) {
            Some((v, q)) => match i32_at(s, ws_end(s, q)) {
                Some((x, e)) => Some((v.push(x), e)),
                None => None,
            },
            None => None,
        }
    }
}

pub open spec fn kw_dimensions() -> Seq<char> {
    seq!['d', 'i', 'm', 'e', 'n', 's', 'i', 'o', 'n', 's']
}

pub open spec fn kw_internal_field() -> Seq<char> {
    seq!['i', 'n', 't', 'e', 'r', 'n', 'a', 'l', 'F', 'i', 'e', 'l', 'd']
}

/// The dimensions entry: `dimensions [e_1 ... e_7];`, seven unit exponents.
pub open spec fn dimensions_at(s: Seq<char>, p: int) -> Option<(Seq<int>, int)> {
    match keyword_after_skip(s, p, kw_dimensions()) {
        Some(q1) => match char_after_skip(s, q1, '[') {
            Some(q2) => match ints_at(s, q2, 7) {
                Some((v, q3)) => {
                    let q4 = ws_end(s, q3);
                    if has_at(s, q4, seq![']', ';']) {
                        Some((v, q4 + 2))
                    } else {
                        None
                    }
                },
                None => None,
            },
            None => None,
        },
        None => None,
    }
}

/// An integer in decimal notation, with a `-` when it is negative.
pub open spec fn int_text(v: int) -> Seq<char> {
    if v < 0 {
        seq!['-'] + nat_text((-v) as nat)
    } else {
        nat_text(v as nat)
    }
}

/// The items separated by single spaces.
pub open spec fn ints_text(v: Seq<int>) -> Seq<char>
    decreases v.len(),
{
    if v.len() == 0 {
        Seq::empty()
    } else if v.len() == 1 {
        int_text(v[0])
    } else {
        ints_text(v.drop_last()) + seq![' '] + int_text(v.last())
    }
}

/// The text of a dimensions entry.
pub open spec fn dimensions_text(v: Seq<int>) -> Seq<char> {
    kw_dimensions() + seq![' ', '['] + ints_text(v) + seq![']', ';']
}

/// The physical dimensions of a field: the exponents of the seven base units.
#[derive(Debug, Clone, Copy, PartialEq, Eq)]
pub struct Dimensions(pub [i32; 7]);

pub open spec fn int_seq(v: Seq<i32>) -> Seq<int> {
    v.map_values(|x: i32| x as int)
}

pub proof fn lemma_ints_none(s: Seq<char>, p: int, i: nat, n: nat)
    requires
        i < n,
        ints_at(s, p, (i + 1) as nat) is None,
    ensures
        ints_at(s, p, n) is None,
    decreases n,
{
    if n > i + 1 {
        lemma_ints_none(s, p, i, (n - 1) as nat);
    }
}

/// Reads an integer that fits in `i32`: see `i32_at`.
#[verifier::rlimit(60)]
pub fn read_i32(s: &Vec<char>, p: usize) -> (r: Option<(i32, usize)>)
    requires
        p <= s.len(),
    ensures
        match i32_at(s@, p as int) {
            Some((v, e)) => r matches Some((x, q)) && x as int == v && q == e && p < q <= s.len(),
            None => r is None,
        },
{
    let neg = p < s.len() && s[p] == '-';
    let a = if neg {
        p + 1
    } else {
        p
    };
    let e = skip_digits(s, a);
    if e == a {
        return None;
    }
    match integer_in(s, a, e) {
        Some(m) => {
            proof {
                crate::text::lemma_digits_run(s@, a as int);
            }
            if neg {
                if m > 2147483648 {
                    return None;
                }
                Some(((0 - m as i64) as i32, e))
            } else {
                if m > 2147483647 {
                    return None;
                }
                Some((m as i32, e))
            }
        },
        None => {
            proof {
                crate::text::lemma_digits_run(s@, a as int);
            }
            None
        },
    }
}

impl Dimensions {
    pub fn new(dimensions: [i32; 7]) -> (r: Self)
        ensures
            r.0@ == dimensions@,
    {
        Dimensions(dimensions)
    }

    /// Reads a dimensions entry: see `dimensions_at`.
    #[verifier::rlimit(60)]
    pub fn parse_at(s: &Vec<char>, p: usize) -> (r: Option<(Dimensions, usize)>)
        requires
            p <= s.len(),
        ensures
            match dimensions_at(s@, p as int) {
                Some((v, e)) => r matches Some((d, q)) && int_seq(d.0@) == v && q == e && p < q
                    <= s.len(),
                None => r is None,
            },
    {
        let kw = vec!['d', 'i', 'm', 'e', 'n', 's', 'i', 'o', 'n', 's'];
        assert(kw@ == kw_dimensions());
        let q1 = match expect_keyword_after_skip(s, p, &kw) {
            Some(x) => x,
            None => return None,
        };
        let q2 = match expect_after_skip(s, q1, '[') {
            Some(x) => x,
            None => return None,
        };
        let mut d: [i32; 7] = [0, 0, 0, 0, 0, 0, 0];
        let mut q = q2;
        let mut i: usize = 0;
        while i < 7
            invariant
                i <= 7,
                q2 <= q <= s.len(),
                keyword_after_skip(s@, p as int, kw_dimensions()) == Some(q1 as int),
                char_after_skip(s@, q1 as int, '[') == Some(q2 as int),
                ints_at(s@, q2 as int, i as nat) == Some((int_seq(d@.take(i as int)), q as int)),
            decreases 7 - i,
        {
            let o = skip_space(s, q);
            match read_i32(s, o) {
                Some((x, e)) => {
                    let ghost old_d = d@;
                    d[i] = x;
                    proof {
                        assert(d@.take(i as int) =~= old_d.take(i as int));
                        assert(int_seq(d@.take(i + 1)) =~= int_seq(d@.take(i as int)).push(x as int));
                    }
                    q = e;
                },
                None => {
                    proof {
                        lemma_ints_none(s@, q2 as int, i as nat, 7);
                    }
                    return None;
                },
            }
            i = i + 1;
        }
        assert(d@.take(7) =~= d@);
        let q4 = skip_space(s, q);
        if q4 < s.len() && s.len() - q4 >= 2 && s[q4] == ']' && s[q4 + 1] == ';' {
            assert(s@.subrange(q4 as int, q4 + 2) =~= seq![']', ';']);
            Some((Dimensions(d), q4 + 2))
        } else {
            proof {
                if has_at(s@, q4 as int, seq![']', ';']) {
                    assert(s@.subrange(q4 as int, q4 + 2)[0] == ']');
                    assert(s@.subrange(q4 as int, q4 + 2)[1] == ';');
                }
            }
            None
        }
    }

    /// The text of the dimensions entry: see `dimensions_text`.
    #[verifier::rlimit(60)]
    pub fn write(&self) -> (r: String)
        ensures
            r@ == dimensions_text(int_seq(self.0@)),
    {
        let mut out: Vec<char> = Vec::new();
        let kw = vec!['d', 'i', 'm', 'e', 'n', 's', 'i', 'o', 'n', 's', ' ', '['];
        push_chars(&mut out, &kw);
        let ghost head = out@;
        let mut i: usize = 0;
        while i < 7
            invariant
                i <= 7,
                out@ == head + ints_text(int_seq(self.0@.take(i as int))),
            decreases 7 - i,
        {
            if i > 0 {
                out.push(' ');
            }
            let x = self.0[i];
            if x < 0 {
                out.push('-');
                push_usize(&mut out, (0 - x as i64) as usize);
            } else {
                push_usize(&mut out, x as usize);
            }
            i = i + 1;
            proof {
                let t = int_seq(self.0@.take(i as int));
                assert(t.drop_last() =~= int_seq(self.0@.take(i - 1)));
                if i == 1 {
                    assert(ints_text(int_seq(self.0@.take(0))) =~= Seq::<char>::empty());
                }
                assert(out@ =~= head + ints_text(t));
            }
        }
        out.push(']');
        out.push(';');
        assert(self.0@.take(7) =~= self.0@);
        assert(out@ =~= dimensions_text(int_seq(self.0@)));
        string_of_chars(&out)
    }
}

/// The body of a field file: its dimensions, `internalField` and the field, then, optionally,
/// a named structure (the boundary conditions).
pub open spec fn result_at(s: Seq<char>, p: int) -> Option<
    (Seq<int>, FieldView, Option<(Seq<char>, Seq<(Seq<char>, ValueView)>)>, int),
> {
    match dimensions_at(s, p) {
        Some((d, q1)) => match keyword_after_skip(s, q1, kw_internal_field()) {
            Some(q2) => match field_at(s, q2) {
                Some((f, q3)) => match named_structure_at(s, q3) {
                    Some((n, es, q4)) => Some((d, f, Some((n, es)), q4)),
                    None => Some((d, f, None, q3)),
                },
                None => None,
            },
            None => None,
        },
        None => None,
    }
}

/// The number of values of a field: one for a uniform field.
pub open spec fn field_len(f: FieldView) -> nat {
    match f {
        FieldView::Scalar(v) => v.len(),
        FieldView::Vector(v) => v.len(),
        _ => 1,
    }
}

/// The simulation results of one variable at one time.
#[derive(Debug, PartialEq)]
pub struct ResultData {
    pub n: usize,
    pub dimensions: Dimensions,
    pub result: FoamField,
    pub boundary_field: Option<FoamStructure>,
}

/// The text of a field file's body.
pub open spec fn result_text(
    d: Seq<int>,
    f: FieldView,
    b: Option<(Seq<char>, Seq<(Seq<char>, ValueView)>)>,
) -> Seq<char> {
    dimensions_text(d) + seq!['\n', '\n'] + kw_internal_field() + seq![' '] + field_text(f) + seq![
        ';',
        '\n',
    ] + match b {
        Some((n, es)) => seq!['\n'] + structure_text(n, es),
        None => Seq::empty(),
    }
}

impl ResultData {
    /// What the boundary conditions hold, if there are any.
    pub open spec fn boundary_view(&self) -> Option<(Seq<char>, Seq<(Seq<char>, ValueView)>)> {
        match self.boundary_field {
            Some(b) => Some((b.name@, b.entries())),
            None => None,
        }
    }

    /// Reads the body of a field file: see `result_at`.
    #[verifier::rlimit(60)]
    pub fn parse_at(s: &Vec<char>, p: usize) -> (r: Option<(ResultData, usize)>)
        requires
            p <= s.len(),
        ensures
            match result_at(s@, p as int) {
                Some((d, f, b, e)) => r matches Some((x, q)) && int_seq(x.dimensions.0@) == d
                    && x.result@ == f && x.boundary_view() == b && x.n == field_len(f) && q == e
                    && p < q <= s.len(),
                None => r is None,
            },
    {
        let (dimensions, q1) = match Dimensions::parse_at(s, p) {
            Some(t) => t,
            None => return None,
        };
        let kw = vec!['i', 'n', 't', 'e', 'r', 'n', 'a', 'l', 'F', 'i', 'e', 'l', 'd'];
        assert(kw@ == kw_internal_field());
        let q2 = match expect_keyword_after_skip(s, q1, &kw) {
            Some(x) => x,
            None => return None,
        };
        let (result, q3) = match FoamField::parse_at(s, q2) {
            Some(t) => t,
            None => return None,
        };
        let n = match &result {
            FoamField::Scalar(v) => v.len(),
            FoamField::Vector(v) => v.len(),
            _ => 1,
        };
        match FoamStructure::parse_named_at(s, q3) {
            Some((b, q4)) => Some((ResultData { n, dimensions, result, boundary_field: Some(b) }, q4)),
            None => Some((ResultData { n, dimensions, result, boundary_field: None }, q3)),
        }
    }

    /// The text of the body: see `result_text`.
    pub fn write(&self) -> (r: String)
        ensures
            r@ == result_text(int_seq(self.dimensions.0@), self.result@, self.boundary_view()),
    {
        let mut out: Vec<char> = Vec::new();
        let d = self.dimensions.write();
        push_str(&mut out, d.as_str());
        let kw = vec!['\n', '\n', 'i', 'n', 't', 'e', 'r', 'n', 'a', 'l', 'F', 'i', 'e', 'l', 'd', ' '];
        push_chars(&mut out, &kw);
        self.result.write_to(&mut out);
        out.push(';');
        out.push('\n');
        match &self.boundary_field {
            Some(b) => {
                out.push('\n');
                let t = b.write();
                push_str(&mut out, t.as_str());
            },
            None => {},
        }
        assert(out@ =~= result_text(int_seq(self.dimensions.0@), self.result@, self.boundary_view()));
        string_of_chars(&out)
    }
}

} // verus!
