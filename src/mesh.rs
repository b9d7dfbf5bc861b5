use vstd::prelude::*;
use crate::field::{read_vector_list, vector_list_at};
use crate::text::{
    char_after_skip, chars_of, digits_end, expect_after_skip, read_usize, rest_of, skip_digits,
    skip_insignificant, skip_space, skip_end, usize_at, ws_end, ParseError,
};
use crate::value::{entries_at, entries_text, FoamStructure, ValueView};
use crate::writer::{joined, nat_text, push_rows, push_usize, row_views, single_data_text, rows_text, string_of_chars};

verus! {

/// `n` labels (integers that fit in `usize`), each after insignificant text.
pub open spec fn labels_at(s: Seq<char>, p: int, n: nat) -> Option<(Seq<nat>, int)>
    decreases n,
{
    if n == 0 {
        Some((Seq::empty(), p))
    } else {
        match labels_at(s, p, (n - 1) as nat) {
            Some((v, q)) => match usize_at(s, skip_end(s, q)) {
                Some((x, e)) => Some((v.push(x), e)),
                None => None,
            },
            None => None,
        }
    }
}

/// A counted list of labels: the count, `(`, exactly that many labels, `)`, each after
/// insignificant text.
pub open spec fn label_list_at(s: Seq<char>, p: int) -> Option<(Seq<nat>, int)> {
    match usize_at(s, skip_end(s, p)) {
        Some((n, q)) => match char_after_skip(s, q, '(') {
            Some(o) => match labels_at(s, o, n) {
                Some((v, e)) => match char_after_skip(s, e, ')') {
                    Some(c) => Some((v, c)),
                    None => None,
                },
                None => None,
            },
            None => None,
        },
        None => None,
    }
}

/// The labels as plain numbers.
pub open spec fn label_seq(v: Seq<usize>) -> Seq<nat> {
    v.map_values(|x: usize| x as nat)
}

/// The labels in decimal notation.
pub open spec fn label_texts(v: Seq<nat>) -> Seq<Seq<char>> {
    v.map_values(|x: nat| nat_text(x))
}

/// The text of a counted list of labels, one on each line.
pub open spec fn label_list_text(v: Seq<nat>) -> Seq<char> {
    single_data_text(label_texts(v))
}

pub proof fn lemma_labels_none(s: Seq<char>, p: int, i: nat, n: nat)
    requires
        i < n,
        labels_at(s, p, (i + 1) as nat) is None,
    ensures
        labels_at(s, p, n) is None,
    decreases n,
{
    if n > i + 1 {
        lemma_labels_none(s, p, i, (n - 1) as nat);
    }
}

/// Reads `n` labels: see `labels_at`.
#[verifier::rlimit(60)]
pub fn read_labels(s: &Vec<char>, p: usize, n: usize) -> (r: Option<(Vec<usize>, usize)>)
    requires
        p <= s.len(),
    ensures
        match labels_at(s@, p as int, n as nat) {
            Some((v, e)) => r matches Some((w, q)) && label_seq(w@) == v && q == e && p <= q
                <= s.len(),
            None => r is None,
        },
{
    let mut v: Vec<usize> = Vec::new();
    let mut q = p;
    let mut i: usize = 0;
    while i < n
        invariant
            i <= n,
            p <= q <= s.len(),
            labels_at(s@, p as int, i as nat) == Some((label_seq(v@), q as int)),
        decreases n - i,
    {
        let o = skip_insignificant(s, q);
        match read_usize(s, o) {
            Some((x, e)) => {
                let ghost old_v = v@;
                v.push(x);
                assert(label_seq(v@) =~= label_seq(old_v).push(x as nat));
                q = e;
            },
            None => {
                proof {
                    lemma_labels_none(s@, p as int, i as nat, n as nat);
                }
                return None;
            },
        }
        i = i + 1;
    }
    Some((v, q))
}

/// Reads a counted list of labels: see `label_list_at`.
#[verifier::rlimit(60)]
pub fn read_label_list(s: &Vec<char>, p: usize) -> (r: Option<(Vec<usize>, usize)>)
    requires
        p <= s.len(),
    ensures
        match label_list_at(s@, p as int) {
            Some((v, e)) => r matches Some((w, q)) && label_seq(w@) == v && q == e && p < q
                <= s.len(),
            None => r is None,
        },
{
    let o = skip_insignificant(s, p);
    let (n, q) = match read_usize(s, o) {
        Some(t) => t,
        None => return None,
    };
    let o2 = match expect_after_skip(s, q, '(') {
        Some(x) => x,
        None => return None,
    };
    let (v, e) = match read_labels(s, o2, n) {
        Some(t) => t,
        None => return None,
    };
    match expect_after_skip(s, e, ')') {
        Some(c) => Some((v, c)),
        None => None,
    }
}

/// Appends a counted list of labels, one on each line.
#[verifier::rlimit(60)]
pub fn push_label_list(out: &mut Vec<char>, v: &Vec<usize>)
    ensures
        final(out)@ == old(out)@ + label_list_text(label_seq(v@)),
{
    let ghost start = out@;
    push_usize(out, v.len());
    out.push('\n');
    out.push('(');
    out.push('\n');
    let ghost head = out@;
    let mut i: usize = 0;
    while i < v.len()
        invariant
            i <= v.len(),
            out@ == head + crate::writer::lines(label_texts(label_seq(v@.take(i as int)))),
        decreases v.len() - i,
    {
        push_usize(out, v[i]);
        out.push('\n');
        i = i + 1;
        proof {
            let t = label_texts(label_seq(v@.take(i as int)));
            assert(t.drop_last() =~= label_texts(label_seq(v@.take(i - 1))));
            assert(out@ =~= head + crate::writer::lines(t));
        }
    }
    out.push(')');
    out.push('\n');
    assert(v@.take(i as int) =~= v@);
    assert(out@ =~= start + label_list_text(label_seq(v@)));
}

/// Reads a counted list of labels at the start of `input`; returns what follows it, and the
/// labels.
pub fn single_i_data(input: &str) -> (r: Result<(String, Vec<usize>), ParseError>)
    ensures
        match label_list_at(input@, 0) {
            Some((v, e)) => r matches Ok((rest, w)) && label_seq(w@) == v && rest@
                == input@.subrange(e, input@.len() as int),
            None => r is Err,
        },
{
    let s = chars_of(input);
    match read_label_list(&s, 0) {
        Some((v, e)) => Ok((rest_of(&s, e), v)),
        None => Err(ParseError { position: 0 }),
    }
}

/// The owner cell of each face.
#[derive(Debug, Clone, PartialEq)]
pub struct OwnerData(pub Vec<usize>);

/// The neighbour cell of each internal face.
#[derive(Debug, Clone, PartialEq)]
pub struct NeighbourData(pub Vec<usize>);

impl OwnerData {
    /// Reads the body of an owner file: a counted list of labels.
    pub fn parse_at(s: &Vec<char>, p: usize) -> (r: Option<(OwnerData, usize)>)
        requires
            p <= s.len(),
        ensures
            match label_list_at(s@, p as int) {
                Some((v, e)) => r matches Some((d, q)) && label_seq(d.0@) == v && q == e && p < q
                    <= s.len(),
                None => r is None,
            },
    {
        match read_label_list(s, p) {
            Some((v, e)) => Some((OwnerData(v), e)),
            None => None,
        }
    }

    /// The text of the body: a counted list of labels, one on each line.
    pub fn write(&self) -> (r: String)
        ensures
            r@ == label_list_text(label_seq(self.0@)),
    {
        let mut out: Vec<char> = Vec::new();
        push_label_list(&mut out, &self.0);
        assert(out@ =~= label_list_text(label_seq(self.0@)));
        string_of_chars(&out)
    }
}

impl NeighbourData {
    /// Reads the body of a neighbour file: a counted list of labels.
    pub fn parse_at(s: &Vec<char>, p: usize) -> (r: Option<(NeighbourData, usize)>)
        requires
            p <= s.len(),
        ensures
            match label_list_at(s@, p as int) {
                Some((v, e)) => r matches Some((d, q)) && label_seq(d.0@) == v && q == e && p < q
                    <= s.len(),
                None => r is None,
            },
    {
        match read_label_list(s, p) {
            Some((v, e)) => Some((NeighbourData(v), e)),
            None => None,
        }
    }

    /// The text of the body: a counted list of labels, one on each line.
    pub fn write(&self) -> (r: String)
        ensures
            r@ == label_list_text(label_seq(self.0@)),
    {
        let mut out: Vec<char> = Vec::new();
        push_label_list(&mut out, &self.0);
        assert(out@ =~= label_list_text(label_seq(self.0@)));
        string_of_chars(&out)
    }
}

/// A set file of the `sets` directory: a named list of labels. The name is not written in the
/// file: it comes from the file's name.
#[derive(Debug, Clone, PartialEq)]
pub struct SetData {
    pub name: String,
    pub n: usize,
    pub labels: Vec<usize>,
}

impl SetData {
    /// Reads the body of a set file: a counted list of labels. The set is named
    /// `uninitialized` until its file's name is known.
    pub fn parse_at(s: &Vec<char>, p: usize) -> (r: Option<(SetData, usize)>)
        requires
            p <= s.len(),
        ensures
            match label_list_at(s@, p as int) {
                Some((v, e)) => r matches Some((d, q)) && label_seq(d.labels@) == v && d.n
                    == d.labels@.len() && d.name@ == seq!['u', 'n', 'i', 'n', 'i', 't', 'i', 'a', 'l', 'i', 'z', 'e', 'd'] && q == e
                    && p < q <= s.len(),
                None => r is None,
            },
    {
        match read_label_list(s, p) {
            Some((v, e)) => {
                let name = vec!['u', 'n', 'i', 'n', 'i', 't', 'i', 'a', 'l', 'i', 'z', 'e', 'd'];
                let n = v.len();
                Some((SetData { name: string_of_chars(&name), n, labels: v }, e))
            },
            None => None,
        }
    }

    /// The text of the body: a counted list of labels, one on each line, counted by the labels
    /// themselves.
    pub fn write(&self) -> (r: String)
        ensures
            r@ == label_list_text(label_seq(self.labels@)),
    {
        let mut out: Vec<char> = Vec::new();
        push_label_list(&mut out, &self.labels);
        assert(out@ =~= label_list_text(label_seq(self.labels@)));
        string_of_chars(&out)
    }
}


/// `n` labels, each after whitespace.
pub open spec fn vertices_at(s: Seq<char>, p: int, n: nat) -> Option<(Seq<nat>, int)>
    decreases n,
{
    if n == 0 {
        Some((Seq::empty(), p))
    } else {
        match vertices_at(s, p, (n - 1) as nat) {
            Some((v, q)) => match usize_at(s, ws_end(s, q)) {
                Some((x, e)) => Some((v.push(x), e)),
                None => None,
            },
            None => None,
        }
    }
}

/// A face: its number of points, then the point labels within parentheses: `3(1 2 3)`.
pub open spec fn face_at(s: Seq<char>, p: int) -> Option<(Seq<nat>, int)> {
    match usize_at(s, p) {
        Some((k, q)) => if 0 <= q < s.len() && s[q] == '(' {
            match vertices_at(s, q + 1, k) {
                Some((v, e)) => match crate::text::char_after_ws(s, e, ')') {
                    Some(c) => Some((v, c)),
                    None => None,
                },
                None => None,
            }
        } else {
            None
        },
        None => None,
    }
}

/// `n` faces, each after insignificant text.
pub open spec fn faces_at(s: Seq<char>, p: int, n: nat) -> Option<(Seq<Seq<nat>>, int)>
    decreases n,
{
    if n == 0 {
        Some((Seq::empty(), p))
    } else {
        match faces_at(s, p, (n - 1) as nat) {
            Some((v, q)) => match face_at(s, skip_end(s, q)) {
                Some((x, e)) => Some((v.push(x), e)),
                None => None,
            },
            None => None,
        }
    }
}

/// A counted list of faces: the count, `(`, exactly that many faces, `)`.
pub open spec fn face_list_at(s: Seq<char>, p: int) -> Option<(Seq<Seq<nat>>, int)> {
    match usize_at(s, skip_end(s, p)) {
        Some((n, q)) => match char_after_skip(s, q, '(') {
            Some(o) => match faces_at(s, o, n) {
                Some((v, e)) => match char_after_skip(s, e, ')') {
                    Some(c) => Some((v, c)),
                    None => None,
                },
                None => None,
            },
            None => None,
        },
        None => None,
    }
}

/// The faces as sequences of plain numbers.
pub open spec fn face_seq(v: Seq<Vec<usize>>) -> Seq<Seq<nat>> {
    v.map_values(|f: Vec<usize>| label_seq(f@))
}

/// The text of a counted list of faces, each face on a line as `k(p_1 ... p_k)`.
pub open spec fn face_list_text(v: Seq<Seq<nat>>) -> Seq<char> {
    rows_text(v.map_values(|f: Seq<nat>| label_texts(f)), true)
}

pub proof fn lemma_vertices_none(s: Seq<char>, p: int, i: nat, n: nat)
    requires
        i < n,
        vertices_at(s, p, (i + 1) as nat) is None,
    ensures
        vertices_at(s, p, n) is None,
    decreases n,
{
    if n > i + 1 {
        lemma_vertices_none(s, p, i, (n - 1) as nat);
    }
}

pub proof fn lemma_faces_none(s: Seq<char>, p: int, i: nat, n: nat)
    requires
        i < n,
        faces_at(s, p, (i + 1) as nat) is None,
    ensures
        faces_at(s, p, n) is None,
    decreases n,
{
    if n > i + 1 {
        lemma_faces_none(s, p, i, (n - 1) as nat);
    }
}

/// Reads a face: see `face_at`.
#[verifier::rlimit(60)]
pub fn read_face(s: &Vec<char>, p: usize) -> (r: Option<(Vec<usize>, usize)>)
    requires
        p <= s.len(),
    ensures
        match face_at(s@, p as int) {
            Some((v, e)) => r matches Some((w, q)) && label_seq(w@) == v && q == e && p < q
                <= s.len(),
            None => r is None,
        },
{
    let (k, q) = match read_usize(s, p) {
        Some(t) => t,
        None => return None,
    };
    if !(q < s.len() && s[q] == '(') {
        return None;
    }
    let mut v: Vec<usize> = Vec::new();
    let mut e = q + 1;
    let mut i: usize = 0;
    while i < k
        invariant
            i <= k,
            q + 1 <= e <= s.len(),
            q < s.len(),
            s@[q as int] == '(',
            usize_at(s@, p as int) == Some((k as nat, q as int)),
            vertices_at(s@, q + 1, i as nat) == Some((label_seq(v@), e as int)),
        decreases k - i,
    {
        let o = skip_space(s, e);
        match read_usize(s, o) {
            Some((x, f)) => {
                let ghost old_v = v@;
                v.push(x);
                assert(label_seq(v@) =~= label_seq(old_v).push(x as nat));
                e = f;
            },
            None => {
                proof {
                    lemma_vertices_none(s@, q + 1, i as nat, k as nat);
                }
                return None;
            },
        }
        i = i + 1;
    }
    match crate::text::expect_after_ws(s, e, ')') {
        Some(c) => Some((v, c)),
        None => None,
    }
}

/// Reads a counted list of faces: see `face_list_at`.
#[verifier::rlimit(60)]
pub fn read_face_list(s: &Vec<char>, p: usize) -> (r: Option<(Vec<Vec<usize>>, usize)>)
    requires
        p <= s.len(),
    ensures
        match face_list_at(s@, p as int) {
            Some((v, e)) => r matches Some((w, q)) && face_seq(w@) == v && q == e && p < q
                <= s.len(),
            None => r is None,
        },
{
    let o = skip_insignificant(s, p);
    let (n, q) = match read_usize(s, o) {
        Some(t) => t,
        None => return None,
    };
    let o2 = match expect_after_skip(s, q, '(') {
        Some(x) => x,
        None => return None,
    };
    let mut v: Vec<Vec<usize>> = Vec::new();
    let mut e = o2;
    let mut i: usize = 0;
    while i < n
        invariant
            i <= n,
            o2 <= e <= s.len(),
            o == skip_end(s@, p as int),
            usize_at(s@, o as int) == Some((n as nat, q as int)),
            char_after_skip(s@, q as int, '(') == Some(o2 as int),
            faces_at(s@, o2 as int, i as nat) == Some((face_seq(v@), e as int)),
        decreases n - i,
    {
        let b = skip_insignificant(s, e);
        match read_face(s, b) {
            Some((x, f)) => {
                let ghost old_v = v@;
                let ghost gx = label_seq(x@);
                v.push(x);
                assert(face_seq(v@) =~= face_seq(old_v).push(gx));
                e = f;
            },
            None => {
                proof {
                    lemma_faces_none(s@, o2 as int, i as nat, n as nat);
                }
                return None;
            },
        }
        i = i + 1;
    }
    match expect_after_skip(s, e, ')') {
        Some(c) => Some((v, c)),
        None => None,
    }
}

/// Appends the labels separated by single spaces.
#[verifier::rlimit(60)]
pub fn push_joined_labels(out: &mut Vec<char>, v: &Vec<usize>)
    ensures
        final(out)@ == old(out)@ + joined(label_texts(label_seq(v@))),
{
    let ghost start = out@;
    let mut i: usize = 0;
    while i < v.len()
        invariant
            i <= v.len(),
            out@ == start + joined(label_texts(label_seq(v@.take(i as int)))),
        decreases v.len() - i,
    {
        if i > 0 {
            out.push(' ');
        }
        push_usize(out, v[i]);
        i = i + 1;
        proof {
            let t = label_texts(label_seq(v@.take(i as int)));
            assert(t.drop_last() =~= label_texts(label_seq(v@.take(i - 1))));
            if i == 1 {
                assert(joined(label_texts(label_seq(v@.take(0)))) =~= Seq::<char>::empty());
            }
            assert(out@ =~= start + joined(t));
        }
    }
    assert(v@.take(i as int) =~= v@);
}

/// The faces of the mesh, each as the labels of its points.
#[derive(Debug, Clone, PartialEq)]
pub struct FaceData(pub Vec<Vec<usize>>);

impl FaceData {
    /// Reads the body of a faces file: a counted list of faces.
    pub fn parse_at(s: &Vec<char>, p: usize) -> (r: Option<(FaceData, usize)>)
        requires
            p <= s.len(),
        ensures
            match face_list_at(s@, p as int) {
                Some((v, e)) => r matches Some((d, q)) && face_seq(d.0@) == v && q == e,
                None => r is None,
            },
    {
        match read_face_list(s, p) {
            Some((v, e)) => Some((FaceData(v), e)),
            None => None,
        }
    }

    /// The text of the body: the count, then each face on a line as `k(p_1 ... p_k)`.
    #[verifier::rlimit(60)]
    pub fn write(&self) -> (r: String)
        ensures
            r@ == face_list_text(face_seq(self.0@)),
    {
        let mut out: Vec<char> = Vec::new();
        push_usize(&mut out, self.0.len());
        out.push('\n');
        out.push('(');
        out.push('\n');
        let ghost head = out@;
        let ghost f = |x: Seq<nat>| label_texts(x);
        let mut i: usize = 0;
        while i < self.0.len()
            invariant
                i <= self.0@.len(),
                out@ == head + crate::writer::rows_lines(
                    face_seq(self.0@.take(i as int)).map_values(f),
                    true,
                ),
                f == (|x: Seq<nat>| label_texts(x)),
            decreases self.0.len() - i,
        {
            push_usize(&mut out, self.0[i].len());
            out.push('(');
            push_joined_labels(&mut out, &self.0[i]);
            out.push(')');
            out.push('\n');
            i = i + 1;
            proof {
                let t = face_seq(self.0@.take(i as int)).map_values(f);
                assert(t.drop_last() =~= face_seq(self.0@.take(i - 1)).map_values(f));
                assert(label_texts(label_seq(self.0@[i - 1]@)).len() == self.0@[i - 1]@.len());
                assert(out@ =~= head + crate::writer::rows_lines(t, true));
            }
        }
        out.push(')');
        out.push('\n');
        proof {
            assert(self.0@.take(i as int) =~= self.0@);
            assert(out@ =~= face_list_text(face_seq(self.0@)));
        }
        string_of_chars(&out)
    }
}

/// The points of the mesh, each as its three coordinates in decimal notation.
#[derive(Debug, Clone, PartialEq)]
pub struct PointData(pub Vec<Vec<String>>);

impl PointData {
    /// Reads the body of a points file: a counted list of triples `(x y z)`.
    pub fn parse_at(s: &Vec<char>, p: usize) -> (r: Option<(PointData, usize)>)
        requires
            p <= s.len(),
        ensures
            match vector_list_at(s@, p as int) {
                Some((v, e)) => r matches Some((d, q)) && row_views(d.0@) == v && q == e,
                None => r is None,
            },
    {
        match read_vector_list(s, p) {
            Some((v, e)) => Some((PointData(v), e)),
            None => None,
        }
    }

    /// The text of the body: the count, then each point on a line as `(x y z)`.
    pub fn write(&self) -> (r: String)
        ensures
            r@ == rows_text(row_views(self.0@), false),
    {
        let mut out: Vec<char> = Vec::new();
        push_rows(&mut out, &self.0, false);
        assert(out@ =~= rows_text(row_views(self.0@), false));
        string_of_chars(&out)
    }
}

/// A boundary file's body: the count of patches, then the patches within parentheses. The count
/// must be the number of patches read.
pub open spec fn boundary_at(s: Seq<char>, p: int) -> Option<(Seq<(Seq<char>, ValueView)>, int)> {
    match usize_at(s, skip_end(s, p)) {
        Some((n, q)) => match char_after_skip(s, q, '(') {
            Some(o) => {
                let (es, e) = entries_at(s, o, Seq::empty());
                if es.len() == n {
                    match char_after_skip(s, e, ')') {
                        Some(c) => Some((es, c)),
                        None => None,
                    }
                } else {
                    None
                }
            },
            None => None,
        },
        None => None,
    }
}

/// The text of a boundary file's body: the count of patches, then the patches within
/// parentheses.
pub open spec fn boundary_text(es: Seq<(Seq<char>, ValueView)>) -> Seq<char> {
    nat_text(es.len()) + seq!['\n', '(', '\n'] + entries_text(es, es.len()) + seq![')', '\n']
}

/// The boundary patches of the mesh, each a structure bound to the patch name.
#[derive(Debug, PartialEq)]
pub struct BoundaryData(pub FoamStructure);

impl BoundaryData {
    /// Reads the body of a boundary file: see `boundary_at`.
    #[verifier::rlimit(60)]
    pub fn parse_at(s: &Vec<char>, p: usize) -> (r: Option<(BoundaryData, usize)>)
        requires
            p <= s.len(),
        ensures
            match boundary_at(s@, p as int) {
                Some((es, e)) => r matches Some((d, q)) && d.0.entries() == es && q == e && p < q
                    <= s.len(),
                None => r is None,
            },
    {
        let o = skip_insignificant(s, p);
        let (n, q) = match read_usize(s, o) {
            Some(t) => t,
            None => return None,
        };
        let o2 = match expect_after_skip(s, q, '(') {
            Some(x) => x,
            None => return None,
        };
        let (st, e) = FoamStructure::parse_entries_at(s, o2);
        if st.len() != n {
            return None;
        }
        match expect_after_skip(s, e, ')') {
            Some(c) => Some((BoundaryData(st), c)),
            None => None,
        }
    }

    /// The text of the body: see `boundary_text`. The count is the number of patches.
    pub fn write(&self) -> (r: String)
        ensures
            r@ == boundary_text(self.0.entries()),
    {
        let mut out: Vec<char> = Vec::new();
        push_usize(&mut out, self.0.len());
        out.push('\n');
        out.push('(');
        out.push('\n');
        self.0.write_entries_to(&mut out);
        out.push(')');
        out.push('\n');
        assert(out@ =~= boundary_text(self.0.entries()));
        string_of_chars(&out)
    }
}

} // verus!
