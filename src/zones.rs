use vstd::prelude::*;
use crate::mesh::{label_list_at, label_list_text, label_seq, push_label_list, read_label_list};
use crate::text::{
    char_after_skip, char_after_ws, expect_after_skip, expect_after_ws, expect_keyword_after_skip,
    expect_keyword_after_ws, has_at, has_text_at, keyword_after_skip, keyword_after_ws,
    read_usize, read_word, skip_insignificant, skip_space, skip_end, string_of, usize_at, word_at,
    ws_end,
};
use crate::writer::{nat_text, push_chars, push_str, push_usize, string_of_chars};

verus! {

pub open spec fn kw_type() -> Seq<char> {
    seq!['t', 'y', 'p', 'e']
}

pub open spec fn kw_list_label() -> Seq<char> {
    seq!['L', 'i', 's', 't', '<', 'l', 'a', 'b', 'e', 'l', '>']
}

pub open spec fn kw_flip_map() -> Seq<char> {
    seq!['f', 'l', 'i', 'p', 'M', 'a', 'p']
}

pub open spec fn kw_list_bool() -> Seq<char> {
    seq!['L', 'i', 's', 't', '<', 'b', 'o', 'o', 'l', '>']
}

/// The head and labels of a zone, up to and including the `;` after its labels:
/// `name { type <kind>; <key> List<label> <count> (<labels>);`. Yields the name, the labels and
/// the position after the `;`.
pub open spec fn zone_head_at(s: Seq<char>, p: int, kind: Seq<char>, key: Seq<char>) -> Option<
    (Seq<char>, Seq<nat>, int),
> {
    match word_at(s, skip_end(s, p)) {
        Some((name, q1)) => match char_after_skip(s, q1, '{') {
            Some(q2) => match keyword_after_skip(s, q2, kw_type()) {
                Some(q3) => match keyword_after_ws(s, q3, kind) {
                    Some(q4) => match char_after_ws(s, q4, ';') {
                        Some(q5) => match keyword_after_skip(s, q5, key) {
                            Some(q6) => match keyword_after_ws(s, q6, kw_list_label()) {
                                Some(q7) => match label_list_at(s, q7) {
                                    Some((labels, q8)) => match char_after_skip(s, q8, ';') {
                                        Some(q9) => Some((name, labels, q9)),
                                        None => None,
                                    },
                                    None => None,
                                },
                                None => None,
                            },
                            None => None,
                        },
                        None => None,
                    },
                    None => None,
                },
                None => None,
            },
            None => None,
        },
        None => None,
    }
}

/// A zone without a flip map: its head, then `}`.
pub open spec fn zone_at(s: Seq<char>, p: int, kind: Seq<char>, key: Seq<char>) -> Option<
    (Seq<char>, Seq<nat>, int),
> {
    match zone_head_at(s, p, kind, key) {
        Some((name, labels, q)) => match char_after_skip(s, q, '}') {
            Some(e) => Some((name, labels, e)),
            None => None,
        },
        None => None,
    }
}

/// A flip map: `flipMap List<bool> <n>{<b>};`, where `n` is written exactly as the number of
/// labels of the zone and `b` is `0` or `1`.
pub open spec fn flip_map_at(s: Seq<char>, p: int, n: nat) -> Option<(bool, int)> {
    match keyword_after_skip(s, p, kw_flip_map()) {
        Some(q1) => match keyword_after_ws(s, q1, kw_list_bool()) {
            Some(q2) => {
                let q3 = ws_end(s, q2);
                let q4 = q3 + nat_text(n).len();
                if has_at(s, q3, nat_text(n)) && q4 + 2 < s.len() && s[q4] == '{' && (s[q4 + 1]
                    == '0' || s[q4 + 1] == '1') && s[q4 + 2] == '}' {
                    match char_after_ws(s, q4 + 3, ';') {
                        Some(e) => Some((s[q4 + 1] == '1', e)),
                        None => None,
                    }
                } else {
                    None
                }
            },
            None => None,
        },
        None => None,
    }
}

/// A face zone: its head, its flip map, then `}`.
pub open spec fn face_zone_at(s: Seq<char>, p: int) -> Option<(Seq<char>, Seq<nat>, bool, int)> {
    match zone_head_at(s, p, kw_face_zone(), kw_face_labels()) {
        Some((name, labels, q)) => match flip_map_at(s, q, labels.len()) {
            Some((flip, q2)) => match char_after_skip(s, q2, '}') {
                Some(e) => Some((name, labels, flip, e)),
                None => None,
            },
            None => None,
        },
        None => None,
    }
}

pub open spec fn kw_cell_zone() -> Seq<char> {
    seq!['c', 'e', 'l', 'l', 'Z', 'o', 'n', 'e']
}

pub open spec fn kw_cell_labels() -> Seq<char> {
    seq!['c', 'e', 'l', 'l', 'L', 'a', 'b', 'e', 'l', 's']
}

pub open spec fn kw_point_zone() -> Seq<char> {
    seq!['p', 'o', 'i', 'n', 't', 'Z', 'o', 'n', 'e']
}

pub open spec fn kw_point_labels() -> Seq<char> {
    seq!['p', 'o', 'i', 'n', 't', 'L', 'a', 'b', 'e', 'l', 's']
}

pub open spec fn kw_face_zone() -> Seq<char> {
    seq!['f', 'a', 'c', 'e', 'Z', 'o', 'n', 'e']
}

pub open spec fn kw_face_labels() -> Seq<char> {
    seq!['f', 'a', 'c', 'e', 'L', 'a', 'b', 'e', 'l', 's']
}

/// The text of a zone's head and labels, up to and including the `;` after its labels.
pub open spec fn zone_head_text(name: Seq<char>, kind: Seq<char>, key: Seq<char>, labels: Seq<nat>) -> Seq<
    char,
> {
    name + seq!['\n', '{', '\n'] + kw_type() + seq![' '] + kind + seq![';', '\n'] + key + seq![' ']
        + kw_list_label() + seq!['\n'] + label_list_text(labels) + seq![';', '\n']
}

/// The text of a zone without a flip map.
pub open spec fn zone_text(name: Seq<char>, kind: Seq<char>, key: Seq<char>, labels: Seq<nat>) -> Seq<
    char,
> {
    zone_head_text(name, kind, key, labels) + seq!['}', '\n']
}

/// The text of a flip map for `n` labels.
pub open spec fn flip_map_text(n: nat, flip: bool) -> Seq<char> {
    kw_flip_map() + seq![' '] + kw_list_bool() + seq![' '] + nat_text(n) + seq![
        '{',
        if flip {
            '1'
        } else {
            '0'
        },
        '}',
        ';',
        '\n',
    ]
}

/// Reads a zone's head: see `zone_head_at`.
#[verifier::rlimit(60)]
pub fn read_zone_head(s: &Vec<char>, p: usize, kind: &Vec<char>, key: &Vec<char>) -> (r: Option<
    (String, Vec<usize>, usize),
>)
    requires
        p <= s.len(),
    ensures
        match zone_head_at(s@, p as int, kind@, key@) {
            Some((name, labels, e)) => r matches Some((n, l, q)) && n@ == name && label_seq(l@)
                == labels && q == e && p < q <= s.len(),
            None => r is None,
        },
{
    let o = skip_insignificant(s, p);
    let (name, q1) = match read_word(s, o) {
        Some(t) => t,
        None => return None,
    };
    let q2 = match expect_after_skip(s, q1, '{') {
        Some(x) => x,
        None => return None,
    };
    let kw_t = vec!['t', 'y', 'p', 'e'];
    assert(kw_t@ == kw_type());
    let q3 = match expect_keyword_after_skip(s, q2, &kw_t) {
        Some(x) => x,
        None => return None,
    };
    let q4 = match expect_keyword_after_ws(s, q3, kind) {
        Some(x) => x,
        None => return None,
    };
    let q5 = match expect_after_ws(s, q4, ';') {
        Some(x) => x,
        None => return None,
    };
    let q6 = match expect_keyword_after_skip(s, q5, key) {
        Some(x) => x,
        None => return None,
    };
    let kw_l = vec!['L', 'i', 's', 't', '<', 'l', 'a', 'b', 'e', 'l', '>'];
    assert(kw_l@ == kw_list_label());
    let q7 = match expect_keyword_after_ws(s, q6, &kw_l) {
        Some(x) => x,
        None => return None,
    };
    let (labels, q8) = match read_label_list(s, q7) {
        Some(t) => t,
        None => return None,
    };
    match expect_after_skip(s, q8, ';') {
        Some(q9) => Some((string_of(name.as_slice()), labels, q9)),
        None => None,
    }
}

/// Reads a flip map: see `flip_map_at`.
#[verifier::rlimit(60)]
pub fn read_flip_map(s: &Vec<char>, p: usize, n: usize) -> (r: Option<(bool, usize)>)
    requires
        p <= s.len(),
    ensures
        match flip_map_at(s@, p as int, n as nat) {
            Some((b, e)) => r == Some((b, e as usize)) && p < e <= s.len(),
            None => r is None,
        },
{
    let kw_f = vec!['f', 'l', 'i', 'p', 'M', 'a', 'p'];
    let kw_b = vec!['L', 'i', 's', 't', '<', 'b', 'o', 'o', 'l', '>'];
    assert(kw_f@ == kw_flip_map());
    assert(kw_b@ == kw_list_bool());
    let q1 = match expect_keyword_after_skip(s, p, &kw_f) {
        Some(x) => x,
        None => return None,
    };
    let q2 = match expect_keyword_after_ws(s, q1, &kw_b) {
        Some(x) => x,
        None => return None,
    };
    let q3 = skip_space(s, q2);
    let mut count: Vec<char> = Vec::new();
    push_usize(&mut count, n);
    assert(count@ == nat_text(n as nat));
    if !has_text_at(s, q3, &count) {
        return None;
    }
    let q4 = q3 + count.len();
    if !(q4 < s.len() && s.len() - q4 > 2 && s[q4] == '{' && (s[q4 + 1] == '0' || s[q4 + 1] == '1')
        && s[q4 + 2] == '}') {
        return None;
    }
    let flip = s[q4 + 1] == '1';
    match expect_after_ws(s, q4 + 3, ';') {
        Some(e) => Some((flip, e)),
        None => None,
    }
}

/// Appends the text of a zone's head: see `zone_head_text`.
pub fn push_zone_head(out: &mut Vec<char>, name: &String, kind: &Vec<char>, key: &Vec<char>, labels: &Vec<usize>)
    ensures
        final(out)@ == old(out)@ + zone_head_text(name@, kind@, key@, label_seq(labels@)),
{
    let ghost start = out@;
    push_str(out, name.as_str());
    let a = vec!['\n', '{', '\n', 't', 'y', 'p', 'e', ' '];
    push_chars(out, &a);
    push_chars(out, kind);
    out.push(';');
    out.push('\n');
    push_chars(out, key);
    let b = vec![' ', 'L', 'i', 's', 't', '<', 'l', 'a', 'b', 'e', 'l', '>', '\n'];
    push_chars(out, &b);
    push_label_list(out, labels);
    out.push(';');
    out.push('\n');
    assert(out@ =~= start + zone_head_text(name@, kind@, key@, label_seq(labels@)));
}

/// The zones of one kind, in the order of the file.
pub trait Zone: Sized {
    /// What the zone holds.
    spec fn zone_view(&self) -> ZoneView;

    /// The zone that the text at `p` holds, if any, with the position after it.
    spec fn zone_spec(s: Seq<char>, p: int) -> Option<(ZoneView, int)>;

    /// The zone's name.
    fn name(&self) -> (r: &String)
        ensures
            r@ == self.zone_view().name,
    ;

    /// Where the file of this kind of zone lies in a case directory.
    spec fn default_path() -> Seq<char>;

    fn default_file_path() -> (r: String)
        ensures
            r@ == Self::default_path(),
    ;

    /// Reads one zone at `p`: see `zone_spec`.
    fn parse_zone(s: &Vec<char>, p: usize) -> (r: Option<(Self, usize)>)
        requires
            p <= s.len(),
        ensures
            match Self::zone_spec(s@, p as int) {
                Some((z, e)) => r matches Some((x, q)) && x.zone_view() == z && q == e && p < q
                    <= s.len(),
                None => r is None,
            },
    ;

    /// The text of the zone.
    spec fn text(&self) -> Seq<char>;

    /// Appends the text of the zone.
    fn write_zone(&self, out: &mut Vec<char>)
        ensures
            final(out)@ == old(out)@ + self.text(),
    ;
}

/// What a zone holds: its name, its count, its labels and its flip flag (`false` for the kinds
/// without a flip map).
pub struct ZoneView {
    pub name: Seq<char>,
    pub n: nat,
    pub labels: Seq<nat>,
    pub flip: bool,
}

/// The position of the first zone named `name`, if there is one.
pub open spec fn zone_index(zs: Seq<ZoneView>, name: Seq<char>) -> Option<int>
    decreases zs.len(),
{
    if zs.len() == 0 {
        None
    } else {
        match zone_index(zs.drop_last(), name) {
            Some(i) => Some(i),
            None => if zs.last().name == name {
                Some(zs.len() - 1)
            } else {
                None
            },
        }
    }
}

/// Adds a zone: a zone with the name of an earlier one takes its place, a new name goes to the
/// end.
pub open spec fn zones_insert(zs: Seq<ZoneView>, z: ZoneView) -> Seq<ZoneView> {
    match zone_index(zs, z.name) {
        Some(i) => zs.update(i, z),
        None => zs.push(z),
    }
}

/// `n` zones of kind `T` read one after the other, each added by `zones_insert`.
pub open spec fn zones_seq_at<T: Zone>(s: Seq<char>, p: int, n: nat) -> Option<(Seq<ZoneView>, int)>
    decreases n,
{
    if n == 0 {
        Some((Seq::empty(), p))
    } else {
        match zones_seq_at::<T>(s, p, (n - 1) as nat) {
            Some((zs, q)) => match T::zone_spec(s, q) {
                Some((z, e)) => Some((zones_insert(zs, z), e)),
                None => None,
            },
            None => None,
        }
    }
}

/// The body of a zones file: the count, `(`, exactly that many zones, `)`, each after
/// insignificant text. A count that differs from the number of zones enclosed fails.
pub open spec fn zones_body_at<T: Zone>(s: Seq<char>, p: int) -> Option<(Seq<ZoneView>, int)> {
    match usize_at(s, skip_end(s, p)) {
        Some((n, q)) => match char_after_skip(s, q, '(') {
            Some(o) => match zones_seq_at::<T>(s, o, n) {
                Some((zs, e)) => match char_after_skip(s, e, ')') {
                    Some(c) => Some((zs, c)),
                    None => None,
                },
                None => None,
            },
            None => None,
        },
        None => None,
    }
}

/// What each zone holds.
pub open spec fn zone_views<T: Zone>(v: Seq<T>) -> Seq<ZoneView> {
    v.map_values(|z: T| z.zone_view())
}

pub proof fn lemma_zone_index(zs: Seq<ZoneView>, name: Seq<char>)
    ensures
        match zone_index(zs, name) {
            Some(i) => 0 <= i < zs.len() && zs[i].name == name && forall|j: int|
                0 <= j < i ==> (#[trigger] zs[j]).name != name,
            None => forall|j: int| 0 <= j < zs.len() ==> (#[trigger] zs[j]).name != name,
        },
    decreases zs.len(),
{
    if zs.len() > 0 {
        lemma_zone_index(zs.drop_last(), name);
        let d = zs.drop_last();
        assert(forall|j: int| 0 <= j < d.len() ==> d[j] == zs[j]);
    }
}

pub proof fn lemma_zones_none<T: Zone>(s: Seq<char>, p: int, i: nat, n: nat)
    requires
        i < n,
        zones_seq_at::<T>(s, p, (i + 1) as nat) is None,
    ensures
        zones_seq_at::<T>(s, p, n) is None,
    decreases n,
{
    if n > i + 1 {
        lemma_zones_none::<T>(s, p, i, (n - 1) as nat);
    }
}

/// Adds `z` to `zones` by its name: see `zones_insert`.
fn insert_zone<T: Zone>(zones: &mut Vec<T>, z: T)
    ensures
        zone_views(final(zones)@) == zones_insert(zone_views(old(zones)@), z.zone_view()),
{
    let ghost zs = zone_views(zones@);
    let ghost zv = z.zone_view();
    proof {
        lemma_zone_index(zs, zv.name);
    }
    let mut i: usize = 0;
    while i < zones.len()
        invariant
            i <= zones@.len(),
            zones@ == old(zones)@,
            zs == zone_views(zones@),
            zv == z.zone_view(),
            forall|j: int| 0 <= j < i ==> (#[trigger] zs[j]).name != zv.name,
        decreases zones.len() - i,
    {
        assert(zs[i as int] == zones@[i as int].zone_view());
        let a: &String = zones[i].name();
        let b: &String = z.name();
        let same = *a == *b;
        if same {
            proof {
                lemma_zone_index(zs, zv.name);
                assert(zs[i as int].name == zv.name);
                match zone_index(zs, zv.name) {
                    Some(m) => {
                        if m < i {
                            assert(zs[m].name != zv.name);
                        } else if m > i {
                            assert(zs[i as int].name != zv.name);
                        }
                    },
                    None => {
                        assert(zs[i as int].name != zv.name);
                    },
                }
                assert(zone_index(zs, zv.name) == Some(i as int));
            }
            zones[i] = z;
            proof {
                assert(zone_views(zones@) =~= zs.update(i as int, zv));
            }
            return;
        }
        i = i + 1;
    }
    proof {
        lemma_zone_index(zs, zv.name);
    }
    zones.push(z);
    assert(zone_views(zones@) =~= zs.push(zv));
}

/// A cell zone: a named list of cell labels.
#[derive(Debug, Clone, PartialEq)]
pub struct CellZone {
    pub name: String,
    pub n: usize,
    pub cells: Vec<usize>,
}

/// A point zone: a named list of point labels.
#[derive(Debug, Clone, PartialEq)]
pub struct PointZone {
    pub name: String,
    pub n: usize,
    pub points: Vec<usize>,
}

/// A face zone: a named list of face labels, with one flip flag for all of them.
#[derive(Debug, Clone, PartialEq)]
pub struct FaceZone {
    pub name: String,
    pub n: usize,
    pub faces: Vec<usize>,
    pub flipmap: bool,
}

impl CellZone {
    /// Reads a cell zone: see `zone_at`, with kind `cellZone` and key `cellLabels`.
    pub fn parse_at(s: &Vec<char>, p: usize) -> (r: Option<(CellZone, usize)>)
        requires
            p <= s.len(),
        ensures
            match zone_at(s@, p as int, kw_cell_zone(), kw_cell_labels()) {
                Some((name, labels, e)) => r matches Some((z, q)) && z.name@ == name && label_seq(
                    z.cells@,
                ) == labels && z.n == z.cells@.len() && q == e && p < q <= s.len(),
                None => r is None,
            },
    {
        let kind = vec!['c', 'e', 'l', 'l', 'Z', 'o', 'n', 'e'];
        let key = vec!['c', 'e', 'l', 'l', 'L', 'a', 'b', 'e', 'l', 's'];
        assert(kind@ == kw_cell_zone());
        assert(key@ == kw_cell_labels());
        let (name, cells, q) = match read_zone_head(s, p, &kind, &key) {
            Some(t) => t,
            None => return None,
        };
        match expect_after_skip(s, q, '}') {
            Some(e) => {
                let n = cells.len();
                Some((CellZone { name, n, cells }, e))
            },
            None => None,
        }
    }

    /// The text of the zone: see `zone_text`. The count is the number of labels.
    pub fn write(&self) -> (r: String)
        ensures
            r@ == zone_text(self.name@, kw_cell_zone(), kw_cell_labels(), label_seq(self.cells@)),
    {
        let mut out: Vec<char> = Vec::new();
        let kind = vec!['c', 'e', 'l', 'l', 'Z', 'o', 'n', 'e'];
        let key = vec!['c', 'e', 'l', 'l', 'L', 'a', 'b', 'e', 'l', 's'];
        push_zone_head(&mut out, &self.name, &kind, &key, &self.cells);
        out.push('}');
        out.push('\n');
        assert(out@ =~= zone_text(self.name@, kw_cell_zone(), kw_cell_labels(), label_seq(self.cells@)));
        string_of_chars(&out)
    }
}

impl PointZone {
    /// Reads a point zone: see `zone_at`, with kind `pointZone` and key `pointLabels`.
    pub fn parse_at(s: &Vec<char>, p: usize) -> (r: Option<(PointZone, usize)>)
        requires
            p <= s.len(),
        ensures
            match zone_at(s@, p as int, kw_point_zone(), kw_point_labels()) {
                Some((name, labels, e)) => r matches Some((z, q)) && z.name@ == name && label_seq(
                    z.points@,
                ) == labels && z.n == z.points@.len() && q == e && p < q <= s.len(),
                None => r is None,
            },
    {
        let kind = vec!['p', 'o', 'i', 'n', 't', 'Z', 'o', 'n', 'e'];
        let key = vec!['p', 'o', 'i', 'n', 't', 'L', 'a', 'b', 'e', 'l', 's'];
        assert(kind@ == kw_point_zone());
        assert(key@ == kw_point_labels());
        let (name, points, q) = match read_zone_head(s, p, &kind, &key) {
            Some(t) => t,
            None => return None,
        };
        match expect_after_skip(s, q, '}') {
            Some(e) => {
                let n = points.len();
                Some((PointZone { name, n, points }, e))
            },
            None => None,
        }
    }

    /// The text of the zone: see `zone_text`. The count is the number of labels.
    pub fn write(&self) -> (r: String)
        ensures
            r@ == zone_text(self.name@, kw_point_zone(), kw_point_labels(), label_seq(self.points@)),
    {
        let mut out: Vec<char> = Vec::new();
        let kind = vec!['p', 'o', 'i', 'n', 't', 'Z', 'o', 'n', 'e'];
        let key = vec!['p', 'o', 'i', 'n', 't', 'L', 'a', 'b', 'e', 'l', 's'];
        push_zone_head(&mut out, &self.name, &kind, &key, &self.points);
        out.push('}');
        out.push('\n');
        assert(out@ =~= zone_text(self.name@, kw_point_zone(), kw_point_labels(), label_seq(self.points@)));
        string_of_chars(&out)
    }
}

impl FaceZone {
    /// Reads a face zone: see `face_zone_at`.
    #[verifier::rlimit(60)]
    pub fn parse_at(s: &Vec<char>, p: usize) -> (r: Option<(FaceZone, usize)>)
        requires
            p <= s.len(),
        ensures
            match face_zone_at(s@, p as int) {
                Some((name, labels, flip, e)) => r matches Some((z, q)) && z.name@ == name
                    && label_seq(z.faces@) == labels && z.flipmap == flip && z.n == z.faces@.len()
                    && q == e && p < q <= s.len(),
                None => r is None,
            },
    {
        let kind = vec!['f', 'a', 'c', 'e', 'Z', 'o', 'n', 'e'];
        let key = vec!['f', 'a', 'c', 'e', 'L', 'a', 'b', 'e', 'l', 's'];
        assert(kind@ == kw_face_zone());
        assert(key@ == kw_face_labels());
        let (name, faces, q) = match read_zone_head(s, p, &kind, &key) {
            Some(t) => t,
            None => return None,
        };
        let n = faces.len();
        let (flipmap, q2) = match read_flip_map(s, q, n) {
            Some(t) => t,
            None => return None,
        };
        match expect_after_skip(s, q2, '}') {
            Some(e) => Some((FaceZone { name, n, faces, flipmap }, e)),
            None => None,
        }
    }

    /// Appends the text of the flip map, counted by the labels of the zone.
    pub fn write_flipmap(&self, out: &mut Vec<char>)
        ensures
            final(out)@ == old(out)@ + flip_map_text(self.faces@.len(), self.flipmap),
    {
        let ghost start = out@;
        let a = vec!['f', 'l', 'i', 'p', 'M', 'a', 'p', ' ', 'L', 'i', 's', 't', '<', 'b', 'o', 'o', 'l', '>', ' '];
        push_chars(out, &a);
        push_usize(out, self.faces.len());
        out.push('{');
        out.push(if crate::writer::bool_as_num(self.flipmap) == 1 {
            '1'
        } else {
            '0'
        });
        out.push('}');
        out.push(';');
        out.push('\n');
        assert(out@ =~= start + flip_map_text(self.faces@.len(), self.flipmap));
    }

    /// The text of the zone: its head, its flip map, then `}`.
    pub fn write(&self) -> (r: String)
        ensures
            r@ == zone_head_text(self.name@, kw_face_zone(), kw_face_labels(), label_seq(self.faces@))
                + flip_map_text(self.faces@.len(), self.flipmap) + seq!['}', '\n'],
    {
        let mut out: Vec<char> = Vec::new();
        let kind = vec!['f', 'a', 'c', 'e', 'Z', 'o', 'n', 'e'];
        let key = vec!['f', 'a', 'c', 'e', 'L', 'a', 'b', 'e', 'l', 's'];
        push_zone_head(&mut out, &self.name, &kind, &key, &self.faces);
        self.write_flipmap(&mut out);
        out.push('}');
        out.push('\n');
        assert(out@ =~= zone_head_text(self.name@, kw_face_zone(), kw_face_labels(), label_seq(self.faces@))
            + flip_map_text(self.faces@.len(), self.flipmap) + seq!['}', '\n']);
        string_of_chars(&out)
    }
}

impl Zone for CellZone {
    open spec fn zone_view(&self) -> ZoneView {
        ZoneView { name: self.name@, n: self.n as nat, labels: label_seq(self.cells@), flip: false }
    }

    open spec fn zone_spec(s: Seq<char>, p: int) -> Option<(ZoneView, int)> {
        match zone_at(s, p, kw_cell_zone(), kw_cell_labels()) {
            Some((name, labels, e)) => Some((ZoneView { name, n: labels.len(), labels, flip: false }, e)),
            None => None,
        }
    }

    fn name(&self) -> (r: &String) {
        &self.name
    }

    open spec fn text(&self) -> Seq<char> {
        zone_text(self.name@, kw_cell_zone(), kw_cell_labels(), label_seq(self.cells@))
    }

    open spec fn default_path() -> Seq<char> {
        seq!['c', 'o', 'n', 's', 't', 'a', 'n', 't', '/', 'p', 'o', 'l', 'y', 'M', 'e', 's', 'h', '/', 'c', 'e', 'l', 'l', 'Z', 'o', 'n', 'e', 's']
    }

    fn default_file_path() -> (r: String) {
        let p = vec!['c', 'o', 'n', 's', 't', 'a', 'n', 't', '/', 'p', 'o', 'l', 'y', 'M', 'e', 's', 'h', '/', 'c', 'e', 'l', 'l', 'Z', 'o', 'n', 'e', 's'];
        string_of_chars(&p)
    }

    fn parse_zone(s: &Vec<char>, p: usize) -> (r: Option<(Self, usize)>) {
        CellZone::parse_at(s, p)
    }

    fn write_zone(&self, out: &mut Vec<char>) {
        let t = self.write();
        push_str(out, t.as_str());
    }
}

impl Zone for PointZone {
    open spec fn zone_view(&self) -> ZoneView {
        ZoneView { name: self.name@, n: self.n as nat, labels: label_seq(self.points@), flip: false }
    }

    open spec fn zone_spec(s: Seq<char>, p: int) -> Option<(ZoneView, int)> {
        match zone_at(s, p, kw_point_zone(), kw_point_labels()) {
            Some((name, labels, e)) => Some((ZoneView { name, n: labels.len(), labels, flip: false }, e)),
            None => None,
        }
    }

    fn name(&self) -> (r: &String) {
        &self.name
    }

    open spec fn text(&self) -> Seq<char> {
        zone_text(self.name@, kw_point_zone(), kw_point_labels(), label_seq(self.points@))
    }

    open spec fn default_path() -> Seq<char> {
        seq!['c', 'o', 'n', 's', 't', 'a', 'n', 't', '/', 'p', 'o', 'l', 'y', 'M', 'e', 's', 'h', '/', 'p', 'o', 'i', 'n', 't', 'Z', 'o', 'n', 'e', 's']
    }

    fn default_file_path() -> (r: String) {
        let p = vec!['c', 'o', 'n', 's', 't', 'a', 'n', 't', '/', 'p', 'o', 'l', 'y', 'M', 'e', 's', 'h', '/', 'p', 'o', 'i', 'n', 't', 'Z', 'o', 'n', 'e', 's'];
        string_of_chars(&p)
    }

    fn parse_zone(s: &Vec<char>, p: usize) -> (r: Option<(Self, usize)>) {
        PointZone::parse_at(s, p)
    }

    fn write_zone(&self, out: &mut Vec<char>) {
        let t = self.write();
        push_str(out, t.as_str());
    }
}

impl Zone for FaceZone {
    open spec fn zone_view(&self) -> ZoneView {
        ZoneView { name: self.name@, n: self.n as nat, labels: label_seq(self.faces@), flip: self.flipmap }
    }

    open spec fn zone_spec(s: Seq<char>, p: int) -> Option<(ZoneView, int)> {
        match face_zone_at(s, p) {
            Some((name, labels, flip, e)) => Some((ZoneView { name, n: labels.len(), labels, flip }, e)),
            None => None,
        }
    }

    fn name(&self) -> (r: &String) {
        &self.name
    }

    open spec fn text(&self) -> Seq<char> {
        zone_head_text(self.name@, kw_face_zone(), kw_face_labels(), label_seq(self.faces@))
            + flip_map_text(self.faces@.len(), self.flipmap) + seq!['}', '\n']
    }

    open spec fn default_path() -> Seq<char> {
        seq!['c', 'o', 'n', 's', 't', 'a', 'n', 't', '/', 'p', 'o', 'l', 'y', 'M', 'e', 's', 'h', '/', 'f', 'a', 'c', 'e', 'Z', 'o', 'n', 'e', 's']
    }

    fn default_file_path() -> (r: String) {
        let p = vec!['c', 'o', 'n', 's', 't', 'a', 'n', 't', '/', 'p', 'o', 'l', 'y', 'M', 'e', 's', 'h', '/', 'f', 'a', 'c', 'e', 'Z', 'o', 'n', 'e', 's'];
        string_of_chars(&p)
    }

    fn parse_zone(s: &Vec<char>, p: usize) -> (r: Option<(Self, usize)>) {
        FaceZone::parse_at(s, p)
    }

    fn write_zone(&self, out: &mut Vec<char>) {
        let t = self.write();
        push_str(out, t.as_str());
    }
}

/// Each zone's text followed by a line break.
pub open spec fn zone_lines<T: Zone>(zs: Seq<T>) -> Seq<char>
    decreases zs.len(),
{
    if zs.len() == 0 {
        Seq::empty()
    } else {
        zone_lines(zs.drop_last()) + zs.last().text() + seq!['\n']
    }
}

/// The text of a zones file's body: the count, `(`, each zone, `)`.
pub open spec fn zones_text<T: Zone>(zs: Seq<T>) -> Seq<char> {
    nat_text(zs.len()) + seq!['\n', '(', '\n'] + zone_lines(zs) + seq![')', '\n']
}

/// The zones of a zones file, in the order of the file, with distinct names; `n` is their
/// number.
#[derive(Debug, Clone, PartialEq)]
pub struct ZoneData<T: Zone> {
    pub n: usize,
    pub zones: Vec<T>,
}

impl<T: Zone> ZoneData<T> {
    /// Reads the body of a zones file: see `zones_body_at`. Zones with the same name are
    /// merged, the later taking the place of the earlier; the count kept is the number of zones.
    #[verifier::rlimit(60)]
    pub fn parse_at(s: &Vec<char>, p: usize) -> (r: Option<(ZoneData<T>, usize)>)
        requires
            p <= s.len(),
        ensures
            match zones_body_at::<T>(s@, p as int) {
                Some((zs, e)) => r matches Some((d, q)) && zone_views(d.zones@) == zs && d.n
                    == zs.len() && q == e && p < q <= s.len(),
                None => r is None,
            },
    {
        let o = skip_insignificant(s, p);
        let (n, q) = match read_usize(s, o) {
            Some(t) => t,
            None => return None,
        };
        let o2 = match expect_after_skip(s, q, '(') {
            Some(x) => x,
            None => return None,
        };
        let mut e = o2;
        let mut zones: Vec<T> = Vec::new();
        let mut i: usize = 0;
        while i < n
            invariant
                i <= n,
                p < o2 <= e <= s.len(),
                o == skip_end(s@, p as int),
                usize_at(s@, o as int) == Some((n as nat, q as int)),
                char_after_skip(s@, q as int, '(') == Some(o2 as int),
                zones_seq_at::<T>(s@, o2 as int, i as nat) == Some((zone_views(zones@), e as int)),
            decreases n - i,
        {
            match T::parse_zone(s, e) {
                Some((z, f)) => {
                    insert_zone(&mut zones, z);
                    e = f;
                },
                None => {
                    proof {
                        lemma_zones_none::<T>(s@, o2 as int, i as nat, n as nat);
                    }
                    return None;
                },
            }
            i = i + 1;
        }
        match expect_after_skip(s, e, ')') {
            Some(c) => {
                let m = zones.len();
                Some((ZoneData { n: m, zones }, c))
            },
            None => None,
        }
    }

    /// The text of the body: the count, `(`, each zone, `)`. The count is the number of zones.
    #[verifier::rlimit(60)]
    pub fn write(&self) -> (r: String)
        ensures
            r@ == zones_text(self.zones@),
    {
        let mut out: Vec<char> = Vec::new();
        push_usize(&mut out, self.zones.len());
        out.push('\n');
        out.push('(');
        out.push('\n');
        let ghost head = out@;
        let mut i: usize = 0;
        while i < self.zones.len()
            invariant
                i <= self.zones@.len(),
                out@ == head + zone_lines(self.zones@.take(i as int)),
            decreases self.zones.len() - i,
        {
            self.zones[i].write_zone(&mut out);
            out.push('\n');
            i = i + 1;
            proof {
                assert(self.zones@.take(i as int).drop_last() =~= self.zones@.take(i - 1));
                assert(out@ =~= head + zone_lines(self.zones@.take(i as int)));
            }
        }
        out.push(')');
        out.push('\n');
        assert(self.zones@.take(i as int) =~= self.zones@);
        assert(out@ =~= zones_text(self.zones@));
        string_of_chars(&out)
    }
}

} // verus!
