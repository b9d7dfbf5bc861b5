use vstd::prelude::*;
use crate::header::{header_at, header_valid, kw_binary, kw_format, text_entry, relative_path, FoamFile};
use crate::mesh::{BoundaryData, FaceData, NeighbourData, OwnerData, PointData, SetData};
use crate::result::ResultData;
use crate::text::{chars_of, rest_of, skip_insignificant, skip_end};
use crate::value::{FoamStructure, named_structure_at};
use crate::writer::{push_chars, push_str, string_of_chars};
use crate::zones::{Zone, ZoneData};

verus! {

/// The body of one kind of file.
pub trait FileParser: Sized {
    /// Where a file of this kind lies in a case directory, when its header does not say.
    spec fn default_path() -> Seq<char>;

    #[verifier::rlimit(60)]
    fn default_file_path() -> (r: String)
        ensures
            r@ == Self::default_path(),
    ;

    /// Whether the body `b` is read from `s` between `p` and `e`.
    spec fn reads(s: Seq<char>, p: int, b: Self, e: int) -> bool;

    /// Whether no body can be read from `s` at `p`.
    spec fn reads_none(s: Seq<char>, p: int) -> bool;

    /// Reads the body at `p`.
    #[verifier::rlimit(60)]
    fn parse_body(s: &Vec<char>, p: usize) -> (r: Option<(Self, usize)>)
        requires
            p <= s.len(),
        ensures
            r matches Some((b, q)) ==> p <= q <= s.len() && Self::reads(s@, p as int, b, q as int),
            r is None ==> Self::reads_none(s@, p as int),
    ;

    /// The text of the body.
    spec fn body_text(&self) -> Seq<char>;

    #[verifier::rlimit(60)]
    fn write_body(&self) -> (r: String)
        ensures
            r@ == self.body_text(),
    ;
}

/// The position after the header, when there is one.
pub open spec fn header_end(s: Seq<char>) -> int {
    match header_at(s, 0) {
        Some((es, e)) => e,
        None => 0,
    }
}

/// Why a file could not be read.
#[derive(Debug, Clone, Copy, PartialEq, Eq)]
pub enum ContentError {
    /// The grammar does not accept the text at this position.
    Grammar(usize),
    /// The header declares the binary format, whose bodies are not read.
    UnsupportedFormat,
    /// Text other than whitespace and comments follows the body, from this position on.
    Trailing(usize),
}

/// A whole file: its header and its body, and where it lies relative to its case directory
/// when that is known.
#[derive(Debug, PartialEq)]
pub struct FileContent<T: FileParser> {
    pub location: Option<String>,
    pub meta: FoamFile,
    pub data: T,
}

/// The line between the header and the body.
pub open spec fn separator() -> Seq<char> {
    seq!['/', '/', ' ', '*', ' ', '*', ' ', '*', ' ', '*', ' ', '*', ' ', '*', ' ', '*', ' ', '*', '\n']
}

impl<T: FileParser> FileContent<T> {
    /// Reads a whole file, leniently: the header, then the body, then whitespace and comments.
    /// Returns the file and the text left after it, which the caller may report.
    #[verifier::rlimit(60)]
    pub fn parse(input: &str) -> (r: Result<(FileContent<T>, String), ContentError>)
        ensures
            match header_at(input@, 0) {
                Some((es, e)) => if !header_valid(es) {
                    r == Err::<(FileContent<T>, String), ContentError>(ContentError::Grammar(0))
                } else if text_entry(es, kw_format()) == Some(kw_binary()) {
                    r == Err::<(FileContent<T>, String), ContentError>(
                        ContentError::UnsupportedFormat,
                    )
                } else {
                    match r {
                        Ok((c, rest)) => c.meta.entries() == es && c.location is None && exists|
                            q: int,
                        |
                            e <= q <= input@.len() && #[trigger] T::reads(input@, e, c.data, q) && rest@
                                == input@.subrange(skip_end(input@, q), input@.len() as int),
                        Err(x) => x == ContentError::Grammar(e as usize) && T::reads_none(input@, e),
                    }
                },
                None => r == Err::<(FileContent<T>, String), ContentError>(ContentError::Grammar(0)),
            },
    {
        let s = chars_of(input);
        let (meta, e) = match FoamFile::parse_at(&s, 0) {
            Some(t) => t,
            None => return Err(ContentError::Grammar(0)),
        };
        if meta.is_binary() {
            return Err(ContentError::UnsupportedFormat);
        }
        let (data, q) = match T::parse_body(&s, e) {
            Some(t) => t,
            None => return Err(ContentError::Grammar(e)),
        };
        let f = skip_insignificant(&s, q);
        let rest = rest_of(&s, f);
        assert(e <= q <= input@.len() && T::reads(input@, e as int, data, q as int) && rest@
            == input@.subrange(skip_end(input@, q as int), input@.len() as int));
        let c = FileContent { location: None, meta, data };
        proof {
            match header_at(input@, 0) {
                Some((es, e2)) => {
                    assert(e2 == e);
                    assert(c.meta.entries() == es);
                    assert(T::reads(input@, e2, c.data, q as int));
                },
                None => {},
            }
        }
        Ok((c, rest))
    }

    /// Reads a whole file, strictly: as `parse`, but text left after the body is an error.
    #[verifier::rlimit(60)]
    pub fn parse_strict(input: &str) -> (r: Result<FileContent<T>, ContentError>)
        ensures
            match header_at(input@, 0) {
                Some((es, e)) => if !header_valid(es) {
                    r == Err::<FileContent<T>, ContentError>(ContentError::Grammar(0))
                } else if text_entry(es, kw_format()) == Some(kw_binary()) {
                    r == Err::<FileContent<T>, ContentError>(ContentError::UnsupportedFormat)
                } else {
                    match r {
                        Ok(c) => c.meta.entries() == es && c.location is None && exists|q: int|
                            e <= q <= input@.len() && #[trigger] T::reads(input@, e, c.data, q)
                                && skip_end(input@, q) == input@.len(),
                        Err(ContentError::Trailing(k)) => exists|q: int, b: T|
                            e <= q <= input@.len() && #[trigger] T::reads(input@, e, b, q) && k
                                == skip_end(input@, q) && k < input@.len(),
                        Err(x) => x == ContentError::Grammar(e as usize) && T::reads_none(input@, e),
                    }
                },
                None => r == Err::<FileContent<T>, ContentError>(ContentError::Grammar(0)),
            },
    {
        match FileContent::<T>::parse(input) {
            Ok((c, rest)) => {
                let ghost e = header_end(input@);
                let ghost q = choose|q: int|
                    e <= q <= input@.len() && #[trigger] T::reads(input@, e, c.data, q) && rest@
                        == input@.subrange(skip_end(input@, q), input@.len() as int);
                proof {
                    crate::text::lemma_skip_end_bounds(input@, q);
                }
                if rest.as_str().is_empty() {
                    assert(skip_end(input@, q) == input@.len());
                    assert(e <= q <= input@.len() && T::reads(input@, e, c.data, q) && skip_end(
                        input@,
                        q,
                    ) == input@.len());
                    Ok(c)
                } else {
                    let left = chars_of(rest.as_str());
                    let total = chars_of(input);
                    let k = total.len() - left.len();
                    assert(k == skip_end(input@, q));
                    assert(e <= q <= input@.len() && T::reads(input@, e, c.data, q) && k == skip_end(
                        input@,
                        q,
                    ) && k < input@.len());
                    Err(ContentError::Trailing(k))
                }
            },
            Err(x) => Err(x),
        }
    }

    /// Where the file goes in a case directory: its own location when it is known, else the
    /// path that its header gives, else the default path of its kind.
    pub fn destination(&self) -> (r: String)
        ensures
            match self.location {
                Some(l) => r@ == l@,
                None => match relative_path(self.meta.entries()) {
                    Some(p) => r@ == p,
                    None => r@ == T::default_path(),
                },
            },
    {
        match &self.location {
            Some(l) => l.clone(),
            None => match self.meta.relative_file_path() {
                Some(p) => p,
                None => T::default_file_path(),
            },
        }
    }

    /// The text of the file: the header, a separator line, then the body.
    pub fn write(&self) -> (r: String)
        ensures
            r@ == crate::value::structure_text(crate::header::kw_foam_file(), self.meta.entries())
                + separator() + self.data.body_text(),
    {
        let mut out: Vec<char> = Vec::new();
        let h = self.meta.write();
        push_str(&mut out, h.as_str());
        let sep = vec!['/', '/', ' ', '*', ' ', '*', ' ', '*', ' ', '*', ' ', '*', ' ', '*', ' ', '*', ' ', '*', '\n'];
        push_chars(&mut out, &sep);
        let b = self.data.write_body();
        push_str(&mut out, b.as_str());
        assert(sep@ == separator());
        assert(out@ =~= crate::value::structure_text(crate::header::kw_foam_file(), self.meta.entries())
            + separator() + self.data.body_text());
        string_of_chars(&out)
    }
}

/// The state of a time directory's `uniform` files: a named structure.
#[derive(Debug, PartialEq)]
pub struct UniformData(pub FoamStructure);

pub open spec fn path_text(a: Seq<char>, b: Seq<char>) -> Seq<char> {
    a + seq!['/'] + b
}

fn path_of(a: &Vec<char>, b: &Vec<char>) -> (r: String)
    ensures
        r@ == path_text(a@, b@),
{
    let mut out: Vec<char> = Vec::new();
    push_chars(&mut out, a);
    out.push('/');
    push_chars(&mut out, b);
    assert(out@ =~= path_text(a@, b@));
    string_of_chars(&out)
}

pub open spec fn poly_mesh_dir() -> Seq<char> {
    seq!['c', 'o', 'n', 's', 't', 'a', 'n', 't', '/', 'p', 'o', 'l', 'y', 'M', 'e', 's', 'h']
}

fn poly_mesh_path(b: &Vec<char>) -> (r: String)
    ensures
        r@ == path_text(poly_mesh_dir(), b@),
{
    let a = vec!['c', 'o', 'n', 's', 't', 'a', 'n', 't', '/', 'p', 'o', 'l', 'y', 'M', 'e', 's', 'h'];
    assert(a@ == poly_mesh_dir());
    path_of(&a, b)
}

impl FileParser for OwnerData {
    open spec fn reads(s: Seq<char>, p: int, b: Self, e: int) -> bool {
        crate::mesh::label_list_at(s, p) == Some((crate::mesh::label_seq(b.0@), e))
    }

    open spec fn reads_none(s: Seq<char>, p: int) -> bool {
        crate::mesh::label_list_at(s, p) is None
    }

    open spec fn body_text(&self) -> Seq<char> {
        crate::mesh::label_list_text(crate::mesh::label_seq(self.0@))
    }

    open spec fn default_path() -> Seq<char> {
        path_text(poly_mesh_dir(), seq!['o', 'w', 'n', 'e', 'r'])
    }

    fn default_file_path() -> (r: String) {
        let b = vec!['o', 'w', 'n', 'e', 'r'];
        poly_mesh_path(&b)
    }

    fn parse_body(s: &Vec<char>, p: usize) -> (r: Option<(Self, usize)>) {
        OwnerData::parse_at(s, p)
    }

    fn write_body(&self) -> (r: String) {
        self.write()
    }
}

impl FileParser for NeighbourData {
    open spec fn reads(s: Seq<char>, p: int, b: Self, e: int) -> bool {
        crate::mesh::label_list_at(s, p) == Some((crate::mesh::label_seq(b.0@), e))
    }

    open spec fn reads_none(s: Seq<char>, p: int) -> bool {
        crate::mesh::label_list_at(s, p) is None
    }

    open spec fn body_text(&self) -> Seq<char> {
        crate::mesh::label_list_text(crate::mesh::label_seq(self.0@))
    }

    open spec fn default_path() -> Seq<char> {
        path_text(poly_mesh_dir(), seq!['n', 'e', 'i', 'g', 'h', 'b', 'o', 'u', 'r'])
    }

    fn default_file_path() -> (r: String) {
        let b = vec!['n', 'e', 'i', 'g', 'h', 'b', 'o', 'u', 'r'];
        poly_mesh_path(&b)
    }

    fn parse_body(s: &Vec<char>, p: usize) -> (r: Option<(Self, usize)>) {
        NeighbourData::parse_at(s, p)
    }

    fn write_body(&self) -> (r: String) {
        self.write()
    }
}

impl FileParser for SetData {
    open spec fn reads(s: Seq<char>, p: int, b: Self, e: int) -> bool {
        crate::mesh::label_list_at(s, p) == Some((crate::mesh::label_seq(b.labels@), e)) && b.n == b.labels@.len()
    }

    open spec fn reads_none(s: Seq<char>, p: int) -> bool {
        crate::mesh::label_list_at(s, p) is None
    }

    open spec fn body_text(&self) -> Seq<char> {
        crate::mesh::label_list_text(crate::mesh::label_seq(self.labels@))
    }

    open spec fn default_path() -> Seq<char> {
        path_text(
            poly_mesh_dir(),
            seq!['u', 'n', 'd', 'e', 'f', 'i', 'n', 'e', 'd', 'S', 'e', 't', 'N', 'a', 'm', 'e'],
        )
    }

    fn default_file_path() -> (r: String) {
        let b = vec!['u', 'n', 'd', 'e', 'f', 'i', 'n', 'e', 'd', 'S', 'e', 't', 'N', 'a', 'm', 'e'];
        poly_mesh_path(&b)
    }

    fn parse_body(s: &Vec<char>, p: usize) -> (r: Option<(Self, usize)>) {
        SetData::parse_at(s, p)
    }

    fn write_body(&self) -> (r: String) {
        self.write()
    }
}

impl FileParser for FaceData {
    open spec fn reads(s: Seq<char>, p: int, b: Self, e: int) -> bool {
        crate::mesh::face_list_at(s, p) == Some((crate::mesh::face_seq(b.0@), e))
    }

    open spec fn reads_none(s: Seq<char>, p: int) -> bool {
        crate::mesh::face_list_at(s, p) is None
    }

    open spec fn body_text(&self) -> Seq<char> {
        crate::mesh::face_list_text(crate::mesh::face_seq(self.0@))
    }

    open spec fn default_path() -> Seq<char> {
        path_text(poly_mesh_dir(), seq!['f', 'a', 'c', 'e', 's'])
    }

    fn default_file_path() -> (r: String) {
        let b = vec!['f', 'a', 'c', 'e', 's'];
        poly_mesh_path(&b)
    }

    fn parse_body(s: &Vec<char>, p: usize) -> (r: Option<(Self, usize)>) {
        match crate::mesh::read_face_list(s, p) {
            Some((v, e)) => Some((FaceData(v), e)),
            None => None,
        }
    }

    fn write_body(&self) -> (r: String) {
        self.write()
    }
}

impl FileParser for PointData {
    open spec fn reads(s: Seq<char>, p: int, b: Self, e: int) -> bool {
        crate::field::vector_list_at(s, p) == Some((crate::writer::row_views(b.0@), e))
    }

    open spec fn reads_none(s: Seq<char>, p: int) -> bool {
        crate::field::vector_list_at(s, p) is None
    }

    open spec fn body_text(&self) -> Seq<char> {
        crate::writer::rows_text(crate::writer::row_views(self.0@), false)
    }

    open spec fn default_path() -> Seq<char> {
        path_text(poly_mesh_dir(), seq!['p', 'o', 'i', 'n', 't', 's'])
    }

    fn default_file_path() -> (r: String) {
        let b = vec!['p', 'o', 'i', 'n', 't', 's'];
        poly_mesh_path(&b)
    }

    fn parse_body(s: &Vec<char>, p: usize) -> (r: Option<(Self, usize)>) {
        match crate::field::read_vector_list(s, p) {
            Some((v, e)) => Some((PointData(v), e)),
            None => None,
        }
    }

    fn write_body(&self) -> (r: String) {
        self.write()
    }
}

impl FileParser for BoundaryData {
    open spec fn reads(s: Seq<char>, p: int, b: Self, e: int) -> bool {
        crate::mesh::boundary_at(s, p) == Some((b.0.entries(), e))
    }

    open spec fn reads_none(s: Seq<char>, p: int) -> bool {
        crate::mesh::boundary_at(s, p) is None
    }

    open spec fn body_text(&self) -> Seq<char> {
        crate::mesh::boundary_text(self.0.entries())
    }

    open spec fn default_path() -> Seq<char> {
        path_text(poly_mesh_dir(), seq!['b', 'o', 'u', 'n', 'd', 'a', 'r', 'y'])
    }

    fn default_file_path() -> (r: String) {
        let b = vec!['b', 'o', 'u', 'n', 'd', 'a', 'r', 'y'];
        poly_mesh_path(&b)
    }

    fn parse_body(s: &Vec<char>, p: usize) -> (r: Option<(Self, usize)>) {
        BoundaryData::parse_at(s, p)
    }

    fn write_body(&self) -> (r: String) {
        self.write()
    }
}

impl FileParser for ResultData {
    open spec fn reads(s: Seq<char>, p: int, b: Self, e: int) -> bool {
        crate::result::result_at(s, p) == Some((
            crate::result::int_seq(b.dimensions.0@),
            b.result@,
            b.boundary_view(),
            e,
        )) && b.n == crate::result::field_len(b.result@)
    }

    open spec fn reads_none(s: Seq<char>, p: int) -> bool {
        crate::result::result_at(s, p) is None
    }

    open spec fn body_text(&self) -> Seq<char> {
        crate::result::result_text(
            crate::result::int_seq(self.dimensions.0@),
            self.result@,
            self.boundary_view(),
        )
    }

    open spec fn default_path() -> Seq<char> {
        seq![
            'u', 'n', 's', 'p', 'e', 'c', 'i', 'f', 'i', 'e', 'd', 'T', 'i', 'm', 'e', 'D', 'i', 'r',
            'e', 'c', 't', 'o', 'r', 'y', '/', 'u', 'n', 's', 'p', 'e', 'c', 'i', 'f', 'i', 'e',
            'd', 'V', 'a', 'r', 'i', 'a', 'b', 'l', 'e', 'N', 'a', 'm', 'e',
        ]
    }

    fn default_file_path() -> (r: String) {
        let b = vec![
            'u', 'n', 's', 'p', 'e', 'c', 'i', 'f', 'i', 'e', 'd', 'T', 'i', 'm', 'e', 'D', 'i', 'r',
            'e', 'c', 't', 'o', 'r', 'y', '/', 'u', 'n', 's', 'p', 'e', 'c', 'i', 'f', 'i', 'e',
            'd', 'V', 'a', 'r', 'i', 'a', 'b', 'l', 'e', 'N', 'a', 'm', 'e',
        ];
        string_of_chars(&b)
    }

    fn parse_body(s: &Vec<char>, p: usize) -> (r: Option<(Self, usize)>) {
        ResultData::parse_at(s, p)
    }

    fn write_body(&self) -> (r: String) {
        self.write()
    }
}

impl FileParser for UniformData {
    open spec fn reads(s: Seq<char>, p: int, b: Self, e: int) -> bool {
        named_structure_at(s, p) == Some((b.0.name@, b.0.entries(), e))
    }

    open spec fn reads_none(s: Seq<char>, p: int) -> bool {
        named_structure_at(s, p) is None
    }

    open spec fn body_text(&self) -> Seq<char> {
        crate::value::structure_text(self.0.name@, self.0.entries())
    }

    open spec fn default_path() -> Seq<char> {
        seq![
            'u', 'n', 'd', 'e', 'f', 'i', 'n', 'e', 'd', 'T', 'i', 'm', 'e', 'D', 'i', 'r', 'e',
            'c', 't', 'o', 'r', 'y', '/', 'u', 'n', 'i', 'f', 'o', 'r', 'm', '/', 't', 'i', 'm',
            'e',
        ]
    }

    fn default_file_path() -> (r: String) {
        let b = vec![
            'u', 'n', 'd', 'e', 'f', 'i', 'n', 'e', 'd', 'T', 'i', 'm', 'e', 'D', 'i', 'r', 'e',
            'c', 't', 'o', 'r', 'y', '/', 'u', 'n', 'i', 'f', 'o', 'r', 'm', '/', 't', 'i', 'm',
            'e',
        ];
        string_of_chars(&b)
    }

    fn parse_body(s: &Vec<char>, p: usize) -> (r: Option<(Self, usize)>) {
        match FoamStructure::parse_named_at(s, p) {
            Some((st, e)) => Some((UniformData(st), e)),
            None => None,
        }
    }

    fn write_body(&self) -> (r: String) {
        self.0.write()
    }
}

impl<Z: Zone> FileParser for ZoneData<Z> {
    open spec fn reads(s: Seq<char>, p: int, b: Self, e: int) -> bool {
        crate::zones::zones_body_at::<Z>(s, p) == Some((crate::zones::zone_views(b.zones@), e))
            && b.n == b.zones@.len()
    }

    open spec fn reads_none(s: Seq<char>, p: int) -> bool {
        crate::zones::zones_body_at::<Z>(s, p) is None
    }

    open spec fn body_text(&self) -> Seq<char> {
        crate::zones::zones_text(self.zones@)
    }

    open spec fn default_path() -> Seq<char> {
        Z::default_path()
    }

    fn default_file_path() -> (r: String) {
        Z::default_file_path()
    }

    fn parse_body(s: &Vec<char>, p: usize) -> (r: Option<(Self, usize)>) {
        ZoneData::<Z>::parse_at(s, p)
    }

    fn write_body(&self) -> (r: String) {
        self.write()
    }
}

} // verus!
