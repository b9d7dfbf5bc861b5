use vstd::prelude::*;
use crate::text::{chars_of, expect_keyword_after_skip, keyword_after_skip, ParseError, rest_of};
use crate::value::{
    block_at, entries_text, key_index, structure_text, value_view, FoamStructure, FoamValue,
    ValueView,
};
use crate::writer::{push_chars, string_of_chars};

verus! {

pub open spec fn kw_foam_file() -> Seq<char> {
    seq!['F', 'o', 'a', 'm', 'F', 'i', 'l', 'e']
}

pub open spec fn kw_format() -> Seq<char> {
    seq!['f', 'o', 'r', 'm', 'a', 't']
}

pub open spec fn kw_class() -> Seq<char> {
    seq!['c', 'l', 'a', 's', 's']
}

pub open spec fn kw_location() -> Seq<char> {
    seq!['l', 'o', 'c', 'a', 't', 'i', 'o', 'n']
}

pub open spec fn kw_object() -> Seq<char> {
    seq!['o', 'b', 'j', 'e', 'c', 't']
}

pub open spec fn kw_ascii() -> Seq<char> {
    seq!['a', 's', 'c', 'i', 'i']
}

pub open spec fn kw_binary() -> Seq<char> {
    seq!['b', 'i', 'n', 'a', 'r', 'y']
}

/// The header block `FoamFile { ... }` at `p`.
pub open spec fn header_at(s: Seq<char>, p: int) -> Option<(Seq<(Seq<char>, ValueView)>, int)> {
    match keyword_after_skip(s, p, kw_foam_file()) {
        Some(q) => block_at(s, q),
        None => None,
    }
}

/// The text value bound to `k`, if `k` is bound to a text.
pub open spec fn text_entry(es: Seq<(Seq<char>, ValueView)>, k: Seq<char>) -> Option<Seq<char>> {
    match key_index(es, k) {
        Some(i) => match es[i].1 {
            ValueView::Text(t) => Some(t),
            _ => None,
        },
        None => None,
    }
}

/// A header holds a format tag (`ascii` or `binary`), a class, a location and an object.
pub open spec fn header_valid(es: Seq<(Seq<char>, ValueView)>) -> bool {
    &&& (text_entry(es, kw_format()) == Some(kw_ascii()) || text_entry(es, kw_format()) == Some(
        kw_binary(),
    ))
    &&& key_index(es, kw_class()) is Some
    &&& key_index(es, kw_location()) is Some
    &&& key_index(es, kw_object()) is Some
}

/// `t` without the double quotes around it, if it has them.
pub open spec fn unquoted(t: Seq<char>) -> Seq<char> {
    if t.len() >= 2 && t[0] == '"' && t.last() == '"' {
        t.subrange(1, t.len() - 1)
    } else {
        t
    }
}

/// The path of the file relative to the case directory: `location/object`, when both are
/// texts.
pub open spec fn relative_path(es: Seq<(Seq<char>, ValueView)>) -> Option<Seq<char>> {
    match (text_entry(es, kw_location()), text_entry(es, kw_object())) {
        (Some(l), Some(o)) => Some(unquoted(l) + seq!['/'] + unquoted(o)),
        _ => None,
    }
}

/// The header of a file: the entries of its `FoamFile` block.
#[derive(Debug, PartialEq)]
pub struct FoamFile(pub FoamStructure);

/// The text bound to `key`.
fn text_value<'a>(st: &'a FoamStructure, key: &Vec<char>) -> (r: Option<&'a String>)
    ensures
        match text_entry(st.entries(), key@) {
            Some(t) => r matches Some(v) && v@ == t,
            None => r is None,
        },
{
    let k = string_of_chars(key);
    match st.get(&k) {
        Some(v) => match v {
            FoamValue::String(t) => Some(t),
            _ => None,
        },
        None => None,
    }
}

/// `t` without the double quotes around it, if it has them.
fn push_unquoted(out: &mut Vec<char>, t: &String)
    ensures
        final(out)@ == old(out)@ + unquoted(t@),
{
    let c = chars_of(t.as_str());
    let ghost start = out@;
    if c.len() >= 2 && c[0] == '"' && c[c.len() - 1] == '"' {
        let inner = crate::text::slice_chars(&c, 1, c.len() - 1);
        push_chars(out, &inner);
    } else {
        push_chars(out, &c);
    }
}

impl FoamFile {
    /// What the header holds.
    pub open spec fn entries(&self) -> Seq<(Seq<char>, ValueView)> {
        self.0.entries()
    }

    /// Reads a header at `p`: the block `FoamFile { ... }`, which must hold a format tag
    /// (`ascii` or `binary`), a class, a location and an object.
    #[verifier::rlimit(60)]
    pub fn parse_at(s: &Vec<char>, p: usize) -> (r: Option<(FoamFile, usize)>)
        requires
            p <= s.len(),
        ensures
            match header_at(s@, p as int) {
                Some((es, e)) => if header_valid(es) {
                    r matches Some((h, q)) && h.entries() == es && h.0.name@ == kw_foam_file()
                        && q == e && p < q <= s.len()
                } else {
                    r is None
                },
                None => r is None,
            },
    {
        let kw = vec!['F', 'o', 'a', 'm', 'F', 'i', 'l', 'e'];
        assert(kw@ == kw_foam_file());
        let q = match expect_keyword_after_skip(s, p, &kw) {
            Some(x) => x,
            None => return None,
        };
        let (st, e) = match FoamStructure::parse_block_at(s, q) {
            Some(t) => t,
            None => return None,
        };
        let named = FoamStructure { name: string_of_chars(&kw), content: st.content };
        let format = vec!['f', 'o', 'r', 'm', 'a', 't'];
        let ascii = vec!['a', 's', 'c', 'i', 'i'];
        let binary = vec!['b', 'i', 'n', 'a', 'r', 'y'];
        let class = vec!['c', 'l', 'a', 's', 's'];
        let location = vec!['l', 'o', 'c', 'a', 't', 'i', 'o', 'n'];
        let object = vec!['o', 'b', 'j', 'e', 'c', 't'];
        assert(format@ == kw_format() && ascii@ == kw_ascii() && binary@ == kw_binary());
        assert(class@ == kw_class() && location@ == kw_location() && object@ == kw_object());
        let format_ok = match text_value(&named, &format) {
            Some(t) => {
                let tc = chars_of(t.as_str());
                crate::text::same_chars(&tc, &ascii) || crate::text::same_chars(&tc, &binary)
            },
            None => false,
        };
        if !format_ok {
            return None;
        }
        let k_class = string_of_chars(&class);
        let k_location = string_of_chars(&location);
        let k_object = string_of_chars(&object);
        if named.index_of(&k_class).is_none() || named.index_of(&k_location).is_none()
            || named.index_of(&k_object).is_none() {
            return None;
        }
        Some((FoamFile(named), e))
    }

    /// Reads a header at the start of `input`; returns what follows it, and the header.
    pub fn parse(input: &str) -> (r: Result<(String, FoamFile), ParseError>)
        ensures
            match header_at(input@, 0) {
                Some((es, e)) => if header_valid(es) {
                    r matches Ok((rest, h)) && h.entries() == es && rest@ == input@.subrange(
                        e,
                        input@.len() as int,
                    )
                } else {
                    r is Err
                },
                None => r is Err,
            },
    {
        let s = chars_of(input);
        match FoamFile::parse_at(&s, 0) {
            Some((h, e)) => Ok((rest_of(&s, e), h)),
            None => Err(ParseError { position: 0 }),
        }
    }

    /// Whether the format tag is `binary`.
    pub fn is_binary(&self) -> (r: bool)
        ensures
            r == (text_entry(self.entries(), kw_format()) == Some(kw_binary())),
    {
        let format = vec!['f', 'o', 'r', 'm', 'a', 't'];
        let binary = vec!['b', 'i', 'n', 'a', 'r', 'y'];
        assert(format@ == kw_format() && binary@ == kw_binary());
        match text_value(&self.0, &format) {
            Some(t) => {
                let tc = chars_of(t.as_str());
                crate::text::same_chars(&tc, &binary)
            },
            None => false,
        }
    }

    /// The path of the file relative to the case directory, `location/object`, when the
    /// header binds both to texts; double quotes around them are left out.
    pub fn relative_file_path(&self) -> (r: Option<String>)
        ensures
            match relative_path(self.entries()) {
                Some(p) => r matches Some(x) && x@ == p,
                None => r is None,
            },
    {
        let location = vec!['l', 'o', 'c', 'a', 't', 'i', 'o', 'n'];
        let object = vec!['o', 'b', 'j', 'e', 'c', 't'];
        assert(location@ == kw_location() && object@ == kw_object());
        match (text_value(&self.0, &location), text_value(&self.0, &object)) {
            (Some(l), Some(o)) => {
                let mut out: Vec<char> = Vec::new();
                push_unquoted(&mut out, l);
                out.push('/');
                push_unquoted(&mut out, o);
                Some(string_of_chars(&out))
            },
            _ => None,
        }
    }

    /// The text of the header: `FoamFile`, then its entries within braces.
    pub fn write(&self) -> (r: String)
        ensures
            r@ == structure_text(kw_foam_file(), self.entries()),
    {
        let mut out: Vec<char> = Vec::new();
        let head = vec!['F', 'o', 'a', 'm', 'F', 'i', 'l', 'e', '\n', '{', '\n'];
        push_chars(&mut out, &head);
        self.0.write_entries_to(&mut out);
        out.push('}');
        out.push('\n');
        assert(out@ =~= structure_text(kw_foam_file(), self.entries()));
        string_of_chars(&out)
    }
}

} // verus!
