use vstd::prelude::*;
use crate::field::{field_at, field_text, FieldView, FoamField};
use crate::writer::{nat_text, push_chars, push_lines, push_str, push_usize, single_data_text, string_of_chars};
use crate::text::{
    char_after_skip, digits_value, find_char, has_at, is_float_literal, is_integer_literal,
    reads_as_integer, integer_value, integer_span,
    is_space, usize_at, word_at, ws_end, skip_end, expect_after_skip, expect_after_ws, find,
    float_literal, has_text_at, integer_in, read_usize, read_word, skip_insignificant, skip_space,
    slice_chars, string_of, char_is_space, chars_of, rest_of, ParseError,
};

verus! {

/// A value of the dictionary format.
#[derive(Debug, PartialEq)]
pub enum FoamValue {
    String(String),
    Integer(usize),
    /// A number in decimal notation, as written.
    Float(String),
    Field(FoamField),
    List(Vec<String>),
    Structure(FoamStructure),
}

/// An ordered map from keys to values, with an optional name. The entries stand in a `Vec`
/// in the order of insertion, with distinct keys (see `insert`): the value tree recurses
/// through this map, and Verus refuses `indexmap::IndexMap<String, FoamValue>` once declared
/// (the tree would use itself "in a non-positive position"), while a map hidden in an opaque
/// struct leaves the recursive spec functions over the tree without a termination measure.
#[derive(Debug, PartialEq)]
pub struct FoamStructure {
    pub name: String,
    pub content: Vec<(String, FoamValue)>,
}

/// What a value holds, as plain sequences.
pub enum ValueView {
    Text(Seq<char>),
    Integer(nat),
    Float(Seq<char>),
    Field(FieldView),
    List(Seq<Seq<char>>),
    Structure(Seq<char>, Seq<(Seq<char>, ValueView)>),
}

pub open spec fn value_view(v: FoamValue) -> ValueView
    decreases v, 0nat,
{
    match v {
        FoamValue::String(s) => ValueView::Text(s@),
        FoamValue::Integer(n) => ValueView::Integer(n as nat),
        FoamValue::Float(s) => ValueView::Float(s@),
        FoamValue::Field(f) => ValueView::Field(f@),
        FoamValue::List(l) => ValueView::List(crate::writer::views(l@)),
        FoamValue::Structure(st) => ValueView::Structure(
            st.name@,
            entries_view(st.content, st.content@.len() as nat),
        ),
    }
}

pub open spec fn entries_view(c: Vec<(String, FoamValue)>, n: nat) -> Seq<(Seq<char>, ValueView)>
    decreases c, n,
{
    if n == 0 || n > c@.len() {
        Seq::empty()
    } else {
        entries_view(c, (n - 1) as nat).push((c@[n - 1].0@, value_view(c@[n - 1].1)))
    }
}


/// `t` without its trailing whitespace.
pub open spec fn trim_end(t: Seq<char>) -> Seq<char>
    decreases t.len(),
{
    if t.len() > 0 && is_space(t.last()) {
        trim_end(t.drop_last())
    } else {
        t
    }
}

/// The position of the entry with key `k`, if there is one.
pub open spec fn key_index(es: Seq<(Seq<char>, ValueView)>, k: Seq<char>) -> Option<int>
    decreases es.len(),
{
    if es.len() == 0 {
        None
    } else {
        match key_index(es.drop_last(), k) {
            Some(i) => Some(i),
            None => if es.last().0 == k {
                Some(es.len() - 1)
            } else {
                None
            },
        }
    }
}

/// Binds `k` to `v`: an existing entry keeps its place and takes the new value; a new key
/// goes to the end.
pub open spec fn entries_insert(es: Seq<(Seq<char>, ValueView)>, k: Seq<char>, v: ValueView) -> Seq<
    (Seq<char>, ValueView),
> {
    match key_index(es, k) {
        Some(i) => es.update(i, (k, v)),
        None => es.push((k, v)),
    }
}

pub open spec fn kw_list_word() -> Seq<char> {
    seq!['L', 'i', 's', 't', '<', 'w', 'o', 'r', 'd', '>']
}

/// `n` words, each after whitespace.
pub open spec fn words_at(s: Seq<char>, p: int, n: nat) -> Option<(Seq<Seq<char>>, int)>
    decreases n,
{
    if n == 0 {
        Some((Seq::empty(), p))
    } else {
        match words_at(s, p, (n - 1) as nat) {
            Some((v, q)) => match word_at(s, ws_end(s, q)) {
                Some((x, e)) => Some((v.push(x), e)),
                None => None,
            },
            None => None,
        }
    }
}

/// A list of words, `List<word> <n>(<w_1> ... <w_n>);`, starting at `p`.
#[verifier::opaque]
pub open spec fn list_at(s: Seq<char>, p: int) -> Option<(Seq<Seq<char>>, int)> {
    if has_at(s, p, kw_list_word()) {
        match usize_at(s, ws_end(s, p + 10)) {
            Some((n, q)) => match char_after_skip(s, q, '(') {
                Some(o) => match words_at(s, o, n) {
                    Some((v, e)) => match char_after_skip(s, e, ')') {
                        Some(c) => match crate::text::char_after_ws(s, c, ';') {
                            Some(f) => Some((v, f)),
                            None => None,
                        },
                        None => None,
                    },
                    None => None,
                },
                None => None,
            },
            None => None,
        }
    } else {
        None
    }
}

/// The value that starts at `q`, just after a key and its whitespace. The first alternative
/// that matches is taken:
/// the text up to the next `;` (without trailing whitespace) as an integer that fits in `usize`,
/// then the same text as a number in decimal notation, then a field, then a list of words, then
/// a block `{ ... }` of entries, and last the text up to the next `;` as it stands.
pub open spec fn value_at(s: Seq<char>, q: int) -> Option<(ValueView, int)>
    decreases s.len() - q, 3nat,
{
    let semi = find_char(s, q, ';');
    let span = match semi {
        Some(e) => trim_end(s.subrange(q, e)),
        None => Seq::empty(),
    };
    if semi is Some && reads_as_integer(span) {
        Some((ValueView::Integer(integer_value(span)), semi->0 + 1))
    } else if semi is Some && is_float_literal(span) {
        Some((ValueView::Float(span), semi->0 + 1))
    } else {
        match field_at(s, q) {
            Some((f, e)) => Some((ValueView::Field(f), e)),
            None => match list_at(s, q) {
                Some((l, e)) => Some((ValueView::List(l), e)),
                None => match block_at(s, q) {
                    Some((es, e)) => Some((ValueView::Structure(Seq::empty(), es), e)),
                    None => match semi {
                        Some(e) => Some((ValueView::Text(s.subrange(q, e)), e + 1)),
                        None => None,
                    },
                },
            },
        }
    }
}

/// A block: `{`, entries, `}`, each brace after insignificant text.
pub open spec fn block_at(s: Seq<char>, q: int) -> Option<(Seq<(Seq<char>, ValueView)>, int)>
    decreases s.len() - q, 2nat,
{
    match char_after_skip(s, q, '{') {
        Some(o) => if q < o <= s.len() {
            let (es, e) = entries_at(s, o, Seq::empty());
            match char_after_skip(s, e, '}') {
                Some(c) => Some((es, c)),
                None => None,
            }
        } else {
            None
        },
        None => None,
    }
}

/// As many entries as follow `p`, bound one after the other into `acc`; with the position
/// after the last one.
pub open spec fn entries_at(s: Seq<char>, p: int, acc: Seq<(Seq<char>, ValueView)>) -> (Seq<
    (Seq<char>, ValueView),
>, int)
    decreases s.len() - p, 1nat,
{
    match entry_at(s, p) {
        Some((k, v, e)) => if p < e <= s.len() {
            entries_at(s, e, entries_insert(acc, k, v))
        } else {
            (acc, p)
        },
        None => (acc, p),
    }
}

/// An entry: a key after insignificant text, then its value after whitespace. A block bound
/// to a key takes the key as its name.
pub open spec fn entry_at(s: Seq<char>, p: int) -> Option<(Seq<char>, ValueView, int)>
    decreases s.len() - p, 0nat,
{
    match word_at(s, skip_end(s, p)) {
        Some((k, q1)) => {
            let q2 = ws_end(s, q1);
            if p < q2 <= s.len() {
                match value_at(s, q2) {
                    Some((v, e)) => match v {
                        ValueView::Structure(_, es) => Some((k, ValueView::Structure(k, es), e)),
                        _ => Some((k, v, e)),
                    },
                    None => None,
                }
            } else {
                None
            }
        },
        None => None,
    }
}


pub proof fn lemma_entries_view(c: Vec<(String, FoamValue)>, n: nat)
    requires
        n <= c@.len(),
    ensures
        entries_view(c, n).len() == n,
        forall|j: int|
            0 <= j < n ==> #[trigger] entries_view(c, n)[j] == (c@[j].0@, value_view(c@[j].1)),
    decreases n,
{
    if n > 0 {
        lemma_entries_view(c, (n - 1) as nat);
    }
}

pub proof fn lemma_key_index(es: Seq<(Seq<char>, ValueView)>, k: Seq<char>)
    ensures
        match key_index(es, k) {
            Some(i) => 0 <= i < es.len() && es[i].0 == k && forall|j: int|
                0 <= j < i ==> (#[trigger] es[j]).0 != k,
            None => forall|j: int| 0 <= j < es.len() ==> (#[trigger] es[j]).0 != k,
        },
    decreases es.len(),
{
    if es.len() > 0 {
        lemma_key_index(es.drop_last(), k);
        let d = es.drop_last();
        assert(forall|j: int| 0 <= j < d.len() ==> d[j] == es[j]);
    }
}

impl FoamStructure {
    /// The entries, in order.
    pub open spec fn entries(&self) -> Seq<(Seq<char>, ValueView)> {
        entries_view(self.content, self.content@.len() as nat)
    }

    /// An empty structure with the given name.
    pub fn new(name: String) -> (r: FoamStructure)
        ensures
            r.name == name,
            r.entries() == Seq::<(Seq<char>, ValueView)>::empty(),
    {
        FoamStructure { name, content: Vec::new() }
    }

    /// The number of entries.
    pub fn len(&self) -> (r: usize)
        ensures
            r == self.entries().len(),
    {
        proof {
            lemma_entries_view(self.content, self.content@.len() as nat);
        }
        self.content.len()
    }

    /// The position of the entry with key `key`.
    #[verifier::rlimit(60)]
    pub fn index_of(&self, key: &String) -> (r: Option<usize>)
        ensures
            r matches Some(i) ==> key_index(self.entries(), key@) == Some(i as int),
            r is None <==> key_index(self.entries(), key@) is None,
    {
        let ghost es = self.entries();
        proof {
            lemma_entries_view(self.content, self.content@.len() as nat);
            lemma_key_index(es, key@);
        }
        let mut i: usize = 0;
        while i < self.content.len()
            invariant
                i <= self.content@.len(),
                es == self.entries(),
                es.len() == self.content@.len(),
                forall|j: int| 0 <= j < i ==> (#[trigger] es[j]).0 != key@,
            decreases self.content.len() - i,
        {
            proof {
                lemma_entries_view(self.content, self.content@.len() as nat);
                assert(es[i as int] == (self.content@[i as int].0@, value_view(self.content@[i as int].1)));
            }
            if self.content[i].0 == *key {
                proof {
                    lemma_key_index(es, key@);
                    assert(es[i as int].0 == key@);
                }
                return Some(i);
            }
            i = i + 1;
        }
        proof {
            lemma_key_index(es, key@);
        }
        None
    }

    /// The value bound to `key`, if any.
    pub fn get(&self, key: &String) -> (r: Option<&FoamValue>)
        ensures
            match key_index(self.entries(), key@) {
                Some(i) => r matches Some(v) && value_view(*v) == self.entries()[i].1,
                None => r is None,
            },
    {
        proof {
            lemma_entries_view(self.content, self.content@.len() as nat);
            lemma_key_index(self.entries(), key@);
        }
        match self.index_of(key) {
            Some(i) => {
                assert(key_index(self.entries(), key@) == Some(i as int));
                assert(self.entries()[i as int] == (self.content@[i as int].0@, value_view(
                    self.content@[i as int].1,
                )));
                Some(&self.content[i].1)
            },
            None => None,
        }
    }

    /// Binds `key` to `value`: an existing key keeps its place and takes the new value, a new key
    /// goes to the end.
    #[verifier::rlimit(60)]
    pub fn insert(&mut self, key: String, value: FoamValue)
        ensures
            final(self).name == old(self).name,
            final(self).entries() == entries_insert(old(self).entries(), key@, value_view(value)),
    {
        let ghost old_es = self.entries();
        let ghost k = key@;
        let ghost v = value_view(value);
        proof {
            lemma_entries_view(self.content, self.content@.len() as nat);
            lemma_key_index(old_es, k);
        }
        match self.index_of(&key) {
            Some(i) => {
                assert(key_index(old_es, k) == Some(i as int));
                self.content[i] = (key, value);
                proof {
                    lemma_entries_view(self.content, self.content@.len() as nat);
                    assert(self.entries() =~= old_es.update(i as int, (k, v)));
                }
            },
            None => {
                self.content.push((key, value));
                proof {
                    lemma_entries_view(self.content, self.content@.len() as nat);
                    assert(self.entries() =~= old_es.push((k, v)));
                }
            },
        }
    }
}

/// The end of `s[q..e]` without its trailing whitespace.
pub fn trimmed_end(s: &Vec<char>, q: usize, e: usize) -> (r: usize)
    requires
        q <= e <= s.len(),
    ensures
        q <= r <= e,
        s@.subrange(q as int, r as int) == trim_end(s@.subrange(q as int, e as int)),
{
    let mut b = e;
    while b > q && char_is_space(s[b - 1])
        invariant
            q <= b <= e <= s.len(),
            trim_end(s@.subrange(q as int, b as int)) == trim_end(s@.subrange(q as int, e as int)),
        decreases b,
    {
        assert(s@.subrange(q as int, b as int).drop_last() =~= s@.subrange(q as int, b - 1));
        b = b - 1;
    }
    b
}

pub proof fn lemma_words_none(s: Seq<char>, p: int, i: nat, n: nat)
    requires
        i < n,
        words_at(s, p, (i + 1) as nat) is None,
    ensures
        words_at(s, p, n) is None,
    decreases n,
{
    if n > i + 1 {
        lemma_words_none(s, p, i, (n - 1) as nat);
    }
}

/// Reads `n` words: see `words_at`.
#[verifier::rlimit(60)]
pub fn read_words(s: &Vec<char>, p: usize, n: usize) -> (r: Option<(Vec<String>, usize)>)
    requires
        p <= s.len(),
    ensures
        match words_at(s@, p as int, n as nat) {
            Some((v, e)) => r matches Some((w, q)) && crate::writer::views(w@) == v && q == e
                && p <= q <= s.len(),
            None => r is None,
        },
{
    let mut v: Vec<String> = Vec::new();
    let mut q = p;
    let mut i: usize = 0;
    while i < n
        invariant
            i <= n,
            p <= q <= s.len(),
            words_at(s@, p as int, i as nat) == Some((crate::writer::views(v@), q as int)),
        decreases n - i,
    {
        let o = skip_space(s, q);
        match read_word(s, o) {
            Some((x, e)) => {
                let ghost old_v = v@;
                v.push(string_of(x.as_slice()));
                assert(crate::writer::views(v@) =~= crate::writer::views(old_v).push(x@));
                q = e;
            },
            None => {
                proof {
                    lemma_words_none(s@, p as int, i as nat, n as nat);
                }
                return None;
            },
        }
        i = i + 1;
    }
    Some((v, q))
}

/// Reads a list of words: see `list_at`.
#[verifier::rlimit(60)]
pub fn read_list(s: &Vec<char>, p: usize) -> (r: Option<(Vec<String>, usize)>)
    requires
        p <= s.len(),
    ensures
        match list_at(s@, p as int) {
            Some((v, e)) => r matches Some((w, q)) && crate::writer::views(w@) == v && q == e
                && p < q <= s.len(),
            None => r is None,
        },
{
    reveal(list_at);
    let kw = vec!['L', 'i', 's', 't', '<', 'w', 'o', 'r', 'd', '>'];
    assert(kw@ == kw_list_word());
    if !has_text_at(s, p, &kw) {
        return None;
    }
    let o = skip_space(s, p + 10);
    let (n, q) = match read_usize(s, o) {
        Some(t) => t,
        None => return None,
    };
    let o2 = match expect_after_skip(s, q, '(') {
        Some(x) => x,
        None => return None,
    };
    let (v, e) = match read_words(s, o2, n) {
        Some(t) => t,
        None => return None,
    };
    let c = match expect_after_skip(s, e, ')') {
        Some(x) => x,
        None => return None,
    };
    match expect_after_ws(s, c, ';') {
        Some(f) => Some((v, f)),
        None => None,
    }
}

impl FoamValue {
    /// Reads the value that starts at `q`: see `value_at`.
    #[verifier::rlimit(60)]
    pub fn parse_at(s: &Vec<char>, q: usize) -> (r: Option<(FoamValue, usize)>)
        requires
            q <= s.len(),
        ensures
            match value_at(s@, q as int) {
                Some((v, e)) => r matches Some((w, k)) && value_view(w) == v && k == e && q < k
                    <= s.len(),
                None => r is None,
            },
        decreases s.len() - q, 3nat,
    {
        proof {
            crate::text::lemma_find_char_bounds(s@, q as int, ';');
        }
        let semi = find(s, q, ';');
        match semi {
            Some(e) => {
                let b = trimmed_end(s, q, e);
                match integer_span(s, q, b) {
                    Some(n) => {
                        return Some((FoamValue::Integer(n), e + 1));
                    },
                    None => {},
                }
                let span = slice_chars(s, q, b);
                if float_literal(&span) {
                    return Some((FoamValue::Float(string_of(span.as_slice())), e + 1));
                }
            },
            None => {},
        }
        match FoamField::parse_at(s, q) {
            Some((f, e)) => {
                return Some((FoamValue::Field(f), e));
            },
            None => {},
        }
        match read_list(s, q) {
            Some((l, e)) => {
                return Some((FoamValue::List(l), e));
            },
            None => {},
        }
        match FoamStructure::parse_block_at(s, q) {
            Some((st, e)) => {
                return Some((FoamValue::Structure(st), e));
            },
            None => {},
        }
        match semi {
            Some(e) => {
                let t = slice_chars(s, q, e);
                Some((FoamValue::String(string_of(t.as_slice())), e + 1))
            },
            None => None,
        }
    }

    /// Reads an entry: see `entry_at`.
    #[verifier::rlimit(60)]
    pub fn parse_pair_at(s: &Vec<char>, p: usize) -> (r: Option<(String, FoamValue, usize)>)
        requires
            p <= s.len(),
        ensures
            match entry_at(s@, p as int) {
                Some((k, v, e)) => r matches Some((kk, w, q)) && kk@ == k && value_view(w) == v
                    && q == e && p < q <= s.len(),
                None => r is None,
            },
        decreases s.len() - p, 0nat,
    {
        let o = skip_insignificant(s, p);
        let (k, q1) = match read_word(s, o) {
            Some(t) => t,
            None => return None,
        };
        let q2 = skip_space(s, q1);
        match FoamValue::parse_at(s, q2) {
            Some((v, e)) => {
                let key = string_of(k.as_slice());
                match v {
                    FoamValue::Structure(st) => {
                        let named = FoamStructure { name: string_of(k.as_slice()), content: st.content };
                        Some((key, FoamValue::Structure(named), e))
                    },
                    _ => Some((key, v, e)),
                }
            },
            None => None,
        }
    }
}

impl FoamStructure {
    /// Reads entries for as long as they follow: see `entries_at`.
    #[verifier::rlimit(60)]
    pub fn parse_entries_at(s: &Vec<char>, p: usize) -> (r: (FoamStructure, usize))
        requires
            p <= s.len(),
        ensures
            entries_at(s@, p as int, Seq::empty()) == (r.0.entries(), r.1 as int),
            r.0.name@ == Seq::<char>::empty(),
            p <= r.1 <= s.len(),
        decreases s.len() - p, 1nat,
    {
        let mut st = FoamStructure::new(String::new());
        let mut q = p;
        loop
            invariant
                p <= q <= s.len(),
                entries_at(s@, p as int, Seq::empty()) == entries_at(s@, q as int, st.entries()),
                st.name@ == Seq::<char>::empty(),
            decreases s.len() - q,
        {
            match FoamValue::parse_pair_at(s, q) {
                Some((k, v, e)) => {
                    st.insert(k, v);
                    q = e;
                },
                None => {
                    return (st, q);
                },
            }
        }
    }

    /// Reads a block `{ ... }`: see `block_at`.
    pub fn parse_block_at(s: &Vec<char>, q: usize) -> (r: Option<(FoamStructure, usize)>)
        requires
            q <= s.len(),
        ensures
            match block_at(s@, q as int) {
                Some((es, e)) => r matches Some((st, k)) && st.entries() == es && st.name@
                    == Seq::<char>::empty() && k == e && q < k <= s.len(),
                None => r is None,
            },
        decreases s.len() - q, 2nat,
    {
        let o = match expect_after_skip(s, q, '{') {
            Some(x) => x,
            None => return None,
        };
        let (st, e) = FoamStructure::parse_entries_at(s, o);
        match expect_after_skip(s, e, '}') {
            Some(c) => Some((st, c)),
            None => None,
        }
    }
}


/// The text of a value as it follows its key: a value with its closing `;` and a line break, or
/// a block of entries within braces.
pub open spec fn value_text(v: ValueView) -> Seq<char>
    decreases v, 0nat,
{
    match v {
        ValueView::Text(t) => t + seq![';', '\n'],
        ValueView::Integer(n) => nat_text(n) + seq![';', '\n'],
        ValueView::Float(t) => t + seq![';', '\n'],
        ValueView::Field(f) => field_text(f) + seq![';', '\n'],
        ValueView::List(l) => kw_list_word() + seq![' '] + single_data_text(l) + seq![';', '\n'],
        ValueView::Structure(_, es) => seq!['\n', '{', '\n'] + entries_text(es, es.len()) + seq![
            '}',
            '\n',
        ],
    }
}

/// The first `n` entries, each as its key, a space and the text of its value.
pub open spec fn entries_text(es: Seq<(Seq<char>, ValueView)>, n: nat) -> Seq<char>
    decreases es, n,
{
    if n == 0 || n > es.len() {
        Seq::empty()
    } else {
        entries_text(es, (n - 1) as nat) + es[n - 1].0 + seq![' '] + value_text(es[n - 1].1)
    }
}

/// The text of a named structure: its name on a line, then its entries within braces.
pub open spec fn structure_text(name: Seq<char>, es: Seq<(Seq<char>, ValueView)>) -> Seq<char> {
    name + seq!['\n', '{', '\n'] + entries_text(es, es.len()) + seq!['}', '\n']
}

impl FoamValue {
    /// Appends the text of the value: see `value_text`.
    #[verifier::rlimit(60)]
    pub fn write_to(&self, out: &mut Vec<char>)
        ensures
            final(out)@ == old(out)@ + value_text(value_view(*self)),
        decreases *self,
    {
        let ghost start = out@;
        match self {
            FoamValue::String(t) => {
                push_str(out, t.as_str());
                out.push(';');
                out.push('\n');
            },
            FoamValue::Integer(n) => {
                push_usize(out, *n);
                out.push(';');
                out.push('\n');
            },
            FoamValue::Float(t) => {
                push_str(out, t.as_str());
                out.push(';');
                out.push('\n');
            },
            FoamValue::Field(f) => {
                f.write_to(out);
                out.push(';');
                out.push('\n');
            },
            FoamValue::List(l) => {
                let kw = vec!['L', 'i', 's', 't', '<', 'w', 'o', 'r', 'd', '>', ' '];
                push_chars(out, &kw);
                push_usize(out, l.len());
                out.push('\n');
                out.push('(');
                out.push('\n');
                push_lines(out, l);
                out.push(')');
                out.push('\n');
                out.push(';');
                out.push('\n');
            },
            FoamValue::Structure(st) => {
                out.push('\n');
                out.push('{');
                out.push('\n');
                st.write_entries_to(out);
                out.push('}');
                out.push('\n');
            },
        }
        assert(out@ =~= start + value_text(value_view(*self)));
    }

    /// The text of the value: see `value_text`.
    pub fn write(&self) -> (r: String)
        ensures
            r@ == value_text(value_view(*self)),
    {
        let mut out: Vec<char> = Vec::new();
        self.write_to(&mut out);
        assert(out@ =~= value_text(value_view(*self)));
        string_of_chars(&out)
    }
}

impl FoamStructure {
    /// Appends the text of the entries: see `entries_text`.
    #[verifier::rlimit(60)]
    pub fn write_entries_to(&self, out: &mut Vec<char>)
        ensures
            final(out)@ == old(out)@ + entries_text(self.entries(), self.entries().len()),
        decreases *self,
    {
        let ghost start = out@;
        let ghost es = self.entries();
        proof {
            lemma_entries_view(self.content, self.content@.len() as nat);
        }
        let mut i: usize = 0;
        while i < self.content.len()
            invariant
                i <= self.content@.len(),
                es == self.entries(),
                es.len() == self.content@.len(),
                out@ == start + entries_text(es, i as nat),
            decreases self.content.len() - i,
        {
            proof {
                lemma_entries_view(self.content, self.content@.len() as nat);
                assert(es[i as int] == (self.content@[i as int].0@, value_view(self.content@[i as int].1)));
                assert(decreases_to!(self.content => self.content@[i as int]));
            }
            push_str(out, self.content[i].0.as_str());
            out.push(' ');
            self.content[i].1.write_to(out);
            i = i + 1;
            assert(out@ =~= start + entries_text(es, i as nat));
        }
    }

    /// The text of the structure: its name on a line, then its entries within braces.
    pub fn write(&self) -> (r: String)
        ensures
            r@ == structure_text(self.name@, self.entries()),
    {
        let mut out: Vec<char> = Vec::new();
        push_str(&mut out, self.name.as_str());
        out.push('\n');
        out.push('{');
        out.push('\n');
        self.write_entries_to(&mut out);
        out.push('}');
        out.push('\n');
        assert(out@ =~= structure_text(self.name@, self.entries()));
        string_of_chars(&out)
    }
}


/// A named structure: its name (a word after insignificant text), then a block.
pub open spec fn named_structure_at(s: Seq<char>, p: int) -> Option<
    (Seq<char>, Seq<(Seq<char>, ValueView)>, int),
> {
    match word_at(s, skip_end(s, p)) {
        Some((n, q)) => match block_at(s, q) {
            Some((es, e)) => Some((n, es, e)),
            None => None,
        },
        None => None,
    }
}

impl FoamStructure {
    /// Reads a named structure at `p`: see `named_structure_at`.
    pub fn parse_named_at(s: &Vec<char>, p: usize) -> (r: Option<(FoamStructure, usize)>)
        requires
            p <= s.len(),
        ensures
            match named_structure_at(s@, p as int) {
                Some((n, es, e)) => r matches Some((st, q)) && st.name@ == n && st.entries() == es
                    && q == e && p < q <= s.len(),
                None => r is None,
            },
    {
        let o = skip_insignificant(s, p);
        let (n, q) = match read_word(s, o) {
            Some(t) => t,
            None => return None,
        };
        match FoamStructure::parse_block_at(s, q) {
            Some((st, e)) => Some((FoamStructure { name: string_of(n.as_slice()), content: st.content }, e)),
            None => None,
        }
    }

    /// Reads a named structure, `name { key value; ... }`, at the start of `input`; returns what
    /// follows it, and the structure.
    pub fn parse(input: &str) -> (r: Result<(String, FoamStructure), ParseError>)
        ensures
            match named_structure_at(input@, 0) {
                Some((n, es, e)) => r matches Ok((rest, st)) && st.name@ == n && st.entries() == es
                    && rest@ == input@.subrange(e, input@.len() as int),
                None => r is Err,
            },
    {
        let s = chars_of(input);
        let o = skip_insignificant(&s, 0);
        let (n, q) = match read_word(&s, o) {
            Some(t) => t,
            None => return Err(ParseError { position: o }),
        };
        match FoamStructure::parse_block_at(&s, q) {
            Some((st, e)) => {
                let named = FoamStructure { name: string_of(n.as_slice()), content: st.content };
                Ok((rest_of(&s, e), named))
            },
            None => Err(ParseError { position: q }),
        }
    }

    /// Reads a block `{ key value; ... }` at the start of `input`; returns what follows it, and
    /// the structure, without a name.
    pub fn parse_content(input: &str) -> (r: Result<(String, FoamStructure), ParseError>)
        ensures
            match block_at(input@, 0) {
                Some((es, e)) => r matches Ok((rest, st)) && st.name@ == Seq::<char>::empty()
                    && st.entries() == es && rest@ == input@.subrange(e, input@.len() as int),
                None => r is Err,
            },
    {
        let s = chars_of(input);
        match FoamStructure::parse_block_at(&s, 0) {
            Some((st, e)) => Ok((rest_of(&s, e), st)),
            None => Err(ParseError { position: 0 }),
        }
    }
}

impl FoamValue {
    /// Reads a value at the start of `input`, after whitespace: see `value_at`. Returns what
    /// follows it, and the value.
    pub fn parse(input: &str) -> (r: Result<(String, FoamValue), ParseError>)
        ensures
            match value_at(input@, ws_end(input@, 0)) {
                Some((v, e)) => r matches Ok((rest, w)) && value_view(w) == v && rest@
                    == input@.subrange(e, input@.len() as int),
                None => r is Err,
            },
    {
        let s = chars_of(input);
        let q = skip_space(&s, 0);
        match FoamValue::parse_at(&s, q) {
            Some((v, e)) => Ok((rest_of(&s, e), v)),
            None => Err(ParseError { position: q }),
        }
    }

    /// Reads entries, `key value; ...`, for as long as they follow from the start of `input`;
    /// returns what follows them, and the entries as a structure without a name.
    pub fn parse_map(input: &str) -> (r: (String, FoamStructure))
        ensures
            ({
                let (es, e) = entries_at(input@, 0, Seq::empty());
                &&& r.1.entries() == es
                &&& r.1.name@ == Seq::<char>::empty()
                &&& r.0@ == input@.subrange(e, input@.len() as int)
            }),
    {
        let s = chars_of(input);
        let (st, e) = FoamStructure::parse_entries_at(&s, 0);
        (rest_of(&s, e), st)
    }
}

impl FoamField {
    /// Reads a field at the start of `input`, up to and including its `;`: see `field_at`.
    /// Returns what follows it, and the field.
    pub fn parse(input: &str) -> (r: Result<(String, FoamField), ParseError>)
        ensures
            match field_at(input@, 0) {
                Some((f, e)) => r matches Ok((rest, g)) && g@ == f && g.well_formed() && rest@ == input@.subrange(
                    e,
                    input@.len() as int,
                ),
                None => r is Err,
            },
    {
        let s = chars_of(input);
        match FoamField::parse_at(&s, 0) {
            Some((f, e)) => Ok((rest_of(&s, e), f)),
            None => Err(ParseError { position: 0 }),
        }
    }
}


impl FoamValue {
    /// A deep copy of the value.
    pub fn deep_copy(&self) -> (r: FoamValue)
        ensures
            value_view(r) == value_view(*self),
        decreases *self,
    {
        match self {
            FoamValue::String(t) => FoamValue::String(t.clone()),
            FoamValue::Integer(n) => FoamValue::Integer(*n),
            FoamValue::Float(t) => FoamValue::Float(t.clone()),
            FoamValue::Field(f) => FoamValue::Field(f.deep_copy()),
            FoamValue::List(l) => FoamValue::List(crate::writer::copy_strings(l)),
            FoamValue::Structure(st) => FoamValue::Structure(st.deep_copy()),
        }
    }
}

impl FoamStructure {
    /// A deep copy of the structure.
    #[verifier::rlimit(60)]
    pub fn deep_copy(&self) -> (r: FoamStructure)
        ensures
            r.name@ == self.name@,
            r.entries() == self.entries(),
        decreases *self,
    {
        let mut content: Vec<(String, FoamValue)> = Vec::new();
        let ghost es = self.entries();
        proof {
            lemma_entries_view(self.content, self.content@.len() as nat);
        }
        let mut i: usize = 0;
        while i < self.content.len()
            invariant
                i <= self.content@.len(),
                es == self.entries(),
                es.len() == self.content@.len(),
                content@.len() == i,
                entries_view(content, i as nat) == es.take(i as int),
            decreases self.content.len() - i,
        {
            proof {
                lemma_entries_view(self.content, self.content@.len() as nat);
                assert(es[i as int] == (self.content@[i as int].0@, value_view(self.content@[i as int].1)));
                assert(decreases_to!(self.content => self.content@[i as int]));
            }
            let k = self.content[i].0.clone();
            let v = self.content[i].1.deep_copy();
            let ghost before = content;
            content.push((k, v));
            proof {
                lemma_entries_view(content, (i + 1) as nat);
                lemma_entries_view(before, i as nat);
                assert(entries_view(content, (i + 1) as nat) =~= es.take(i + 1));
            }
            i = i + 1;
        }
        assert(es.take(i as int) =~= es);
        FoamStructure { name: self.name.clone(), content }
    }
}


impl Clone for FoamValue {
    fn clone(&self) -> (r: FoamValue)
        ensures
            value_view(r) == value_view(*self),
    {
        self.deep_copy()
    }
}

impl Clone for FoamStructure {
    fn clone(&self) -> (r: FoamStructure)
        ensures
            r.name@ == self.name@,
            r.entries() == self.entries(),
    {
        self.deep_copy()
    }
}

} // verus!
