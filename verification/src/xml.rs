//! The markup of a compiled SLEIGH specification, read as a sequence of tags.
//!
//! A tag is `<name attr="value" ...>`, `<name attr="value" .../>` or `</name>`: a name
//! starts with a letter, `_` or `.` and goes on with letters, digits, `_` and `.`; each
//! attribute follows one space; a value runs to the next `"`. Whitespace separates tags;
//! any other text between them is refused.
use vstd::prelude::*;
use crate::text::{chars_of, string_of_range};

verus! {

/// Whether a tag opens an element, is an empty element, or closes one.
#[derive(PartialEq, Eq, Structural, Clone, Copy, Debug)]
pub enum TagKind {
    Open,
    Empty,
    Close,
}

/// One tag: its kind, its name and its attributes in the order written.
#[derive(Clone, Debug)]
pub struct XmlTag {
    pub kind: TagKind,
    pub name: String,
    pub attrs: Vec<(String, String)>,
}

/// A tag as characters: kind, name, and (name, value) pairs.
pub type TagV = (TagKind, Seq<char>, Seq<(Seq<char>, Seq<char>)>);

/// An attribute as characters.
pub open spec fn attr_view(a: (String, String)) -> (Seq<char>, Seq<char>) {
    (a.0@, a.1@)
}

impl View for XmlTag {
    type V = TagV;

    open spec fn view(&self) -> TagV {
        (self.kind, self.name@, self.attrs@.map_values(|a: (String, String)| attr_view(a)))
    }
}

/// The tags as characters.
pub open spec fn tags_view(toks: Seq<XmlTag>) -> Seq<TagV> {
    toks.map_values(|t: XmlTag| t@)
}

/// Whitespace between tags.
pub open spec fn is_ws(c: char) -> bool {
    c == ' ' || c == '\t' || c == '\n' || c == '\r'
}

/// The first character of a name.
pub open spec fn is_name_start(c: char) -> bool {
    ('a' <= c && c <= 'z') || ('A' <= c && c <= 'Z') || c == '_' || c == '.'
}

/// A character of a name.
pub open spec fn is_name_char(c: char) -> bool {
    is_name_start(c) || ('0' <= c && c <= '9')
}

/// Where the run of name characters from `i` ends.
pub open spec fn spec_name_end(s: Seq<char>, i: int) -> int
    decreases s.len() - i,
{
    if 0 <= i < s.len() && is_name_char(s[i]) {
        spec_name_end(s, i + 1)
    } else {
        i
    }
}

/// Where a name that starts at `i` ends, if a name starts there.
pub open spec fn spec_name(s: Seq<char>, i: int) -> Option<int> {
    if 0 <= i < s.len() && is_name_start(s[i]) {
        Some(spec_name_end(s, i + 1))
    } else {
        None
    }
}

/// The position of the first `"` from `i`, or the end of the text.
pub open spec fn spec_quote_end(s: Seq<char>, i: int) -> int
    decreases s.len() - i,
{
    if 0 <= i < s.len() && s[i] != '"' {
        spec_quote_end(s, i + 1)
    } else {
        i
    }
}

/// The attributes written from `i` (each after one space), and where they end.
pub open spec fn spec_attrs(s: Seq<char>, i: int) -> Option<(Seq<(Seq<char>, Seq<char>)>, int)>
    decreases s.len() - i,
{
    if 0 <= i < s.len() && s[i] == ' ' {
        match spec_name(s, i + 1) {
            None => None,
            Some(n) => {
                if n + 1 < s.len() && s[n] == '=' && s[n + 1] == '"' {
                    let q = spec_quote_end(s, n + 2);
                    if n + 2 <= q < s.len() && i < n {
                        match spec_attrs(s, q + 1) {
                            Some((rest, m)) => Some(
                                (seq![(s.subrange(i + 1, n), s.subrange(n + 2, q))] + rest, m),
                            ),
                            None => None,
                        }
                    } else {
                        None
                    }
                } else {
                    None
                }
            },
        }
    } else {
        Some((seq![], i))
    }
}

/// The tag that starts with the `<` at `i`, and where it ends.
pub open spec fn spec_tag(s: Seq<char>, i: int) -> Option<(TagV, int)> {
    if s.len() - i > 1 && s[i + 1] == '/' {
        match spec_name(s, i + 2) {
            Some(n) => if n < s.len() && s[n] == '>' {
                Some(((TagKind::Close, s.subrange(i + 2, n), seq![]), n + 1))
            } else {
                None
            },
            None => None,
        }
    } else {
        match spec_name(s, i + 1) {
            Some(n) => match spec_attrs(s, n) {
                Some((a, m)) => if m < s.len() && s.len() - m > 1 && s[m] == '/' && s[m + 1] == '>' {
                    Some(((TagKind::Empty, s.subrange(i + 1, n), a), m + 2))
                } else if m < s.len() && s[m] == '>' {
                    Some(((TagKind::Open, s.subrange(i + 1, n), a), m + 1))
                } else {
                    None
                },
                None => None,
            },
            None => None,
        }
    }
}

/// The tags of the text from `i` on; `None` where anything but whitespace and tags
/// stands there.
pub open spec fn spec_lex(s: Seq<char>, i: int) -> Option<Seq<TagV>>
    decreases s.len() - i,
{
    if i < 0 || i >= s.len() {
        Some(seq![])
    } else if is_ws(s[i]) {
        spec_lex(s, i + 1)
    } else if s[i] == '<' {
        match spec_tag(s, i) {
            Some((t, j)) => if i < j {
                match spec_lex(s, j) {
                    Some(rest) => Some(seq![t] + rest),
                    None => None,
                }
            } else {
                None
            },
            None => None,
        }
    } else {
        None
    }
}

proof fn lemma_name_end(s: Seq<char>, i: int)
    requires
        0 <= i <= s.len(),
    ensures
        i <= spec_name_end(s, i) <= s.len(),
    decreases s.len() - i,
{
    if i < s.len() && is_name_char(s[i]) {
        lemma_name_end(s, i + 1);
    }
}

proof fn lemma_quote_end(s: Seq<char>, i: int)
    requires
        0 <= i <= s.len(),
    ensures
        i <= spec_quote_end(s, i) <= s.len(),
    decreases s.len() - i,
{
    if i < s.len() && s[i] != '"' {
        lemma_quote_end(s, i + 1);
    }
}

proof fn lemma_attrs_end(s: Seq<char>, i: int)
    requires
        0 <= i <= s.len(),
        spec_attrs(s, i) is Some,
    ensures
        i <= spec_attrs(s, i).unwrap().1 <= s.len(),
    decreases s.len() - i,
{
    if 0 <= i < s.len() && s[i] == ' ' {
        let n = spec_name(s, i + 1)->0;
        let q = spec_quote_end(s, n + 2);
        lemma_attrs_end(s, q + 1);
    }
}

fn is_name_start_char(c: char) -> (r: bool)
    ensures
        r == is_name_start(c),
{
    ('a' <= c && c <= 'z') || ('A' <= c && c <= 'Z') || c == '_' || c == '.'
}

fn is_name_char_exec(c: char) -> (r: bool)
    ensures
        r == is_name_char(c),
{
    is_name_start_char(c) || ('0' <= c && c <= '9')
}

fn scan_name(s: &Vec<char>, i: usize) -> (r: Option<usize>)
    requires
        i <= s@.len(),
    ensures
        match spec_name(s@, i as int) {
            Some(n) => r == Some(n as usize) && i < n <= s@.len(),
            None => r is None,
        },
{
    if i >= s.len() || !is_name_start_char(s[i]) {
        return None;
    }
    let mut j: usize = i + 1;
    while j < s.len() && is_name_char_exec(s[j])
        invariant
            i < j <= s@.len(),
            spec_name_end(s@, i + 1) == spec_name_end(s@, j as int),
        decreases s@.len() - j,
    {
        j = j + 1;
    }
    proof {
        lemma_name_end(s@, i + 1);
    }
    Some(j)
}

fn scan_quote(s: &Vec<char>, i: usize) -> (r: usize)
    requires
        i <= s@.len(),
    ensures
        r == spec_quote_end(s@, i as int),
        i <= r <= s@.len(),
{
    let mut j: usize = i;
    while j < s.len() && s[j] != '"'
        invariant
            i <= j <= s@.len(),
            spec_quote_end(s@, i as int) == spec_quote_end(s@, j as int),
        decreases s@.len() - j,
    {
        j = j + 1;
    }
    j
}

fn scan_attrs(s: &Vec<char>, i: usize) -> (r: Option<(Vec<(String, String)>, usize)>)
    requires
        i <= s@.len(),
    ensures
        match spec_attrs(s@, i as int) {
            Some((a, m)) => r is Some && (r.unwrap().0)@.map_values(|x: (String, String)| attr_view(x)) == a
                && r.unwrap().1 == m && i <= m <= s@.len(),
            None => r is None,
        },
{
    let mut acc: Vec<(String, String)> = Vec::new();
    let mut k: usize = i;
    while k < s.len() && s[k] == ' '
        invariant
            i <= k <= s@.len(),
            spec_attrs(s@, i as int) == match spec_attrs(s@, k as int) {
                Some((rest, m)) => Some((acc@.map_values(|x: (String, String)| attr_view(x)) + rest, m)),
                None => None,
            },
        decreases s@.len() - k,
    {
        let n = match scan_name(s, k + 1) {
            Some(n) => n,
            None => return None,
        };
        if !(n < s.len() && s.len() - n > 1 && s[n] == '=' && s[n + 1] == '"') {
            return None;
        }
        let q = scan_quote(s, n + 2);
        if q >= s.len() {
            return None;
        }
        let name = string_of_range(s.as_slice(), k + 1, n);
        let value = string_of_range(s.as_slice(), n + 2, q);
        let ghost old_acc = acc@.map_values(|x: (String, String)| attr_view(x));
        acc.push((name, value));
        proof {
            let av = acc@.map_values(|x: (String, String)| attr_view(x));
            assert(av =~= old_acc.push((s@.subrange(k + 1, n as int), s@.subrange(n + 2, q as int))));
            match spec_attrs(s@, q + 1) {
                Some((rest, m)) => {
                    assert(old_acc + (seq![(s@.subrange(k + 1, n as int), s@.subrange(n + 2, q as int))] + rest)
                        =~= av + rest);
                },
                None => {},
            }
        }
        k = q + 1;
    }
    proof {
        assert(acc@.map_values(|x: (String, String)| attr_view(x)) + seq![] =~= acc@.map_values(
            |x: (String, String)| attr_view(x),
        ));
    }
    Some((acc, k))
}

fn scan_tag(s: &Vec<char>, i: usize) -> (r: Option<(XmlTag, usize)>)
    requires
        i < s@.len(),
        s@[i as int] == '<',
    ensures
        match spec_tag(s@, i as int) {
            Some((t, j)) => r is Some && (r.unwrap().0)@ == t && r.unwrap().1 == j && i < j <= s@.len(),
            None => r is None,
        },
{
    if s.len() - i > 1 && s[i + 1] == '/' {
        let n = match scan_name(s, i + 2) {
            Some(n) => n,
            None => return None,
        };
        if n < s.len() && s[n] == '>' {
            let name = string_of_range(s.as_slice(), i + 2, n);
            let t = XmlTag { kind: TagKind::Close, name, attrs: Vec::new() };
            assert(t@.2 =~= seq![]);
            return Some((t, n + 1));
        }
        return None;
    }
    let n = match scan_name(s, i + 1) {
        Some(n) => n,
        None => return None,
    };
    let (attrs, m) = match scan_attrs(s, n) {
        Some(p) => p,
        None => return None,
    };
    let name = string_of_range(s.as_slice(), i + 1, n);
    if m < s.len() && s.len() - m > 1 && s[m] == '/' && s[m + 1] == '>' {
        Some((XmlTag { kind: TagKind::Empty, name, attrs }, m + 2))
    } else if m < s.len() && s[m] == '>' {
        Some((XmlTag { kind: TagKind::Open, name, attrs }, m + 1))
    } else {
        None
    }
}

/// The tags of a text: `None` where anything but whitespace and well-formed tags
/// stands in it.
pub fn tokenize(input: &str) -> (r: Option<Vec<XmlTag>>)
    ensures
        match spec_lex(input@, 0) {
            Some(ts) => r is Some && tags_view(r->0@) == ts,
            None => r is None,
        },
{
    let s = chars_of(input);
    let mut acc: Vec<XmlTag> = Vec::new();
    let mut i: usize = 0;
    while i < s.len()
        invariant
            s@ == input@,
            i <= s@.len(),
            spec_lex(s@, 0) == match spec_lex(s@, i as int) {
                Some(rest) => Some(tags_view(acc@) + rest),
                None => None,
            },
        decreases s@.len() - i,
    {
        let c = s[i];
        if c == ' ' || c == '\t' || c == '\n' || c == '\r' {
            i = i + 1;
        } else if c == '<' {
            let (t, j) = match scan_tag(&s, i) {
                Some(p) => p,
                None => return None,
            };
            let ghost old_acc = tags_view(acc@);
            acc.push(t);
            proof {
                assert(tags_view(acc@) =~= old_acc.push(t@));
                match spec_lex(s@, j as int) {
                    Some(rest) => {
                        assert(old_acc + (seq![t@] + rest) =~= tags_view(acc@) + rest);
                    },
                    None => {},
                }
            }
            i = j;
        } else {
            return None;
        }
    }
    proof {
        assert(tags_view(acc@) + seq![] =~= tags_view(acc@));
    }
    Some(acc)
}

} // verus!
