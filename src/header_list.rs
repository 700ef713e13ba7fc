//! An ordered list of HTTP headers with case-insensitive names.
//!
//! Names are compared exactly, so they are stored in lower case: the public
//! methods take a name as text, accept it only where it is a valid token,
//! and lower-case it; they accept only values without control characters
//! other than horizontal tab. Setting a name replaces every value it had.

use vstd::prelude::*;

use crate::text::{chars_eq, chars_of, string_of};

verus! {

/// A character that may stand in a header name.
pub open spec fn token_char(c: char) -> bool {
    ||| ('a' <= c <= 'z')
    ||| ('A' <= c <= 'Z')
    ||| ('0' <= c <= '9')
    ||| c == '!' || c == '#' || c == '$' || c == '%' || c == '&' || c == '\'' || c == '*'
    ||| c == '+' || c == '-' || c == '.' || c == '^' || c == '_' || c == '`' || c == '|'
    ||| c == '~'
}

/// A character in lower case, for ASCII letters.
pub open spec fn ascii_lower(c: char) -> char {
    if 'A' <= c <= 'Z' {
        ((c as u32) + 32) as char
    } else {
        c
    }
}

/// The header name that `s` stands for: `s` in lower case, where `s` is a
/// non-empty token of at most 65535 characters.
pub open spec fn header_name_of(s: Seq<char>) -> Option<Seq<char>> {
    if 0 < s.len() <= 65535 && forall|i: int| 0 <= i < s.len() ==> token_char(s[i]) {
        Some(s.map_values(|c: char| ascii_lower(c)))
    } else {
        None
    }
}

/// A character that may stand in a header value.
pub open spec fn value_char(c: char) -> bool {
    (c as u32 >= 32 && c as u32 != 127) || c == '\t'
}

/// A valid header value.
pub open spec fn valid_value(s: Seq<char>) -> bool {
    forall|i: int| 0 <= i < s.len() ==> value_char(s[i])
}

/// A value made of visible ASCII characters and tabs only.
pub open spec fn visible_ascii(s: Seq<char>) -> bool {
    forall|i: int| 0 <= i < s.len() ==> ((32 <= s[i] as u32 && (s[i] as u32) < 127) || s[i] == '\t')
}

/// The headers left once every header named `n` is removed.
pub open spec fn without(hs: Seq<(Seq<char>, Seq<char>)>, n: Seq<char>) -> Seq<(Seq<char>, Seq<char>)>
    decreases hs.len(),
{
    if hs.len() == 0 {
        hs
    } else {
        let rest = without(hs.drop_last(), n);
        if hs.last().0 == n {
            rest
        } else {
            rest.push(hs.last())
        }
    }
}

/// The headers once `n` is set to the single value `v`.
pub open spec fn with_header(hs: Seq<(Seq<char>, Seq<char>)>, n: Seq<char>, v: Seq<char>) -> Seq<
    (Seq<char>, Seq<char>),
> {
    without(hs, n).push((n, v))
}

/// The first value of the header named `n`, if any.
pub open spec fn first_value(hs: Seq<(Seq<char>, Seq<char>)>, n: Seq<char>) -> Option<Seq<char>>
    decreases hs.len(),
{
    if hs.len() == 0 {
        None
    } else if hs[0].0 == n {
        Some(hs[0].1)
    } else {
        first_value(hs.drop_first(), n)
    }
}

/// HTTP headers.
#[derive(Debug, Clone)]
pub struct HeaderList {
    entries: Vec<(String, String)>,
}

impl View for HeaderList {
    type V = Seq<(Seq<char>, Seq<char>)>;

    closed spec fn view(&self) -> Seq<(Seq<char>, Seq<char>)> {
        self.entries@.map_values(|e: (String, String)| (e.0@, e.1@))
    }
}

/// Parses a header name: its lower-case form where it is a valid token.
pub fn parse_header_name(s: &str) -> (r: Option<Vec<char>>)
    ensures
        r is None ==> header_name_of(s@) is None,
        r matches Some(n) ==> header_name_of(s@) == Some(n@),
{
    let cs = chars_of(s);
    if cs.len() == 0 || cs.len() > 65535 {
        return None;
    }
    let mut out: Vec<char> = Vec::new();
    let mut i: usize = 0;
    while i < cs.len()
        invariant
            cs@ == s@,
            i <= cs@.len(),
            forall|j: int| 0 <= j < i ==> token_char(cs@[j]),
            out@ == cs@.subrange(0, i as int).map_values(|c: char| ascii_lower(c)),
        decreases cs@.len() - i,
    {
        let c = cs[i];
        let ok = ('a' <= c && c <= 'z') || ('A' <= c && c <= 'Z') || ('0' <= c && c <= '9') || c
            == '!' || c == '#' || c == '$' || c == '%' || c == '&' || c == '\'' || c == '*' || c
            == '+' || c == '-' || c == '.' || c == '^' || c == '_' || c == '`' || c == '|' || c
            == '~';
        if !ok {
            return None;
        }
        let lc = if 'A' <= c && c <= 'Z' {
            ((c as u8) + 32) as char
        } else {
            c
        };
        assert(lc == ascii_lower(c));
        out.push(lc);
        i = i + 1;
        assert(out@ =~= cs@.subrange(0, i as int).map_values(|c: char| ascii_lower(c)));
    }
    assert(cs@.subrange(0, cs@.len() as int) =~= cs@);
    Some(out)
}

/// Whether a string is a valid header value.
pub fn is_valid_value(s: &str) -> (r: bool)
    ensures
        r == valid_value(s@),
{
    let cs = chars_of(s);
    let mut i: usize = 0;
    while i < cs.len()
        invariant
            cs@ == s@,
            i <= cs@.len(),
            forall|j: int| 0 <= j < i ==> value_char(cs@[j]),
        decreases cs@.len() - i,
    {
        let c = cs[i];
        if !(((c as u32) >= 32 && (c as u32) != 127) || c == '\t') {
            return false;
        }
        i = i + 1;
    }
    true
}

/// Whether a string holds visible ASCII characters and tabs only.
pub fn is_visible_ascii(s: &str) -> (r: bool)
    ensures
        r == visible_ascii(s@),
{
    let cs = chars_of(s);
    let mut i: usize = 0;
    while i < cs.len()
        invariant
            cs@ == s@,
            i <= cs@.len(),
            forall|j: int|
                0 <= j < i ==> ((32 <= cs@[j] as u32 && (cs@[j] as u32) < 127) || cs@[j] == '\t'),
        decreases cs@.len() - i,
    {
        let c = cs[i];
        if !((32 <= (c as u32) && (c as u32) < 127) || c == '\t') {
            return false;
        }
        i = i + 1;
    }
    true
}

impl HeaderList {
    /// No headers.
    pub fn new() -> (r: HeaderList)
        ensures
            r@ == Seq::<(Seq<char>, Seq<char>)>::empty(),
    {
        let r = HeaderList { entries: Vec::new() };
        assert(r@ =~= Seq::<(Seq<char>, Seq<char>)>::empty());
        r
    }

    /// A copy of these headers.
    pub fn clone_list(&self) -> (r: HeaderList)
        ensures
            r@ == self@,
    {
        let mut entries: Vec<(String, String)> = Vec::new();
        let mut i: usize = 0;
        while i < self.entries.len()
            invariant
                i <= self.entries@.len(),
                entries@.map_values(|e: (String, String)| (e.0@, e.1@)) == self@.subrange(
                    0,
                    i as int,
                ),
            decreases self.entries@.len() - i,
        {
            assert(self@[i as int] == (self.entries@[i as int].0@, self.entries@[i as int].1@));
            let k = self.entries[i].0.clone();
            let v = self.entries[i].1.clone();
            let ghost before = entries@;
            entries.push((k, v));
            assert(entries@.map_values(|e: (String, String)| (e.0@, e.1@)) =~= before.map_values(
                |e: (String, String)| (e.0@, e.1@),
            ).push((k@, v@)));
            assert(self@.subrange(0, i + 1) =~= self@.subrange(0, i as int).push(self@[i as int]));
            i = i + 1;
            assert(entries@.map_values(|e: (String, String)| (e.0@, e.1@)) =~= self@.subrange(
                0,
                i as int,
            ));
        }
        let r = HeaderList { entries };
        assert(r@ =~= self@);
        r
    }

    /// The number of header values.
    pub fn len(&self) -> (r: usize)
        ensures
            r == self@.len(),
    {
        self.entries.len()
    }

    /// The header at index `i`: its name and value.
    pub fn entry(&self, i: usize) -> (r: (&String, &String))
        requires
            i < self@.len(),
        ensures
            (r.0@, r.1@) == self@[i as int],
    {
        assert(self@[i as int] == (self.entries@[i as int].0@, self.entries@[i as int].1@));
        (&self.entries[i].0, &self.entries[i].1)
    }

    /// Removes every header named `n`, a lower-case name.
    pub(crate) fn remove_name(&mut self, n: &Vec<char>)
        ensures
            final(self)@ == without(old(self)@, n@),
    {
        let ghost hs = self@;
        let mut kept: Vec<(String, String)> = Vec::new();
        let mut i: usize = 0;
        while i < self.entries.len()
            invariant
                hs == self@,
                i <= self.entries@.len(),
                kept@.map_values(|e: (String, String)| (e.0@, e.1@)) == without(
                    hs.subrange(0, i as int),
                    n@,
                ),
            decreases self.entries@.len() - i,
        {
            let name = chars_of(self.entries[i].0.as_str());
            let ghost before = kept@;
            assert(hs.subrange(0, i + 1).drop_last() =~= hs.subrange(0, i as int));
            assert(hs[i as int] == (self.entries@[i as int].0@, self.entries@[i as int].1@));
            if !chars_eq(&name, n) {
                kept.push((self.entries[i].0.clone(), self.entries[i].1.clone()));
                assert(kept@.map_values(|e: (String, String)| (e.0@, e.1@)) =~= before.map_values(
                    |e: (String, String)| (e.0@, e.1@),
                ).push(hs[i as int]));
            }
            i = i + 1;
        }
        assert(hs.subrange(0, i as int) =~= hs);
        self.entries = kept;
    }

    /// Sets the header named `n` (a lower-case name) to the single value `v`.
    pub(crate) fn set(&mut self, n: &Vec<char>, v: String)
        ensures
            final(self)@ == with_header(old(self)@, n@, v@),
    {
        self.remove_name(n);
        let ghost mid = self@;
        self.entries.push((string_of(n), v));
        assert(self@ =~= mid.push((n@, v@)));
    }

    /// Adds a value to the header named `n`, a lower-case name, keeping its
    /// other values.
    pub(crate) fn append(&mut self, n: &Vec<char>, v: String)
        ensures
            final(self)@ == old(self)@.push((n@, v@)),
    {
        self.entries.push((string_of(n), v));
        assert(self@ =~= old(self)@.push((n@, v@)));
    }

    /// The first value of the header named `n`, a lower-case name.
    pub(crate) fn first(&self, n: &Vec<char>) -> (r: Option<&String>)
        ensures
            r is None ==> first_value(self@, n@) is None,
            r matches Some(v) ==> first_value(self@, n@) == Some(v@),
    {
        let ghost hs = self@;
        let mut i: usize = 0;
        assert(hs.subrange(0, hs.len() as int) =~= hs);
        while i < self.entries.len()
            invariant
                hs == self@,
                i <= self.entries@.len(),
                first_value(hs, n@) == first_value(hs.subrange(i as int, hs.len() as int), n@),
            decreases self.entries@.len() - i,
        {
            let name = chars_of(self.entries[i].0.as_str());
            assert(hs[i as int] == (self.entries@[i as int].0@, self.entries@[i as int].1@));
            assert(hs.subrange(i as int, hs.len() as int).drop_first() =~= hs.subrange(
                i + 1,
                hs.len() as int,
            ));
            if chars_eq(&name, n) {
                return Some(&self.entries[i].1);
            }
            i = i + 1;
        }
        None
    }

    /// Sets a header by name, where the name and the value are valid;
    /// returns whether it was set.
    pub fn insert(&mut self, name: &str, value: &str) -> (r: bool)
        ensures
            r == (header_name_of(name@) is Some && valid_value(value@)),
            r ==> final(self)@ == with_header(old(self)@, header_name_of(name@)->Some_0, value@),
            !r ==> final(self)@ == old(self)@,
    {
        match parse_header_name(name) {
            Some(n) => {
                if is_valid_value(value) {
                    self.set(&n, String::from_str(value));
                    true
                } else {
                    false
                }
            },
            None => false,
        }
    }

    /// Adds a value to a header by name, where the name and the value are
    /// valid; returns whether it was added.
    pub fn add(&mut self, name: &str, value: &str) -> (r: bool)
        ensures
            r == (header_name_of(name@) is Some && valid_value(value@)),
            r ==> final(self)@ == old(self)@.push((header_name_of(name@)->Some_0, value@)),
            !r ==> final(self)@ == old(self)@,
    {
        match parse_header_name(name) {
            Some(n) => {
                if is_valid_value(value) {
                    self.append(&n, String::from_str(value));
                    true
                } else {
                    false
                }
            },
            None => false,
        }
    }

    /// The first value of a header by name.
    pub fn get(&self, name: &str) -> (r: Option<&String>)
        ensures
            header_name_of(name@) is None ==> r is None,
            header_name_of(name@) matches Some(n) ==> (r is None ==> first_value(self@, n) is None)
                && (r matches Some(v) ==> first_value(self@, n) == Some(v@)),
    {
        match parse_header_name(name) {
            Some(n) => self.first(&n),
            None => None,
        }
    }

    /// Removes every value of a header by name; a name that is not a valid
    /// token removes nothing.
    pub fn remove(&mut self, name: &str)
        ensures
            header_name_of(name@) is None ==> final(self)@ == old(self)@,
            header_name_of(name@) matches Some(n) ==> final(self)@ == without(old(self)@, n),
    {
        match parse_header_name(name) {
            Some(n) => self.remove_name(&n),
            None => {},
        }
    }
}

} // verus!
