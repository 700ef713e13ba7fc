//! Route parameters captured by the matcher: names bound to values, in the
//! order in which they were first captured.

use vstd::prelude::*;

use crate::text::str_eq;

verus! {

/// The index of the first entry named `k` from index `i` on, or -1.
pub open spec fn find_key(ps: Seq<(Seq<char>, Seq<char>)>, k: Seq<char>, i: int) -> int
    decreases ps.len() - i,
{
    if i < 0 || i >= ps.len() {
        -1
    } else if ps[i].0 == k {
        i
    } else {
        find_key(ps, k, i + 1)
    }
}

/// Binds `k` to `v`: the entry named `k` takes the new value in place, or a
/// new entry is appended.
pub open spec fn bind(ps: Seq<(Seq<char>, Seq<char>)>, k: Seq<char>, v: Seq<char>) -> Seq<
    (Seq<char>, Seq<char>),
> {
    let j = find_key(ps, k, 0);
    if j >= 0 {
        ps.update(j, (k, v))
    } else {
        ps.push((k, v))
    }
}

/// The value bound to `k`, if any.
pub open spec fn lookup(ps: Seq<(Seq<char>, Seq<char>)>, k: Seq<char>) -> Option<Seq<char>> {
    let j = find_key(ps, k, 0);
    if j >= 0 {
        Some(ps[j].1)
    } else {
        None
    }
}

/// A found index holds the key; an index of -1 means that no entry from `i`
/// on holds it.
pub proof fn lemma_find_key(ps: Seq<(Seq<char>, Seq<char>)>, k: Seq<char>, i: int)
    requires
        0 <= i,
    ensures
        find_key(ps, k, i) == -1 || (i <= find_key(ps, k, i) < ps.len() && ps[find_key(
            ps,
            k,
            i,
        )].0 == k),
        find_key(ps, k, i) == -1 ==> forall|j: int| i <= j < ps.len() ==> ps[j].0 != k,
        forall|j: int| i <= j < find_key(ps, k, i) ==> ps[j].0 != k,
    decreases ps.len() - i,
{
    if i < ps.len() && ps[i].0 != k {
        lemma_find_key(ps, k, i + 1);
    }
}

/// Route parameters: each name bound once.
#[derive(Debug, Clone)]
pub struct Params {
    entries: Vec<(String, String)>,
}

impl View for Params {
    type V = Seq<(Seq<char>, Seq<char>)>;

    closed spec fn view(&self) -> Seq<(Seq<char>, Seq<char>)> {
        self.entries@.map_values(|e: (String, String)| (e.0@, e.1@))
    }
}

impl Params {
    /// No parameters.
    pub fn new() -> (r: Params)
        ensures
            r@ == Seq::<(Seq<char>, Seq<char>)>::empty(),
    {
        let r = Params { entries: Vec::new() };
        assert(r@ =~= Seq::<(Seq<char>, Seq<char>)>::empty());
        r
    }

    /// The index of the entry named `k`, if any.
    fn position(&self, k: &str) -> (r: Option<usize>)
        ensures
            self@.len() == self.entries@.len(),
            r matches Some(j) ==> j == find_key(self@, k@, 0) && j < self@.len(),
            r is None ==> find_key(self@, k@, 0) == -1,
    {
        let mut i: usize = 0;
        while i < self.entries.len()
            invariant
                i <= self.entries@.len(),
                self@.len() == self.entries@.len(),
                find_key(self@, k@, 0) == find_key(self@, k@, i as int),
            decreases self.entries@.len() - i,
        {
            assert(self@[i as int].0 == self.entries@[i as int].0@);
            if str_eq(self.entries[i].0.as_str(), k) {
                return Some(i);
            }
            i = i + 1;
        }
        None
    }

    /// Binds `k` to `v`, replacing an earlier value of `k`.
    pub fn insert(&mut self, k: String, v: String)
        ensures
            final(self)@ == bind(old(self)@, k@, v@),
    {
        match self.position(k.as_str()) {
            Some(j) => {
                self.entries.set(j, (k, v));
                assert(self@ =~= bind(old(self)@, k@, v@));
            },
            None => {
                self.entries.push((k, v));
                assert(self@ =~= bind(old(self)@, k@, v@));
            },
        }
    }

    /// The value bound to `k`, if any.
    pub fn get(&self, k: &str) -> (r: Option<&String>)
        ensures
            r matches Some(s) ==> lookup(self@, k@) == Some(s@),
            r is None ==> lookup(self@, k@) is None,
    {
        match self.position(k) {
            Some(j) => {
                assert(self@[j as int].1 == self.entries@[j as int].1@);
                Some(&self.entries[j].1)
            },
            None => None,
        }
    }

    /// The number of names bound.
    pub fn len(&self) -> (r: usize)
        ensures
            r == self@.len(),
    {
        self.entries.len()
    }

    /// Whether no name is bound.
    pub fn is_empty(&self) -> (r: bool)
        ensures
            r == (self@.len() == 0),
    {
        self.entries.len() == 0
    }

    /// The entry at index `i`.
    pub fn entry(&self, i: usize) -> (r: (&String, &String))
        requires
            i < self@.len(),
        ensures
            (r.0@, r.1@) == self@[i as int],
    {
        assert(self@[i as int] == (self.entries@[i as int].0@, self.entries@[i as int].1@));
        (&self.entries[i].0, &self.entries[i].1)
    }
}

} // verus!
