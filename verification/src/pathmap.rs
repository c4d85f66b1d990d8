//! The path-to-URL map built while relocating images.
//!
//! The map is an association list in insertion order.  A lookup answers with
//! the most recently inserted binding for a key, so inserting a duplicate
//! key simply overwrites — the behaviour the relocation pipeline wants for
//! colliding basenames.  Keeping the entries ordered also makes the DOCX
//! converter's relationship-id resolution deterministic.

use vstd::prelude::*;
use crate::strutil::after_last_slash;

verus! {

/// Mapping from archive paths (and, redundantly, their basenames) to
/// relocated URLs.
pub struct PathUrlMap {
    entries: Vec<(Vec<char>, Vec<char>)>,
}

impl View for PathUrlMap {
    type V = Seq<(Seq<char>, Seq<char>)>;

    closed spec fn view(&self) -> Seq<(Seq<char>, Seq<char>)> {
        Seq::new(self.entries@.len(), |i: int| (self.entries@[i].0@, self.entries@[i].1@))
    }
}

/// The value bound to `k`: the most recently inserted binding wins.
pub open spec fn entries_get(es: Seq<(Seq<char>, Seq<char>)>, k: Seq<char>) -> Option<Seq<char>>
    decreases es.len(),
{
    if es.len() == 0 {
        None
    } else if es.last().0 == k {
        Some(es.last().1)
    } else {
        entries_get(es.drop_last(), k)
    }
}

/// A reference lookup: the path verbatim first, then its basename.
pub open spec fn spec_lookup(es: Seq<(Seq<char>, Seq<char>)>, v: Seq<char>) -> Option<Seq<char>> {
    match entries_get(es, v) {
        Some(u) => Some(u),
        None => entries_get(es, after_last_slash(v)),
    }
}

/// Inserting a binding makes its key resolve to its value.
pub proof fn lemma_get_push_same(es: Seq<(Seq<char>, Seq<char>)>, k: Seq<char>, v: Seq<char>)
    ensures
        entries_get(es.push((k, v)), k) == Some(v),
{
    assert(es.push((k, v)).last() == (k, v));
}

/// Inserting a binding leaves every other key's resolution unchanged.
pub proof fn lemma_get_push_other(
    es: Seq<(Seq<char>, Seq<char>)>,
    k: Seq<char>,
    v: Seq<char>,
    k2: Seq<char>,
)
    requires
        k2 != k,
    ensures
        entries_get(es.push((k, v)), k2) == entries_get(es, k2),
{
    assert(es.push((k, v)).last() == (k, v));
    assert(es.push((k, v)).drop_last() =~= es);
}

impl PathUrlMap {
    /// An empty map.
    pub fn new() -> (r: PathUrlMap)
        ensures
            r@ == Seq::<(Seq<char>, Seq<char>)>::empty(),
    {
        let r = PathUrlMap { entries: Vec::new() };
        proof {
            assert(r@ =~= Seq::<(Seq<char>, Seq<char>)>::empty());
        }
        r
    }

    /// How many bindings the map holds.
    pub fn len(&self) -> (r: usize)
        ensures
            r == self@.len(),
    {
        self.entries.len()
    }

    /// Binds `key` to `url`, shadowing any earlier binding of `key`.
    pub fn insert(&mut self, key: Vec<char>, url: Vec<char>)
        ensures
            final(self)@ == old(self)@.push((key@, url@)),
    {
        let ghost k = key@;
        let ghost u = url@;
        self.entries.push((key, url));
        proof {
            assert(self@ =~= old(self)@.push((k, u)));
        }
    }

    /// The key of the `i`-th binding, in insertion order.
    pub fn key_at(&self, i: usize) -> (r: &Vec<char>)
        requires
            i < self@.len(),
        ensures
            r@ == self@[i as int].0,
    {
        &self.entries[i].0
    }

    /// The value of the `i`-th binding, in insertion order.
    pub fn url_at(&self, i: usize) -> (r: &Vec<char>)
        requires
            i < self@.len(),
        ensures
            r@ == self@[i as int].1,
    {
        &self.entries[i].1
    }

    /// The value bound to `key`, favouring the most recent binding.
    pub fn get(&self, key: &Vec<char>) -> (r: Option<&Vec<char>>)
        ensures
            match r {
                Some(u) => entries_get(self@, key@) == Some(u@),
                None => entries_get(self@, key@) is None,
            },
    {
        let mut k: usize = self.entries.len();
        proof {
            assert(self@.subrange(0, self@.len() as int) =~= self@);
        }
        while k > 0
            invariant
                k <= self@.len(),
                entries_get(self@, key@) == entries_get(self@.subrange(0, k as int), key@),
            decreases k,
        {
            proof {
                assert(self@.subrange(0, k as int).last() == self@[k - 1]);
                assert(self@.subrange(0, k as int).drop_last() =~= self@.subrange(0, k - 1));
            }
            if crate::strutil::eq_chars(&self.entries[k - 1].0, key) {
                return Some(&self.entries[k - 1].1);
            }
            k -= 1;
        }
        proof {
            assert(self@.subrange(0, 0) =~= Seq::<(Seq<char>, Seq<char>)>::empty());
        }
        None
    }

    /// Looks `path` up verbatim, then by its basename.
    pub fn lookup(&self, path: &Vec<char>) -> (r: Option<&Vec<char>>)
        ensures
            match r {
                Some(u) => spec_lookup(self@, path@) == Some(u@),
                None => spec_lookup(self@, path@) is None,
            },
    {
        match self.get(path) {
            Some(u) => Some(u),
            None => {
                let base = crate::strutil::basename_of(path);
                self.get(&base)
            },
        }
    }
}

} // verus!
