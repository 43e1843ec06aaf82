//! A small insertion-ordered map from header names to values. Inserting an
//! existing key replaces its value in place; lookup finds the key's single
//! entry. Keys are case-sensitive, as received on the wire.

use vstd::prelude::*;

verus! {

/// The index of the entry with key `k`, or -1 when `k` is absent.
pub open spec fn key_at(m: Seq<(Seq<char>, Seq<char>)>, k: Seq<char>) -> int
    decreases m.len(),
{
    if m.len() == 0 {
        -1
    } else if m[0].0 == k {
        0
    } else {
        let r = key_at(m.skip(1), k);
        if r < 0 {
            -1
        } else {
            r + 1
        }
    }
}

/// `key_at` finds the first entry with the key, or -1 when no entry has it.
pub proof fn lemma_key_at(m: Seq<(Seq<char>, Seq<char>)>, k: Seq<char>)
    ensures
        key_at(m, k) == -1 || 0 <= key_at(m, k) < m.len(),
        key_at(m, k) >= 0 ==> m[key_at(m, k)].0 == k,
        forall|j: int|
            0 <= j < m.len() && (key_at(m, k) == -1 || j < key_at(m, k)) ==> m[j].0 != k,
    decreases m.len(),
{
    if m.len() == 0 {
    } else if m[0].0 == k {
    } else {
        lemma_key_at(m.skip(1), k);
        assert forall|j: int|
            0 <= j < m.len() && (key_at(m, k) == -1 || j < key_at(m, k)) implies m[j].0 != k by {
            if j > 0 {
                assert(m.skip(1)[j - 1] == m[j]);
            }
        }
    }
}

/// `key_at` is the index of any entry with the key that no other precedes.
pub proof fn lemma_key_at_found(m: Seq<(Seq<char>, Seq<char>)>, k: Seq<char>, i: int)
    requires
        0 <= i < m.len(),
        m[i].0 == k,
        forall|j: int| 0 <= j < i ==> m[j].0 != k,
    ensures
        key_at(m, k) == i,
    decreases m.len(),
{
    if i == 0 {
    } else {
        assert(m.skip(1)[i - 1] == m[i]);
        assert forall|j: int| 0 <= j < i - 1 implies m.skip(1)[j].0 != k by {
            assert(m.skip(1)[j] == m[j + 1]);
        }
        lemma_key_at_found(m.skip(1), k, i - 1);
    }
}

/// Insertion with replacement: an existing key keeps its place and takes the
/// new value; a new key goes to the end.
pub open spec fn spec_insert(
    m: Seq<(Seq<char>, Seq<char>)>,
    k: Seq<char>,
    v: Seq<char>,
) -> Seq<(Seq<char>, Seq<char>)> {
    let i = key_at(m, k);
    if i < 0 {
        m.push((k, v))
    } else {
        m.update(i, (k, v))
    }
}

/// The value stored under `k`, if any.
pub open spec fn spec_lookup(m: Seq<(Seq<char>, Seq<char>)>, k: Seq<char>) -> Option<Seq<char>> {
    let i = key_at(m, k);
    if i < 0 {
        None
    } else {
        Some(m[i].1)
    }
}

/// An insertion-ordered header map. Its view is the sequence of
/// (name, value) entries; no name occurs twice.
#[derive(Debug, PartialEq)]
pub struct HeaderMap {
    entries: Vec<(String, String)>,
}

impl View for HeaderMap {
    type V = Seq<(Seq<char>, Seq<char>)>;

    closed spec fn view(&self) -> Seq<(Seq<char>, Seq<char>)> {
        Seq::new(self.entries@.len(), |i: int| (self.entries@[i].0@, self.entries@[i].1@))
    }
}

impl HeaderMap {
    /// An empty map.
    pub fn new() -> (r: HeaderMap)
        ensures
            r@ == Seq::<(Seq<char>, Seq<char>)>::empty(),
    {
        let r = HeaderMap { entries: Vec::new() };
        proof {
            assert(r@ =~= Seq::<(Seq<char>, Seq<char>)>::empty());
        }
        r
    }

    /// Inserts `val` under `key`, replacing the value of an existing entry.
    pub fn insert(&mut self, key: &str, val: &str)
        ensures
            final(self)@ == spec_insert(old(self)@, key@, val@),
    {
        let mut i: usize = 0;
        while i < self.entries.len()
            invariant
                self == old(self),
                i <= self.entries@.len(),
                forall|j: int| 0 <= j < i ==> self@[j].0 != key@,
            decreases self.entries@.len() - i,
        {
            if crate::strutil::str_eq(self.entries[i].0.as_str(), key) {
                proof {
                    lemma_key_at_found(self@, key@, i as int);
                }
                let k = self.entries[i].0.clone();
                self.entries.set(i, (k, val.to_owned()));
                proof {
                    assert(self@ =~= spec_insert(old(self)@, key@, val@));
                }
                return ;
            }
            i = i + 1;
        }
        proof {
            lemma_key_at(self@, key@);
        }
        self.entries.push((key.to_owned(), val.to_owned()));
        proof {
            assert(self@ =~= spec_insert(old(self)@, key@, val@));
        }
    }

    /// The value stored under `key`, if any.
    pub fn get(&self, key: &str) -> (r: Option<&String>)
        ensures
            match r {
                Some(v) => spec_lookup(self@, key@) == Some(v@),
                None => spec_lookup(self@, key@) is None,
            },
    {
        let mut i: usize = 0;
        while i < self.entries.len()
            invariant
                i <= self.entries@.len(),
                forall|j: int| 0 <= j < i ==> self@[j].0 != key@,
            decreases self.entries@.len() - i,
        {
            if crate::strutil::str_eq(self.entries[i].0.as_str(), key) {
                proof {
                    lemma_key_at_found(self@, key@, i as int);
                }
                return Some(&self.entries[i].1);
            }
            i = i + 1;
        }
        proof {
            lemma_key_at(self@, key@);
        }
        None
    }

    /// How many entries the map holds.
    pub fn len(&self) -> (n: usize)
        ensures
            n == self@.len(),
    {
        self.entries.len()
    }

    /// The entry at position `i`, in insertion order.
    pub fn entry_at(&self, i: usize) -> (p: (&String, &String))
        requires
            i < self@.len(),
        ensures
            p.0@ == self@[i as int].0,
            p.1@ == self@[i as int].1,
    {
        let e = &self.entries[i];
        (&e.0, &e.1)
    }
}

} // verus!
