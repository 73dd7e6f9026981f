//! The listing of one evaluation run: symbolic package names mapped to
//! output paths, kept in insertion order.

use vstd::prelude::*;

use crate::model::{
    has_key, insert_entry, key_index, lemma_key_index_from, lookup, EntryModel,
};

verus! {

/// The views of a sequence of strings.
pub open spec fn views_of(v: Seq<String>) -> Seq<Seq<char>> {
    v.map_values(|s: String| s@)
}

/// The view of an optional string.
pub open spec fn view_of_opt(o: Option<String>) -> Option<Seq<char>> {
    match o {
        Some(s) => Some(s@),
        None => None,
    }
}

/// Character-wise string equality, the equality the listing's names and
/// paths are compared by.
pub fn str_eq(a: &str, b: &str) -> (r: bool)
    ensures
        r == (a@ == b@),
{
    let n = a.unicode_len();
    let m = b.unicode_len();
    if n != m {
        return false;
    }
    let mut i: usize = 0;
    while i < n
        invariant
            i <= n,
            n == a@.len(),
            n == b@.len(),
            forall|j: int| 0 <= j < i ==> a@[j] == b@[j],
        decreases n - i,
    {
        if a.get_char(i) != b.get_char(i) {
            return false;
        }
        i += 1;
    }
    proof {
        assert(a@ =~= b@);
    }
    true
}

/// A name-to-output-path mapping built fresh for one evaluation run.
pub struct Listing {
    entries: Vec<(String, String)>,
}

impl View for Listing {
    type V = Seq<EntryModel>;

    closed spec fn view(&self) -> Seq<EntryModel> {
        self.entries@.map_values(|e: (String, String)| (e.0@, e.1@))
    }
}

impl Listing {
    /// An empty listing.
    pub fn new() -> (r: Listing)
        ensures
            r@ == Seq::<EntryModel>::empty(),
    {
        let r = Listing { entries: Vec::new() };
        proof {
            assert(r@ =~= Seq::<EntryModel>::empty());
        }
        r
    }

    /// How many names the listing holds.
    pub fn len(&self) -> (n: usize)
        ensures
            n == self@.len(),
    {
        self.entries.len()
    }

    /// The name of the entry at position `i`.
    pub fn name_at(&self, i: usize) -> (r: String)
        requires
            i < self@.len(),
        ensures
            r@ == self@[i as int].0,
    {
        self.entries[i].0.clone()
    }

    /// The output path of the entry at position `i`.
    pub fn path_at(&self, i: usize) -> (r: String)
        requires
            i < self@.len(),
        ensures
            r@ == self@[i as int].1,
    {
        self.entries[i].1.clone()
    }

    /// The path recorded for `name`, if any.
    pub fn get(&self, name: &str) -> (r: Option<String>)
        ensures
            view_of_opt(r) == lookup(self@, name@),
    {
        let n = self.entries.len();
        let mut i: usize = 0;
        while i < n
            invariant
                i <= n,
                n == self@.len(),
                forall|j: int| 0 <= j < i ==> self@[j].0 != name@,
            decreases n - i,
        {
            if str_eq(self.entries[i].0.as_str(), name) {
                proof {
                    assert(self@[i as int] == (
                        self.entries@[i as int].0@,
                        self.entries@[i as int].1@,
                    ));
                    lemma_key_index_from(self@, name@, 0);
                    assert(key_index(self@, name@) == i);
                }
                return Some(self.entries[i].1.clone());
            }
            proof {
                assert(self@[i as int] == (self.entries@[i as int].0@, self.entries@[i as int].1@));
            }
            i += 1;
        }
        proof {
            lemma_key_index_from(self@, name@, 0);
        }
        None
    }

    /// Records `path` under `name`; an existing entry with that name keeps
    /// its position and gets the new path, a new name is appended.
    pub fn insert(&mut self, name: String, path: String)
        ensures
            final(self)@ == insert_entry(old(self)@, name@, path@),
    {
        let ghost e0 = self@;
        let ghost ents0 = self.entries@;
        let n = self.entries.len();
        let mut i: usize = 0;
        while i < n
            invariant
                i <= n,
                n == self@.len(),
                self@ == e0,
                e0 == old(self)@,
                self.entries@ == ents0,
                forall|j: int| 0 <= j < i ==> self@[j].0 != name@,
            decreases n - i,
        {
            if str_eq(self.entries[i].0.as_str(), name.as_str()) {
                proof {
                    assert forall|j: int| 0 <= j < e0.len() implies e0[j] == (
                        ents0[j].0@,
                        ents0[j].1@,
                    ) by {
                        assert(self@[j] == (self.entries@[j].0@, self.entries@[j].1@));
                    }
                    assert(e0[i as int] == (ents0[i as int].0@, ents0[i as int].1@));
                    assert(e0[i as int].0 == name@);
                    lemma_key_index_from(e0, name@, 0);
                    assert(key_index(e0, name@) == i);
                }
                self.entries[i] = (name, path);
                proof {
                    assert forall|j: int| 0 <= j < self@.len() implies self@[j] == e0.update(
                        i as int,
                        (name@, path@),
                    )[j] by {
                        assert(self@[j] == (self.entries@[j].0@, self.entries@[j].1@));
                    }
                    assert(self@ =~= e0.update(i as int, (name@, path@)));
                }
                return;
            }
            proof {
                assert(e0[i as int] == (self.entries@[i as int].0@, self.entries@[i as int].1@));
            }
            i += 1;
        }
        proof {
            lemma_key_index_from(e0, name@, 0);
            assert(!has_key(e0, name@));
        }
        self.entries.push((name, path));
        proof {
            assert(self@ =~= e0.push((name@, path@)));
        }
    }
}

} // verus!
