//! Remembered key/value state: which notice address each page last showed,
//! the cached session id, and the remembered lecture list, all as plain
//! strings.  Reading the store from disk and writing it back is the calling
//! workflow's business; here only the map itself is kept, with unique keys.

use vstd::prelude::*;

verus! {

pub struct Data {
    entries: Vec<(String, String)>,
}

impl Data {
    /// Every key occurs at most once.
    pub closed spec fn wf(self) -> bool {
        forall|i: int, j: int|
            0 <= i < self.entries@.len() && 0 <= j < self.entries@.len()
                && self.entries@[i].0@ == self.entries@[j].0@ ==> i == j
    }

    spec fn key_index(self, key: Seq<char>) -> int {
        choose|i: int|
            0 <= i < self.entries@.len() && self.entries@[i].0@ == key
    }

    /// Whether anything is stored under `key`.
    pub closed spec fn has_key(self, key: Seq<char>) -> bool {
        exists|i: int| 0 <= i < self.entries@.len() && self.entries@[i].0@ == key
    }

    /// The value stored under `key`, if any.
    pub closed spec fn lookup(self, key: Seq<char>) -> Option<Seq<char>> {
        if self.has_key(key) {
            Some(self.entries@[self.key_index(key)].1@)
        } else {
            None
        }
    }

    /// An empty store: nothing is remembered yet.
    pub fn new() -> (d: Data)
        ensures
            d.wf(),
            forall|k: Seq<char>| d.lookup(k) is None,
    {
        Data { entries: Vec::new() }
    }

    /// Stores `value` under `key`, replacing what was there; no other key
    /// changes.
    #[verifier::loop_isolation(false)]
    pub fn set(&mut self, key: &str, value: String)
        requires
            old(self).wf(),
        ensures
            final(self).wf(),
            final(self).lookup(key@) == Some(value@),
            forall|k: Seq<char>| k != key@ ==> final(self).lookup(k) == old(self).lookup(k),
    {
        let k = String::from_str(key);
        let n = self.entries.len();
        let mut i: usize = 0;
        while i < n
            invariant
                i <= n,
                self.entries@ == old(self).entries@,
                forall|j: int| 0 <= j < i ==> self.entries@[j].0@ != key@,
            decreases n - i,
        {
            if self.entries[i].0 == k {
                self.entries[i].1 = value;
                proof {
                    let after = self.entries@;
                    let before = old(self).entries@;
                    assert(forall|j: int|
                        0 <= j < after.len() ==> after[j].0@ == before[j].0@);
                    assert(self.lookup(key@) == Some(value@)) by {
                        assert(self.has_key(key@));
                        assert(self.key_index(key@) == i);
                    }
                    assert forall|kk: Seq<char>| kk != key@ implies self.lookup(kk) == old(
                        self,
                    ).lookup(kk) by {
                        if old(self).has_key(kk) {
                            let w = old(self).key_index(kk);
                            assert(after[w].0@ == kk);
                            assert(self.has_key(kk));
                            assert(self.key_index(kk) == w);
                        } else {
                            assert(!self.has_key(kk));
                        }
                    }
                }
                return ;
            }
            i += 1;
        }
        self.entries.push((k, value));
        proof {
            let after = self.entries@;
            let before = old(self).entries@;
            let n = before.len() as int;
            assert(forall|j: int| 0 <= j < n ==> after[j] == before[j]);
            assert(after[n].0@ == key@ && after[n].1@ == value@);
            assert(self.wf());
            assert(self.lookup(key@) == Some(value@)) by {
                assert(self.has_key(key@));
                assert(self.key_index(key@) == n);
            }
            assert forall|kk: Seq<char>| kk != key@ implies self.lookup(kk) == old(self).lookup(
                kk,
            ) by {
                if old(self).has_key(kk) {
                    let w = old(self).key_index(kk);
                    assert(after[w].0@ == kk);
                    assert(self.key_index(kk) == w);
                } else {
                    assert(!self.has_key(kk));
                }
            }
        }
    }

    /// The value stored under `key`, or `None` if the key is absent.
    #[verifier::loop_isolation(false)]
    pub fn get<'a>(&'a self, key: &str) -> (r: Option<&'a str>)
        requires
            self.wf(),
        ensures
            match r {
                Some(v) => self.lookup(key@) == Some(v@),
                None => self.lookup(key@) is None,
            },
    {
        let k = String::from_str(key);
        let n = self.entries.len();
        let mut i: usize = 0;
        while i < n
            invariant
                i <= n,
                forall|j: int| 0 <= j < i ==> self.entries@[j].0@ != key@,
            decreases n - i,
        {
            if self.entries[i].0 == k {
                proof {
                    assert(self.has_key(key@));
                    assert(self.key_index(key@) == i);
                }
                return Some(self.entries[i].1.as_str());
            }
            i += 1;
        }
        None
    }

    /// The stored pairs, for the caller to persist: each pair's key looks up
    /// its value, and every stored key is among them.
    pub fn entries<'a>(&'a self) -> (r: &'a Vec<(String, String)>)
        requires
            self.wf(),
        ensures
            forall|i: int|
                0 <= i < r@.len() ==> self.lookup(#[trigger] r@[i].0@) == Some(r@[i].1@),
            forall|k: Seq<char>|
                self.lookup(k) is Some ==> exists|i: int| 0 <= i < r@.len() && (#[trigger] r@[i]).0@
                    == k,
    {
        proof {
            assert forall|i: int| 0 <= i < self.entries@.len() implies self.lookup(
                #[trigger] self.entries@[i].0@,
            ) == Some(self.entries@[i].1@) by {
                assert(self.has_key(self.entries@[i].0@));
                assert(self.key_index(self.entries@[i].0@) == i);
            }
        }
        &self.entries
    }

    /// Remembers `value` under `key` if it differs from what is stored there
    /// (or nothing is), and says whether it did; an unchanged value is left
    /// alone.  This is how a freshly fetched notice address is tested against
    /// the remembered one.
    pub fn note_if_new(&mut self, key: &str, value: &str) -> (is_new: bool)
        requires
            old(self).wf(),
        ensures
            final(self).wf(),
            is_new == (old(self).lookup(key@) != Some(value@)),
            is_new ==> final(self).lookup(key@) == Some(value@),
            !is_new ==> *final(self) == *old(self),
            forall|k: Seq<char>| k != key@ ==> final(self).lookup(k) == old(self).lookup(k),
    {
        let stored_matches: bool = match self.get(key) {
            Some(old_value) => str_eq(old_value, value),
            None => false,
        };
        if stored_matches {
            false
        } else {
            self.set(key, String::from_str(value));
            true
        }
    }
}

/// Whether two string slices hold the same characters.
pub fn str_eq(a: &str, b: &str) -> (r: bool)
    ensures
        r == (a@ == b@),
{
    let sa = String::from_str(a);
    let sb = String::from_str(b);
    sa == sb
}

} // verus!
