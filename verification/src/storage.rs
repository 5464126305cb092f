//! A verified model of the host's key-value storage and its iteration
//! helper.
//!
//! The host keeps one flat string-to-string table with a stable key order:
//! setting a fresh key appends it, setting a present key overwrites its
//! value in place, and removal closes the gap. The model's view is the
//! sequence of key-value pairs in that order, with keys unique.

use crate::marshal::str_eq;
use vstd::prelude::*;

verus! {

/// The value stored under `k`, or `None` when no entry has that key.
pub open spec fn store_lookup(s: Seq<(Seq<char>, Seq<char>)>, k: Seq<char>) -> Option<Seq<char>>
    decreases s.len(),
{
    if s.len() == 0 {
        None
    } else if s[0].0 == k {
        Some(s[0].1)
    } else {
        store_lookup(s.drop_first(), k)
    }
}

/// Whether some entry has key `k`.
pub open spec fn store_has_key(s: Seq<(Seq<char>, Seq<char>)>, k: Seq<char>) -> bool {
    store_lookup(s, k) is Some
}

/// No two entries share a key.
pub open spec fn store_unique_keys(s: Seq<(Seq<char>, Seq<char>)>) -> bool {
    forall|i: int, j: int| 0 <= i < j < s.len() ==> s[i].0 != s[j].0
}

proof fn lemma_lookup_found(s: Seq<(Seq<char>, Seq<char>)>, k: Seq<char>, i: int)
    requires
        0 <= i < s.len(),
        s[i].0 == k,
        forall|j: int| 0 <= j < i ==> s[j].0 != k,
    ensures
        store_lookup(s, k) == Some(s[i].1),
    decreases i,
{
    if i > 0 {
        lemma_lookup_found(s.drop_first(), k, i - 1);
    }
}

proof fn lemma_lookup_absent(s: Seq<(Seq<char>, Seq<char>)>, k: Seq<char>)
    requires
        forall|j: int| 0 <= j < s.len() ==> s[j].0 != k,
    ensures
        store_lookup(s, k) is None,
    decreases s.len(),
{
    if s.len() > 0 {
        lemma_lookup_absent(s.drop_first(), k);
    }
}

proof fn lemma_absent_all(s: Seq<(Seq<char>, Seq<char>)>, k: Seq<char>)
    requires
        store_lookup(s, k) is None,
    ensures
        forall|j: int| 0 <= j < s.len() ==> s[j].0 != k,
    decreases s.len(),
{
    if s.len() > 0 {
        lemma_absent_all(s.drop_first(), k);
        assert forall|j: int| 0 <= j < s.len() implies s[j].0 != k by {
            if j > 0 {
                assert(s.drop_first()[j - 1].0 != k);
            }
        }
    }
}

/// With unique keys, looking up the key of entry `i` finds entry `i`.
proof fn lemma_lookup_at_index(s: Seq<(Seq<char>, Seq<char>)>, i: int)
    requires
        store_unique_keys(s),
        0 <= i < s.len(),
    ensures
        store_lookup(s, s[i].0) == Some(s[i].1),
{
    lemma_lookup_found(s, s[i].0, i);
}

proof fn lemma_lookup_update_other(
    s: Seq<(Seq<char>, Seq<char>)>,
    i: int,
    p: (Seq<char>, Seq<char>),
    k: Seq<char>,
)
    requires
        0 <= i < s.len(),
        s[i].0 == p.0,
        k != p.0,
    ensures
        store_lookup(s.update(i, p), k) == store_lookup(s, k),
    decreases i,
{
    let t = s.update(i, p);
    if i == 0 {
        assert(t.drop_first() =~= s.drop_first());
    } else {
        if s[0].0 != k {
            assert(t.drop_first() =~= s.drop_first().update(i - 1, p));
            lemma_lookup_update_other(s.drop_first(), i - 1, p, k);
        }
    }
}

proof fn lemma_lookup_push_other(
    s: Seq<(Seq<char>, Seq<char>)>,
    p: (Seq<char>, Seq<char>),
    k: Seq<char>,
)
    requires
        k != p.0,
    ensures
        store_lookup(s.push(p), k) == store_lookup(s, k),
    decreases s.len(),
{
    if s.len() == 0 {
        assert(s.push(p)[0] == p);
        assert(s.push(p).drop_first() =~= Seq::<(Seq<char>, Seq<char>)>::empty());
        assert(store_lookup(Seq::<(Seq<char>, Seq<char>)>::empty(), k) is None);
        assert(store_lookup(s.push(p), k) is None);
        assert(store_lookup(s, k) is None);
    } else {
        assert(s.push(p)[0] == s[0]);
        if s[0].0 == k {
            assert(store_lookup(s.push(p), k) == Some(s[0].1));
            assert(store_lookup(s, k) == Some(s[0].1));
        } else {
            assert(s.push(p).drop_first() =~= s.drop_first().push(p));
            lemma_lookup_push_other(s.drop_first(), p, k);
        }
    }
}

proof fn lemma_lookup_remove_other(s: Seq<(Seq<char>, Seq<char>)>, i: int, k: Seq<char>)
    requires
        0 <= i < s.len(),
        k != s[i].0,
    ensures
        store_lookup(s.remove(i), k) == store_lookup(s, k),
    decreases i,
{
    let t = s.remove(i);
    if i == 0 {
        assert(t =~= s.drop_first());
    } else {
        assert(t[0] == s[0]);
        if s[0].0 != k {
            assert(t.drop_first() =~= s.drop_first().remove(i - 1));
            lemma_lookup_remove_other(s.drop_first(), i - 1, k);
        }
    }
}

/// The key-value storage model. Its view is the entry sequence in key order.
pub struct LocalStorageInterface {
    keys: Vec<String>,
    vals: Vec<String>,
}

impl View for LocalStorageInterface {
    type V = Seq<(Seq<char>, Seq<char>)>;

    closed spec fn view(&self) -> Seq<(Seq<char>, Seq<char>)> {
        Seq::new(self.keys@.len(), |i: int| (self.keys@[i]@, self.vals@[i]@))
    }
}

/// The iteration helper: a cursor over the storage's key order.
pub struct LocalStorageIterator {
    index: i32,
}

impl LocalStorageInterface {
    /// Keys and values line up, and no two entries share a key.
    pub closed spec fn wf(&self) -> bool {
        &&& self.keys@.len() == self.vals@.len()
        &&& store_unique_keys(self@)
    }

    /// An empty storage.
    pub fn new() -> (s: LocalStorageInterface)
        ensures
            s@ =~= Seq::<(Seq<char>, Seq<char>)>::empty(),
            s.wf(),
    {
        LocalStorageInterface { keys: Vec::new(), vals: Vec::new() }
    }

    /// The index of the entry with key `name`, when there is one.
    fn find_key(&self, name: &str) -> (r: Option<usize>)
        requires
            self.wf(),
        ensures
            match r {
                Some(i) => {
                    &&& i < self@.len()
                    &&& self@[i as int].0 == name@
                    &&& store_lookup(self@, name@) == Some(self@[i as int].1)
                    &&& forall|j: int| 0 <= j < i ==> self@[j].0 != name@
                },
                None => store_lookup(self@, name@) is None,
            },
    {
        let n = self.keys.len();
        let mut i: usize = 0;
        while i < n
            invariant
                self.wf(),
                n == self@.len(),
                0 <= i <= n,
                forall|j: int| 0 <= j < i ==> self@[j].0 != name@,
            decreases n - i,
        {
            if str_eq(self.keys[i].as_str(), name) {
                proof {
                    lemma_lookup_found(self@, name@, i as int);
                }
                return Some(i);
            }
            i += 1;
        }
        proof {
            lemma_lookup_absent(self@, name@);
        }
        None
    }

    /// How many entries the storage holds.
    pub fn len(&self) -> (n: i32)
        requires
            self.wf(),
            self@.len() <= i32::MAX,
        ensures
            n == self@.len(),
    {
        self.keys.len() as i32
    }

    /// Empties the storage.
    pub fn clear(&mut self)
        ensures
            final(self)@ =~= Seq::<(Seq<char>, Seq<char>)>::empty(),
            final(self).wf(),
    {
        self.keys.clear();
        self.vals.clear();
    }

    /// Stores `v` under `s`: overwrites in place when the key is present,
    /// appends a fresh entry otherwise. Every other key keeps its value.
    pub fn set(&mut self, s: &str, v: &str)
        requires
            old(self).wf(),
        ensures
            final(self).wf(),
            store_lookup(final(self)@, s@) == Some(v@),
            forall|k: Seq<char>| k != s@ ==> store_lookup(final(self)@, k) == store_lookup(
                old(self)@,
                k,
            ),
            store_has_key(old(self)@, s@) ==> final(self)@ =~= old(self)@.update(
                spec_key_index(old(self)@, s@),
                (s@, v@),
            ) && final(self)@.len() == old(self)@.len(),
            !store_has_key(old(self)@, s@) ==> final(self)@ =~= old(self)@.push((s@, v@)),
    {
        match self.find_key(s) {
            Some(i) => {
                self.vals[i] = v.to_owned();
                proof {
                    let up = old(self)@.update(i as int, (s@, v@));
                    assert(self@ =~= up);
                    lemma_key_index_is(old(self)@, s@, i as int);
                    lemma_lookup_at_index(self@, i as int);
                    assert forall|k: Seq<char>| k != s@ implies store_lookup(self@, k)
                        == store_lookup(old(self)@, k) by {
                        lemma_lookup_update_other(old(self)@, i as int, (s@, v@), k);
                    }
                }
            },
            None => {
                self.keys.push(s.to_owned());
                self.vals.push(v.to_owned());
                proof {
                    assert(self@ =~= old(self)@.push((s@, v@)));
                    lemma_absent_all(old(self)@, s@);
                    lemma_lookup_at_index(self@, self@.len() - 1);
                    assert forall|k: Seq<char>| k != s@ implies store_lookup(self@, k)
                        == store_lookup(old(self)@, k) by {
                        lemma_lookup_push_other(old(self)@, (s@, v@), k);
                    }
                }
            },
        }
    }

    /// Removes the entry with key `s`, when there is one; the order of the
    /// other entries is kept.
    pub fn remove(&mut self, s: &str)
        requires
            old(self).wf(),
        ensures
            final(self).wf(),
            store_lookup(final(self)@, s@) is None,
            forall|k: Seq<char>| k != s@ ==> store_lookup(final(self)@, k) == store_lookup(
                old(self)@,
                k,
            ),
            store_has_key(old(self)@, s@) ==> final(self)@ =~= old(self)@.remove(
                spec_key_index(old(self)@, s@),
            ),
            !store_has_key(old(self)@, s@) ==> final(self)@ == old(self)@,
    {
        match self.find_key(s) {
            Some(i) => {
                self.keys.remove(i);
                self.vals.remove(i);
                proof {
                    let rm = old(self)@.remove(i as int);
                    assert(self@ =~= rm);
                    lemma_key_index_is(old(self)@, s@, i as int);
                    assert forall|k: Seq<char>| k != s@ implies store_lookup(self@, k)
                        == store_lookup(old(self)@, k) by {
                        lemma_lookup_remove_other(old(self)@, i as int, k);
                    }
                    assert forall|j: int| 0 <= j < self@.len() implies self@[j].0 != s@ by {
                        if j < i {
                            assert(self@[j] == old(self)@[j]);
                        } else {
                            assert(self@[j] == old(self)@[j + 1]);
                        }
                    }
                    lemma_lookup_absent(self@, s@);
                }
            },
            None => {
                proof {
                    assert(self@ =~= old(self)@);
                }
            },
        }
    }

    /// The value stored under `name`, or `None` when no entry has that key.
    pub fn get(&self, name: &str) -> (r: Option<String>)
        requires
            self.wf(),
        ensures
            match r {
                Some(v) => store_lookup(self@, name@) == Some(v@),
                None => store_lookup(self@, name@) is None,
            },
    {
        match self.find_key(name) {
            Some(i) => Some(self.vals[i].clone()),
            None => None,
        }
    }

    /// The key of the entry at `index` in key order.
    pub fn key(&self, index: i32) -> (r: String)
        requires
            self.wf(),
            0 <= index < self@.len(),
        ensures
            r@ == self@[index as int].0,
    {
        self.keys[index as usize].clone()
    }
}

/// The position of the entry with key `k`, counted in key order.
pub open spec fn spec_key_index(s: Seq<(Seq<char>, Seq<char>)>, k: Seq<char>) -> int
    decreases s.len(),
{
    if s.len() == 0 {
        0
    } else if s[0].0 == k {
        0
    } else {
        1 + spec_key_index(s.drop_first(), k)
    }
}

proof fn lemma_key_index_is(s: Seq<(Seq<char>, Seq<char>)>, k: Seq<char>, i: int)
    requires
        0 <= i < s.len(),
        s[i].0 == k,
        forall|j: int| 0 <= j < i ==> s[j].0 != k,
    ensures
        spec_key_index(s, k) == i,
    decreases i,
{
    if i > 0 {
        lemma_key_index_is(s.drop_first(), k, i - 1);
    }
}

impl LocalStorageIterator {
    /// The cursor's position in key order.
    pub closed spec fn spec_index(&self) -> i32 {
        self.index
    }

    /// A cursor at the start of the key order.
    pub fn new() -> (it: LocalStorageIterator)
        ensures
            it.spec_index() == 0,
    {
        LocalStorageIterator { index: 0 }
    }

    /// The value of the entry at the cursor, advancing the cursor past it;
    /// `None` once the cursor has passed the last entry.
    pub fn next(&mut self, store: &LocalStorageInterface) -> (r: Option<String>)
        requires
            store.wf(),
            0 <= old(self).spec_index(),
            store@.len() <= i32::MAX,
        ensures
            old(self).spec_index() >= store@.len() ==> r is None && final(self).spec_index()
                == old(self).spec_index(),
            old(self).spec_index() < store@.len() ==> {
                &&& final(self).spec_index() == old(self).spec_index() + 1
                &&& (r matches Some(v) && v@ == store@[old(self).spec_index() as int].1)
            },
    {
        if self.index >= store.len() {
            None
        } else {
            let i = self.index;
            let k = store.key(i);
            self.index = i + 1;
            proof {
                lemma_lookup_at_index(store@, i as int);
            }
            match store.get(k.as_str()) {
                Some(v) => Some(v),
                None => {
                    proof {
                        assert(false);
                    }
                    None
                },
            }
        }
    }
}

} // verus!
