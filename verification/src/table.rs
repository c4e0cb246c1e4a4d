//! Deterministic key-value tables with a sequence view.
//!
//! The bundler keeps several small maps whose iteration order must be
//! deterministic for incremental diffing (filename to asset, filename to
//! content version, entry name to entry data, module and dependency records
//! keyed by numeric id). A vector of pairs with a unique-key invariant gives
//! an exact, order-stable model of each of them.

use vstd::prelude::*;

verus! {

/// First value bound to key `k` in `s`, if any.
pub open spec fn str_lookup<V>(s: Seq<(String, V)>, k: Seq<char>) -> Option<V>
    decreases s.len(),
{
    if s.len() == 0 {
        None
    } else if s[0].0@ == k {
        Some(s[0].1)
    } else {
        str_lookup(s.subrange(1, s.len() as int), k)
    }
}

/// Keys of `s` as a set of character sequences.
pub open spec fn str_key_set<V>(s: Seq<(String, V)>) -> Set<Seq<char>> {
    Set::new(|k: Seq<char>| str_lookup(s, k) is Some)
}

/// All keys in `s` are distinct.
pub open spec fn str_keys_unique<V>(s: Seq<(String, V)>) -> bool {
    forall|i: int, j: int|
        0 <= i < s.len() && 0 <= j < s.len() && i != j ==> s[i].0@ != s[j].0@
}

pub proof fn lemma_str_lookup_at<V>(s: Seq<(String, V)>, k: Seq<char>, i: int)
    requires
        0 <= i < s.len(),
        forall|j: int| 0 <= j < i ==> s[j].0@ != k,
        s[i].0@ == k,
    ensures
        str_lookup(s, k) == Some(s[i].1),
    decreases i,
{
    if i == 0 {
    } else {
        let t = s.subrange(1, s.len() as int);
        assert(t[i - 1] == s[i]);
        assert(forall|j: int| 0 <= j < i - 1 ==> t[j] == s[j + 1] && #[trigger] t[j].0@ != k);
        lemma_str_lookup_at(t, k, i - 1);
    }
}

pub proof fn lemma_str_lookup_none<V>(s: Seq<(String, V)>, k: Seq<char>)
    requires
        forall|j: int| 0 <= j < s.len() ==> s[j].0@ != k,
    ensures
        str_lookup(s, k) is None,
    decreases s.len(),
{
    if s.len() > 0 {
        let t = s.subrange(1, s.len() as int);
        assert(forall|j: int| 0 <= j < t.len() ==> t[j] == s[j + 1] && #[trigger] t[j].0@ != k);
        lemma_str_lookup_none(t, k);
    }
}

/// A lookup hit names some index holding the key.
pub proof fn lemma_str_lookup_index<V>(s: Seq<(String, V)>, k: Seq<char>)
    requires
        str_lookup(s, k) is Some,
    ensures
        exists|i: int|
            0 <= i < s.len() && s[i].0@ == k && str_lookup(s, k) == Some(s[i].1),
    decreases s.len(),
{
    if s.len() > 0 {
        if s[0].0@ == k {
        } else {
            let t = s.subrange(1, s.len() as int);
            lemma_str_lookup_index(t, k);
            let i = choose|i: int|
                0 <= i < t.len() && t[i].0@ == k && str_lookup(t, k) == Some(t[i].1);
            assert(s[i + 1] == t[i]);
        }
    }
}

/// Appending a pair with a fresh key leaves every other lookup unchanged.
pub proof fn lemma_str_lookup_push<V>(s: Seq<(String, V)>, p: (String, V), k: Seq<char>)
    requires
        str_lookup(s, p.0@) is None,
    ensures
        k == p.0@ ==> str_lookup(s.push(p), k) == Some(p.1),
        k != p.0@ ==> str_lookup(s.push(p), k) == str_lookup(s, k),
    decreases s.len(),
{
    if s.len() == 0 {
        assert(s.push(p)[0] == p);
        assert(s.push(p).subrange(1, 1) =~= s);
        if k != p.0@ {
            assert(str_lookup(s.push(p), k) == str_lookup(s.push(p).subrange(1, 1), k));
        }
    } else {
        let t = s.subrange(1, s.len() as int);
        lemma_str_lookup_push(t, p, k);
        assert(s.push(p)[0] == s[0]);
        assert(s.push(p).subrange(1, s.push(p).len() as int) =~= t.push(p));
        if s[0].0@ != k {
            assert(str_lookup(s.push(p), k) == str_lookup(t.push(p), k));
            assert(str_lookup(s, k) == str_lookup(t, k));
        }
    }
}

/// Map from `String` keys to values, stored as a vector of pairs with
/// distinct keys; lookups and iteration order are fully determined.
#[derive(Debug)]
pub struct StrTable<V> {
    entries: Vec<(String, V)>,
}

impl<V> StrTable<V> {
    /// The table's contents in insertion order.
    pub closed spec fn items(&self) -> Seq<(String, V)> {
        self.entries@
    }

    /// Key uniqueness invariant.
    pub open spec fn wf(&self) -> bool {
        str_keys_unique(self.items())
    }

    pub open spec fn spec_lookup(&self, k: Seq<char>) -> Option<V> {
        str_lookup(self.items(), k)
    }

    pub open spec fn contains_key(&self, k: Seq<char>) -> bool {
        self.spec_lookup(k) is Some
    }

    pub open spec fn key_set(&self) -> Set<Seq<char>> {
        str_key_set(self.items())
    }

    pub fn new() -> (r: Self)
        ensures
            r.items() =~= Seq::<(String, V)>::empty(),
            r.wf(),
    {
        StrTable { entries: Vec::new() }
    }

    pub fn len(&self) -> (n: usize)
        ensures
            n == self.items().len(),
    {
        self.entries.len()
    }

    pub fn key_at(&self, i: usize) -> (k: &String)
        requires
            i < self.items().len(),
        ensures
            k == self.items()[i as int].0,
    {
        &self.entries[i].0
    }

    pub fn value_at(&self, i: usize) -> (v: &V)
        requires
            i < self.items().len(),
        ensures
            v == self.items()[i as int].1,
    {
        &self.entries[i].1
    }

    /// Index of the entry holding key `k`, if the key is present.
    fn find(&self, k: &String) -> (r: Option<usize>)
        ensures
            match r {
                Some(i) => i < self.items().len() && self.items()[i as int].0@ == k@
                    && self.spec_lookup(k@) == Some(self.items()[i as int].1),
                None => self.spec_lookup(k@) is None,
            },
    {
        let n = self.entries.len();
        let mut i: usize = 0;
        while i < n
            invariant
                n == self.items().len(),
                i <= n,
                forall|j: int| 0 <= j < i ==> self.items()[j].0@ != k@,
            decreases n - i,
        {
            if self.entries[i].0 == *k {
                proof {
                    lemma_str_lookup_at(self.items(), k@, i as int);
                }
                return Some(i);
            }
            i += 1;
        }
        proof {
            lemma_str_lookup_none(self.items(), k@);
        }
        None
    }

    pub fn get(&self, k: &String) -> (r: Option<&V>)
        ensures
            match r {
                Some(v) => self.spec_lookup(k@) == Some(*v),
                None => self.spec_lookup(k@) is None,
            },
    {
        match self.find(k) {
            Some(i) => Some(&self.entries[i].1),
            None => None,
        }
    }

    pub fn has_key(&self, k: &String) -> (r: bool)
        ensures
            r == self.contains_key(k@),
    {
        match self.find(k) {
            Some(_) => true,
            None => false,
        }
    }

    /// Bind `k` to `v`: replace the existing entry in place, or append.
    pub fn insert(&mut self, k: String, v: V)
        requires
            old(self).wf(),
        ensures
            final(self).wf(),
            final(self).spec_lookup(k@) == Some(v),
            forall|k2: Seq<char>| k2 != k@ ==>
                final(self).spec_lookup(k2) == old(self).spec_lookup(k2),
            !old(self).contains_key(k@) ==>
                final(self).items() == old(self).items().push((k, v)),
            old(self).contains_key(k@) ==>
                final(self).items().len() == old(self).items().len(),
    {
        let found = self.find(&k);
        match found {
            Some(i) => {
                proof {
                    lemma_replace_keeps_lookup(self.items(), i as int, (k, v));
                }
                self.entries.set(i, (k, v));
            }
            None => {
                proof {
                    lemma_str_lookup_push(self.items(), (k, v), k@);
                }
                let ghost s0 = self.items();
                self.entries.push((k, v));
                proof {
                    assert forall|k2: Seq<char>| k2 != k@ implies
                        str_lookup(s0.push((k, v)), k2) == str_lookup(s0, k2) by {
                        lemma_str_lookup_push(s0, (k, v), k2);
                    }
                    assert forall|i: int, j: int|
                        0 <= i < s0.push((k, v)).len() && 0 <= j < s0.push((k, v)).len() && i != j
                        implies s0.push((k, v))[i].0@ != s0.push((k, v))[j].0@ by {
                        if i < s0.len() && j < s0.len() {
                        } else if i == s0.len() {
                            if s0[j].0@ == k@ {
                                lemma_str_lookup_at(s0, k@, j);
                            }
                        } else {
                            if s0[i].0@ == k@ {
                                lemma_str_lookup_at(s0, k@, i);
                            }
                        }
                    }
                }
            }
        }
    }
}

impl<V> StrTable<V> {
    /// Drop the binding for `k`, if any; every other binding is kept.
    pub fn remove(&mut self, k: &String)
        requires
            old(self).wf(),
        ensures
            final(self).wf(),
            final(self).spec_lookup(k@) is None,
            forall|k2: Seq<char>| k2 != k@ ==>
                final(self).spec_lookup(k2) == old(self).spec_lookup(k2),
            old(self).contains_key(k@) ==>
                final(self).items().len() == old(self).items().len() - 1,
            !old(self).contains_key(k@) ==> final(self).items() == old(self).items(),
    {
        let found = self.find(k);
        match found {
            Some(i) => {
                proof {
                    let s = self.items();
                    assert forall|k2: Seq<char>| k2 != k@ implies
                        str_lookup(s.remove(i as int), k2) == str_lookup(s, k2) by {
                        lemma_remove_effect(s, i as int, k2);
                    }
                    lemma_remove_effect(s, i as int, k@);
                    assert forall|a: int, b: int|
                        0 <= a < s.remove(i as int).len() && 0 <= b < s.remove(i as int).len()
                            && a != b implies s.remove(i as int)[a].0@ != s.remove(
                        i as int,
                    )[b].0@ by {
                        let sa: int = if a < i { a } else { a + 1 };
                        let sb: int = if b < i { b } else { b + 1 };
                        assert(s.remove(i as int)[a] == s[sa]);
                        assert(s.remove(i as int)[b] == s[sb]);
                    }
                }
                self.entries.remove(i);
            }
            None => {}
        }
    }
}

/// Removing the entry at `i` drops exactly that key's binding.
pub proof fn lemma_remove_effect<V>(s: Seq<(String, V)>, i: int, k2: Seq<char>)
    requires
        str_keys_unique(s),
        0 <= i < s.len(),
    ensures
        k2 != s[i].0@ ==> str_lookup(s.remove(i), k2) == str_lookup(s, k2),
        str_lookup(s.remove(i), s[i].0@) is None,
    decreases s.len(),
{
    let t = s.remove(i);
    if i == 0 {
        assert(t =~= s.subrange(1, s.len() as int));
        assert(forall|j: int| 0 <= j < t.len() ==> t[j] == s[j + 1] && #[trigger] t[j].0@ != s[0].0@);
        lemma_str_lookup_none(t, s[0].0@);
    } else {
        assert(t[0] == s[0]);
        let st = s.subrange(1, s.len() as int);
        assert(forall|a: int, b: int|
            0 <= a < st.len() && 0 <= b < st.len() && a != b ==> #[trigger] st[a].0@
                != #[trigger] st[b].0@) by {
            assert(forall|a: int| 0 <= a < st.len() ==> st[a] == s[a + 1]);
        }
        assert(t.subrange(1, t.len() as int) =~= st.remove(i - 1));
        lemma_remove_effect(st, i - 1, k2);
        lemma_remove_effect(st, i - 1, s[0].0@);
        assert(st[i - 1] == s[i]);
        if k2 != s[i].0@ {
            if s[0].0@ == k2 {
            } else {
                assert(str_lookup(t, k2) == str_lookup(st.remove(i - 1), k2));
                assert(str_lookup(s, k2) == str_lookup(st, k2));
            }
        }
        assert(s[0].0@ != s[i].0@);
        assert(str_lookup(t, s[i].0@) == str_lookup(st.remove(i - 1), s[i].0@));
    }
}

/// Replacing the entry at `i` by a pair with the same key changes only that
/// key's binding and preserves key uniqueness.
pub proof fn lemma_replace_keeps_lookup<V>(s: Seq<(String, V)>, i: int, p: (String, V))
    requires
        str_keys_unique(s),
        0 <= i < s.len(),
        s[i].0@ == p.0@,
    ensures
        str_keys_unique(s.update(i, p)),
        str_lookup(s.update(i, p), p.0@) == Some(p.1),
        forall|k2: Seq<char>| k2 != p.0@ ==>
            str_lookup(s.update(i, p), k2) == str_lookup(s, k2),
{
    let t = s.update(i, p);
    assert(forall|j: int| 0 <= j < i ==> t[j] == s[j] && #[trigger] t[j].0@ != p.0@);
    lemma_str_lookup_at(t, p.0@, i);
    assert forall|k2: Seq<char>| k2 != p.0@ implies str_lookup(t, k2) == str_lookup(s, k2) by {
        lemma_update_other_key(s, i, p, k2);
    }
}

proof fn lemma_update_other_key<V>(s: Seq<(String, V)>, i: int, p: (String, V), k2: Seq<char>)
    requires
        0 <= i < s.len(),
        s[i].0@ == p.0@,
        k2 != p.0@,
    ensures
        str_lookup(s.update(i, p), k2) == str_lookup(s, k2),
    decreases s.len(),
{
    let t = s.update(i, p);
    if i == 0 {
        assert(t.subrange(1, t.len() as int) =~= s.subrange(1, s.len() as int));
    } else {
        assert(t[0] == s[0]);
        if s[0].0@ == k2 {
        } else {
            assert(t.subrange(1, t.len() as int) =~= s.subrange(1, s.len() as int).update(
                i - 1,
                p,
            ));
            lemma_update_other_key(s.subrange(1, s.len() as int), i - 1, p, k2);
        }
    }
}

/// First value bound to numeric key `k` in `s`, if any.
pub open spec fn id_lookup<V>(s: Seq<(u64, V)>, k: u64) -> Option<V>
    decreases s.len(),
{
    if s.len() == 0 {
        None
    } else if s[0].0 == k {
        Some(s[0].1)
    } else {
        id_lookup(s.subrange(1, s.len() as int), k)
    }
}

pub open spec fn id_keys_unique<V>(s: Seq<(u64, V)>) -> bool {
    forall|i: int, j: int|
        0 <= i < s.len() && 0 <= j < s.len() && i != j ==> s[i].0 != s[j].0
}

pub proof fn lemma_id_lookup_at<V>(s: Seq<(u64, V)>, k: u64, i: int)
    requires
        0 <= i < s.len(),
        forall|j: int| 0 <= j < i ==> s[j].0 != k,
        s[i].0 == k,
    ensures
        id_lookup(s, k) == Some(s[i].1),
    decreases i,
{
    if i == 0 {
    } else {
        let t = s.subrange(1, s.len() as int);
        assert(t[i - 1] == s[i]);
        assert(forall|j: int| 0 <= j < i - 1 ==> t[j] == s[j + 1] && #[trigger] t[j].0 != k);
        lemma_id_lookup_at(t, k, i - 1);
    }
}

pub proof fn lemma_id_lookup_none<V>(s: Seq<(u64, V)>, k: u64)
    requires
        forall|j: int| 0 <= j < s.len() ==> s[j].0 != k,
    ensures
        id_lookup(s, k) is None,
    decreases s.len(),
{
    if s.len() > 0 {
        let t = s.subrange(1, s.len() as int);
        assert(forall|j: int| 0 <= j < t.len() ==> t[j] == s[j + 1] && #[trigger] t[j].0 != k);
        lemma_id_lookup_none(t, k);
    }
}

/// A lookup hit names some index holding the key.
pub proof fn lemma_id_lookup_index<V>(s: Seq<(u64, V)>, k: u64)
    requires
        id_lookup(s, k) is Some,
    ensures
        exists|i: int| 0 <= i < s.len() && s[i].0 == k && id_lookup(s, k) == Some(s[i].1),
    decreases s.len(),
{
    if s.len() > 0 {
        if s[0].0 == k {
        } else {
            let t = s.subrange(1, s.len() as int);
            lemma_id_lookup_index(t, k);
            let i = choose|i: int| 0 <= i < t.len() && t[i].0 == k && id_lookup(t, k) == Some(t[i].1);
            assert(s[i + 1] == t[i]);
        }
    }
}

pub proof fn lemma_id_lookup_push<V>(s: Seq<(u64, V)>, p: (u64, V), k: u64)
    requires
        id_lookup(s, p.0) is None,
    ensures
        k == p.0 ==> id_lookup(s.push(p), k) == Some(p.1),
        k != p.0 ==> id_lookup(s.push(p), k) == id_lookup(s, k),
    decreases s.len(),
{
    if s.len() == 0 {
        assert(s.push(p)[0] == p);
        assert(s.push(p).subrange(1, 1) =~= s);
        if k != p.0 {
            assert(id_lookup(s.push(p), k) == id_lookup(s.push(p).subrange(1, 1), k));
        }
    } else {
        let t = s.subrange(1, s.len() as int);
        lemma_id_lookup_push(t, p, k);
        assert(s.push(p)[0] == s[0]);
        assert(s.push(p).subrange(1, s.push(p).len() as int) =~= t.push(p));
        if s[0].0 != k {
            assert(id_lookup(s.push(p), k) == id_lookup(t.push(p), k));
            assert(id_lookup(s, k) == id_lookup(t, k));
        }
    }
}

/// Map from `u64` ids to values, stored as a vector of pairs with distinct
/// keys; ids are allocated by the callers.
#[derive(Debug)]
pub struct IdTable<V> {
    entries: Vec<(u64, V)>,
}

impl<V> IdTable<V> {
    pub closed spec fn items(&self) -> Seq<(u64, V)> {
        self.entries@
    }

    pub open spec fn wf(&self) -> bool {
        id_keys_unique(self.items())
    }

    pub open spec fn spec_lookup(&self, k: u64) -> Option<V> {
        id_lookup(self.items(), k)
    }

    pub open spec fn contains_key(&self, k: u64) -> bool {
        self.spec_lookup(k) is Some
    }

    pub fn new() -> (r: Self)
        ensures
            r.items() =~= Seq::<(u64, V)>::empty(),
            r.wf(),
    {
        IdTable { entries: Vec::new() }
    }

    pub fn len(&self) -> (n: usize)
        ensures
            n == self.items().len(),
    {
        self.entries.len()
    }

    pub fn key_at(&self, i: usize) -> (k: u64)
        requires
            i < self.items().len(),
        ensures
            k == self.items()[i as int].0,
    {
        self.entries[i].0
    }

    pub fn value_at(&self, i: usize) -> (v: &V)
        requires
            i < self.items().len(),
        ensures
            v == self.items()[i as int].1,
    {
        &self.entries[i].1
    }

    fn find(&self, k: u64) -> (r: Option<usize>)
        ensures
            match r {
                Some(i) => i < self.items().len() && self.items()[i as int].0 == k
                    && self.spec_lookup(k) == Some(self.items()[i as int].1),
                None => self.spec_lookup(k) is None,
            },
    {
        let n = self.entries.len();
        let mut i: usize = 0;
        while i < n
            invariant
                n == self.items().len(),
                i <= n,
                forall|j: int| 0 <= j < i ==> self.items()[j].0 != k,
            decreases n - i,
        {
            if self.entries[i].0 == k {
                proof {
                    lemma_id_lookup_at(self.items(), k, i as int);
                }
                return Some(i);
            }
            i += 1;
        }
        proof {
            lemma_id_lookup_none(self.items(), k);
        }
        None
    }

    pub fn get(&self, k: u64) -> (r: Option<&V>)
        ensures
            match r {
                Some(v) => self.spec_lookup(k) == Some(*v),
                None => self.spec_lookup(k) is None,
            },
    {
        match self.find(k) {
            Some(i) => Some(&self.entries[i].1),
            None => None,
        }
    }

    pub fn has_key(&self, k: u64) -> (r: bool)
        ensures
            r == self.contains_key(k),
    {
        match self.find(k) {
            Some(_) => true,
            None => false,
        }
    }

    /// Append a binding for a key that is not yet present.
    pub fn insert_new(&mut self, k: u64, v: V)
        requires
            old(self).wf(),
            !old(self).contains_key(k),
        ensures
            final(self).wf(),
            final(self).items() == old(self).items().push((k, v)),
            final(self).spec_lookup(k) == Some(v),
            forall|k2: u64| k2 != k ==>
                final(self).spec_lookup(k2) == old(self).spec_lookup(k2),
    {
        proof {
            lemma_id_lookup_push(self.items(), (k, v), k);
        }
        let ghost s0 = self.items();
        self.entries.push((k, v));
        proof {
            assert forall|k2: u64| k2 != k implies
                id_lookup(s0.push((k, v)), k2) == id_lookup(s0, k2) by {
                lemma_id_lookup_push(s0, (k, v), k2);
            }
            assert forall|i: int, j: int|
                0 <= i < s0.push((k, v)).len() && 0 <= j < s0.push((k, v)).len() && i != j
                implies s0.push((k, v))[i].0 != s0.push((k, v))[j].0 by {
                if i < s0.len() && j < s0.len() {
                } else if i == s0.len() {
                    if s0[j].0 == k {
                        lemma_id_lookup_at(s0, k, j);
                    }
                } else {
                    if s0[i].0 == k {
                        lemma_id_lookup_at(s0, k, i);
                    }
                }
            }
        }
    }
}

} // verus!
