//! Small sets used by the feed filters.
//!
//! Items are kept in a vector without duplicates; the view is the set of
//! their values.
use vstd::prelude::*;

use crate::strs::str_eq;

verus! {

broadcast use vstd::string::group_string_axioms;

/// A key with an executable equality that agrees with spec equality.
pub trait SetKey: Copy + Sized {
    fn same(&self, other: &Self) -> (r: bool)
        ensures
            r == (*self == *other),
    ;
}

/// A set of keys.
pub struct KeySet<T: SetKey> {
    items: Vec<T>,
}

impl<T: SetKey> KeySet<T> {
    #[verifier::type_invariant]
    spec fn inv(self) -> bool {
        self.items@.no_duplicates()
    }

    pub closed spec fn elems(self) -> Seq<T> {
        self.items@
    }

    pub open spec fn spec_set(self) -> Set<T> {
        self.elems().to_set()
    }

    pub fn new() -> (s: Self)
        ensures
            s.spec_set() == Set::<T>::empty(),
            s.spec_len() == 0,
    {
        let s = KeySet { items: Vec::new() };
        assert(s.elems().to_set() =~= Set::<T>::empty());
        s
    }

    pub closed spec fn spec_len(self) -> nat {
        self.items@.len()
    }

    pub fn len(&self) -> (n: usize)
        ensures
            n == self.spec_len(),
            n == self.spec_set().len(),
    {
        proof {
            use_type_invariant(self);
            self.items@.unique_seq_to_set();
        }
        self.items.len()
    }

    pub fn is_empty(&self) -> (r: bool)
        ensures
            r == (self.spec_set() == Set::<T>::empty()),
    {
        proof {
            use_type_invariant(self);
            self.items@.unique_seq_to_set();
            if self.items@.len() == 0 {
                assert(self.items@.to_set() =~= Set::<T>::empty());
            }
            if self.items@.len() > 0 {
                assert(self.spec_set().contains(self.items@[0]));
            }
        }
        self.items.len() == 0
    }

    fn position(&self, k: &T) -> (r: Option<usize>)
        ensures
            match r {
                Some(i) => i < self.items@.len() && self.items@[i as int] == *k,
                None => !self.spec_set().contains(*k),
            },
    {
        let mut i: usize = 0;
        while i < self.items.len()
            invariant
                0 <= i <= self.items@.len(),
                forall|j: int| 0 <= j < i ==> self.items@[j] != *k,
            decreases self.items.len() - i,
        {
            if self.items[i].same(k) {
                return Some(i);
            }
            i += 1;
        }
        None
    }

    pub fn contains(&self, k: &T) -> (r: bool)
        ensures
            r == self.spec_set().contains(*k),
    {
        match self.position(k) {
            Some(i) => {
                assert(self.items@.contains(*k));
                true
            },
            None => false,
        }
    }

    /// Adds `k`; returns whether it was absent.
    pub fn insert(&mut self, k: T) -> (added: bool)
        ensures
            final(self).spec_set() == old(self).spec_set().insert(k),
            added == !old(self).spec_set().contains(k),
    {
        proof { use_type_invariant(&*self); }
        if self.contains(&k) {
            assert(self.spec_set() =~= self.spec_set().insert(k));
            false
        } else {
            let ghost before = self.items@;
            let mut items: Vec<T> = Vec::new();
            std::mem::swap(&mut items, &mut self.items);
            items.push(k);
            proof {
                assert(items@ == before.push(k));
                before.lemma_push_to_set_commute(k);
                assert(items@.no_duplicates()) by {
                    assert forall|a: int, b: int|
                        0 <= a < items@.len() && 0 <= b < items@.len() && a != b implies items@[a] != items@[b] by {
                        if a < before.len() && b < before.len() {
                        } else if a == before.len() {
                            assert(before.contains(before[b]));
                        } else {
                            assert(before.contains(before[a]));
                        }
                    }
                }
            }
            self.items = items;
            proof {
                assert(self.items@ == before.push(k));
                before.lemma_push_to_set_commute(k);
                assert(self.items@.no_duplicates()) by {
                    assert forall|a: int, b: int|
                        0 <= a < self.items@.len() && 0 <= b < self.items@.len() && a != b implies self.items@[a] != self.items@[b] by {
                        if a < before.len() && b < before.len() {
                        } else if a == before.len() {
                            assert(before.contains(before[b]));
                        } else {
                            assert(before.contains(before[a]));
                        }
                    }
                }
            }
            true
        }
    }

    /// Removes `k`; returns whether it was present.
    pub fn remove(&mut self, k: &T) -> (removed: bool)
        ensures
            final(self).spec_set() == old(self).spec_set().remove(*k),
            removed == old(self).spec_set().contains(*k),
    {
        proof { use_type_invariant(&*self); }
        match self.position(k) {
            None => {
                assert(self.spec_set() =~= self.spec_set().remove(*k));
                false
            },
            Some(i) => {
                let ghost before = self.items@;
                let mut items: Vec<T> = Vec::new();
                std::mem::swap(&mut items, &mut self.items);
                items.remove(i);
                proof {
                    assert(items@ == before.remove(i as int));
                    assert(items@.no_duplicates()) by {
                        assert forall|a: int, b: int|
                            0 <= a < items@.len() && 0 <= b < items@.len() && a != b implies items@[a] != items@[b] by {
                            let a2 = if a < i { a } else { a + 1 };
                            let b2 = if b < i { b } else { b + 1 };
                            assert(items@[a] == before[a2]);
                            assert(items@[b] == before[b2]);
                        }
                    }
                }
                self.items = items;
                proof {
                    assert(self.items@ == before.remove(i as int));
                    assert(self.items@.no_duplicates()) by {
                        assert forall|a: int, b: int|
                            0 <= a < self.items@.len() && 0 <= b < self.items@.len() && a != b implies self.items@[a] != self.items@[b] by {
                            let a2 = if a < i { a } else { a + 1 };
                            let b2 = if b < i { b } else { b + 1 };
                            assert(self.items@[a] == before[a2]);
                            assert(self.items@[b] == before[b2]);
                        }
                    }
                    assert forall|x: T| #[trigger] self.spec_set().contains(x) == before.to_set().remove(*k).contains(x) by {
                        if self.items@.contains(x) {
                            let j = choose|j: int| 0 <= j < self.items@.len() && self.items@[j] == x;
                            let j2 = if j < i { j } else { j + 1 };
                            assert(before[j2] == x);
                            assert(before.contains(x));
                            assert(x != *k);
                        }
                        if before.contains(x) && x != *k {
                            let j = choose|j: int| 0 <= j < before.len() && before[j] == x;
                            assert(j != i);
                            let j2 = if j < i { j } else { j - 1 };
                            assert(self.items@[j2] == x);
                            assert(self.items@.contains(x));
                        }
                    }
                    assert(self.spec_set() =~= before.to_set().remove(*k));
                }
                true
            },
        }
    }

    /// Removes `k` if present, adds it otherwise.
    pub fn toggle(&mut self, k: T)
        ensures
            final(self).spec_set() == (if old(self).spec_set().contains(k) {
                old(self).spec_set().remove(k)
            } else {
                old(self).spec_set().insert(k)
            }),
    {
        if !self.remove(&k) {
            self.insert(k);
        }
    }
}

/// A set of strings, compared by their characters.
pub struct StrSet {
    items: Vec<String>,
}

impl StrSet {
    pub closed spec fn elems(self) -> Seq<Seq<char>> {
        self.items@.map_values(|s: String| s@)
    }

    #[verifier::type_invariant]
    spec fn inv(self) -> bool {
        self.elems().no_duplicates()
    }

    pub open spec fn spec_set(self) -> Set<Seq<char>> {
        self.elems().to_set()
    }

    pub closed spec fn spec_len(self) -> nat {
        self.items@.len()
    }

    pub fn new() -> (s: Self)
        ensures
            s.spec_set() == Set::<Seq<char>>::empty(),
            s.spec_len() == 0,
    {
        let s = StrSet { items: Vec::new() };
        assert(s.elems().to_set() =~= Set::<Seq<char>>::empty());
        s
    }

    pub fn len(&self) -> (n: usize)
        ensures
            n == self.spec_len(),
            n == self.spec_set().len(),
    {
        proof {
            use_type_invariant(self);
            self.elems().unique_seq_to_set();
        }
        self.items.len()
    }

    pub fn is_empty(&self) -> (r: bool)
        ensures
            r == (self.spec_set() == Set::<Seq<char>>::empty()),
    {
        proof {
            use_type_invariant(self);
            self.elems().unique_seq_to_set();
            if self.items@.len() == 0 {
                assert(self.elems().to_set() =~= Set::<Seq<char>>::empty());
            }
            if self.items@.len() > 0 {
                assert(self.spec_set().contains(self.elems()[0]));
            }
        }
        self.items.len() == 0
    }

    /// The strings in the set, each once.
    pub fn values(&self) -> (r: Vec<String>)
        ensures
            crate::models::views(r@).to_set() == self.spec_set(),
            crate::models::views(r@).no_duplicates(),
    {
        proof { use_type_invariant(self); }
        let mut r: Vec<String> = Vec::new();
        let mut i: usize = 0;
        while i < self.items.len()
            invariant
                0 <= i <= self.items@.len(),
                self.elems().no_duplicates(),
                crate::models::views(r@) == self.elems().take(i as int),
            decreases self.items.len() - i,
        {
            let ghost before = crate::models::views(r@);
            let c = self.items[i].clone();
            assert(c@ == self.elems()[i as int]);
            r.push(c);
            assert(crate::models::views(r@) =~= before.push(c@));
            assert(self.elems().take(i + 1) =~= self.elems().take(i as int).push(self.elems()[i as int]));
            i += 1;
        }
        assert(self.elems().take(self.items@.len() as int) =~= self.elems());
        r
    }

    fn position(&self, k: &str) -> (r: Option<usize>)
        ensures
            match r {
                Some(i) => i < self.items@.len() && self.elems()[i as int] == k@,
                None => !self.spec_set().contains(k@),
            },
    {
        let mut i: usize = 0;
        while i < self.items.len()
            invariant
                0 <= i <= self.items@.len(),
                forall|j: int| 0 <= j < i ==> self.elems()[j] != k@,
            decreases self.items.len() - i,
        {
            if str_eq(self.items[i].as_str(), k) {
                return Some(i);
            }
            i += 1;
        }
        None
    }

    pub fn contains(&self, k: &str) -> (r: bool)
        ensures
            r == self.spec_set().contains(k@),
    {
        match self.position(k) {
            Some(i) => {
                assert(self.elems().contains(k@));
                true
            },
            None => false,
        }
    }

    /// Adds `k`; returns whether it was absent.
    pub fn insert(&mut self, k: String) -> (added: bool)
        ensures
            final(self).spec_set() == old(self).spec_set().insert(k@),
            added == !old(self).spec_set().contains(k@),
    {
        proof { use_type_invariant(&*self); }
        if self.contains(k.as_str()) {
            assert(self.spec_set() =~= self.spec_set().insert(k@));
            false
        } else {
            let ghost before = self.elems();
            let mut items: Vec<String> = Vec::new();
            std::mem::swap(&mut items, &mut self.items);
            items.push(k);
            proof {
                let e = items@.map_values(|s: String| s@);
                assert(e =~= before.push(k@));
                before.lemma_push_to_set_commute(k@);
                assert(e.no_duplicates()) by {
                    assert forall|a: int, b: int|
                        0 <= a < e.len() && 0 <= b < e.len() && a != b implies e[a] != e[b] by {
                        if a < before.len() && b < before.len() {
                        } else if a == before.len() {
                            assert(before.contains(before[b]));
                        } else {
                            assert(before.contains(before[a]));
                        }
                    }
                }
            }
            self.items = items;
            proof {
                assert(self.elems() =~= before.push(k@));
                before.lemma_push_to_set_commute(k@);
                assert(self.elems().no_duplicates()) by {
                    let e = self.elems();
                    assert forall|a: int, b: int|
                        0 <= a < e.len() && 0 <= b < e.len() && a != b implies e[a] != e[b] by {
                        if a < before.len() && b < before.len() {
                        } else if a == before.len() {
                            assert(before.contains(before[b]));
                        } else {
                            assert(before.contains(before[a]));
                        }
                    }
                }
            }
            true
        }
    }

    /// Removes `k`; returns whether it was present.
    pub fn remove(&mut self, k: &str) -> (removed: bool)
        ensures
            final(self).spec_set() == old(self).spec_set().remove(k@),
            removed == old(self).spec_set().contains(k@),
    {
        proof { use_type_invariant(&*self); }
        match self.position(k) {
            None => {
                assert(self.spec_set() =~= self.spec_set().remove(k@));
                false
            },
            Some(i) => {
                let ghost before = self.elems();
                let mut items: Vec<String> = Vec::new();
                std::mem::swap(&mut items, &mut self.items);
                items.remove(i);
                proof {
                    let e = items@.map_values(|s: String| s@);
                    assert(e =~= before.remove(i as int));
                    assert(e.no_duplicates()) by {
                        assert forall|a: int, b: int|
                            0 <= a < e.len() && 0 <= b < e.len() && a != b implies e[a] != e[b] by {
                            let a2 = if a < i { a } else { a + 1 };
                            let b2 = if b < i { b } else { b + 1 };
                            assert(e[a] == before[a2]);
                            assert(e[b] == before[b2]);
                        }
                    }
                }
                self.items = items;
                proof {
                    assert(self.elems() =~= before.remove(i as int));
                    let e = self.elems();
                    assert(e.no_duplicates()) by {
                        assert forall|a: int, b: int|
                            0 <= a < e.len() && 0 <= b < e.len() && a != b implies e[a] != e[b] by {
                            let a2 = if a < i { a } else { a + 1 };
                            let b2 = if b < i { b } else { b + 1 };
                            assert(e[a] == before[a2]);
                            assert(e[b] == before[b2]);
                        }
                    }
                    assert forall|x: Seq<char>| #[trigger] e.to_set().contains(x) == before.to_set().remove(k@).contains(x) by {
                        if e.contains(x) {
                            let j = choose|j: int| 0 <= j < e.len() && e[j] == x;
                            let j2 = if j < i { j } else { j + 1 };
                            assert(before[j2] == x);
                            assert(before.contains(x));
                            assert(x != k@);
                        }
                        if before.contains(x) && x != k@ {
                            let j = choose|j: int| 0 <= j < before.len() && before[j] == x;
                            assert(j != i);
                            let j2 = if j < i { j } else { j - 1 };
                            assert(e[j2] == x);
                            assert(e.contains(x));
                        }
                    }
                    assert(e.to_set() =~= before.to_set().remove(k@));
                }
                true
            },
        }
    }

    /// Removes `k` if present, adds it otherwise.
    pub fn toggle(&mut self, k: String)
        ensures
            final(self).spec_set() == (if old(self).spec_set().contains(k@) {
                old(self).spec_set().remove(k@)
            } else {
                old(self).spec_set().insert(k@)
            }),
    {
        if !self.remove(k.as_str()) {
            self.insert(k);
        }
    }
}

/// Toggling the same key twice restores the set.
pub proof fn law_toggle_twice<T>(s: Set<T>, k: T)
    ensures
        ({
            let once = if s.contains(k) { s.remove(k) } else { s.insert(k) };
            let twice = if once.contains(k) { once.remove(k) } else { once.insert(k) };
            twice == s
        }),
{
    let once = if s.contains(k) { s.remove(k) } else { s.insert(k) };
    let twice = if once.contains(k) { once.remove(k) } else { once.insert(k) };
    assert(twice =~= s);
}

} // verus!
