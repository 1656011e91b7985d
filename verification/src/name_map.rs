//! A map from names to values, kept in name order.

use vstd::prelude::*;

use crate::text;
use crate::text::same_text;
use crate::text::text_less;

verus! {

/// A map from names to values. Its entries stand in the order of their names,
/// each name once.
#[derive(Debug)]
pub struct NameMap<V> {
    entries: Vec<(String, V)>,
}

spec fn ascending<V>(s: Seq<(String, V)>) -> bool {
    forall|i: int, j: int|
        0 <= i < j < s.len() ==> text::text_lt((#[trigger] s[i]).0@, (#[trigger] s[j]).0@)
}

spec fn names<V>(s: Seq<(String, V)>, key: Seq<char>) -> bool {
    exists|i: int| 0 <= i < s.len() && (#[trigger] s[i]).0@ == key
}

spec fn place<V>(s: Seq<(String, V)>, key: Seq<char>) -> int {
    choose|i: int| 0 <= i < s.len() && (#[trigger] s[i]).0@ == key
}

proof fn place_is<V>(s: Seq<(String, V)>, i: int)
    requires
        ascending(s),
        0 <= i < s.len(),
    ensures
        names(s, s[i].0@),
        place(s, s[i].0@) == i,
{
    let p = place(s, s[i].0@);
    text::text_lt_irreflexive(s[i].0@);
    if p < i {
        assert(text::text_lt(s[p].0@, s[i].0@));
    } else if i < p {
        assert(text::text_lt(s[i].0@, s[p].0@));
    }
}

impl<V> View for NameMap<V> {
    type V = Map<Seq<char>, V>;

    closed spec fn view(&self) -> Map<Seq<char>, V> {
        Map::new(
            |key: Seq<char>| names(self.entries@, key),
            |key: Seq<char>| self.entries@[place(self.entries@, key)].1,
        )
    }
}

impl<V> NameMap<V> {
    #[verifier::type_invariant]
    spec fn well_formed(self) -> bool {
        ascending(self.entries@)
    }

    /// The empty map.
    pub fn new() -> (r: Self)
        ensures
            r@ == Map::<Seq<char>, V>::empty(),
    {
        let r = NameMap { entries: Vec::new() };
        assert(r@ =~= Map::<Seq<char>, V>::empty());
        r
    }

    /// The first position whose name is not before `key`.
    fn slot(entries: &Vec<(String, V)>, key: &str) -> (at: usize)
        requires
            ascending(entries@),
        ensures
            at <= entries.len(),
            forall|j: int| 0 <= j < at ==> text::text_lt((#[trigger] entries@[j]).0@, key@),
            at < entries.len() ==> !text::text_lt(entries@[at as int].0@, key@),
    {
        let mut at: usize = 0;
        while at < entries.len() && text_less(entries[at].0.as_str(), key)
            invariant
                at <= entries.len(),
                forall|j: int| 0 <= j < at ==> text::text_lt((#[trigger] entries@[j]).0@, key@),
            decreases entries.len() - at,
        {
            at += 1;
        }
        at
    }

    /// The value under `key`.
    pub fn get(&self, key: &str) -> (r: Option<&V>)
        ensures
            match r {
                Some(v) => self@.contains_key(key@) && self@[key@] == *v,
                None => !self@.contains_key(key@),
            },
    {
        let mut i: usize = 0;
        proof {
            use_type_invariant(self);
        }
        while i < self.entries.len()
            invariant
                i <= self.entries.len(),
                forall|j: int| 0 <= j < i ==> (#[trigger] self.entries@[j]).0@ != key@,
            decreases self.entries.len() - i,
        {
            if same_text(self.entries[i].0.as_str(), key) {
                proof {
                    use_type_invariant(self);
                    place_is(self.entries@, i as int);
                }
                return Some(&self.entries[i].1);
            }
            i += 1;
        }
        None
    }

    /// Put `value` under `key`, in place of any earlier one.
    pub fn insert(&mut self, key: &str, value: V)
        ensures
            final(self)@ == old(self)@.insert(key@, value),
    {
        proof {
            use_type_invariant(&*self);
        }
        let ghost before = self.entries@;
        let ghost given = value;
        let mut entries: Vec<(String, V)> = Vec::new();
        std::mem::swap(&mut entries, &mut self.entries);
        let at = Self::slot(&entries, key);
        let found = at < entries.len() && same_text(entries[at].0.as_str(), key);
        if found {
            let name = key.to_owned();
            entries.set(at, (name, value));
        } else {
            proof {
                if at < entries.len() {
                    text::text_lt_total(before[at as int].0@, key@);
                }
            }
            let name = key.to_owned();
            entries.insert(at, (name, value));
        }
        proof {
            let after = entries@;
            assert forall|i: int, j: int| 0 <= i < j < after.len() implies text::text_lt(
                (#[trigger] after[i]).0@,
                (#[trigger] after[j]).0@,
            ) by {
                if found {
                    assert(text::text_lt(before[i].0@, before[j].0@));
                } else {
                    let a = if i < at { i } else { i - 1 };
                    let b = if j < at { j } else { j - 1 };
                    if i != at && j != at {
                        assert(after[i] == before[a] && after[j] == before[b]);
                        assert(text::text_lt(before[a].0@, before[b].0@));
                    } else if j == at {
                        assert(after[i] == before[i]);
                    } else {
                        assert(after[j] == before[b]);
                        if b > at {
                            assert(text::text_lt(before[at as int].0@, before[b].0@));
                            text::text_lt_transitive(key@, before[at as int].0@, before[b].0@);
                        }
                    }
                }
            }
            assert(after[at as int].0@ == key@ && after[at as int].1 == given);
        }
        self.entries = entries;
        proof {
            let after = self.entries@;
            let m = old(self)@;
            assert(m == Map::new(
                |k: Seq<char>| names(before, k),
                |k: Seq<char>| before[place(before, k)].1,
            ));
            place_is(after, at as int);
            assert forall|k: Seq<char>| #[trigger]
                self@.contains_key(k) <==> m.insert(key@, given).contains_key(k) by {
                if names(before, k) {
                    let p = place(before, k);
                    let q = if found || p < at { p } else { p + 1 };
                    assert(after[q].0@ == k);
                }
                if names(after, k) && k != key@ {
                    let q = place(after, k);
                    let p = if found || q < at { q } else { q - 1 };
                    assert(before[p].0@ == k);
                }
            }
            assert forall|k: Seq<char>| #[trigger] self@.contains_key(k) implies self@[k]
                == m.insert(key@, given)[k] by {
                if k != key@ {
                    assert(m.insert(key@, given).contains_key(k));
                    let p = place(before, k);
                    let q = if found || p < at { p } else { p + 1 };
                    assert(after[q] == before[p]);
                    place_is(after, q);
                }
            }
            assert(self@ =~= m.insert(key@, given));
        }
    }

    /// Take out the entry under `key`, if there is one.
    pub fn remove(&mut self, key: &str) -> (r: Option<V>)
        ensures
            final(self)@ == old(self)@.remove(key@),
            r == (if old(self)@.contains_key(key@) {
                Some(old(self)@[key@])
            } else {
                None
            }),
    {
        proof {
            use_type_invariant(&*self);
        }
        let ghost before = self.entries@;
        let mut entries: Vec<(String, V)> = Vec::new();
        std::mem::swap(&mut entries, &mut self.entries);
        let at = Self::slot(&entries, key);
        let found = at < entries.len() && same_text(entries[at].0.as_str(), key);
        let taken = if found {
            Some(entries.remove(at).1)
        } else {
            None
        };
        proof {
            let after = entries@;
            assert forall|i: int, j: int| 0 <= i < j < after.len() implies text::text_lt(
                (#[trigger] after[i]).0@,
                (#[trigger] after[j]).0@,
            ) by {
                let a = if found && i >= at { i + 1 } else { i };
                let b = if found && j >= at { j + 1 } else { j };
                assert(text::text_lt(before[a].0@, before[b].0@));
            }
        }
        self.entries = entries;
        proof {
            let after = self.entries@;
            let m = old(self)@;
            assert(m == Map::new(
                |k: Seq<char>| names(before, k),
                |k: Seq<char>| before[place(before, k)].1,
            ));
            assert forall|k: Seq<char>| #[trigger]
                self@.contains_key(k) <==> m.remove(key@).contains_key(k) by {
                if names(before, k) {
                    let p = place(before, k);
                    if k != key@ {
                        let q = if found && p > at { p - 1 } else { p };
                        assert(after[q].0@ == k);
                    } else if !found {
                        text::text_lt_irreflexive(key@);
                        if p > at {
                            assert(text::text_lt(before[at as int].0@, before[p].0@));
                        }
                        assert(false);
                    }
                }
                if names(after, k) {
                    let q = place(after, k);
                    let p = if found && q >= at { q + 1 } else { q };
                    assert(before[p].0@ == k);
                    place_is(before, p);
                    if found {
                        place_is(before, at as int);
                    } else if k == key@ {
                        text::text_lt_irreflexive(key@);
                        if p > at {
                            assert(text::text_lt(before[at as int].0@, before[p].0@));
                        }
                    }
                }
            }
            assert forall|k: Seq<char>| #[trigger] self@.contains_key(k) implies self@[k]
                == m.remove(key@)[k] by {
                assert(m.remove(key@).contains_key(k));
                let p = place(before, k);
                if found {
                    place_is(before, at as int);
                    place_is(before, p);
                }
                let q = if found && p > at { p - 1 } else { p };
                assert(after[q] == before[p]);
                place_is(after, q);
            }
            assert(self@ =~= m.remove(key@));
            if found {
                place_is(before, at as int);
            } else if names(before, key@) {
                let p = place(before, key@);
                text::text_lt_irreflexive(key@);
                if p > at {
                    assert(text::text_lt(before[at as int].0@, before[p].0@));
                }
            }
        }
        taken
    }

    /// Whether there is no entry.
    pub fn is_empty(&self) -> (r: bool)
        ensures
            r == (self@ == Map::<Seq<char>, V>::empty()),
    {
        let r = self.entries.len() == 0;
        proof {
            use_type_invariant(self);
            if r {
                assert(self@ =~= Map::<Seq<char>, V>::empty());
            } else {
                place_is(self.entries@, 0);
                assert(self@.contains_key(self.entries@[0].0@));
            }
        }
        r
    }

    /// The names, in order.
    pub fn keys(&self) -> (r: Vec<String>)
        ensures
            forall|key: Seq<char>| #[trigger]
                self@.contains_key(key) <==> exists|i: int| 0 <= i < r.len() && (#[trigger] r@[i])@ == key,
            forall|i: int, j: int|
                0 <= i < j < r.len() ==> text::text_lt((#[trigger] r@[i])@, (#[trigger] r@[j])@),
    {
        proof {
            use_type_invariant(self);
        }
        let mut out: Vec<String> = Vec::new();
        let mut i: usize = 0;
        while i < self.entries.len()
            invariant
                i <= self.entries.len(),
                out.len() == i,
                forall|j: int| 0 <= j < i ==> (#[trigger] out@[j])@ == self.entries@[j].0@,
            decreases self.entries.len() - i,
        {
            out.push(self.entries[i].0.clone());
            i += 1;
        }
        proof {
            let s = self.entries@;
            assert forall|key: Seq<char>| #[trigger]
                self@.contains_key(key) <==> exists|i: int|
                    0 <= i < out.len() && (#[trigger] out@[i])@ == key by {
                if names(s, key) {
                    assert(out@[place(s, key)]@ == key);
                }
                if exists|i: int| 0 <= i < out.len() && (#[trigger] out@[i])@ == key {
                    let i = choose|i: int| 0 <= i < out.len() && (#[trigger] out@[i])@ == key;
                    assert(s[i].0@ == key);
                }
            }
        }
        out
    }
}

} // verus!
