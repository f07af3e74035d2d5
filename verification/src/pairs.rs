//! A small map from text keys to values, kept in the order of insertion.

use vstd::prelude::*;

use crate::text;

verus! {

/// Values under text keys.
#[derive(Debug)]
pub struct Pairs<V> {
    entries: Vec<(String, V)>,
}

impl<V> View for Pairs<V> {
    type V = Seq<(Seq<char>, V)>;

    closed spec fn view(&self) -> Seq<(Seq<char>, V)> {
        self.entries@.map_values(|e: (String, V)| (e.0@, e.1))
    }
}

/// No key stands twice.
pub open spec fn distinct_keys<V>(s: Seq<(Seq<char>, V)>) -> bool {
    forall|i: int, j: int| 0 <= i < j < s.len() ==> (#[trigger] s[i]).0 != (#[trigger] s[j]).0
}

/// The position of `key`, or the number of pairs where it is missing.
pub open spec fn key_position<V>(s: Seq<(Seq<char>, V)>, key: Seq<char>) -> nat
    decreases s.len(),
{
    if s.len() == 0 || s[0].0 == key {
        0
    } else {
        1 + key_position(s.drop_first(), key)
    }
}

/// The value under `key`.
pub open spec fn lookup<V>(s: Seq<(Seq<char>, V)>, key: Seq<char>) -> Option<V> {
    if key_position(s, key) < s.len() {
        Some(s[key_position(s, key) as int].1)
    } else {
        None
    }
}

proof fn key_position_is<V>(s: Seq<(Seq<char>, V)>, key: Seq<char>, k: int)
    requires
        0 <= k <= s.len(),
        k < s.len() ==> s[k].0 == key,
        forall|i: int| 0 <= i < k ==> s[i].0 != key,
    ensures
        key_position(s, key) == k,
    decreases s.len(),
{
    if s.len() > 0 && s[0].0 != key {
        assert forall|i: int| 0 <= i < k - 1 implies s.drop_first()[i].0 != key by {
            assert(s.drop_first()[i] == s[i + 1]);
        }
        key_position_is(s.drop_first(), key, k - 1);
    }
}

/// A key is found exactly where one of the pairs holds it.
pub proof fn key_position_first<V>(s: Seq<(Seq<char>, V)>, key: Seq<char>)
    ensures
        key_position(s, key) <= s.len(),
        key_position(s, key) < s.len() ==> s[key_position(s, key) as int].0 == key,
        forall|i: int| 0 <= i < key_position(s, key) ==> s[i].0 != key,
    decreases s.len(),
{
    if s.len() > 0 && s[0].0 != key {
        key_position_first(s.drop_first(), key);
        assert forall|i: int| 0 <= i < key_position(s, key) implies s[i].0 != key by {
            if i > 0 {
                assert(s.drop_first()[i - 1] == s[i]);
            }
        }
    }
}

impl<V> Pairs<V> {
    /// Whether no key stands twice.
    pub open spec fn wf(&self) -> bool {
        distinct_keys(self@)
    }

    pub fn new() -> (r: Pairs<V>)
        ensures
            r@ == Seq::<(Seq<char>, V)>::empty(),
            r.wf(),
    {
        let r = Pairs { entries: Vec::new() };
        assert(r@ =~= Seq::<(Seq<char>, V)>::empty());
        r
    }

    pub fn len(&self) -> (r: usize)
        ensures
            r == self@.len(),
    {
        self.entries.len()
    }

    pub fn is_empty(&self) -> (r: bool)
        ensures
            r == (self@.len() == 0),
    {
        self.entries.len() == 0
    }

    /// The key at a position.
    pub fn key_at(&self, i: usize) -> (r: &str)
        requires
            i < self@.len(),
        ensures
            r@ == self@[i as int].0,
    {
        self.entries[i].0.as_str()
    }

    /// The value at a position.
    pub fn value_at(&self, i: usize) -> (r: &V)
        requires
            i < self@.len(),
        ensures
            *r == self@[i as int].1,
    {
        &self.entries[i].1
    }

    fn position(&self, key: &str) -> (r: usize)
        ensures
            r == key_position(self@, key@),
            r <= self@.len(),
    {
        let mut i: usize = 0;
        while i < self.entries.len() && !text::same(self.entries[i].0.as_str(), key)
            invariant
                i <= self.entries.len(),
                forall|k: int| 0 <= k < i ==> (#[trigger] self@[k]).0 != key@,
            decreases self.entries.len() - i,
        {
            assert(self@[i as int].0 == self.entries@[i as int].0@);
            i = i + 1;
        }
        assert(i < self.entries.len() ==> self@[i as int].0 == self.entries@[i as int].0@);
        proof {
            key_position_is(self@, key@, i as int);
        }
        i
    }

    /// The value under `key`.
    pub fn get(&self, key: &str) -> (r: Option<&V>)
        ensures
            match r {
                Some(v) => lookup(self@, key@) == Some(*v),
                None => lookup(self@, key@) is None,
            },
    {
        let i: usize = self.position(key);
        if i < self.entries.len() {
            assert(self@[i as int].1 == self.entries@[i as int].1);
            Some(&self.entries[i].1)
        } else {
            None
        }
    }

    /// Takes the pair under `key` out.
    pub fn remove(&mut self, key: &str)
        ensures
            ({
                let k = key_position(old(self)@, key@);
                final(self)@ == if k < old(self)@.len() {
                    old(self)@.remove(k as int)
                } else {
                    old(self)@
                }
            }),
            old(self).wf() ==> final(self).wf() && lookup(final(self)@, key@) is None,
    {
        let i: usize = self.position(key);
        let ghost before = self@;
        proof {
            key_position_first(before, key@);
        }
        if i < self.entries.len() {
            let _ = self.entries.remove(i);
            assert(self@ =~= before.remove(i as int));
        }
        proof {
            if distinct_keys(before) {
                let after = self@;
                if i < before.len() {
                    assert forall|a: int, b: int| 0 <= a < b < after.len() implies (
                    #[trigger] after[a]).0 != (#[trigger] after[b]).0 by {
                        let x = if a < i {
                            a
                        } else {
                            a + 1
                        };
                        let y = if b < i {
                            b
                        } else {
                            b + 1
                        };
                        assert(after[a] == before[x] && after[b] == before[y]);
                    }
                    assert forall|a: int| 0 <= a < after.len() implies (#[trigger] after[a]).0
                        != key@ by {
                        if a < i {
                            assert(after[a] == before[a]);
                        } else {
                            assert(after[a] == before[a + 1]);
                            assert(before[i as int].0 != before[a + 1].0);
                        }
                    }
                }
                key_position_is(after, key@, after.len() as int);
            }
        }
    }

    /// Puts `value` under `key`, in place of what stood there.
    pub fn insert(&mut self, key: String, value: V)
        ensures
            ({
                let k = key_position(old(self)@, key@);
                final(self)@ == if k < old(self)@.len() {
                    old(self)@.update(k as int, (key@, value))
                } else {
                    old(self)@.push((key@, value))
                }
            }),
            old(self).wf() ==> final(self).wf(),
            lookup(final(self)@, key@) == Some(value),
            forall|other: Seq<char>|
                other != key@ ==> lookup(final(self)@, other) == lookup(old(self)@, other),
    {
        let i: usize = self.position(key.as_str());
        let ghost before = self@;
        proof {
            key_position_first(before, key@);
        }
        if i < self.entries.len() {
            self.entries.set(i, (key, value));
            assert(self@ =~= before.update(i as int, (key@, value)));
        } else {
            self.entries.push((key, value));
            assert(self@ =~= before.push((key@, value)));
        }
        proof {
            key_position_is(self@, key@, i as int);
            assert forall|other: Seq<char>| other != key@ implies lookup(self@, other) == lookup(
                before,
                other,
            ) by {
                key_position_first(before, other);
                let p = key_position(before, other) as int;
                if p < before.len() {
                    key_position_is(self@, other, p);
                } else {
                    key_position_is(self@, other, self@.len() as int);
                }
            }
        }
    }
}

/// A key leads to a value exactly where a pair holds it, and to that of the first such pair.
pub proof fn keys_lead_to_values<V>(s: Seq<(Seq<char>, V)>, key: Seq<char>)
    ensures
        lookup(s, key) is Some <==> exists|i: int| 0 <= i < s.len() && (#[trigger] s[i]).0 == key,
        lookup(s, key) matches Some(v) ==> exists|i: int|
            {
                &&& 0 <= i < s.len()
                &&& (#[trigger] s[i]).0 == key
                &&& s[i].1 == v
                &&& forall|j: int| 0 <= j < i ==> (#[trigger] s[j]).0 != key
            },
{
    key_position_first(s, key);
    let k = key_position(s, key) as int;
    if k < s.len() {
        assert(s[k].0 == key);
    }
}

} // verus!
