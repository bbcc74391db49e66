use vstd::prelude::*;
use crate::text::same_text;

verus! {

/// Map from names to values that keeps values in the order in which their keys were
/// first inserted. Replacing the value of a key keeps its position.
pub struct InsordMap<V> {
    values: Vec<(String, V)>,
}

/// Whether no key occurs twice.
pub open spec fn keys_unique<V>(s: Seq<(String, V)>) -> bool {
    forall|i: int, j: int| 0 <= i < j < s.len() ==> s[i].0@ != s[j].0@
}

/// Position of a key, if present.
pub open spec fn key_pos<V>(s: Seq<(String, V)>, k: Seq<char>) -> Option<int> {
    if exists|i: int| 0 <= i < s.len() && s[i].0@ == k {
        Some(choose|i: int| 0 <= i < s.len() && s[i].0@ == k)
    } else {
        None
    }
}

/// The position of a key present in a list of unique keys.
pub proof fn lemma_key_pos<V>(s: Seq<(String, V)>, k: Seq<char>, j: int)
    requires
        keys_unique(s),
        0 <= j < s.len(),
        s[j].0@ == k,
    ensures
        key_pos(s, k) == Some(j),
{
    let c = choose|i: int| 0 <= i < s.len() && s[i].0@ == k;
    if c != j {
        if c < j {
            assert(s[c].0@ != s[j].0@);
        } else {
            assert(s[j].0@ != s[c].0@);
        }
    }
}

impl<V> InsordMap<V> {
    /// The entries in insertion order.
    pub closed spec fn entries(&self) -> Seq<(String, V)> {
        self.values@
    }

    pub open spec fn wf(&self) -> bool {
        keys_unique(self.entries())
    }

    /// An empty map.
    pub fn new() -> (r: Self)
        ensures
            r.wf(),
            r.entries().len() == 0,
    {
        InsordMap { values: Vec::new() }
    }

    fn find(&self, key: &String) -> (r: Option<usize>)
        ensures
            match r {
                Some(p) => p < self.entries().len() && self.entries()[p as int].0@ == key@,
                None => forall|i: int| 0 <= i < self.entries().len() ==> self.entries()[i].0@ != key@,
            },
    {
        let mut i: usize = 0;
        while i < self.values.len()
            invariant
                i <= self.values@.len(),
                forall|j: int| 0 <= j < i ==> self.values@[j].0@ != key@,
            decreases self.values.len() - i,
        {
            if same_text(&self.values[i].0, key) {
                return Some(i);
            }
            i = i + 1;
        }
        None
    }

    /// Maps `value` to `key`; where the key was present, its value is replaced in place
    /// and the previous value is returned; otherwise the entry is appended.
    pub fn insert(&mut self, key: String, value: V) -> (r: Option<V>)
        requires
            old(self).wf(),
        ensures
            final(self).wf(),
            exists|j: int| 0 <= j < final(self).entries().len() && final(self).entries()[j].0@ == key@,
            match r {
                Some(v) => exists|p: int|
                    0 <= p < old(self).entries().len() && old(self).entries()[p].0@ == key@
                        && old(self).entries()[p].1 == v
                        && final(self).entries() == old(self).entries().update(p, (key, value)),
                None => (forall|i: int| 0 <= i < old(self).entries().len() ==> old(self).entries()[i].0@ != key@)
                    && final(self).entries() == old(self).entries().push((key, value)),
            },
    {
        match self.find(&key) {
            Some(p) => {
                let ghost before = self.values@;
                let ghost k = key;
                let ghost v = value;
                let old_entry = self.values.remove(p);
                self.values.insert(p, (key, value));
                assert(self.values@ =~= before.update(p as int, (k, v)));
                assert(self.entries()[p as int].0@ == k@);
                Some(old_entry.1)
            },
            None => {
                let ghost k = key;
                self.values.push((key, value));
                assert(self.entries()[self.values@.len() - 1].0@ == k@);
                None
            },
        }
    }

    /// The value mapped to `key`.
    pub fn get(&self, key: &String) -> (r: Option<&V>)
        ensures
            match r {
                Some(v) => exists|p: int|
                    0 <= p < self.entries().len() && self.entries()[p].0@ == key@ && self.entries()[p].1 == *v,
                None => forall|i: int| 0 <= i < self.entries().len() ==> self.entries()[i].0@ != key@,
            },
    {
        match self.find(key) {
            Some(p) => Some(&self.values[p].1),
            None => None,
        }
    }

    /// The value mapped to `key`, with its position in insertion order.
    pub fn get_w_p(&self, key: &String) -> (r: Option<(&V, usize)>)
        ensures
            match r {
                Some(vp) => vp.1 < self.entries().len() && self.entries()[vp.1 as int].0@ == key@
                    && self.entries()[vp.1 as int].1 == *vp.0,
                None => forall|i: int| 0 <= i < self.entries().len() ==> self.entries()[i].0@ != key@,
            },
    {
        match self.find(key) {
            Some(p) => Some((&self.values[p].1, p)),
            None => None,
        }
    }

    /// The entries in insertion order.
    pub fn iter(&self) -> (r: &Vec<(String, V)>)
        ensures
            r@ == self.entries(),
    {
        &self.values
    }

    /// Number of entries.
    pub fn len(&self) -> (r: usize)
        ensures
            r == self.entries().len(),
    {
        self.values.len()
    }

    /// The entry at a position of insertion order.
    pub fn kv(&self, i: usize) -> (r: (&String, &V))
        requires
            i < self.entries().len(),
        ensures
            *r.0 == self.entries()[i as int].0,
            *r.1 == self.entries()[i as int].1,
    {
        (&self.values[i].0, &self.values[i].1)
    }

    /// The value at a position of insertion order.
    pub fn values(&self, i: usize) -> (r: &V)
        requires
            i < self.entries().len(),
        ensures
            *r == self.entries()[i as int].1,
    {
        &self.values[i].1
    }

    /// The values in insertion order.
    pub fn into_values(self) -> (r: Vec<V>)
        ensures
            r@ == self.entries().map_values(|e: (String, V)| e.1),
    {
        let mut vs = self.values;
        let ghost all = vs@;
        let mut out: Vec<V> = Vec::new();
        while vs.len() > 0
            invariant
                out@ + vs@.map_values(|e: (String, V)| e.1) == all.map_values(|e: (String, V)| e.1),
            decreases vs.len(),
        {
            let ghost before = vs@;
            let e = vs.remove(0);
            out.push(e.1);
            assert(vs@ =~= before.drop_first());
            assert(out@ + vs@.map_values(|e: (String, V)| e.1) =~= all.map_values(|e: (String, V)| e.1));
        }
        assert(vs@.map_values(|e: (String, V)| e.1) =~= Seq::<V>::empty());
        assert(out@ =~= all.map_values(|e: (String, V)| e.1));
        out
    }
}

} // verus!
