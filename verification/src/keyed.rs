//! A small map from strings to values, kept as a list of entries with
//! distinct keys in the order the keys first came.

use vstd::prelude::*;
use crate::text::eq_str;

verus! {

/// The map that a list of entries describes, a later entry overriding an
/// earlier one with the same key.
pub open spec fn keyed_map<V>(es: Seq<(Seq<char>, V)>) -> Map<Seq<char>, V>
    decreases es.len(),
{
    if es.len() == 0 {
        Map::empty()
    } else {
        keyed_map(es.drop_last()).insert(es.last().0, es.last().1)
    }
}

/// No two entries have the same key.
pub open spec fn distinct_keys<V>(es: Seq<(Seq<char>, V)>) -> bool {
    forall|i: int, j: int| 0 <= i < j < es.len() ==> #[trigger] es[i].0 != #[trigger] es[j].0
}

/// A key is in the map of a list exactly where some entry has it.
pub proof fn lemma_keyed_domain<V>(es: Seq<(Seq<char>, V)>, k: Seq<char>)
    ensures
        keyed_map(es).dom().contains(k) <==> exists|i: int| 0 <= i < es.len() && #[trigger] es[i].0 == k,
    decreases es.len(),
{
    if es.len() > 0 {
        lemma_keyed_domain(es.drop_last(), k);
        if exists|i: int| 0 <= i < es.len() && #[trigger] es[i].0 == k {
            let i = choose|i: int| 0 <= i < es.len() && #[trigger] es[i].0 == k;
            if i < es.len() - 1 {
                assert(es.drop_last()[i].0 == k);
            }
        }
        if exists|i: int| 0 <= i < es.len() - 1 && #[trigger] es.drop_last()[i].0 == k {
            let i = choose|i: int| 0 <= i < es.len() - 1 && #[trigger] es.drop_last()[i].0 == k;
            assert(es[i].0 == k);
        }
    }
}

/// With distinct keys, the map gives each entry's value for its key.
pub proof fn lemma_keyed_value<V>(es: Seq<(Seq<char>, V)>, i: int)
    requires
        distinct_keys(es),
        0 <= i < es.len(),
    ensures
        keyed_map(es).dom().contains(es[i].0),
        keyed_map(es)[es[i].0] == es[i].1,
    decreases es.len(),
{
    if i < es.len() - 1 {
        let d = es.drop_last();
        assert forall|a: int, b: int| 0 <= a < b < d.len() implies #[trigger] d[a].0 != #[trigger] d[b].0 by {
            assert(d[a] == es[a] && d[b] == es[b]);
        }
        lemma_keyed_value(d, i);
        assert(es[i].0 != es.last().0);
    }
}

/// Replacing the value of entry `i` replaces the value of its key.
pub proof fn lemma_keyed_update<V>(es: Seq<(Seq<char>, V)>, i: int, v: V)
    requires
        distinct_keys(es),
        0 <= i < es.len(),
    ensures
        distinct_keys(es.update(i, (es[i].0, v))),
        keyed_map(es.update(i, (es[i].0, v))) == keyed_map(es).insert(es[i].0, v),
    decreases es.len(),
{
    let ns = es.update(i, (es[i].0, v));
    assert forall|a: int, b: int| 0 <= a < b < ns.len() implies #[trigger] ns[a].0 != #[trigger] ns[b].0 by {
        assert(ns[a].0 == es[a].0 && ns[b].0 == es[b].0);
    }
    if i == es.len() - 1 {
        assert(ns.drop_last() =~= es.drop_last());
        assert(keyed_map(ns) =~= keyed_map(es).insert(es[i].0, v));
    } else {
        let d = es.drop_last();
        assert forall|a: int, b: int| 0 <= a < b < d.len() implies #[trigger] d[a].0 != #[trigger] d[b].0 by {
            assert(d[a] == es[a] && d[b] == es[b]);
        }
        lemma_keyed_update(d, i, v);
        assert(ns.drop_last() =~= d.update(i, (es[i].0, v)));
        assert(es[i].0 != es.last().0);
        assert(keyed_map(ns) =~= keyed_map(es).insert(es[i].0, v));
    }
}

/// Appending an entry with a new key adds that key.
pub proof fn lemma_keyed_push<V>(es: Seq<(Seq<char>, V)>, k: Seq<char>, v: V)
    requires
        distinct_keys(es),
        forall|i: int| 0 <= i < es.len() ==> #[trigger] es[i].0 != k,
    ensures
        distinct_keys(es.push((k, v))),
        keyed_map(es.push((k, v))) == keyed_map(es).insert(k, v),
{
    let ns = es.push((k, v));
    assert forall|a: int, b: int| 0 <= a < b < ns.len() implies #[trigger] ns[a].0 != #[trigger] ns[b].0 by {
        assert(ns[a] == es[a]);
        if b < es.len() {
            assert(ns[b] == es[b]);
        }
    }
    assert(ns.drop_last() =~= es);
}

/// Removing entry `i` removes its key.
pub proof fn lemma_keyed_remove<V>(es: Seq<(Seq<char>, V)>, i: int)
    requires
        distinct_keys(es),
        0 <= i < es.len(),
    ensures
        distinct_keys(es.remove(i)),
        keyed_map(es.remove(i)) == keyed_map(es).remove(es[i].0),
    decreases es.len(),
{
    let ns = es.remove(i);
    assert forall|a: int, b: int| 0 <= a < b < ns.len() implies #[trigger] ns[a].0 != #[trigger] ns[b].0 by {
        let a0 = if a < i { a } else { a + 1 };
        let b0 = if b < i { b } else { b + 1 };
        assert(ns[a] == es[a0] && ns[b] == es[b0]);
    }
    if i == es.len() - 1 {
        assert(ns =~= es.drop_last());
        lemma_keyed_domain(es.drop_last(), es[i].0);
        if exists|j: int| 0 <= j < es.len() - 1 && #[trigger] es.drop_last()[j].0 == es[i].0 {
            let j = choose|j: int| 0 <= j < es.len() - 1 && #[trigger] es.drop_last()[j].0 == es[i].0;
            assert(es[j].0 == es[i].0);
        }
        assert(keyed_map(ns) =~= keyed_map(es).remove(es[i].0));
    } else {
        let d = es.drop_last();
        assert forall|a: int, b: int| 0 <= a < b < d.len() implies #[trigger] d[a].0 != #[trigger] d[b].0 by {
            assert(d[a] == es[a] && d[b] == es[b]);
        }
        lemma_keyed_remove(d, i);
        assert(ns.drop_last() =~= d.remove(i));
        assert(ns.last() == es.last());
        assert(es[i].0 != es.last().0);
        assert(keyed_map(ns) =~= keyed_map(es).remove(es[i].0));
    }
}

/// A map from strings to values, as entries with distinct keys in the order
/// their keys first came. It stands where a string-keyed hash map would:
/// vstd's contracts for `HashMap` hold only for keys that obey its key
/// model, which it gives to integers and `bool`, not to `String`.
#[derive(Debug)]
pub struct KeyedList<V> {
    entries: Vec<(String, V)>,
}

impl<V> KeyedList<V> {
    /// The entries, keys as character sequences.
    pub closed spec fn entries(&self) -> Seq<(Seq<char>, V)> {
        self.entries@.map_values(|p: (String, V)| (p.0@, p.1))
    }

    /// The map the entries describe.
    pub open spec fn view(&self) -> Map<Seq<char>, V> {
        keyed_map(self.entries())
    }

    /// No key occurs twice.
    pub open spec fn wf(&self) -> bool {
        distinct_keys(self.entries())
    }

    /// Every list keeps its keys distinct.
    #[verifier::type_invariant]
    spec fn keys_distinct(&self) -> bool {
        distinct_keys(self.entries())
    }

    /// An empty map.
    pub fn new() -> (m: KeyedList<V>)
        ensures
            m.wf(),
            m.entries().len() == 0,
            m@ == Map::<Seq<char>, V>::empty(),
    {
        proof {
            assert(Seq::<(String, V)>::empty().map_values(|p: (String, V)| (p.0@, p.1)) =~= Seq::<
                (Seq<char>, V),
            >::empty());
        }
        let m = KeyedList { entries: Vec::new() };
        assert(m.entries() =~= Seq::<(Seq<char>, V)>::empty());
        m
    }

    /// The number of keys (the keys are distinct).
    pub fn len(&self) -> (n: usize)
        ensures
            n == self.entries().len(),
            self.wf(),
    {
        proof {
            use_type_invariant(self);
        }
        self.entries.len()
    }

    /// Entry `i`, in the order the keys first came.
    pub fn entry(&self, i: usize) -> (r: (&String, &V))
        requires
            i < self.entries().len(),
        ensures
            (r.0@, *r.1) == self.entries()[i as int],
    {
        let e = &self.entries[i];
        (&e.0, &e.1)
    }

    /// The position of `key`, if the map has it.
    fn find(&self, key: &str) -> (r: Option<usize>)
        ensures
            r matches Some(i) ==> i < self.entries().len() && self.entries()[i as int].0 == key@,
            r is None ==> forall|i: int| 0 <= i < self.entries().len() ==> #[trigger] self.entries()[i].0 != key@,
    {
        let mut i: usize = 0;
        while i < self.entries.len()
            invariant
                0 <= i <= self.entries().len(),
                forall|j: int| 0 <= j < i ==> #[trigger] self.entries()[j].0 != key@,
            decreases self.entries().len() - i,
        {
            if eq_str(self.entries[i].0.as_str(), key) {
                return Some(i);
            }
            i = i + 1;
        }
        None
    }

    /// The value of `key`, if the map has it.
    pub fn get(&self, key: &str) -> (r: Option<&V>)
        ensures
            self.wf(),
            match r {
                Some(v) => self@.dom().contains(key@) && self@[key@] == *v,
                None => !self@.dom().contains(key@),
            },
    {
        proof {
            use_type_invariant(self);
            lemma_keyed_domain(self.entries(), key@);
        }
        match self.find(key) {
            Some(i) => {
                proof {
                    lemma_keyed_value(self.entries(), i as int);
                }
                Some(&self.entries[i].1)
            },
            None => None,
        }
    }

    /// Sets the value of `key`: an existing key keeps its place, a new one
    /// comes last.
    pub fn set(&mut self, key: &str, value: V)
        ensures
            final(self).wf(),
            final(self)@ == old(self)@.insert(key@, value),
            final(self).entries().len() == old(self).entries().len() + (if old(self)@.dom().contains(
                key@,
            ) {
                0int
            } else {
                1int
            }),
            !old(self)@.dom().contains(key@) ==> final(self).entries() == old(self).entries().push(
                (key@, value),
            ),
    {
        proof {
            use_type_invariant(&*self);
        }
        let ghost es = self.entries();
        proof {
            lemma_keyed_domain(es, key@);
        }
        let found = self.find(key);
        let mut v: Vec<(String, V)> = Vec::new();
        std::mem::swap(&mut v, &mut self.entries);
        proof {
            assert(v@.map_values(|p: (String, V)| (p.0@, p.1)) == es);
        }
        match found {
            Some(i) => {
                let k = v[i].0.clone();
                v.set(i, (k, value));
                proof {
                    assert(v@.map_values(|p: (String, V)| (p.0@, p.1)) =~= es.update(
                        i as int,
                        (es[i as int].0, value),
                    ));
                    lemma_keyed_update(es, i as int, value);
                }
            },
            None => {
                v.push((key.to_string(), value));
                proof {
                    assert(v@.map_values(|p: (String, V)| (p.0@, p.1)) =~= es.push((key@, value)));
                    lemma_keyed_push(es, key@, value);
                }
            },
        }
        self.entries = v;
    }
}

} // verus!
