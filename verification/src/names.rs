//! A map from names to values that keeps the names in the order they were
//! first inserted.

use vstd::prelude::*;
use crate::text::{same_text, views};

verus! {

/// The map that pairs `keys[i]` with `vals[i]`, the later pair winning.
pub open spec fn to_map<W>(keys: Seq<Seq<char>>, vals: Seq<W>) -> Map<Seq<char>, W>
    decreases keys.len(),
{
    if keys.len() == 0 {
        Map::empty()
    } else {
        to_map(keys.drop_last(), vals.drop_last()).insert(keys.last(), vals[keys.len() - 1])
    }
}

/// No name occurs twice in `keys`.
pub open spec fn distinct(keys: Seq<Seq<char>>) -> bool {
    forall|i: int, j: int| 0 <= i < keys.len() && 0 <= j < keys.len() && i != j ==> keys[i] != keys[j]
}

/// With distinct keys, the map holds exactly the keys, each with its own value.
pub proof fn lemma_to_map<W>(keys: Seq<Seq<char>>, vals: Seq<W>)
    requires
        keys.len() == vals.len(),
        distinct(keys),
    ensures
        forall|i: int| 0 <= i < keys.len() ==> #[trigger] to_map(keys, vals).contains_key(keys[i])
            && to_map(keys, vals)[keys[i]] == vals[i],
        forall|k: Seq<char>| #[trigger]
            to_map(keys, vals).contains_key(k) ==> exists|i: int| 0 <= i < keys.len() && keys[i] == k,
    decreases keys.len(),
{
    if keys.len() > 0 {
        let ks = keys.drop_last();
        let vs = vals.drop_last();
        lemma_to_map(ks, vs);
        assert forall|i: int| 0 <= i < keys.len() implies #[trigger] to_map(keys, vals).contains_key(
            keys[i],
        ) && to_map(keys, vals)[keys[i]] == vals[i] by {
            if i < keys.len() - 1 {
                assert(ks[i] == keys[i]);
                assert(vs[i] == vals[i]);
                assert(to_map(ks, vs).contains_key(ks[i]));
                assert(keys[i] != keys.last());
            }
        }
        assert forall|k: Seq<char>| #[trigger]
            to_map(keys, vals).contains_key(k) implies exists|i: int|
            0 <= i < keys.len() && keys[i] == k by {
            if k == keys.last() {
                assert(keys[keys.len() - 1] == k);
            } else {
                assert(to_map(ks, vs).contains_key(k));
                let i = choose|i: int| 0 <= i < ks.len() && ks[i] == k;
                assert(keys[i] == k);
            }
        }
    }
}

/// Changing the value at one position of distinct keys changes the map at that key only.
pub proof fn lemma_to_map_update<W>(keys: Seq<Seq<char>>, vals: Seq<W>, i: int, w: W)
    requires
        keys.len() == vals.len(),
        distinct(keys),
        0 <= i < keys.len(),
    ensures
        to_map(keys, vals.update(i, w)) == to_map(keys, vals).insert(keys[i], w),
    decreases keys.len(),
{
    let ks = keys.drop_last();
    let vs = vals.drop_last();
    let last = keys.len() - 1;
    if i == last {
        assert(vals.update(i, w).drop_last() =~= vs);
        assert(to_map(keys, vals.update(i, w)) =~= to_map(keys, vals).insert(keys[i], w));
    } else {
        assert(vals.update(i, w).drop_last() =~= vs.update(i, w));
        assert(distinct(ks)) by {
            assert forall|a: int, b: int| 0 <= a < ks.len() && 0 <= b < ks.len() && a != b implies ks[a]
                != ks[b] by {
                assert(ks[a] == keys[a] && ks[b] == keys[b]);
            }
        }
        lemma_to_map_update(ks, vs, i, w);
        assert(ks[i] == keys[i]);
        assert(keys[i] != keys[last]);
        assert(to_map(keys, vals.update(i, w)) =~= to_map(keys, vals).insert(keys[i], w));
    }
}

/// A map from names to values, with the names kept in first-insertion order.
pub struct NameMap<V> {
    names: Vec<String>,
    values: Vec<V>,
}

impl<V: View> NameMap<V> {
    /// The names, in order.
    pub closed spec fn keys(&self) -> Seq<Seq<char>> {
        views(self.names@)
    }

    /// The views of the values, in the order of the names.
    pub closed spec fn vals(&self) -> Seq<V::V> {
        self.values@.map_values(|v: V| v@)
    }

    /// Names and values pair up one to one and no name occurs twice.
    pub closed spec fn wf(&self) -> bool {
        &&& self.names@.len() == self.values@.len()
        &&& distinct(self.keys())
    }

    /// The map from each name to the view of its value.
    pub closed spec fn view(&self) -> Map<Seq<char>, V::V> {
        to_map(self.keys(), self.vals())
    }

    /// The number of names.
    pub closed spec fn spec_len(&self) -> nat {
        self.names@.len()
    }

    /// Facts tying positions to the map.
    pub proof fn lemma_index(&self)
        requires
            self.wf(),
        ensures
            forall|i: int| 0 <= i < self.spec_len() ==> #[trigger] self@.contains_key(self.keys()[i])
                && self@[self.keys()[i]] == self.vals()[i],
            forall|k: Seq<char>| #[trigger]
                self@.contains_key(k) ==> exists|i: int| 0 <= i < self.spec_len() && self.keys()[i] == k,
            self.keys().len() == self.spec_len(),
            self.vals().len() == self.spec_len(),
            distinct(self.keys()),
    {
        lemma_to_map(self.keys(), self.vals());
    }

    /// An empty map.
    pub fn new() -> (r: Self)
        ensures
            r.wf(),
            r@ == Map::<Seq<char>, V::V>::empty(),
            r.spec_len() == 0,
    {
        let r = NameMap { names: Vec::new(), values: Vec::new() };
        assert(r.keys() =~= Seq::empty());
        r
    }

    /// The number of names.
    pub fn len(&self) -> (r: usize)
        ensures
            r == self.spec_len(),
    {
        self.names.len()
    }

    /// The name at position `i`.
    pub fn name_at(&self, i: usize) -> (r: &String)
        requires
            i < self.spec_len(),
        ensures
            r@ == self.keys()[i as int],
    {
        &self.names[i]
    }

    /// The value at position `i`.
    pub fn value_at(&self, i: usize) -> (r: &V)
        requires
            self.wf(),
            i < self.spec_len(),
        ensures
            r@ == self.vals()[i as int],
    {
        &self.values[i]
    }

    /// The position of `name`, if it is in the map.
    pub fn find(&self, name: &str) -> (r: Option<usize>)
        requires
            self.wf(),
        ensures
            r is Some <==> self@.contains_key(name@),
            r matches Some(i) ==> i < self.spec_len() && self.keys()[i as int] == name@ && self@[name@]
                == self.vals()[i as int],
    {
        proof {
            self.lemma_index();
        }
        let n = self.names.len();
        let mut i: usize = 0;
        while i < n
            invariant
                self.wf(),
                n == self.spec_len(),
                i <= n,
                forall|j: int| 0 <= j < i ==> self.keys()[j] != name@,
            decreases n - i,
        {
            if same_text(self.names[i].as_str(), name) {
                proof {
                    self.lemma_index();
                    assert(self@.contains_key(self.keys()[i as int]));
                }
                return Some(i);
            }
            i += 1;
        }
        proof {
            self.lemma_index();
        }
        None
    }

    /// The value of `name`, if it is in the map.
    pub fn get(&self, name: &str) -> (r: Option<&V>)
        requires
            self.wf(),
        ensures
            r is Some <==> self@.contains_key(name@),
            r matches Some(v) ==> v@ == self@[name@],
    {
        match self.find(name) {
            Some(i) => Some(&self.values[i]),
            None => None,
        }
    }

    /// Whether `name` is in the map.
    pub fn contains(&self, name: &str) -> (r: bool)
        requires
            self.wf(),
        ensures
            r == self@.contains_key(name@),
    {
        self.find(name).is_some()
    }

    /// Puts `v` in place of the value at position `i` and hands back the value it replaces.
    pub fn replace_at(&mut self, i: usize, v: V) -> (prev: V)
        requires
            old(self).wf(),
            i < old(self).spec_len(),
        ensures
            final(self).wf(),
            final(self).keys() == old(self).keys(),
            final(self).spec_len() == old(self).spec_len(),
            final(self)@ == old(self)@.insert(old(self).keys()[i as int], v@),
            prev@ == old(self)@[old(self).keys()[i as int]],
    {
        proof {
            self.lemma_index();
        }
        let mut v = v;
        let ghost v_view = v@;
        self.values.set_and_swap(i, &mut v);
        proof {
            assert(self.vals() =~= old(self).vals().update(i as int, v_view));
            assert(self.keys() == old(self).keys());
            lemma_to_map_update(old(self).keys(), old(self).vals(), i as int, v_view);
            assert(old(self)@.contains_key(old(self).keys()[i as int]));
        }
        v
    }

    /// Maps `name` to `v`, in place of any value it had; a new name goes last.
    pub fn insert(&mut self, name: String, v: V)
        requires
            old(self).wf(),
        ensures
            final(self).wf(),
            final(self)@ == old(self)@.insert(name@, v@),
            old(self)@.contains_key(name@) ==> final(self).keys() == old(self).keys(),
            !old(self)@.contains_key(name@) ==> final(self).keys() == old(self).keys().push(name@),
    {
        match self.find(name.as_str()) {
            Some(i) => {
                let _ = self.replace_at(i, v);
            },
            None => {
                let ghost k = name@;
                let ghost vv = v@;
                proof {
                    self.lemma_index();
                }
                self.names.push(name);
                self.values.push(v);
                proof {
                    assert(self.keys() =~= old(self).keys().push(k));
                    assert(self.vals() =~= old(self).vals().push(vv));
                    assert(self.keys().drop_last() =~= old(self).keys());
                    assert(self.vals().drop_last() =~= old(self).vals());
                    assert forall|a: int, b: int|
                        0 <= a < self.keys().len() && 0 <= b < self.keys().len() && a != b implies self.keys()[a]
                        != self.keys()[b] by {
                        if a == self.keys().len() - 1 {
                            assert(!old(self)@.contains_key(k));
                            assert(old(self)@.contains_key(old(self).keys()[b]));
                        } else if b == self.keys().len() - 1 {
                            assert(old(self)@.contains_key(old(self).keys()[a]));
                        }
                    }
                }
            },
        }
    }
}

} // verus!
