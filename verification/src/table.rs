use vstd::prelude::*;

verus! {

/// The mathematical contents of a pair of parallel key/value sequences:
/// later entries win, as repeated insertion into a map would.
pub open spec fn kv_map<K, T>(keys: Seq<K>, vals: Seq<T>) -> Map<K, T>
    decreases keys.len(),
{
    if keys.len() == 0 || keys.len() != vals.len() {
        Map::empty()
    } else {
        kv_map(keys.drop_last(), vals.drop_last()).insert(keys.last(), vals.last())
    }
}

pub proof fn lemma_kv_map_dom<K, T>(keys: Seq<K>, vals: Seq<T>, k: K)
    requires
        keys.len() == vals.len(),
    ensures
        kv_map(keys, vals).contains_key(k) <==> keys.contains(k),
    decreases keys.len(),
{
    if keys.len() == 0 {
    } else {
        lemma_kv_map_dom(keys.drop_last(), vals.drop_last(), k);
        if keys.contains(k) {
            let i = choose|i: int| 0 <= i < keys.len() && keys[i] == k;
            if i < keys.len() - 1 {
                assert(keys.drop_last()[i] == k);
                assert(keys.drop_last().contains(k));
            }
        } else {
            assert(forall|i: int| 0 <= i < keys.len() - 1 ==> keys.drop_last()[i] == keys[i]);
            assert(!keys.drop_last().contains(k)) by {
                if keys.drop_last().contains(k) {
                    let i = choose|i: int|
                        0 <= i < keys.drop_last().len() && keys.drop_last()[i] == k;
                    assert(keys[i] == k);
                }
            }
        }
    }
}

pub open spec fn keys_unique<K>(keys: Seq<K>) -> bool {
    forall|i: int, j: int| 0 <= i < j < keys.len() ==> keys[i] != keys[j]
}

pub proof fn lemma_kv_map_index<K, T>(keys: Seq<K>, vals: Seq<T>, i: int)
    requires
        keys.len() == vals.len(),
        keys_unique(keys),
        0 <= i < keys.len(),
    ensures
        kv_map(keys, vals).contains_key(keys[i]),
        kv_map(keys, vals)[keys[i]] == vals[i],
    decreases keys.len(),
{
    lemma_kv_map_dom(keys, vals, keys[i]);
    if i == keys.len() - 1 {
    } else {
        assert(keys_unique(keys.drop_last())) by {
            assert(forall|p: int, q: int|
                0 <= p < q < keys.drop_last().len() ==> keys.drop_last()[p] == keys[p]
                    && keys.drop_last()[q] == keys[q]);
        }
        lemma_kv_map_index(keys.drop_last(), vals.drop_last(), i);
        assert(keys[i] != keys.last());
    }
}

pub proof fn lemma_kv_map_update<K, T>(keys: Seq<K>, vals: Seq<T>, i: int, v: T)
    requires
        keys.len() == vals.len(),
        keys_unique(keys),
        0 <= i < keys.len(),
    ensures
        kv_map(keys, vals.update(i, v)) == kv_map(keys, vals).insert(keys[i], v),
    decreases keys.len(),
{
    let updated = vals.update(i, v);
    if i == keys.len() - 1 {
        assert(updated.drop_last() =~= vals.drop_last());
        assert(updated.last() == v);
        assert(kv_map(keys, updated) =~= kv_map(keys, vals).insert(keys[i], v));
    } else {
        assert(keys_unique(keys.drop_last())) by {
            assert(forall|p: int, q: int|
                0 <= p < q < keys.drop_last().len() ==> keys.drop_last()[p] == keys[p]
                    && keys.drop_last()[q] == keys[q]);
        }
        assert(updated.drop_last() =~= vals.drop_last().update(i, v));
        lemma_kv_map_update(keys.drop_last(), vals.drop_last(), i, v);
        assert(updated.last() == vals.last());
        assert(keys[i] != keys.last());
        assert(kv_map(keys, updated) =~= kv_map(keys, vals).insert(keys[i], v));
    }
}

/// An insertion-ordered table from names to values, the shared symbol-table
/// shape that analysis passes around.
pub struct NameTable<V> {
    keys: Vec<String>,
    vals: Vec<V>,
}

impl<V: View> NameTable<V> {
    pub closed spec fn wf(&self) -> bool {
        &&& self.keys.len() == self.vals.len()
        &&& keys_unique(self.keys.deep_view())
    }

    pub closed spec fn key_seq(&self) -> Seq<Seq<char>> {
        self.keys.deep_view()
    }

    pub closed spec fn val_seq(&self) -> Seq<V::V> {
        Seq::new(self.vals.len() as nat, |i: int| self.vals[i]@)
    }

    pub closed spec fn map_view(&self) -> Map<Seq<char>, V::V> {
        kv_map(self.key_seq(), self.val_seq())
    }

    pub fn new() -> (r: Self)
        ensures
            r.wf(),
            r.map_view() == Map::<Seq<char>, V::V>::empty(),
            r.key_seq() == Seq::<Seq<char>>::empty(),
    {
        let r = NameTable { keys: Vec::new(), vals: Vec::new() };
        proof {
            assert(r.key_seq() =~= Seq::<Seq<char>>::empty());
        }
        r
    }

    pub fn len(&self) -> (r: usize)
        ensures
            r == self.key_seq().len(),
    {
        self.keys.len()
    }

    fn position(&self, name: &String) -> (r: Option<usize>)
        requires
            self.wf(),
        ensures
            match r {
                Option::Some(i) => i < self.keys.len() && self.key_seq()[i as int] == name@,
                Option::None => !self.key_seq().contains(name@),
            },
    {
        let n = self.keys.len();
        let mut i: usize = 0;
        while i < n
            invariant
                i <= n,
                n == self.keys.len(),
                forall|k: int| 0 <= k < i ==> self.key_seq()[k] != name@,
            decreases n - i,
        {
            if self.keys[i].eq(name) {
                return Option::Some(i);
            }
            i = i + 1;
        }
        proof {
            if self.key_seq().contains(name@) {
                let k = choose|k: int|
                    0 <= k < self.key_seq().len() && self.key_seq()[k] == name@;
                assert(false);
            }
        }
        Option::None
    }

    pub fn get(&self, name: &String) -> (r: Option<&V>)
        requires
            self.wf(),
        ensures
            match r {
                Option::Some(v) => self.map_view().contains_key(name@) && v@ == self.map_view().index(name@),
                Option::None => !self.map_view().contains_key(name@),
            },
    {
        proof {
            lemma_kv_map_dom(self.key_seq(), self.val_seq(), name@);
        }
        match self.position(name) {
            Option::Some(i) => {
                proof {
                    lemma_kv_map_index(self.key_seq(), self.val_seq(), i as int);
                }
                Option::Some(&self.vals[i])
            },
            Option::None => Option::None,
        }
    }

    pub fn contains(&self, name: &String) -> (r: bool)
        requires
            self.wf(),
        ensures
            r == self.map_view().contains_key(name@),
    {
        proof {
            lemma_kv_map_dom(self.key_seq(), self.val_seq(), name@);
        }
        self.position(name).is_some()
    }

    pub fn insert(&mut self, name: String, val: V)
        requires
            old(self).wf(),
        ensures
            final(self).wf(),
            final(self).map_view() == old(self).map_view().insert(name@, val@),
            old(self).map_view().contains_key(name@) ==> final(self).key_seq() == old(
                self,
            ).key_seq(),
            !old(self).map_view().contains_key(name@) ==> final(self).key_seq() == old(
                self,
            ).key_seq().push(name@),
    {
        proof {
            lemma_kv_map_dom(self.key_seq(), self.val_seq(), name@);
        }
        match self.position(&name) {
            Option::Some(i) => {
                proof {
                    lemma_kv_map_update(self.key_seq(), self.val_seq(), i as int, val@);
                }
                self.vals.set(i, val);
                proof {
                    assert(self.val_seq() =~= old(self).val_seq().update(i as int, val@));
                    assert(self.key_seq() =~= old(self).key_seq());
                }
            },
            Option::None => {
                self.keys.push(name);
                self.vals.push(val);
                proof {
                    assert(self.key_seq() =~= old(self).key_seq().push(name@));
                    assert(self.val_seq() =~= old(self).val_seq().push(val@));
                    assert(self.key_seq().drop_last() =~= old(self).key_seq());
                    assert(self.val_seq().drop_last() =~= old(self).val_seq());
                    assert(forall|p: int, q: int|
                        0 <= p < q < self.key_seq().len() ==> self.key_seq()[p]
                            != self.key_seq()[q]) by {
                        assert(forall|p: int|
                            0 <= p < old(self).key_seq().len() ==> !(old(self).key_seq()[p]
                                == name@)) by {
                            if exists|p: int|
                                0 <= p < old(self).key_seq().len() && old(self).key_seq()[p]
                                    == name@ {
                                let p = choose|p: int|
                                    0 <= p < old(self).key_seq().len() && old(self).key_seq()[p]
                                        == name@;
                                assert(old(self).key_seq().contains(name@));
                            }
                        }
                    }
                }
            },
        }
    }
}

} // verus!
