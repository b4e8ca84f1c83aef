use vstd::prelude::*;
use crate::table::{keys_unique, kv_map, lemma_kv_map_dom, lemma_kv_map_index, lemma_kv_map_update};
use super::structure::{ExchangeFile, TypedParameter};

verus! {

/// The subsequence of ids whose parallel tag entry equals the tag, in
/// order.
pub open spec fn tagged_ids(ids: Seq<i64>, tags: Seq<u64>, tag: u64) -> Seq<i64>
    decreases ids.len(),
{
    if ids.len() == 0 || ids.len() != tags.len() {
        Seq::empty()
    } else {
        let front = tagged_ids(ids.drop_last(), tags.drop_last(), tag);
        if tags.last() == tag {
            front.push(ids.last())
        } else {
            front
        }
    }
}

/// The id-indexed store a generated reader is built on: a mapping from a
/// record's numeric id to a type tag and a value.  The tag is the
/// generation-time discriminant of the concrete entity type; retrieval
/// with the wrong tag fails safely.
pub struct EntityStore<T> {
    ids: Vec<i64>,
    tags: Vec<u64>,
    values: Vec<T>,
}

impl<T> EntityStore<T> {
    pub closed spec fn wf(&self) -> bool {
        &&& self.ids.len() == self.tags.len()
        &&& self.ids.len() == self.values.len()
        &&& keys_unique(self.ids@)
    }

    pub closed spec fn key_seq(&self) -> Seq<int> {
        self.ids@.map_values(|x: i64| x as int)
    }

    pub closed spec fn entry_seq(&self) -> Seq<(u64, T)> {
        Seq::new(self.values.len() as nat, |i: int| (self.tags[i], self.values[i]))
    }

    /// The mathematical contents: id to tag and value.
    pub closed spec fn map_view(&self) -> Map<int, (u64, T)> {
        kv_map(self.key_seq(), self.entry_seq())
    }

    proof fn lemma_keys_unique(&self)
        requires
            self.wf(),
        ensures
            keys_unique(self.key_seq()),
    {
        assert forall|p: int, q: int|
            0 <= p < q < self.key_seq().len() implies self.key_seq()[p]
            != self.key_seq()[q] by {
            assert(self.ids@[p] != self.ids@[q]);
        }
    }

    pub fn new() -> (r: Self)
        ensures
            r.wf(),
            r.map_view() == Map::<int, (u64, T)>::empty(),
    {
        let r = EntityStore { ids: Vec::new(), tags: Vec::new(), values: Vec::new() };
        proof {
            assert(r.key_seq() =~= Seq::<int>::empty());
        }
        r
    }

    pub fn len(&self) -> (r: usize)
        requires
            self.wf(),
        ensures
            r == self.entry_seq().len(),
    {
        self.ids.len()
    }

    fn position(&self, id: i64) -> (r: Option<usize>)
        requires
            self.wf(),
        ensures
            match r {
                Option::Some(i) => i < self.ids@.len() && self.key_seq()[i as int] == id as int,
                Option::None => !self.key_seq().contains(id as int),
            },
    {
        let n = self.ids.len();
        let mut i: usize = 0;
        while i < n
            invariant
                i <= n,
                n == self.ids@.len(),
                forall|k: int| 0 <= k < i ==> self.ids@[k] != id,
            decreases n - i,
        {
            if self.ids[i] == id {
                return Option::Some(i);
            }
            i = i + 1;
        }
        proof {
            if self.key_seq().contains(id as int) {
                let k = choose|k: int|
                    0 <= k < self.key_seq().len() && self.key_seq()[k] == id as int;
                assert(self.ids@[k] as int == id as int);
                assert(false);
            }
        }
        Option::None
    }

    /// Adds an entity under its id with its concrete type tag; an id seen
    /// before is overwritten.  Entry and both indexes change together: no
    /// torn state is observable between calls.
    pub fn add_entity(&mut self, id: i64, tag: u64, value: T)
        requires
            old(self).wf(),
        ensures
            final(self).wf(),
            final(self).map_view() == old(self).map_view().insert(id as int, (tag, value)),
    {
        proof {
            self.lemma_keys_unique();
        }
        match self.position(id) {
            Option::Some(i) => {
                proof {
                    lemma_kv_map_update(self.key_seq(), self.entry_seq(), i as int, (tag, value));
                }
                self.tags.set(i, tag);
                self.values.set(i, value);
                proof {
                    assert(self.key_seq() =~= old(self).key_seq());
                    assert(self.entry_seq() =~= old(self).entry_seq().update(
                        i as int,
                        (tag, value),
                    ));
                }
            },
            Option::None => {
                self.ids.push(id);
                self.tags.push(tag);
                self.values.push(value);
                proof {
                    assert(self.key_seq() =~= old(self).key_seq().push(id as int));
                    assert(self.entry_seq() =~= old(self).entry_seq().push((tag, value)));
                    assert(self.key_seq().drop_last() =~= old(self).key_seq());
                    assert(self.entry_seq().drop_last() =~= old(self).entry_seq());
                    assert(keys_unique(self.ids@)) by {
                        assert(forall|p: int|
                            0 <= p < old(self).ids@.len() ==> old(self).ids@[p] != id) by {
                            if exists|p: int|
                                0 <= p < old(self).ids@.len() && old(self).ids@[p] == id {
                                let p = choose|p: int|
                                    0 <= p < old(self).ids@.len() && old(self).ids@[p] == id;
                                assert(old(self).key_seq()[p] == id as int);
                                assert(old(self).key_seq().contains(id as int));
                            }
                        }
                        assert(forall|p: int|
                            0 <= p < old(self).ids@.len() ==> self.ids@[p] == old(self).ids@[p]);
                    }
                }
            },
        }
    }

    /// The entity stored under the id, provided it was stored with the
    /// expected type tag; a missing id or a tag mismatch yields nothing.
    pub fn get_entity(&self, id: i64, tag: u64) -> (r: Option<&T>)
        requires
            self.wf(),
        ensures
            match r {
                Option::Some(v) => self.map_view().contains_key(id as int) && self.map_view()[
                    id as int] == (tag, *v),
                Option::None => !self.map_view().contains_key(id as int) || self.map_view()[
                    id as int].0 != tag,
            },
    {
        proof {
            self.lemma_keys_unique();
            lemma_kv_map_dom(self.key_seq(), self.entry_seq(), id as int);
        }
        match self.position(id) {
            Option::Some(i) => {
                proof {
                    lemma_kv_map_index(self.key_seq(), self.entry_seq(), i as int);
                }
                if self.tags[i] == tag {
                    Option::Some(&self.values[i])
                } else {
                    Option::None
                }
            },
            Option::None => Option::None,
        }
    }

    /// The ids stored with the given tag, in insertion order: the
    /// subsequence of the stored id sequence whose entries carry the tag.
    pub closed spec fn ids_with_tag(&self, tag: u64) -> Seq<i64> {
        tagged_ids(self.ids@, self.tags@, tag)
    }

    /// The ids of every entity stored with the requested tag, exactly the
    /// matching subsequence of the stored ids in insertion order; a tag
    /// never stored yields an empty sequence, not an error.
    #[verifier::loop_isolation(false)]
    pub fn get_entity_ids(&self, tag: u64) -> (r: Vec<i64>)
        requires
            self.wf(),
        ensures
            r@ == self.ids_with_tag(tag),
            forall|j: int|
                0 <= j < r@.len() ==> self.map_view().contains_key(#[trigger] r@[j] as int)
                    && self.map_view()[r@[j] as int].0 == tag,
    {
        proof {
            self.lemma_keys_unique();
        }
        let n = self.ids.len();
        let mut out: Vec<i64> = Vec::new();
        let mut i: usize = 0;
        proof {
            assert(out@ =~= tagged_ids(self.ids@.take(0), self.tags@.take(0), tag));
        }
        while i < n
            invariant
                i <= n,
                n == self.ids@.len(),
                out@ == tagged_ids(self.ids@.take(i as int), self.tags@.take(i as int), tag),
                forall|j: int|
                    0 <= j < out@.len() ==> self.map_view().contains_key(
                        #[trigger] out@[j] as int,
                    ) && self.map_view()[out@[j] as int].0 == tag,
            decreases n - i,
        {
            proof {
                assert(self.ids@.take(i + 1).drop_last() =~= self.ids@.take(i as int));
                assert(self.tags@.take(i + 1).drop_last() =~= self.tags@.take(i as int));
                assert(self.ids@.take(i + 1).last() == self.ids@[i as int]);
                assert(self.tags@.take(i + 1).last() == self.tags@[i as int]);
            }
            if self.tags[i] == tag {
                proof {
                    lemma_kv_map_index(self.key_seq(), self.entry_seq(), i as int);
                }
                let ghost prev = out@;
                out.push(self.ids[i]);
                proof {
                    assert(out@[prev.len() as int] == self.ids@[i as int]);
                    assert(self.key_seq()[i as int] == self.ids@[i as int] as int);
                    assert(forall|j: int| 0 <= j < prev.len() ==> out@[j] == prev[j]);
                    assert(out@ =~= prev.push(self.ids@[i as int]));
                }
            }
            i = i + 1;
        }
        proof {
            assert(self.ids@.take(n as int) =~= self.ids@);
            assert(self.tags@.take(n as int) =~= self.tags@);
        }
        out
    }
}

/// What a generated reader implements: turning a typed parameter of the
/// file into a tagged concrete entity.  A type name absent from the
/// schema's dispatch table yields nothing.
pub trait StepReader<T> {
    /// Builds one entity from a simple record's typed parameter;
    /// `own_parameters_only` marks a branch of a complex record, whose
    /// parameter list holds only the branch's own attributes.
    fn create_simple_entity(&self, typed_parameter: &TypedParameter, own_parameters_only: bool)
        -> Option<(u64, T)>;

    /// Builds one entity from a complex record's typed parameters.
    fn create_complex_entity(&self, typed_parameters: &Vec<TypedParameter>) -> Option<(u64, T)>;
}

/// Feeds a parsed exchange file into a store through a reader: a record
/// the reader recognizes is inserted under its id; an unrecognized record
/// is skipped and reported, and the remaining records are still read.
pub fn read_instances<T, R: StepReader<T>>(
    reader: &R,
    file: &ExchangeFile,
    store: &mut EntityStore<T>,
) -> (skipped: Vec<i64>)
    requires
        old(store).wf(),
    ensures
        final(store).wf(),
        forall|id: int|
            old(store).map_view().contains_key(id) ==> final(store).map_view().contains_key(id),
        forall|k: int|
            0 <= k < file.data@.len() ==> final(store).map_view().contains_key(
                #[trigger] file.data@[k].id as int,
            ) || skipped@.contains(file.data@[k].id),
        forall|id: int|
            #[trigger] final(store).map_view().contains_key(id) ==> old(
                store,
            ).map_view().contains_key(id) || exists|k: int|
                0 <= k < file.data@.len() && #[trigger] file.data@[k].id as int == id,
{
    let mut skipped: Vec<i64> = Vec::new();
    let n = file.data.len();
    let mut k: usize = 0;
    while k < n
        invariant
            n == file.data@.len(),
            k <= n,
            store.wf(),
            forall|id: int|
                old(store).map_view().contains_key(id) ==> store.map_view().contains_key(id),
            forall|j: int|
                0 <= j < k ==> store.map_view().contains_key(#[trigger] file.data@[j].id as int)
                    || skipped@.contains(file.data@[j].id),
            forall|id: int|
                #[trigger] store.map_view().contains_key(id) ==> old(
                    store,
                ).map_view().contains_key(id) || exists|j: int|
                    0 <= j < k && #[trigger] file.data@[j].id as int == id,
        decreases n - k,
    {
        let instance = &file.data[k];
        let built: Option<(u64, T)> = if instance.value.len() == 1 {
            reader.create_simple_entity(&instance.value[0], false)
        } else {
            reader.create_complex_entity(&instance.value)
        };
        match built {
            Option::Some((tag, entity)) => {
                store.add_entity(instance.id, tag, entity);
                proof {
                    assert forall|id: int| #[trigger] store.map_view().contains_key(id) implies
                        old(store).map_view().contains_key(id) || exists|j: int|
                        0 <= j < k + 1 && #[trigger] file.data@[j].id as int == id by {
                        if id != file.data@[k as int].id as int {
                        } else {
                            assert(file.data@[k as int].id as int == id);
                        }
                    }
                }
            },
            Option::None => {
                let ghost prev = skipped@;
                skipped.push(instance.id);
                proof {
                    assert(skipped@[prev.len() as int] == file.data@[k as int].id);
                    assert(skipped@.contains(file.data@[k as int].id));
                    assert forall|x: i64| prev.contains(x) implies skipped@.contains(x) by {
                        let w = choose|w: int| 0 <= w < prev.len() && prev[w] == x;
                        assert(skipped@[w] == x);
                    }
                }
            },
        }
        k = k + 1;
    }
    skipped
}

} // verus!
