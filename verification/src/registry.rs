//! Records found by an opaque identifier.

use dashmap::DashMap;
use vstd::prelude::*;

use crate::text::{owned, texts};

verus! {

/// `dashmap::DashMap`: a map, opaque but for what [`places`] says it holds.
#[verifier::external_type_specification]
#[verifier::external_body]
#[verifier::reject_recursive_types(K)]
#[verifier::reject_recursive_types(V)]
#[verifier::reject_recursive_types(S)]
pub struct ExDashMap<K, V, S>(DashMap<K, V, S>);

/// What a map from identifiers to places holds.
pub uninterp spec fn places(m: DashMap<String, usize>) -> Map<Seq<char>, usize>;

/// `DashMap::new`: a map that holds nothing.
#[verifier::external_body]
fn map_new() -> (m: DashMap<String, usize>)
    ensures
        forall|k: Seq<char>| !(#[trigger] places(m).contains_key(k)),
{
    DashMap::new()
}

/// `DashMap::get`: the value under the key, if there is one.
#[verifier::external_body]
fn map_get(m: &DashMap<String, usize>, key: &str) -> (r: Option<usize>)
    ensures
        r is Some <==> places(*m).contains_key(key@),
        r matches Some(i) ==> places(*m)[key@] == i,
{
    m.get(key).map(|e| *e.value())
}

/// `DashMap::insert`: puts the value under the key, in the place of a value that
/// was there.
#[verifier::external_body]
fn map_insert(m: &mut DashMap<String, usize>, key: String, value: usize)
    ensures
        places(*final(m)) == places(*old(m)).insert(key@, value),
{
    m.insert(key, value);
}

/// `DashMap::remove`: takes the key and its value out, if the key is there.
#[verifier::external_body]
fn map_remove(m: &mut DashMap<String, usize>, key: &str) -> (r: Option<usize>)
    ensures
        places(*final(m)) == places(*old(m)).remove(key@),
        r is Some <==> places(*old(m)).contains_key(key@),
        r matches Some(i) ==> places(*old(m))[key@] == i,
{
    m.remove(key).map(|e| e.1)
}

/// Records of one kind, each under its own identifier. The records lie side by
/// side, and an index gives the place of each identifier.
pub struct Registry<V> {
    index: DashMap<String, usize>,
    slots: Vec<(String, V)>,
}

impl<V> View for Registry<V> {
    type V = Map<Seq<char>, V>;

    closed spec fn view(&self) -> Map<Seq<char>, V> {
        Map::new(
            |k: Seq<char>| places(self.index).contains_key(k),
            |k: Seq<char>| self.slots@[places(self.index)[k] as int].1,
        )
    }
}

impl<V> Registry<V> {
    /// The index and the records agree.
    pub closed spec fn wf(&self) -> bool {
        &&& forall|i: int|
            0 <= i < self.slots@.len() ==> {
                &&& places(self.index).contains_key(#[trigger] self.slots@[i].0@)
                &&& places(self.index)[self.slots@[i].0@] == i
            }
        &&& forall|k: Seq<char>| #[trigger]
            places(self.index).contains_key(k) ==> {
                &&& places(self.index)[k] < self.slots@.len()
                &&& self.slots@[places(self.index)[k] as int].0@ == k
            }
    }

    /// The identifiers in the order in which the records lie.
    pub closed spec fn order(&self) -> Seq<Seq<char>> {
        self.slots@.map_values(|s: (String, V)| s.0@)
    }

    /// Every identifier stands in the order exactly once.
    pub proof fn lemma_order(&self)
        requires
            self.wf(),
        ensures
            self.order().no_duplicates(),
            forall|k: Seq<char>| self@.contains_key(k) <==> #[trigger] self.order().contains(k),
            self@.dom().finite(),
            self@.len() == self.order().len(),
    {
        assert forall|k: Seq<char>| self@.contains_key(k) implies #[trigger] self.order().contains(
            k,
        ) by {
            assert(self.order()[places(self.index)[k] as int] == k);
        }
        assert forall|k: Seq<char>| #[trigger] self.order().contains(k) implies self@.contains_key(
            k,
        ) by {
            let i = choose|i: int| 0 <= i < self.order().len() && self.order()[i] == k;
            assert(self.slots@[i].0@ == k);
        }
        assert forall|i: int, j: int|
            0 <= i < self.order().len() && 0 <= j < self.order().len() && i != j implies
            self.order()[i] != self.order()[j] by {
            assert(self.slots@[i].0@ == self.order()[i]);
            assert(self.slots@[j].0@ == self.order()[j]);
        }
        assert(self@.dom() =~= self.order().to_set());
        self.order().unique_seq_to_set();
    }

    pub fn new() -> (r: Self)
        ensures
            r.wf(),
            r@ == Map::<Seq<char>, V>::empty(),
    {
        let r = Registry { index: map_new(), slots: Vec::new() };
        assert(r@ =~= Map::<Seq<char>, V>::empty());
        r
    }

    /// How many records there are.
    pub fn len(&self) -> (n: usize)
        requires
            self.wf(),
        ensures
            n == self@.len(),
            n == self.order().len(),
            self@.dom().finite(),
    {
        proof {
            self.lemma_order();
        }
        self.slots.len()
    }

    /// The identifier and the record at a place in the order.
    pub fn at(&self, i: usize) -> (r: (&str, &V))
        requires
            self.wf(),
            i < self.order().len(),
        ensures
            r.0@ == self.order()[i as int],
            self@.contains_key(r.0@),
            *r.1 == self@[r.0@],
    {
        let slot = &self.slots[i];
        assert(places(self.index).contains_key(self.slots@[i as int].0@));
        (slot.0.as_str(), &slot.1)
    }

    /// The record under the identifier.
    pub fn get(&self, id: &str) -> (r: Option<&V>)
        requires
            self.wf(),
        ensures
            r is Some <==> self@.contains_key(id@),
            r matches Some(v) ==> *v == self@[id@],
    {
        match map_get(&self.index, id) {
            Some(i) => Some(&self.slots[i].1),
            None => None,
        }
    }

    /// Takes the record under the identifier out.
    pub fn remove(&mut self, id: &str) -> (r: Option<V>)
        requires
            old(self).wf(),
        ensures
            final(self).wf(),
            final(self)@ == old(self)@.remove(id@),
            r is Some <==> old(self)@.contains_key(id@),
            r matches Some(v) ==> v == old(self)@[id@],
    {
        let ghost before = *self;
        match map_remove(&mut self.index, id) {
            None => {
                assert(places(self.index) =~= places(before.index));
                assert(self@ =~= before@.remove(id@));
                None
            },
            Some(i) => {
                assert(before.slots@[i as int].0@ == id@);
                let last: usize = self.slots.len() - 1;
                let taken = self.slots.swap_remove(i);
                if i < last {
                    assert(self.slots@[i as int] == before.slots@[last as int]);
                    assert(places(before.index).contains_key(before.slots@[last as int].0@));
                    let moved = self.slots[i].0.clone();
                    map_insert(&mut self.index, moved, i);
                }
                proof {
                    assert forall|j: int| 0 <= j < self.slots@.len() implies {
                        &&& places(self.index).contains_key(#[trigger] self.slots@[j].0@)
                        &&& places(self.index)[self.slots@[j].0@] == j
                    } by {
                        let from = if j == i { last as int } else { j };
                        assert(self.slots@[j] == before.slots@[from]);
                        assert(places(before.index)[before.slots@[from].0@] == from);
                        assert(places(before.index)[before.slots@[last as int].0@] == last);
                    }
                    assert forall|k: Seq<char>| #[trigger]
                        places(self.index).contains_key(k) implies {
                        &&& places(self.index)[k] < self.slots@.len()
                        &&& self.slots@[places(self.index)[k] as int].0@ == k
                    } by {
                        assert(places(before.index).contains_key(k));
                        assert(places(before.index)[before.slots@[last as int].0@] == last);
                    }
                    assert forall|k: Seq<char>| self@.contains_key(k) <==> #[trigger] before@.remove(
                        id@,
                    ).contains_key(k) by {
                        assert(places(before.index).contains_key(before.slots@[last as int].0@));
                        assert(places(before.index)[before.slots@[last as int].0@] == last);
                    }
                    assert forall|k: Seq<char>| self@.contains_key(k) implies #[trigger] self@[k]
                        == before@.remove(id@)[k] by {
                        assert(places(self.index).contains_key(k));
                        assert(places(before.index).contains_key(k));
                        assert(places(before.index)[before.slots@[last as int].0@] == last);
                    }
                    assert(self@ =~= before@.remove(id@));
                }
                Some(taken.1)
            },
        }
    }

    /// Puts the record under the identifier, in the place of a record that was
    /// there, which comes back.
    pub fn insert(&mut self, id: &str, v: V) -> (r: Option<V>)
        requires
            old(self).wf(),
        ensures
            final(self).wf(),
            final(self)@ == old(self)@.insert(id@, v),
            r is Some <==> old(self)@.contains_key(id@),
            r matches Some(w) ==> w == old(self)@[id@],
    {
        let replaced = self.remove(id);
        let ghost before = *self;
        let place: usize = self.slots.len();
        map_insert(&mut self.index, owned(id), place);
        self.slots.push((owned(id), v));
        proof {
            assert forall|j: int| 0 <= j < self.slots@.len() implies {
                &&& places(self.index).contains_key(#[trigger] self.slots@[j].0@)
                &&& places(self.index)[self.slots@[j].0@] == j
            } by {
                if j < place {
                    assert(self.slots@[j] == before.slots@[j]);
                    assert(places(before.index).contains_key(before.slots@[j].0@));
                    assert(!before@.contains_key(id@));
                }
            }
            assert(self@ =~= before@.insert(id@, v));
            assert(self@ =~= old(self)@.insert(id@, v));
        }
        replaced
    }

    /// The identifiers of the records that a test picks out.
    pub fn ids_where<F: Fn(&V) -> bool>(&self, test: F) -> (r: Vec<String>)
        requires
            self.wf(),
            forall|k: Seq<char>| #[trigger]
                self@.contains_key(k) ==> test.requires((&self@[k],)),
        ensures
            texts(r@).no_duplicates(),
            forall|k: Seq<char>| #[trigger]
                texts(r@).contains(k) ==> self@.contains_key(k) && test.ensures(
                    (&self@[k],),
                    true,
                ),
            forall|k: Seq<char>| #[trigger]
                self@.contains_key(k) && !texts(r@).contains(k) ==> test.ensures(
                    (&self@[k],),
                    false,
                ),
    {
        let mut picked: Vec<String> = Vec::new();
        let mut i: usize = 0;
        let n = self.len();
        proof {
            self.lemma_order();
        }
        while i < n
            invariant
                self.wf(),
                n == self.order().len(),
                i <= n,
                self.order().no_duplicates(),
                forall|k: Seq<char>| #[trigger]
                    self@.contains_key(k) ==> test.requires((&self@[k],)),
                texts(picked@).no_duplicates(),
                forall|k: Seq<char>| #[trigger]
                    texts(picked@).contains(k) ==> {
                        &&& self.order().take(i as int).contains(k)
                        &&& self@.contains_key(k)
                        &&& test.ensures((&self@[k],), true)
                    },
                forall|j: int|
                    0 <= j < i && !texts(picked@).contains(self.order()[j]) ==> test.ensures(
                        (&self@[#[trigger] self.order()[j]],),
                        false,
                    ),
            decreases n - i,
        {
            let (id, v) = self.at(i);
            let ghost before = texts(picked@);
            let ghost here = self.order()[i as int];
            proof {
                assert(self.order().take(i + 1) =~= self.order().take(i as int).push(here));
                assert forall|k: Seq<char>| before.contains(k) implies k != here by {
                    let j = choose|j: int|
                        0 <= j < i && self.order().take(i as int)[j] == k;
                    assert(self.order()[j] == k);
                }
                assert forall|k: Seq<char>|
                    self.order().take(i as int).contains(k) implies self.order().take(
                    i + 1,
                ).contains(k) by {
                    let j = choose|j: int|
                        0 <= j < i && self.order().take(i as int)[j] == k;
                    assert(self.order().take(i + 1)[j] == k);
                }
                assert(self.order().take(i + 1)[i as int] == here);
            }
            if test(v) {
                picked.push(owned(id));
                proof {
                    let now = texts(picked@);
                    assert(now =~= before.push(here));
                    assert(now[before.len() as int] == here);
                    assert forall|k: Seq<char>| before.contains(k) implies now.contains(k) by {
                        let j = choose|j: int| 0 <= j < before.len() && before[j] == k;
                        assert(now[j] == k);
                    }
                    assert forall|k: Seq<char>| #[trigger] now.contains(k) implies before.contains(
                        k,
                    ) || k == here by {
                        let j = choose|j: int| 0 <= j < now.len() && now[j] == k;
                        if j < before.len() {
                            assert(before[j] == k);
                        }
                    }
                    assert forall|a: int, b: int|
                        0 <= a < now.len() && 0 <= b < now.len() && a != b implies now[a]
                        != now[b] by {
                        if a < before.len() {
                            assert(before.contains(now[a])) by {
                                assert(before[a] == now[a]);
                            }
                        }
                        if b < before.len() {
                            assert(before.contains(now[b])) by {
                                assert(before[b] == now[b]);
                            }
                        }
                    }
                }
            }
            i = i + 1;
        }
        assert forall|k: Seq<char>| #[trigger]
            self@.contains_key(k) && !texts(picked@).contains(k) implies test.ensures(
            (&self@[k],),
            false,
        ) by {
            assert(self.order().contains(k));
            let j = choose|j: int| 0 <= j < n && self.order()[j] == k;
            assert(!texts(picked@).contains(self.order()[j]));
        }
        picked
    }

    /// Takes the records under the identifiers out, in that order.
    pub fn remove_all(&mut self, ids: &Vec<String>) -> (r: Vec<V>)
        requires
            old(self).wf(),
            texts(ids@).no_duplicates(),
            forall|k: Seq<char>| #[trigger]
                texts(ids@).contains(k) ==> old(self)@.contains_key(k),
        ensures
            final(self).wf(),
            final(self)@ == old(self)@.remove_keys(texts(ids@).to_set()),
            r@.len() == ids@.len(),
            old(self)@.len() == final(self)@.len() + r@.len(),
            forall|i: int|
                0 <= i < ids@.len() ==> #[trigger] r@[i] == old(self)@[ids@[i]@],
    {
        let ghost before = self@;
        let ghost all = texts(ids@);
        proof {
            self.lemma_order();
            all.unique_seq_to_set();
            before.lemma_remove_keys_len(all.to_set());
        }
        let mut taken: Vec<V> = Vec::new();
        let mut i: usize = 0;
        assert(self@ =~= before.remove_keys(all.take(0).to_set()));
        while i < ids.len()
            invariant
                self.wf(),
                i <= ids@.len(),
                all == texts(ids@),
                all.no_duplicates(),
                forall|k: Seq<char>| #[trigger] all.contains(k) ==> before.contains_key(k),
                self@ == before.remove_keys(all.take(i as int).to_set()),
                taken@.len() == i,
                forall|j: int| 0 <= j < i ==> #[trigger] taken@[j] == before[ids@[j]@],
            decreases ids.len() - i,
        {
            proof {
                let done = all.take(i as int);
                let next = all[i as int];
                let after = all.take(i + 1);
                assert(next == ids@[i as int]@);
                assert(all.contains(next));
                assert forall|j: int| 0 <= j < i implies done[j] != next by {
                    assert(all[j] != all[i as int]);
                }
                assert(after =~= done.push(next));
                assert(after.to_set() =~= done.to_set().insert(next)) by {
                    assert forall|k: Seq<char>| after.contains(k) <==> done.contains(k) || k
                        == next by {
                        if done.contains(k) {
                            let j = choose|j: int| 0 <= j < done.len() && done[j] == k;
                            assert(after[j] == k);
                        }
                        assert(after[i as int] == next);
                        if after.contains(k) && k != next {
                            let j = choose|j: int| 0 <= j < after.len() && after[j] == k;
                            assert(done[j] == k);
                        }
                    }
                }
            }
            match self.remove(ids[i].as_str()) {
                Some(v) => {
                    taken.push(v);
                },
                None => {},
            }
            assert(self@ =~= before.remove_keys(all.take(i + 1).to_set()));
            i = i + 1;
        }
        assert(all.take(i as int) =~= all);
        taken
    }
}

} // verus!
