//! A value index over the components of a world: which entities hold a value,
//! and which value each entity holds, kept current from change and removal events.
use vstd::prelude::*;

use std::collections::HashMap;
use std::marker::PhantomData;
use vstd::std_specs::hash::{obeys_key_model, spec_hash_map_iter};
use vstd::std_specs::iter::IteratorSpec;

use crate::tick::Tick;
use crate::world::{ComponentSlot, Entity, SystemChangeTick, World};

verus! {

/// Describes how a component value `Input` is turned into the key it is indexed by.
pub trait Indexer {
    /// The indexed component type.
    type Input;

    /// The key type.
    type Index: Eq + std::hash::Hash + Copy;

    /// The key of `input`.
    spec fn index_of(input: Self::Input) -> Self::Index;

    /// Computes the key of `input`.
    fn index(input: &Self::Input) -> (r: Self::Index)
        ensures
            r == Self::index_of(*input),
    ;
}

/// The indexer that uses a component's value as its own key.
pub struct SimpleIndexer<T>(PhantomData<T>);

impl<T: Copy + Eq + std::hash::Hash> Indexer for SimpleIndexer<T> {
    type Input = T;

    type Index = T;

    open spec fn index_of(input: T) -> T {
        input
    }

    fn index(input: &T) -> (r: T) {
        *input
    }
}

/// Law: in a well-formed index the buckets and the entity keys are mutual
/// inverses. An entity lies in the bucket of a key exactly when the key is the
/// one recorded for it, so it lies in exactly one bucket.
pub proof fn lemma_index_mutual_inverse<I: Indexer>(index: &IndexBacking<I>, e: u32, k: I::Index, k2: I::Index)
    requires
        index.wf(),
    ensures
        (index.spec_forward().contains_key(k) && index.spec_forward()[k]@.contains(entity_of(e))) <==> (
        index.spec_reverse().contains_key(e) && index.spec_reverse()[e] == k),
        index.spec_forward().contains_key(k) && index.spec_forward()[k]@.contains(entity_of(e))
            && index.spec_forward().contains_key(k2) && index.spec_forward()[k2]@.contains(entity_of(e)) ==> k == k2,
{
    if index.spec_forward().contains_key(k) && index.spec_forward()[k]@.contains(entity_of(e)) {
        let m = choose|m: int| 0 <= m < index.spec_forward()[k]@.len() && index.spec_forward()[k]@[m] == entity_of(e);
        assert(index.spec_reverse().contains_key(index.spec_forward()[k]@[m].index));
    }
    if index.spec_forward().contains_key(k2) && index.spec_forward()[k2]@.contains(entity_of(e)) {
        let m = choose|m: int| 0 <= m < index.spec_forward()[k2]@.len() && index.spec_forward()[k2]@[m] == entity_of(e);
        assert(index.spec_reverse().contains_key(index.spec_forward()[k2]@[m].index));
    }
}

/// Law: a well-formed index holds no empty bucket; taking the last entity out of
/// a bucket takes the bucket away.
pub proof fn lemma_index_no_empty_bucket<I: Indexer>(index: &IndexBacking<I>, k: I::Index)
    requires
        index.wf(),
    ensures
        index.spec_forward().contains_key(k) ==> index.spec_forward()[k]@.len() > 0,
{
}

/// Law: when the only entity of a bucket leaves it, taken out of the index or
/// moved to another key while every other entity keeps its key, the bucket goes
/// away with it.
pub proof fn lemma_last_removal_prunes<I: Indexer>(before: &IndexBacking<I>, after: &IndexBacking<I>, e: Entity, k: I::Index)
    requires
        before.wf(),
        after.wf(),
        after.spec_reverse().remove(e.index) == before.spec_reverse().remove(e.index),
        !(after.spec_reverse().contains_key(e.index) && after.spec_reverse()[e.index] == k),
        before.spec_forward().contains_key(k),
        before.spec_forward()[k]@ == seq![e],
    ensures
        !after.spec_forward().contains_key(k),
{
    if after.spec_forward().contains_key(k) {
        let x = after.spec_forward()[k]@[0];
        assert(after.spec_reverse().contains_key(x.index));
        assert(x.index != e.index);
        assert(after.spec_reverse().remove(e.index).contains_key(x.index));
        assert(after.spec_reverse().remove(e.index)[x.index] == k);
        assert(before.spec_reverse().remove(e.index)[x.index] == k);
        assert(before.spec_reverse().contains_key(x.index));
        assert(before.spec_reverse()[x.index] == k);
        assert(before.spec_forward()[before.spec_reverse()[x.index]]@.contains(entity_of(x.index)));
        assert(seq![e].contains(entity_of(x.index)));
        assert(seq![e][0] == e);
    }
}

/// The key that an update with `input` records: that of the value, or none.
pub open spec fn key_of_input<I: Indexer>(input: Option<&I::Input>) -> Option<I::Index> {
    match input {
        Some(v) => Some(I::index_of(*v)),
        None => None,
    }
}

/// The entity with index `index`.
pub open spec fn entity_of(index: u32) -> Entity {
    Entity { index }
}

/// `m` without the entities of `removed`, taken out in order.
pub open spec fn removals_applied<K>(m: Map<u32, K>, removed: Seq<Entity>) -> Map<u32, K>
    decreases removed.len(),
{
    if removed.len() == 0 {
        m
    } else {
        removals_applied(m, removed.drop_last()).remove(removed.last().index)
    }
}

/// `m` with the key of every component of `slots` that changed in the run `ticks`,
/// written in order.
pub open spec fn changes_applied<I: Indexer>(
    m: Map<u32, I::Index>,
    slots: Seq<ComponentSlot<I::Input>>,
    ticks: SystemChangeTick,
) -> Map<u32, I::Index>
    decreases slots.len(),
{
    if slots.len() == 0 {
        m
    } else {
        let before = changes_applied::<I>(m, slots.drop_last(), ticks);
        let s = slots.last();
        if s.ticks.changed.spec_is_newer_than(ticks.last_run, ticks.this_run) {
            before.insert(s.entity.index, I::index_of(s.value))
        } else {
            before
        }
    }
}

/// Whether the component in `s` changed in the run `ticks`.
pub open spec fn changed_in_run<C>(s: ComponentSlot<C>, ticks: SystemChangeTick) -> bool {
    s.ticks.changed.spec_is_newer_than(ticks.last_run, ticks.this_run)
}

/// Taking out a sequence of removals, entity by entity: an entity stays exactly
/// when it was there and is not among the removed, and keeps its key.
pub proof fn lemma_removals_pointwise<K>(m: Map<u32, K>, removed: Seq<Entity>)
    ensures
        forall|e: u32| #[trigger] removals_applied(m, removed).contains_key(e) <==> (m.contains_key(e)
            && forall|i: int| 0 <= i < removed.len() ==> (#[trigger] removed[i]).index != e),
        forall|e: u32| #[trigger] removals_applied(m, removed).contains_key(e) ==> removals_applied(m, removed)[e] == m[e],
    decreases removed.len(),
{
    if removed.len() > 0 {
        let prefix = removed.drop_last();
        lemma_removals_pointwise(m, prefix);
        assert(removals_applied(m, removed) == removals_applied(m, prefix).remove(removed[removed.len() - 1].index));
        assert forall|e: u32| #[trigger] removals_applied(m, removed).contains_key(e) <==> (m.contains_key(e)
            && forall|i: int| 0 <= i < removed.len() ==> (#[trigger] removed[i]).index != e) by {
            if m.contains_key(e) && forall|i: int| 0 <= i < removed.len() ==> (#[trigger] removed[i]).index != e {
                assert forall|i: int| 0 <= i < prefix.len() implies (#[trigger] prefix[i]).index != e by {
                    assert(prefix[i] == removed[i]);
                }
                assert(removed[removed.len() - 1].index != e);
            }
            if removals_applied(m, removed).contains_key(e) {
                assert forall|i: int| 0 <= i < removed.len() implies (#[trigger] removed[i]).index != e by {
                    if i < removed.len() - 1 {
                        assert(prefix[i] == removed[i]);
                    }
                }
            }
        }
    }
}

/// Writing the keys of changed components, entity by entity, when each entity
/// appears once: an entity whose component changed gets the key of its value;
/// every other entity keeps what it had.
pub proof fn lemma_changes_pointwise<I: Indexer>(m: Map<u32, I::Index>, slots: Seq<ComponentSlot<I::Input>>, ticks: SystemChangeTick)
    requires
        forall|i: int, j: int| 0 <= i < j < slots.len() ==> (#[trigger] slots[i]).entity.index != (#[trigger] slots[j]).entity.index,
    ensures
        forall|i: int|
            0 <= i < slots.len() && changed_in_run(#[trigger] slots[i], ticks) ==> changes_applied::<I>(m, slots, ticks).contains_key(
                slots[i].entity.index,
            ) && changes_applied::<I>(m, slots, ticks)[slots[i].entity.index] == I::index_of(slots[i].value),
        forall|e: u32|
            (forall|i: int| 0 <= i < slots.len() ==> !((#[trigger] slots[i]).entity.index == e && changed_in_run(slots[i], ticks)))
                ==> changes_applied::<I>(m, slots, ticks).get(e) == #[trigger] m.get(e),
    decreases slots.len(),
{
    if slots.len() > 0 {
        let prefix = slots.drop_last();
        let n = slots.len() - 1;
        assert forall|i: int, j: int| 0 <= i < j < prefix.len() implies (#[trigger] prefix[i]).entity.index != (
        #[trigger] prefix[j]).entity.index by {
            assert(prefix[i] == slots[i]);
            assert(prefix[j] == slots[j]);
        }
        lemma_changes_pointwise::<I>(m, prefix, ticks);
        assert forall|i: int|
            0 <= i < slots.len() && changed_in_run(#[trigger] slots[i], ticks) implies changes_applied::<I>(m, slots, ticks).contains_key(
                slots[i].entity.index,
            ) && changes_applied::<I>(m, slots, ticks)[slots[i].entity.index] == I::index_of(slots[i].value) by {
            if i < n {
                assert(prefix[i] == slots[i]);
                assert(slots[i].entity.index != slots[n].entity.index);
            }
        }
        assert forall|e: u32|
            (forall|i: int| 0 <= i < slots.len() ==> !((#[trigger] slots[i]).entity.index == e && changed_in_run(slots[i], ticks)))
                implies changes_applied::<I>(m, slots, ticks).get(e) == #[trigger] m.get(e) by {
            assert forall|i: int| 0 <= i < prefix.len() implies !((#[trigger] prefix[i]).entity.index == e && changed_in_run(
                prefix[i],
                ticks,
            )) by {
                assert(prefix[i] == slots[i]);
            }
            assert(!(slots[n].entity.index == e && changed_in_run(slots[n], ticks)));
        }
    }
}

/// The entity keys after a refresh, stated entity by entity: an entity whose
/// component changed in the run has the key of its value; any other entity has
/// no key if it was removed since the last refresh, and its old key otherwise.
pub open spec fn refreshed_pointwise<I: Indexer>(
    old_keys: Map<u32, I::Index>,
    new_keys: Map<u32, I::Index>,
    removed: Seq<Entity>,
    slots: Seq<ComponentSlot<I::Input>>,
    ticks: SystemChangeTick,
) -> bool {
    &&& forall|i: int|
        0 <= i < slots.len() && changed_in_run(#[trigger] slots[i], ticks) ==> new_keys.contains_key(
            slots[i].entity.index,
        ) && new_keys[slots[i].entity.index] == I::index_of(slots[i].value)
    &&& forall|e: u32|
        (forall|i: int| 0 <= i < slots.len() ==> !((#[trigger] slots[i]).entity.index == e && changed_in_run(slots[i], ticks)))
            ==> #[trigger] new_keys.get(e) == if (exists|j: int| 0 <= j < removed.len() && (#[trigger] removed[j]).index == e) {
            None
        } else {
            old_keys.get(e)
        }
}

/// Law: when each entity holds one component, the refresh described as a fold
/// over removals and changes is the refresh described entity by entity.
pub proof fn lemma_refresh_pointwise<I: Indexer>(
    old_keys: Map<u32, I::Index>,
    removed: Seq<Entity>,
    slots: Seq<ComponentSlot<I::Input>>,
    ticks: SystemChangeTick,
)
    requires
        forall|i: int, j: int| 0 <= i < j < slots.len() ==> (#[trigger] slots[i]).entity != (#[trigger] slots[j]).entity,
    ensures
        refreshed_pointwise::<I>(old_keys, changes_applied::<I>(removals_applied(old_keys, removed), slots, ticks), removed, slots, ticks),
{
    assert forall|i: int, j: int| 0 <= i < j < slots.len() implies (#[trigger] slots[i]).entity.index != (
    #[trigger] slots[j]).entity.index by {
        if slots[i].entity.index == slots[j].entity.index {
            assert(slots[i].entity == entity_of(slots[i].entity.index));
            assert(slots[j].entity == entity_of(slots[j].entity.index));
        }
    }
    let mid = removals_applied(old_keys, removed);
    lemma_removals_pointwise(old_keys, removed);
    lemma_changes_pointwise::<I>(mid, slots, ticks);
    let new_keys = changes_applied::<I>(mid, slots, ticks);
    assert forall|e: u32|
        (forall|i: int| 0 <= i < slots.len() ==> !((#[trigger] slots[i]).entity.index == e && changed_in_run(slots[i], ticks)))
            implies #[trigger] new_keys.get(e) == if (exists|j: int| 0 <= j < removed.len() && (#[trigger] removed[j]).index == e) {
            None
        } else {
            old_keys.get(e)
        } by {
        assert(new_keys.get(e) == mid.get(e));
        if exists|j: int| 0 <= j < removed.len() && (#[trigger] removed[j]).index == e {
            assert(!mid.contains_key(e));
        } else {
            if old_keys.contains_key(e) {
                assert(mid.contains_key(e));
            }
        }
    }
}

/// The state of a value index: buckets from key to entities, the key of each
/// indexed entity, the run it was last refreshed for, and how many removal records
/// of the world it has consumed.
pub struct IndexBacking<I: Indexer> {
    forward: HashMap<I::Index, Vec<Entity>>,
    reverse: HashMap<u32, I::Index>,
    last_this_run: Option<Tick>,
    removed_read: usize,
}

impl<I: Indexer> IndexBacking<I> {
    /// The key of each indexed entity, by entity index.
    pub closed spec fn spec_reverse(&self) -> Map<u32, I::Index> {
        self.reverse@
    }

    /// The bucket of each key.
    pub closed spec fn spec_forward(&self) -> Map<I::Index, Vec<Entity>> {
        self.forward@
    }

    /// The run the index was last refreshed for.
    pub closed spec fn spec_last_this_run(&self) -> Option<Tick> {
        self.last_this_run
    }

    /// How many removal records of the world the index has consumed.
    pub closed spec fn spec_removed_read(&self) -> usize {
        self.removed_read
    }

    /// The buckets and the entity keys are mutual inverses: an entity lies in
    /// exactly the bucket of its key, once, and no bucket is empty.
    pub open spec fn wf(&self) -> bool {
        &&& obeys_key_model::<I::Index>()
        &&& forall|e: u32|
            #[trigger] self.spec_reverse().contains_key(e) ==> {
                &&& self.spec_forward().contains_key(self.spec_reverse()[e])
                &&& self.spec_forward()[self.spec_reverse()[e]]@.contains(entity_of(e))
            }
        &&& forall|k: I::Index|
            #[trigger] self.spec_forward().contains_key(k) ==> {
                &&& self.spec_forward()[k]@.len() > 0
                &&& self.spec_forward()[k]@.no_duplicates()
                &&& forall|j: int|
                    0 <= j < self.spec_forward()[k]@.len() ==> {
                        &&& self.spec_reverse().contains_key(#[trigger] self.spec_forward()[k]@[j].index)
                        &&& self.spec_reverse()[self.spec_forward()[k]@[j].index] == k
                    }
            }
    }

    /// An empty index that has consumed no removal record.
    pub fn new() -> (r: Self)
        requires
            obeys_key_model::<I::Index>(),
        ensures
            r.wf(),
            r.spec_reverse() == Map::<u32, I::Index>::empty(),
            r.spec_forward() == Map::<I::Index, Vec<Entity>>::empty(),
            r.spec_last_this_run() is None,
            r.spec_removed_read() == 0,
    {
        IndexBacking { forward: HashMap::new(), reverse: HashMap::new(), last_this_run: None, removed_read: 0 }
    }

    /// The position of `entity` in `bucket`.
    fn position_in(bucket: &Vec<Entity>, entity: Entity) -> (r: usize)
        requires
            bucket@.contains(entity),
        ensures
            r < bucket@.len(),
            bucket@[r as int] == entity,
    {
        let mut i: usize = 0;
        while i < bucket.len() && bucket[i] != entity
            invariant
                0 <= i <= bucket@.len(),
                bucket@.contains(entity),
                forall|j: int| 0 <= j < i ==> bucket@[j] != entity,
            decreases bucket@.len() - i,
        {
            i = i + 1;
        }
        i
    }

    /// Takes `entity` out of the index: out of the entity keys, and out of its
    /// bucket, which goes away when it empties.
    fn detach(&mut self, entity: Entity) -> (r: Option<I::Index>)
        requires
            old(self).wf(),
        ensures
            final(self).wf(),
            r == old(self).spec_reverse().get(entity.index),
            final(self).spec_reverse() == old(self).spec_reverse().remove(entity.index),
            final(self).spec_last_this_run() == old(self).spec_last_this_run(),
            final(self).spec_removed_read() == old(self).spec_removed_read(),
    {
        let ghost old_rev = self.reverse@;
        let ghost old_fwd = self.forward@;
        match self.reverse.remove(&entity.index) {
            None => {
                proof {
                    assert(self.reverse@ =~= old_rev.remove(entity.index));
                    assert(self.reverse@ =~= old_rev);
                    assert(self.spec_reverse() == old(self).spec_reverse());
                    assert(self.spec_forward() == old(self).spec_forward());
                }
                None
            },
            Some(key) => {
                proof {
                    assert(old(self).spec_reverse().contains_key(entity.index));
                    assert(old_fwd.contains_key(key));
                    assert(old_fwd[key]@.contains(entity_of(entity.index)));
                }
                let taken = self.forward.remove(&key);
                let mut bucket = taken.unwrap();
                let pos = Self::position_in(&bucket, entity);
                let ghost full = bucket@;
                bucket.remove(pos);
                let ghost rest = bucket@;
                proof {
                    assert(old(self).spec_forward().contains_key(key));
                    assert forall|j: int| 0 <= j < rest.len() implies #[trigger] rest[j] == full[if j < pos {
                        j
                    } else {
                        j + 1
                    }] by {}
                    assert forall|j: int| 0 <= j < rest.len() implies #[trigger] rest[j] != entity by {
                        let n = if j < pos { j } else { j + 1 };
                        assert(rest[j] == full[n]);
                        assert(n != pos);
                    }
                    assert(rest.no_duplicates()) by {
                        assert forall|a: int, b: int| 0 <= a < rest.len() && 0 <= b < rest.len() && a != b implies rest[a]
                            != rest[b] by {
                            let na = if a < pos { a } else { a + 1 };
                            let nb = if b < pos { b } else { b + 1 };
                            assert(rest[a] == full[na]);
                            assert(rest[b] == full[nb]);
                        }
                    }
                    assert forall|x: Entity| full.contains(x) && x != entity implies #[trigger] rest.contains(x) by {
                        let m = choose|m: int| 0 <= m < full.len() && full[m] == x;
                        if m < pos {
                            assert(rest[m] == x);
                        } else {
                            assert(rest[m - 1] == x);
                        }
                    }
                    assert forall|j: int| 0 <= j < rest.len() implies self.reverse@.contains_key(
                        #[trigger] rest[j].index,
                    ) && self.reverse@[rest[j].index] == key by {
                        let n = if j < pos { j } else { j + 1 };
                        assert(rest[j] == full[n]);
                        assert(old_rev.contains_key(full[n].index));
                        assert(old_rev[full[n].index] == key);
                        assert(full[n] != entity);
                    }
                }
                if bucket.len() > 0 {
                    self.forward.insert(key, bucket);
                }
                proof {
                    let new_rev = self.reverse@;
                    let new_fwd = self.forward@;
                    assert(new_rev == old_rev.remove(entity.index));
                    assert forall|e: u32| #[trigger] new_rev.contains_key(e) implies {
                        &&& new_fwd.contains_key(new_rev[e])
                        &&& new_fwd[new_rev[e]]@.contains(entity_of(e))
                    } by {
                        assert(old(self).spec_reverse().contains_key(e));
                        let k2 = old_rev[e];
                        assert(old_fwd.contains_key(k2));
                        assert(old_fwd[k2]@.contains(entity_of(e)));
                        if k2 == key {
                            assert(entity_of(e) != entity);
                            assert(rest.contains(entity_of(e)));
                        }
                    }
                    assert forall|k: I::Index| #[trigger] new_fwd.contains_key(k) implies {
                        &&& new_fwd[k]@.len() > 0
                        &&& new_fwd[k]@.no_duplicates()
                        &&& forall|j: int|
                            0 <= j < new_fwd[k]@.len() ==> {
                                &&& new_rev.contains_key(#[trigger] new_fwd[k]@[j].index)
                                &&& new_rev[new_fwd[k]@[j].index] == k
                            }
                    } by {
                        if k != key {
                            assert(old(self).spec_forward().contains_key(k));
                            assert forall|j: int| 0 <= j < new_fwd[k]@.len() implies {
                                &&& new_rev.contains_key(#[trigger] new_fwd[k]@[j].index)
                                &&& new_rev[new_fwd[k]@[j].index] == k
                            } by {
                                let x = old_fwd[k]@[j];
                                assert(old_rev.contains_key(x.index));
                                assert(old_rev[x.index] == k);
                                assert(x.index != entity.index);
                            }
                        }
                    }
                    assert(self.wf());
                }
                Some(key)
            },
        }
    }

    /// Puts `entity`, which the index does not hold, into the bucket of the key of
    /// `input`, creating the bucket if needed.
    fn attach(&mut self, entity: Entity, input: &I::Input)
        requires
            old(self).wf(),
            !old(self).spec_reverse().contains_key(entity.index),
        ensures
            final(self).wf(),
            final(self).spec_reverse() == old(self).spec_reverse().insert(entity.index, I::index_of(*input)),
            final(self).spec_last_this_run() == old(self).spec_last_this_run(),
            final(self).spec_removed_read() == old(self).spec_removed_read(),
    {
        let ghost old_rev = self.reverse@;
        let ghost old_fwd = self.forward@;
        let key = I::index(input);
        self.reverse.insert(entity.index, I::index(input));
        let mut bucket = match self.forward.remove(&key) {
            Some(b) => b,
            None => Vec::new(),
        };
        let ghost before = bucket@;
        proof {
            assert(old(self).spec_forward() == old_fwd);
            assert(old_fwd.contains_key(key) ==> before == old_fwd[key]@);
            assert(!old_fwd.contains_key(key) ==> before.len() == 0);
            assert forall|j: int| 0 <= j < before.len() implies {
                &&& old_rev.contains_key(#[trigger] before[j].index)
                &&& old_rev[before[j].index] == key
            } by {
                assert(old_fwd.contains_key(key));
            }
        }
        bucket.push(entity);
        self.forward.insert(key, bucket);
        proof {
            let new_rev = self.reverse@;
            let new_fwd = self.forward@;
            let after = new_fwd[key]@;
            assert(after == before.push(entity));
            assert forall|j: int| 0 <= j < before.len() implies #[trigger] before[j] != entity by {
                assert(old_rev.contains_key(before[j].index));
            }
            assert(after.no_duplicates()) by {
                if old_fwd.contains_key(key) {
                    assert(old(self).spec_forward().contains_key(key));
                }
                assert forall|a: int, b: int| 0 <= a < after.len() && 0 <= b < after.len() && a != b implies after[a]
                    != after[b] by {
                    if a < before.len() && b < before.len() {
                        assert(old(self).spec_forward().contains_key(key));
                    } else if a < before.len() {
                        assert(after[a] == before[a]);
                    } else {
                        assert(after[b] == before[b]);
                    }
                }
            }
            assert forall|e: u32| #[trigger] new_rev.contains_key(e) implies {
                &&& new_fwd.contains_key(new_rev[e])
                &&& new_fwd[new_rev[e]]@.contains(entity_of(e))
            } by {
                if e == entity.index {
                    assert(after[after.len() - 1] == entity_of(e));
                } else {
                    assert(old(self).spec_reverse().contains_key(e));
                    let k2 = old_rev[e];
                    assert(old_fwd[k2]@.contains(entity_of(e)));
                    if k2 == key {
                        let m = choose|m: int| 0 <= m < before.len() && before[m] == entity_of(e);
                        assert(after[m] == entity_of(e));
                    }
                }
            }
            assert forall|k: I::Index| #[trigger] new_fwd.contains_key(k) implies {
                &&& new_fwd[k]@.len() > 0
                &&& new_fwd[k]@.no_duplicates()
                &&& forall|j: int|
                    0 <= j < new_fwd[k]@.len() ==> {
                        &&& new_rev.contains_key(#[trigger] new_fwd[k]@[j].index)
                        &&& new_rev[new_fwd[k]@[j].index] == k
                    }
            } by {
                if k == key {
                    assert forall|j: int| 0 <= j < new_fwd[k]@.len() implies {
                        &&& new_rev.contains_key(#[trigger] new_fwd[k]@[j].index)
                        &&& new_rev[new_fwd[k]@[j].index] == k
                    } by {
                        if j < before.len() {
                            assert(after[j] == before[j]);
                            assert(before[j] != entity);
                        }
                    }
                } else {
                    assert(old(self).spec_forward().contains_key(k));
                    assert forall|j: int| 0 <= j < new_fwd[k]@.len() implies {
                        &&& new_rev.contains_key(#[trigger] new_fwd[k]@[j].index)
                        &&& new_rev[new_fwd[k]@[j].index] == k
                    } by {
                        let x = old_fwd[k]@[j];
                        assert(old_rev.contains_key(x.index));
                    }
                }
            }
            assert(self.wf());
        }
    }

    /// Brings the index up to date for one entity: `Some(input)` records the key of
    /// `input` for it (moving it out of its former bucket first), `None` takes it out.
    /// Returns the key the entity had before, if any.
    pub fn update(&mut self, entity: Entity, input: Option<&I::Input>) -> (r: Option<I::Index>)
        requires
            old(self).wf(),
        ensures
            final(self).wf(),
            r == old(self).spec_reverse().get(entity.index),
            forall|k: I::Index|
                #![trigger old(self).spec_forward().contains_key(k)]
                old(self).spec_forward().contains_key(k) && old(self).spec_forward()[k]@ == seq![entity]
                    && key_of_input::<I>(input) != Some(k) ==> !final(self).spec_forward().contains_key(k),
            final(self).spec_reverse() == match input {
                Some(v) => old(self).spec_reverse().insert(entity.index, I::index_of(*v)),
                None => old(self).spec_reverse().remove(entity.index),
            },
            final(self).spec_last_this_run() == old(self).spec_last_this_run(),
            final(self).spec_removed_read() == old(self).spec_removed_read(),
    {
        let previous = self.detach(entity);
        match input {
            Some(v) => {
                self.attach(entity, v);
                proof {
                    assert(old(self).spec_reverse().remove(entity.index).insert(entity.index, I::index_of(*v))
                        =~= old(self).spec_reverse().insert(entity.index, I::index_of(*v)));
                }
            },
            None => {},
        }
        proof {
            assert forall|k: I::Index|
                #![trigger old(self).spec_forward().contains_key(k)]
                old(self).spec_forward().contains_key(k) && old(self).spec_forward()[k]@ == seq![entity]
                    && key_of_input::<I>(input) != Some(k) implies !self.spec_forward().contains_key(k) by {
                assert(self.spec_reverse().remove(entity.index) =~= old(self).spec_reverse().remove(entity.index));
                lemma_last_removal_prunes(old(self), self, entity, k);
            }
        }
        previous
    }

    /// Refreshes the index for the run `ticks` of the system that reads it: takes
    /// out every entity removed from `world` since the last refresh, then records
    /// the key of every component that changed in the run, and notes the run.
    pub fn update_index<R>(&mut self, world: &World<I::Input, R>, ticks: SystemChangeTick)
        requires
            old(self).wf(),
            old(self).spec_removed_read() <= world.spec_removed().len(),
        ensures
            final(self).wf(),
            final(self).spec_reverse() == changes_applied::<I>(
                removals_applied(
                    old(self).spec_reverse(),
                    world.spec_removed().subrange(old(self).spec_removed_read() as int, world.spec_removed().len() as int),
                ),
                world.spec_components(),
                ticks,
            ),
            final(self).spec_last_this_run() == Some(ticks.this_run),
            final(self).spec_removed_read() == world.spec_removed().len(),
            world.wf() ==> refreshed_pointwise::<I>(
                old(self).spec_reverse(),
                final(self).spec_reverse(),
                world.spec_removed().subrange(old(self).spec_removed_read() as int, world.spec_removed().len() as int),
                world.spec_components(),
                ticks,
            ),
    {
        proof {
            if world.wf() {
                lemma_refresh_pointwise::<I>(
                    old(self).spec_reverse(),
                    world.spec_removed().subrange(old(self).spec_removed_read() as int, world.spec_removed().len() as int),
                    world.spec_components(),
                    ticks,
                );
            }
        }
        let removed = world.removed();
        let start = self.removed_read;
        let mut j: usize = start;
        while j < removed.len()
            invariant
                self.wf(),
                start == old(self).spec_removed_read(),
                start <= j <= removed@.len(),
                removed@ == world.spec_removed(),
                self.spec_reverse() == removals_applied(old(self).spec_reverse(), removed@.subrange(start as int, j as int)),
                self.spec_removed_read() == start,
            decreases removed@.len() - j,
        {
            self.update(removed[j], None);
            proof {
                assert(removed@.subrange(start as int, j + 1).drop_last() =~= removed@.subrange(start as int, j as int));
            }
            j = j + 1;
        }
        let ghost mid = self.spec_reverse();
        let n = world.len();
        let mut i: usize = 0;
        while i < n
            invariant
                self.wf(),
                n == world.spec_components().len(),
                0 <= i <= n,
                self.spec_reverse() == changes_applied::<I>(mid, world.spec_components().take(i as int), ticks),
            decreases n - i,
        {
            let slot = world.query_ref(i, ticks);
            let entity = world.entity_at(i);
            let ghost s = world.spec_components()[i as int];
            if slot.ticks.changed.is_newer_than(ticks.last_run, ticks.this_run) {
                self.update(entity, Some(slot.value));
            }
            proof {
                assert(world.spec_components().take(i + 1).drop_last() =~= world.spec_components().take(i as int));
                assert(world.spec_components().take(i + 1).last() == s);
            }
            i = i + 1;
        }
        proof {
            assert(world.spec_components().take(n as int) =~= world.spec_components());
        }
        let ghost rev = self.spec_reverse();
        let ghost fwd = self.spec_forward();
        self.removed_read = removed.len();
        self.last_this_run = Some(ticks.this_run);
        proof {
            assert(self.spec_reverse() == rev);
            assert(self.spec_forward() == fwd);
        }
    }

    /// Whether `new` is `old` refreshed from `world` for the run `ticks`.
    pub open spec fn spec_refreshed<R>(old: &Self, new: &Self, world: &World<I::Input, R>, ticks: SystemChangeTick) -> bool {
        &&& new.spec_reverse() == changes_applied::<I>(
            removals_applied(
                old.spec_reverse(),
                world.spec_removed().subrange(old.spec_removed_read() as int, world.spec_removed().len() as int),
            ),
            world.spec_components(),
            ticks,
        )
        &&& new.spec_last_this_run() == Some(ticks.this_run)
        &&& new.spec_removed_read() == world.spec_removed().len()
        &&& world.wf() ==> refreshed_pointwise::<I>(
            old.spec_reverse(),
            new.spec_reverse(),
            world.spec_removed().subrange(old.spec_removed_read() as int, world.spec_removed().len() as int),
            world.spec_components(),
            ticks,
        )
    }

    /// Refreshes the index unless it was already refreshed for this run, in which
    /// case nothing changes.
    pub fn ensure_updated<R>(&mut self, world: &World<I::Input, R>, ticks: SystemChangeTick)
        requires
            old(self).wf(),
            old(self).spec_removed_read() <= world.spec_removed().len(),
        ensures
            final(self).wf(),
            old(self).spec_last_this_run() == Some(ticks.this_run) ==> *final(self) == *old(self),
            old(self).spec_last_this_run() != Some(ticks.this_run) ==> Self::spec_refreshed(
                old(self),
                final(self),
                world,
                ticks,
            ),
    {
        let fresh = match self.last_this_run {
            Some(t) => t == ticks.this_run,
            None => false,
        };
        if !fresh {
            self.update_index(world, ticks);
        }
    }

    /// The entities whose component has the same key as `value`, after making sure
    /// the index is refreshed for this run. Empty when no entity has that key.
    pub fn get<R>(&mut self, world: &World<I::Input, R>, ticks: SystemChangeTick, value: &I::Input) -> (r: Vec<Entity>)
        requires
            old(self).wf(),
            old(self).spec_removed_read() <= world.spec_removed().len(),
        ensures
            final(self).wf(),
            old(self).spec_last_this_run() == Some(ticks.this_run) ==> *final(self) == *old(self),
            old(self).spec_last_this_run() != Some(ticks.this_run) ==> Self::spec_refreshed(
                old(self),
                final(self),
                world,
                ticks,
            ),
            r@.no_duplicates(),
            forall|e: Entity| #[trigger] r@.contains(e) <==> (final(self).spec_reverse().contains_key(e.index)
                && final(self).spec_reverse()[e.index] == I::index_of(*value)),
    {
        self.ensure_updated(world, ticks);
        self.lookup(value)
    }

    /// The entities whose component has the same key as `value`, as of the last
    /// refresh. Empty when no entity has that key.
    pub fn lookup(&self, value: &I::Input) -> (r: Vec<Entity>)
        requires
            self.wf(),
        ensures
            r@.no_duplicates(),
            forall|e: Entity| #[trigger] r@.contains(e) <==> (self.spec_reverse().contains_key(e.index)
                && self.spec_reverse()[e.index] == I::index_of(*value)),
    {
        let key = I::index(value);
        let mut out: Vec<Entity> = Vec::new();
        match self.forward.get(&key) {
            Some(bucket) => {
                proof {
                    assert(self.spec_forward().contains_key(key));
                }
                let mut j: usize = 0;
                while j < bucket.len()
                    invariant
                        0 <= j <= bucket@.len(),
                        out@ == bucket@.take(j as int),
                    decreases bucket@.len() - j,
                {
                    out.push(bucket[j]);
                    proof {
                        assert(bucket@.take(j + 1) =~= bucket@.take(j as int).push(bucket@[j as int]));
                    }
                    j = j + 1;
                }
                proof {
                    assert(bucket@.take(bucket@.len() as int) =~= bucket@);
                    assert forall|e: Entity| #[trigger] out@.contains(e) <==> (self.spec_reverse().contains_key(e.index)
                        && self.spec_reverse()[e.index] == key) by {
                        if out@.contains(e) {
                            let m = choose|m: int| 0 <= m < out@.len() && out@[m] == e;
                            assert(self.spec_forward()[key]@[m] == e);
                        }
                        if self.spec_reverse().contains_key(e.index) && self.spec_reverse()[e.index] == key {
                            assert(entity_of(e.index) == e);
                        }
                    }
                }
            },
            None => {
                proof {
                    assert forall|e: Entity| #[trigger] out@.contains(e) <==> (self.spec_reverse().contains_key(e.index)
                        && self.spec_reverse()[e.index] == key) by {
                        if self.spec_reverse().contains_key(e.index) && self.spec_reverse()[e.index] == key {
                            assert(self.spec_forward().contains_key(key));
                        }
                    }
                }
            },
        }
        out
    }

    /// Every key with its bucket, after making sure the index is refreshed for
    /// this run. Each key of the index comes exactly once.
    pub fn iter<R>(&mut self, world: &World<I::Input, R>, ticks: SystemChangeTick) -> (r: Vec<(&I::Index, &Vec<Entity>)>)
        requires
            old(self).wf(),
            old(self).spec_removed_read() <= world.spec_removed().len(),
        ensures
            final(self).wf(),
            old(self).spec_last_this_run() == Some(ticks.this_run) ==> *final(self) == *old(self),
            old(self).spec_last_this_run() != Some(ticks.this_run) ==> Self::spec_refreshed(
                old(self),
                final(self),
                world,
                ticks,
            ),
            r@.len() == final(self).spec_forward().dom().len(),
            forall|j: int|
                0 <= j < r@.len() ==> final(self).spec_forward().contains_key(*(#[trigger] r@[j]).0)
                    && *r@[j].1 == final(self).spec_forward()[*r@[j].0],
            forall|k: I::Index| #[trigger] final(self).spec_forward().contains_key(k) ==> exists|j: int|
                0 <= j < r@.len() && *(#[trigger] r@[j]).0 == k,
    {
        self.ensure_updated(world, ticks);
        let mut out: Vec<(&I::Index, &Vec<Entity>)> = Vec::new();
        let ghost all = spec_hash_map_iter(&self.forward).remaining();
        proof {
            assert(self.spec_forward() == self.forward@);
        }
        for entry in it: self.forward.iter()
            invariant
                it.seq() == all,
                out@ == all.take(it.index() as int),
        {
            proof {
                assert(all.take(it.index() + 1) =~= all.take(it.index() as int).push(entry));
            }
            out.push(entry);
        }
        proof {
            assert(out@ =~= all);
            assert forall|k: I::Index| #[trigger] self.spec_forward().contains_key(k) implies exists|j: int|
                0 <= j < out@.len() && *(#[trigger] out@[j]).0 == k by {
                assert(all.contains((&k, &self.forward@[k])));
                let j = choose|j: int| 0 <= j < all.len() && all[j] == (&k, &self.forward@[k]);
                assert(*out@[j].0 == k);
            }
        }
        out
    }
}

} // verus!
