//! A small world: entities with one component type, one resource, the world's
//! change tick, the last-run ticks of its systems, and the log of removals.
use vstd::prelude::*;

use crate::change_detection::Proxy;
use crate::tick::{lemma_scan_converges, lemma_view_injective, wrapped_diff, ComponentTicks, Tick, CHECK_TICK_THRESHOLD, MAX_CHANGE_AGE};

verus! {

/// An entity, named by an index that the world never hands out twice.
#[derive(Clone, Copy, Debug, PartialEq, Eq, Hash, Structural)]
pub struct Entity {
    pub index: u32,
}

impl Entity {
    /// The entity with index `index`.
    pub fn from_raw(index: u32) -> (r: Entity)
        ensures
            r.index == index,
    {
        Entity { index }
    }

    /// The entity's index.
    pub fn index(self) -> (r: u32)
        ensures
            r == self.index,
    {
        self.index
    }
}

/// The two reference ticks of one system run: when the system last ran, and now.
#[derive(Clone, Copy, Debug, PartialEq, Eq, Structural)]
pub struct SystemChangeTick {
    pub last_run: Tick,
    pub this_run: Tick,
}

impl SystemChangeTick {
    /// The tick at which the system last ran.
    pub fn last_run(&self) -> (r: Tick)
        ensures
            r == self.last_run,
    {
        self.last_run
    }

    /// The tick of the current run.
    pub fn this_run(&self) -> (r: Tick)
        ensures
            r == self.this_run,
    {
        self.this_run
    }
}

/// A system registered in a world, by its position.
#[derive(Clone, Copy, Debug, PartialEq, Eq, Structural)]
pub struct SystemId {
    pub index: usize,
}

/// A live component: its entity, its value and its change ticks.
pub struct ComponentSlot<C> {
    pub entity: Entity,
    pub value: C,
    pub ticks: ComponentTicks,
}

/// The world's resource with its change ticks.
pub struct ResourceSlot<R> {
    pub value: R,
    pub ticks: ComponentTicks,
}

/// A world holding components of type `C`, at most one resource of type `R`, and
/// the ticks of its systems.
pub struct World<C, R> {
    change_tick: Tick,
    last_change_tick: Tick,
    last_check_tick: Tick,
    next_entity: u32,
    components: Vec<ComponentSlot<C>>,
    removed: Vec<Entity>,
    resource: Option<ResourceSlot<R>>,
    systems: Vec<Tick>,
}

/// Whether `t` is at most [`MAX_CHANGE_AGE`] old, seen from `now`.
pub open spec fn within_max_age(t: Tick, now: Tick) -> bool {
    wrapped_diff(now@, t@) <= MAX_CHANGE_AGE
}

/// Law: a component inserted at the tick that the next system run sees as its
/// `this_run` is reported as added and changed in that run; in the following run
/// of the same system it is reported neither as added nor, while nothing writes
/// it, as changed.
pub proof fn lemma_fresh_component_stamps(ticks: ComponentTicks, first: SystemChangeTick, second: SystemChangeTick)
    requires
        ticks.added == first.this_run,
        ticks.changed == first.this_run,
        first.last_run != first.this_run,
        second.last_run == first.this_run,
    ensures
        ticks.added.spec_is_newer_than(first.last_run, first.this_run),
        ticks.changed.spec_is_newer_than(first.last_run, first.this_run),
        !ticks.added.spec_is_newer_than(second.last_run, second.this_run),
        !ticks.changed.spec_is_newer_than(second.last_run, second.this_run),
{
    lemma_view_injective(first.last_run, first.this_run);
}

/// Replacing the value and ticks of one live component keeps a world well formed.
proof fn lemma_same_entities_keep_wf<C, R>(w: &World<C, R>, i: int)
    requires
        w.wf(),
        0 <= i < w.spec_components().len(),
    ensures
        forall|slot: ComponentSlot<C>|
            slot.entity == w.spec_components()[i].entity ==> {
                let s = #[trigger] w.spec_components().update(i, slot);
                &&& forall|j: int| 0 <= j < s.len() ==> #[trigger] s[j].entity.index < w.spec_next_entity()
                &&& forall|j: int, k: int| 0 <= j < k < s.len() ==> #[trigger] s[j].entity != #[trigger] s[k].entity
            },
{
    assert forall|slot: ComponentSlot<C>| slot.entity == w.spec_components()[i].entity implies {
        let s = #[trigger] w.spec_components().update(i, slot);
        &&& forall|j: int| 0 <= j < s.len() ==> #[trigger] s[j].entity.index < w.spec_next_entity()
        &&& forall|j: int, k: int| 0 <= j < k < s.len() ==> #[trigger] s[j].entity != #[trigger] s[k].entity
    } by {
        let s = w.spec_components().update(i, slot);
        assert forall|j: int| 0 <= j < s.len() implies #[trigger] s[j].entity == w.spec_components()[j].entity by {}
    }
}

/// Whether `after` holds the ticks of `before` as an overflow scan at `now` leaves them.
pub open spec fn is_scanned(before: ComponentTicks, after: ComponentTicks, now: Tick) -> bool {
    &&& after.added@ == before.added.spec_clamped(now)
    &&& after.changed@ == before.changed.spec_clamped(now)
}

/// Law: right after an overflow scan, a second scan does nothing. Fewer than
/// [`CHECK_TICK_THRESHOLD`] ticks have passed since the first, so it returns at
/// once; and every tick it could clamp is already within [`MAX_CHANGE_AGE`], where
/// clamping leaves it in place.
pub proof fn lemma_scan_twice_changes_nothing<C, R>(w: &World<C, R>)
    requires
        w.spec_last_check_tick() == w.spec_change_tick(),
        w.all_within_max_age(),
    ensures
        wrapped_diff(w.spec_change_tick()@, w.spec_last_check_tick()@) < CHECK_TICK_THRESHOLD,
        forall|i: int|
            0 <= i < w.spec_components().len() ==> is_scanned(
                #[trigger] w.spec_components()[i].ticks,
                w.spec_components()[i].ticks,
                w.spec_change_tick(),
            ),
        forall|i: int|
            0 <= i < w.spec_systems().len() ==> (#[trigger] w.spec_systems()[i]).spec_clamped(w.spec_change_tick())
                == w.spec_systems()[i]@,
        w.spec_last_change_tick().spec_clamped(w.spec_change_tick()) == w.spec_last_change_tick()@,
{
}

impl<C, R> World<C, R> {
    /// The world's current change tick.
    pub closed spec fn spec_change_tick(&self) -> Tick {
        self.change_tick
    }

    /// The tick at which the world last cleared its trackers.
    pub closed spec fn spec_last_change_tick(&self) -> Tick {
        self.last_change_tick
    }

    /// The tick of the last overflow scan.
    pub closed spec fn spec_last_check_tick(&self) -> Tick {
        self.last_check_tick
    }

    /// The index the next spawned entity gets.
    pub closed spec fn spec_next_entity(&self) -> u32 {
        self.next_entity
    }

    /// The live components, in storage order.
    pub closed spec fn spec_components(&self) -> Seq<ComponentSlot<C>> {
        self.components@
    }

    /// Every entity whose component was removed, in order of removal.
    pub closed spec fn spec_removed(&self) -> Seq<Entity> {
        self.removed@
    }

    /// The resource, if one was inserted.
    pub closed spec fn spec_resource(&self) -> Option<ResourceSlot<R>> {
        self.resource
    }

    /// The last-run tick of each registered system.
    pub closed spec fn spec_systems(&self) -> Seq<Tick> {
        self.systems@
    }

    /// Each live entity holds one component, and its index was handed out already.
    pub open spec fn wf(&self) -> bool {
        &&& forall|i: int|
            0 <= i < self.spec_components().len() ==> #[trigger] self.spec_components()[i].entity.index
                < self.spec_next_entity()
        &&& forall|i: int, j: int|
            0 <= i < j < self.spec_components().len() ==> #[trigger] self.spec_components()[i].entity
                != #[trigger] self.spec_components()[j].entity
    }

    /// Whether some live component belongs to `e`.
    pub open spec fn spec_contains(&self, e: Entity) -> bool {
        exists|i: int| 0 <= i < self.spec_components().len() && (#[trigger] self.spec_components()[i]).entity == e
    }

    /// Every tick the world stores is at most [`MAX_CHANGE_AGE`] old.
    pub open spec fn all_within_max_age(&self) -> bool {
        let now = self.spec_change_tick();
        &&& forall|i: int|
            0 <= i < self.spec_components().len() ==> within_max_age(
                #[trigger] self.spec_components()[i].ticks.added,
                now,
            ) && within_max_age(self.spec_components()[i].ticks.changed, now)
        &&& self.spec_resource() is Some ==> within_max_age(self.spec_resource()->0.ticks.added, now)
            && within_max_age(self.spec_resource()->0.ticks.changed, now)
        &&& forall|i: int| 0 <= i < self.spec_systems().len() ==> within_max_age(#[trigger] self.spec_systems()[i], now)
        &&& within_max_age(self.spec_last_change_tick(), now)
    }

    /// An empty world whose change tick is 1.
    pub fn new() -> (r: Self)
        ensures
            r.wf(),
            r.spec_change_tick()@ == 1,
            r.spec_last_change_tick()@ == 0,
            r.spec_last_check_tick()@ == 0,
            r.spec_next_entity() == 0,
            r.spec_components().len() == 0,
            r.spec_removed().len() == 0,
            r.spec_resource() is None,
            r.spec_systems().len() == 0,
    {
        World {
            change_tick: Tick::new(1),
            last_change_tick: Tick::new(0),
            last_check_tick: Tick::new(0),
            next_entity: 0,
            components: Vec::new(),
            removed: Vec::new(),
            resource: None,
            systems: Vec::new(),
        }
    }

    /// `self` and `other` hold the same entities, components, removals, resource
    /// and systems.
    pub open spec fn same_storage(&self, other: &Self) -> bool {
        &&& self.spec_next_entity() == other.spec_next_entity()
        &&& self.spec_components() == other.spec_components()
        &&& self.spec_removed() == other.spec_removed()
        &&& self.spec_resource() == other.spec_resource()
        &&& self.spec_systems() == other.spec_systems()
    }

    /// `self` and `other` have the same three world ticks.
    pub open spec fn same_clock(&self, other: &Self) -> bool {
        &&& self.spec_change_tick() == other.spec_change_tick()
        &&& self.spec_last_change_tick() == other.spec_last_change_tick()
        &&& self.spec_last_check_tick() == other.spec_last_check_tick()
    }

    /// The world's current change tick.
    pub fn change_tick(&self) -> (r: Tick)
        ensures
            r == self.spec_change_tick(),
    {
        self.change_tick
    }

    /// The tick at which the world last cleared its trackers.
    pub fn last_change_tick(&self) -> (r: Tick)
        ensures
            r == self.spec_last_change_tick(),
    {
        self.last_change_tick
    }

    /// Advances the change tick by one, wrapping, and returns the tick it had before.
    pub fn increment_change_tick(&mut self) -> (r: Tick)
        ensures
            r == old(self).spec_change_tick(),
            final(self).spec_change_tick()@ == wrapped_diff(r@, u32::MAX),
            final(self).spec_last_change_tick() == old(self).spec_last_change_tick(),
            final(self).spec_last_check_tick() == old(self).spec_last_check_tick(),
            final(self).same_storage(old(self)),
    {
        let previous = self.change_tick;
        self.change_tick = Tick::new(previous.get().wrapping_add(1));
        previous
    }

    /// Moves the world's change tick to `tick`, as when replaying a long run.
    pub fn set_change_tick(&mut self, tick: Tick)
        ensures
            final(self).spec_change_tick() == tick,
            final(self).spec_last_change_tick() == old(self).spec_last_change_tick(),
            final(self).spec_last_check_tick() == old(self).spec_last_check_tick(),
            final(self).same_storage(old(self)),
    {
        self.change_tick = tick;
    }

    /// Moves the tick at which the world last cleared its trackers to `tick`.
    pub fn set_last_change_tick(&mut self, tick: Tick)
        ensures
            final(self).spec_last_change_tick() == tick,
            final(self).spec_change_tick() == old(self).spec_change_tick(),
            final(self).spec_last_check_tick() == old(self).spec_last_check_tick(),
            final(self).same_storage(old(self)),
    {
        self.last_change_tick = tick;
    }

    /// Ends a frame of change tracking: the last change tick becomes the current
    /// change tick, which then advances by one.
    pub fn clear_trackers(&mut self)
        ensures
            final(self).spec_last_change_tick() == old(self).spec_change_tick(),
            final(self).spec_change_tick()@ == wrapped_diff(old(self).spec_change_tick()@, u32::MAX),
            final(self).spec_last_check_tick() == old(self).spec_last_check_tick(),
            final(self).same_storage(old(self)),
    {
        self.last_change_tick = self.increment_change_tick();
    }

    /// Number of live components.
    pub fn len(&self) -> (r: usize)
        ensures
            r == self.spec_components().len(),
    {
        self.components.len()
    }

    /// The entity of the `i`-th live component.
    pub fn entity_at(&self, i: usize) -> (r: Entity)
        requires
            i < self.spec_components().len(),
        ensures
            r == self.spec_components()[i as int].entity,
    {
        self.components[i].entity
    }

    /// Every entity whose component was removed, in order of removal.
    pub fn removed(&self) -> (r: &Vec<Entity>)
        ensures
            r@ == self.spec_removed(),
    {
        &self.removed
    }

    /// Spawns a new entity holding `value`, stamped as added and changed at the
    /// current change tick.
    pub fn spawn(&mut self, value: C) -> (r: Entity)
        requires
            old(self).wf(),
            old(self).spec_next_entity() < u32::MAX,
        ensures
            final(self).wf(),
            r.index == old(self).spec_next_entity(),
            final(self).spec_next_entity() == old(self).spec_next_entity() + 1,
            final(self).spec_components().len() == old(self).spec_components().len() + 1,
            final(self).spec_components().drop_last() == old(self).spec_components(),
            final(self).spec_components().last().entity == r,
            final(self).spec_components().last().value == value,
            final(self).spec_components().last().ticks.added == old(self).spec_change_tick(),
            final(self).spec_components().last().ticks.changed == old(self).spec_change_tick(),
            final(self).spec_removed() == old(self).spec_removed(),
            final(self).spec_resource() == old(self).spec_resource(),
            final(self).spec_systems() == old(self).spec_systems(),
            final(self).same_clock(old(self)),
    {
        let entity = Entity { index: self.next_entity };
        self.next_entity = self.next_entity + 1;
        let ticks = ComponentTicks::new(self.change_tick);
        self.components.push(ComponentSlot { entity, value, ticks });
        proof {
            let n = self.components@.len() - 1;
            assert forall|i: int| 0 <= i < self.components@.len() implies #[trigger] self.components@[i].entity.index
                < self.next_entity by {
                if i < n {
                    assert(self.components@[i] == old(self).spec_components()[i]);
                }
            }
            assert forall|i: int, j: int| 0 <= i < j < self.components@.len() implies #[trigger] self.components@[i].entity
                != #[trigger] self.components@[j].entity by {
                assert(self.components@[i] == old(self).spec_components()[i]);
                if j < n {
                    assert(self.components@[j] == old(self).spec_components()[j]);
                } else {
                    assert(old(self).spec_components()[i].entity.index < old(self).next_entity);
                }
            }
        }
        entity
    }

    /// Removes `entity` and its component, and records the removal. Returns whether
    /// the entity was live.
    pub fn despawn(&mut self, entity: Entity) -> (r: bool)
        requires
            old(self).wf(),
        ensures
            final(self).wf(),
            r == old(self).spec_contains(entity),
            r ==> final(self).spec_removed() == old(self).spec_removed().push(entity),
            r ==> exists|k: int|
                0 <= k < old(self).spec_components().len() && (#[trigger] old(self).spec_components()[k]).entity == entity
                    && final(self).spec_components() == old(self).spec_components().remove(k),
            !r ==> final(self).spec_components() == old(self).spec_components(),
            !r ==> final(self).spec_removed() == old(self).spec_removed(),
            forall|s: ComponentSlot<C>| #[trigger] final(self).spec_components().contains(s) <==> (
                old(self).spec_components().contains(s) && s.entity != entity),
            final(self).spec_next_entity() == old(self).spec_next_entity(),
            final(self).spec_resource() == old(self).spec_resource(),
            final(self).spec_systems() == old(self).spec_systems(),
            final(self).same_clock(old(self)),
    {
        let mut i: usize = 0;
        while i < self.components.len() && self.components[i].entity != entity
            invariant
                0 <= i <= self.components.len(),
                forall|j: int| 0 <= j < i ==> #[trigger] self.components@[j].entity != entity,
            decreases self.components.len() - i,
        {
            i = i + 1;
        }
        if i == self.components.len() {
            return false;
        }
        let ghost before = self.components@;
        let ghost k = i as int;
        let _slot = self.components.remove(i);
        self.removed.push(entity);
        proof {
            let after = self.components@;
            assert forall|m: int| 0 <= m < after.len() implies #[trigger] after[m] == before[if m < k {
                m
            } else {
                m + 1
            }] by {}
            assert forall|m: int| 0 <= m < after.len() implies #[trigger] after[m].entity.index
                < self.next_entity by {
                assert(after[m] == old(self).spec_components()[if m < k { m } else { m + 1 }]);
            }
            assert forall|a: int, b: int| 0 <= a < b < after.len() implies #[trigger] after[a].entity
                != #[trigger] after[b].entity by {
                assert(after[a] == old(self).spec_components()[if a < k { a } else { a + 1 }]);
                assert(after[b] == old(self).spec_components()[if b < k { b } else { b + 1 }]);
            }
            assert(before[k].entity == entity);
            assert forall|s: ComponentSlot<C>| #[trigger] after.contains(s) implies (before.contains(s)
                && s.entity != entity) by {
                let m = choose|m: int| 0 <= m < after.len() && after[m] == s;
                let n = if m < k { m } else { m + 1 };
                assert(after[m] == before[n]);
                assert(n != k);
                assert(old(self).spec_components()[n].entity != old(self).spec_components()[k].entity);
            }
            assert forall|s: ComponentSlot<C>| before.contains(s) && s.entity != entity implies #[trigger] after.contains(
                s,
            ) by {
                let m = choose|m: int| 0 <= m < before.len() && before[m] == s;
                if m < k {
                    assert(after[m] == s);
                } else {
                    assert(m != k);
                    assert(after[m - 1] == s);
                }
            }
            assert(old(self).spec_contains(entity)) by {
                assert(old(self).spec_components()[k].entity == entity);
            }
            assert(self.spec_components() == old(self).spec_components().remove(k));
        }
        true
    }

    /// Inserts the resource. A new resource is stamped as added and changed at the
    /// current change tick; replacing one keeps its added tick and stamps it changed.
    pub fn insert_resource(&mut self, value: R)
        ensures
            final(self).spec_resource() is Some,
            final(self).spec_resource()->0.value == value,
            final(self).spec_resource()->0.ticks.changed == old(self).spec_change_tick(),
            old(self).spec_resource() is None ==> final(self).spec_resource()->0.ticks.added
                == old(self).spec_change_tick(),
            old(self).spec_resource() is Some ==> final(self).spec_resource()->0.ticks.added
                == old(self).spec_resource()->0.ticks.added,
            final(self).spec_next_entity() == old(self).spec_next_entity(),
            final(self).spec_components() == old(self).spec_components(),
            final(self).spec_removed() == old(self).spec_removed(),
            final(self).spec_systems() == old(self).spec_systems(),
            final(self).same_clock(old(self)),
    {
        let ticks = match &self.resource {
            Some(slot) => ComponentTicks { added: slot.ticks.added, changed: self.change_tick },
            None => ComponentTicks::new(self.change_tick),
        };
        self.resource = Some(ResourceSlot { value, ticks });
    }

    /// The reference ticks of code that runs outside any system: from the world's
    /// last change tick to its current change tick.
    pub fn world_ticks(&self) -> (r: SystemChangeTick)
        ensures
            r.last_run == self.spec_last_change_tick(),
            r.this_run == self.spec_change_tick(),
    {
        SystemChangeTick { last_run: self.last_change_tick, this_run: self.change_tick }
    }

    /// A read-only proxy over the resource for a run with `ticks`; `None` if no
    /// resource was inserted.
    pub fn resource_ref_for(&self, ticks: SystemChangeTick) -> (r: Option<Proxy<&Tick, &R>>)
        ensures
            r is Some <==> self.spec_resource() is Some,
            r is Some ==> {
                &&& *r->0.value == self.spec_resource()->0.value
                &&& *r->0.ticks.added == self.spec_resource()->0.ticks.added
                &&& *r->0.ticks.changed == self.spec_resource()->0.ticks.changed
                &&& r->0.ticks.last_run == ticks.last_run
                &&& r->0.ticks.this_run == ticks.this_run
            },
    {
        match &self.resource {
            Some(slot) => Some(
                Proxy::new(&slot.value, &slot.ticks.added, &slot.ticks.changed, ticks.last_run, ticks.this_run),
            ),
            None => None,
        }
    }

    /// A read-only proxy over the resource, seen from the world's last change tick
    /// to its current change tick; `None` if no resource was inserted.
    pub fn resource_ref(&self) -> (r: Option<Proxy<&Tick, &R>>)
        ensures
            r is Some <==> self.spec_resource() is Some,
            r is Some ==> {
                &&& *r->0.value == self.spec_resource()->0.value
                &&& *r->0.ticks.added == self.spec_resource()->0.ticks.added
                &&& *r->0.ticks.changed == self.spec_resource()->0.ticks.changed
                &&& r->0.ticks.last_run == self.spec_last_change_tick()
                &&& r->0.ticks.this_run == self.spec_change_tick()
            },
    {
        let ticks = self.world_ticks();
        self.resource_ref_for(ticks)
    }

    /// A read-write proxy over the resource, seen from the world's last change tick
    /// to its current change tick; `None` if no resource was inserted. What is
    /// written through the proxy lands in the world.
    pub fn resource_mut(&mut self) -> (r: Option<Proxy<&mut Tick, &mut R>>)
        ensures
            r is Some <==> old(self).spec_resource() is Some,
            r is Some ==> {
                &&& *r->0.value == old(self).spec_resource()->0.value
                &&& *r->0.ticks.added == old(self).spec_resource()->0.ticks.added
                &&& *r->0.ticks.changed == old(self).spec_resource()->0.ticks.changed
                &&& r->0.ticks.last_run == old(self).spec_last_change_tick()
                &&& r->0.ticks.this_run == old(self).spec_change_tick()
                &&& final(self).spec_resource() == Some(
                    (ResourceSlot {
                        value: *final(r->0.value),
                        ticks: ComponentTicks { added: *final(r->0.ticks.added), changed: *final(r->0.ticks.changed) },
                    }),
                )
            },
            r is None ==> final(self).spec_resource() == old(self).spec_resource(),
            final(self).spec_next_entity() == old(self).spec_next_entity(),
            final(self).spec_components() == old(self).spec_components(),
            final(self).spec_removed() == old(self).spec_removed(),
            final(self).spec_systems() == old(self).spec_systems(),
            final(self).same_clock(old(self)),
    {
        let ticks = self.world_ticks();
        self.resource_mut_for(ticks)
    }

    /// A read-write proxy over the resource for a run with `ticks`; `None` if no
    /// resource was inserted. What is written through the proxy lands in the world.
    pub fn resource_mut_for(&mut self, ticks: SystemChangeTick) -> (r: Option<Proxy<&mut Tick, &mut R>>)
        ensures
            r is Some <==> old(self).spec_resource() is Some,
            r is Some ==> {
                &&& *r->0.value == old(self).spec_resource()->0.value
                &&& *r->0.ticks.added == old(self).spec_resource()->0.ticks.added
                &&& *r->0.ticks.changed == old(self).spec_resource()->0.ticks.changed
                &&& r->0.ticks.last_run == ticks.last_run
                &&& r->0.ticks.this_run == ticks.this_run
                &&& final(self).spec_resource() == Some(
                    (ResourceSlot {
                        value: *final(r->0.value),
                        ticks: ComponentTicks { added: *final(r->0.ticks.added), changed: *final(r->0.ticks.changed) },
                    }),
                )
            },
            r is None ==> final(self).spec_resource() == old(self).spec_resource(),
            final(self).spec_next_entity() == old(self).spec_next_entity(),
            final(self).spec_components() == old(self).spec_components(),
            final(self).spec_removed() == old(self).spec_removed(),
            final(self).spec_systems() == old(self).spec_systems(),
            final(self).same_clock(old(self)),
    {
        match &mut self.resource {
            Some(slot) => Some(
                Proxy::new(&mut slot.value, &mut slot.ticks.added, &mut slot.ticks.changed, ticks.last_run, ticks.this_run),
            ),
            None => None,
        }
    }

    /// Registers a system. Its last-run tick starts [`MAX_CHANGE_AGE`] before the
    /// current change tick, so that its first run sees everything that is not
    /// older than that.
    pub fn register_system(&mut self) -> (r: SystemId)
        ensures
            r.index == old(self).spec_systems().len(),
            final(self).spec_systems().len() == old(self).spec_systems().len() + 1,
            final(self).spec_systems().drop_last() == old(self).spec_systems(),
            final(self).spec_systems().last()@ == wrapped_diff(old(self).spec_change_tick()@, MAX_CHANGE_AGE),
            final(self).spec_next_entity() == old(self).spec_next_entity(),
            final(self).spec_components() == old(self).spec_components(),
            final(self).spec_removed() == old(self).spec_removed(),
            final(self).spec_resource() == old(self).spec_resource(),
            final(self).same_clock(old(self)),
    {
        let last_run = self.change_tick.relative_to(Tick::max());
        let id = SystemId { index: self.systems.len() };
        self.systems.push(last_run);
        id
    }

    /// Starts a run of `system`: the change tick advances by one, and the run sees
    /// changes after the system's previous run up to the tick the world had. That
    /// tick becomes the system's last-run tick.
    pub fn run_system(&mut self, system: SystemId) -> (r: SystemChangeTick)
        requires
            system.index < old(self).spec_systems().len(),
        ensures
            r.last_run == old(self).spec_systems()[system.index as int],
            r.this_run == old(self).spec_change_tick(),
            final(self).spec_systems() == old(self).spec_systems().update(system.index as int, r.this_run),
            final(self).spec_change_tick()@ == wrapped_diff(old(self).spec_change_tick()@, u32::MAX),
            final(self).spec_last_change_tick() == old(self).spec_last_change_tick(),
            final(self).spec_last_check_tick() == old(self).spec_last_check_tick(),
            final(self).spec_next_entity() == old(self).spec_next_entity(),
            final(self).spec_components() == old(self).spec_components(),
            final(self).spec_removed() == old(self).spec_removed(),
            final(self).spec_resource() == old(self).spec_resource(),
    {
        let this_run = self.increment_change_tick();
        let last_run = self.systems[system.index];
        self.systems.set(system.index, this_run);
        SystemChangeTick { last_run, this_run }
    }

    /// A read-only proxy over the `i`-th live component, for a run with `ticks`.
    pub fn query_ref(&self, i: usize, ticks: SystemChangeTick) -> (r: Proxy<&Tick, &C>)
        requires
            i < self.spec_components().len(),
        ensures
            *r.value == self.spec_components()[i as int].value,
            *r.ticks.added == self.spec_components()[i as int].ticks.added,
            *r.ticks.changed == self.spec_components()[i as int].ticks.changed,
            r.ticks.last_run == ticks.last_run,
            r.ticks.this_run == ticks.this_run,
    {
        let slot = &self.components[i];
        Proxy::new(&slot.value, &slot.ticks.added, &slot.ticks.changed, ticks.last_run, ticks.this_run)
    }

    /// A read-write proxy over the `i`-th live component, for a run with `ticks`.
    /// What is written through the proxy lands in the world.
    pub fn query_mut(&mut self, i: usize, ticks: SystemChangeTick) -> (r: Proxy<&mut Tick, &mut C>)
        requires
            i < old(self).spec_components().len(),
        ensures
            *r.value == old(self).spec_components()[i as int].value,
            *r.ticks.added == old(self).spec_components()[i as int].ticks.added,
            *r.ticks.changed == old(self).spec_components()[i as int].ticks.changed,
            r.ticks.last_run == ticks.last_run,
            r.ticks.this_run == ticks.this_run,
            final(self).spec_components() == old(self).spec_components().update(
                i as int,
                (ComponentSlot {
                    entity: old(self).spec_components()[i as int].entity,
                    value: *final(r.value),
                    ticks: ComponentTicks { added: *final(r.ticks.added), changed: *final(r.ticks.changed) },
                }),
            ),
            final(self).spec_next_entity() == old(self).spec_next_entity(),
            final(self).spec_removed() == old(self).spec_removed(),
            final(self).spec_resource() == old(self).spec_resource(),
            final(self).spec_systems() == old(self).spec_systems(),
            final(self).same_clock(old(self)),
            old(self).wf() ==> final(self).wf(),
    {
        proof {
            if old(self).wf() {
                lemma_same_entities_keep_wf(old(self), i as int);
            }
        }
        let slot = &mut self.components[i];
        Proxy::new(&mut slot.value, &mut slot.ticks.added, &mut slot.ticks.changed, ticks.last_run, ticks.this_run)
    }

    /// The overflow scan. When at least [`CHECK_TICK_THRESHOLD`] ticks have passed
    /// since the last scan, clamps every tick the world stores (component ticks,
    /// resource ticks, system last-run ticks and the last change tick) so that none
    /// is older than [`MAX_CHANGE_AGE`], and returns `true`. Otherwise changes
    /// nothing and returns `false`.
    pub fn check_change_ticks(&mut self) -> (r: bool)
        ensures
            r == (wrapped_diff(old(self).spec_change_tick()@, old(self).spec_last_check_tick()@)
                >= CHECK_TICK_THRESHOLD),
            !r ==> *final(self) == *old(self),
            r ==> final(self).all_within_max_age(),
            r ==> final(self).spec_last_check_tick() == old(self).spec_change_tick(),
            r ==> final(self).spec_last_change_tick()@ == old(self).spec_last_change_tick().spec_clamped(
                old(self).spec_change_tick(),
            ),
            r ==> final(self).spec_components().len() == old(self).spec_components().len(),
            r ==> forall|i: int|
                0 <= i < old(self).spec_components().len() ==> {
                    &&& (#[trigger] final(self).spec_components()[i]).entity == old(self).spec_components()[i].entity
                    &&& final(self).spec_components()[i].value == old(self).spec_components()[i].value
                    &&& is_scanned(
                        old(self).spec_components()[i].ticks,
                        final(self).spec_components()[i].ticks,
                        old(self).spec_change_tick(),
                    )
                },
            r ==> (final(self).spec_resource() is Some <==> old(self).spec_resource() is Some),
            r && old(self).spec_resource() is Some ==> {
                &&& final(self).spec_resource()->0.value == old(self).spec_resource()->0.value
                &&& is_scanned(
                    old(self).spec_resource()->0.ticks,
                    final(self).spec_resource()->0.ticks,
                    old(self).spec_change_tick(),
                )
            },
            r ==> final(self).spec_systems().len() == old(self).spec_systems().len(),
            r ==> forall|i: int|
                0 <= i < old(self).spec_systems().len() ==> (#[trigger] final(self).spec_systems()[i])@
                    == old(self).spec_systems()[i].spec_clamped(old(self).spec_change_tick()),
            final(self).spec_change_tick() == old(self).spec_change_tick(),
            final(self).spec_next_entity() == old(self).spec_next_entity(),
            final(self).spec_removed() == old(self).spec_removed(),
            old(self).wf() ==> final(self).wf(),
    {
        let now = self.change_tick;
        if now.relative_to(self.last_check_tick).get() < CHECK_TICK_THRESHOLD {
            return false;
        }
        let mut i: usize = 0;
        while i < self.components.len()
            invariant
                0 <= i <= self.components.len(),
                self.components.len() == old(self).components.len(),
                now == old(self).change_tick,
                forall|j: int|
                    0 <= j < i ==> {
                        &&& (#[trigger] self.components@[j]).entity == old(self).components@[j].entity
                        &&& self.components@[j].value == old(self).components@[j].value
                        &&& is_scanned(old(self).components@[j].ticks, self.components@[j].ticks, now)
                        &&& within_max_age(self.components@[j].ticks.added, now)
                        &&& within_max_age(self.components@[j].ticks.changed, now)
                    },
                forall|j: int| i <= j < self.components.len() ==> #[trigger] self.components@[j] == old(self).components@[j],
                self.change_tick == old(self).change_tick,
                self.last_change_tick == old(self).last_change_tick,
                self.last_check_tick == old(self).last_check_tick,
                self.next_entity == old(self).next_entity,
                self.removed == old(self).removed,
                self.resource == old(self).resource,
                self.systems == old(self).systems,
            decreases self.components.len() - i,
        {
            self.components[i].ticks.check_ticks(now);
            i = i + 1;
        }
        match &mut self.resource {
            Some(slot) => {
                slot.ticks.check_ticks(now);
            },
            None => {},
        }
        let ghost scanned_components = self.components@;
        let ghost scanned_resource = self.resource;
        proof {
            if self.resource is Some {
                lemma_scan_converges(old(self).resource->0.ticks.added, now, self.resource->0.ticks.added);
                lemma_scan_converges(old(self).resource->0.ticks.changed, now, self.resource->0.ticks.changed);
            }
        }
        let mut k: usize = 0;
        while k < self.systems.len()
            invariant
                self.components@ == scanned_components,
                self.resource == scanned_resource,
                self.change_tick == old(self).change_tick,
                self.last_change_tick == old(self).last_change_tick,
                self.last_check_tick == old(self).last_check_tick,
                self.next_entity == old(self).next_entity,
                self.removed == old(self).removed,
                0 <= k <= self.systems.len(),
                self.systems.len() == old(self).systems.len(),
                now == old(self).change_tick,
                forall|j: int| 0 <= j < k ==> (#[trigger] self.systems@[j])@ == old(self).systems@[j].spec_clamped(now),
                forall|j: int| k <= j < self.systems.len() ==> #[trigger] self.systems@[j] == old(self).systems@[j],
            decreases self.systems.len() - k,
        {
            let mut t = self.systems[k];
            t.check_tick(now);
            self.systems.set(k, t);
            k = k + 1;
        }
        self.last_change_tick.check_tick(now);
        self.last_check_tick = now;
        proof {
            assert(self.components@ == scanned_components);
            assert forall|j: int| 0 <= j < self.systems@.len() implies within_max_age(
                #[trigger] self.systems@[j],
                now,
            ) by {
                lemma_scan_converges(old(self).systems@[j], now, self.systems@[j]);
            }
        }
        true
    }
}

} // verus!
