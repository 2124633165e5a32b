use ecs_change::change_detection::{DetectChanges, DetectChangesMut, Mut, MutUntyped, NonSendMut, Proxy, Ref, ResMut, Ticks};
use ecs_change::tick::{ComponentTicks, Tick, CHECK_TICK_THRESHOLD, MAX_CHANGE_AGE};
use ecs_change::world::{SystemChangeTick, World};

#[derive(PartialEq)]
struct C;

struct R;

#[derive(PartialEq)]
struct R2(u8);

#[test]
fn change_expiration() {
    let mut world: World<C, ()> = World::new();

    // component added: 1, changed: 1
    world.spawn(C);

    let change_detected_system = world.register_system();
    let change_expired_system = world.register_system();

    // world: 1, system last ran: 0, component changed: 1
    // The spawn is detected since it happened after the system "last ran".
    let ticks = world.run_system(change_detected_system);
    assert!(world.query_ref(0, ticks).is_changed());

    // world: 1 + MAX_CHANGE_AGE
    let change_tick = world.change_tick().get();
    world.set_change_tick(Tick::new(change_tick.wrapping_add(MAX_CHANGE_AGE)));

    // Both the system and the component appeared `MAX_CHANGE_AGE` ticks ago.
    let ticks = world.run_system(change_expired_system);
    assert!(!world.query_ref(0, ticks).is_changed());
}

#[test]
fn change_tick_wraparound() {
    let mut world: World<C, ()> = World::new();
    world.set_last_change_tick(Tick::new(u32::MAX));
    world.set_change_tick(Tick::new(0));

    // component added: 0, changed: 0
    world.spawn(C);

    world.increment_change_tick();

    // The world is always ahead, and changes never get older than `u32::MAX`, so the
    // wrapping difference stays positive and wraparound does not matter.
    let ticks = world.world_ticks();
    assert!(world.query_ref(0, ticks).is_changed());
}

#[test]
fn change_tick_scan() {
    let mut world: World<C, ()> = World::new();

    // component added: 1, changed: 1
    world.spawn(C);

    // a lot happens, and the component is now older than `MAX_CHANGE_AGE`
    let now = world.change_tick().get() + MAX_CHANGE_AGE + CHECK_TICK_THRESHOLD;
    world.set_change_tick(Tick::new(now));
    let change_tick = world.change_tick();

    let ticks = world.world_ticks();
    for i in 0..world.len() {
        let tracker = world.query_ref(i, ticks);
        let ticks_since_insert = change_tick.relative_to(*tracker.ticks.added).get();
        let ticks_since_change = change_tick.relative_to(*tracker.ticks.changed).get();
        assert!(ticks_since_insert > MAX_CHANGE_AGE);
        assert!(ticks_since_change > MAX_CHANGE_AGE);
    }

    // scan change ticks and clamp those at risk of overflow
    assert!(world.check_change_ticks());

    for i in 0..world.len() {
        let tracker = world.query_ref(i, ticks);
        let ticks_since_insert = change_tick.relative_to(*tracker.ticks.added).get();
        let ticks_since_change = change_tick.relative_to(*tracker.ticks.changed).get();
        assert!(ticks_since_insert == MAX_CHANGE_AGE);
        assert!(ticks_since_change == MAX_CHANGE_AGE);
    }
}

#[test]
fn change_tick_scan_twice_is_noop() {
    let mut world: World<C, ()> = World::new();
    world.spawn(C);
    world.set_change_tick(Tick::new(1 + MAX_CHANGE_AGE + CHECK_TICK_THRESHOLD));
    assert!(world.check_change_ticks());
    let ticks = world.world_ticks();
    let added = world.query_ref(0, ticks).ticks.added.get();
    assert!(!world.check_change_ticks());
    assert_eq!(world.query_ref(0, ticks).ticks.added.get(), added);
}

#[test]
fn mut_from_res_mut() {
    let mut component_ticks = ComponentTicks { added: Tick::new(1), changed: Tick::new(2) };
    let ticks = Ticks {
        added: &mut component_ticks.added,
        changed: &mut component_ticks.changed,
        last_run: Tick::new(3),
        this_run: Tick::new(4),
    };
    let mut res = R {};
    let res_mut: ResMut<R> = Proxy { value: &mut res, ticks };

    let into_mut: Mut<R> = res_mut;
    assert_eq!(1, into_mut.ticks.added.get());
    assert_eq!(2, into_mut.ticks.changed.get());
    assert_eq!(3, into_mut.ticks.last_run.get());
    assert_eq!(4, into_mut.ticks.this_run.get());
}

#[test]
fn mut_new() {
    let mut component_ticks = ComponentTicks { added: Tick::new(1), changed: Tick::new(3) };
    let mut res = R {};

    let val = Mut::new(
        &mut res,
        &mut component_ticks.added,
        &mut component_ticks.changed,
        Tick::new(2), // last_run
        Tick::new(4), // this_run
    );

    assert!(!val.is_added());
    assert!(val.is_changed());
}

#[test]
fn mut_from_non_send_mut() {
    let mut component_ticks = ComponentTicks { added: Tick::new(1), changed: Tick::new(2) };
    let ticks = Ticks {
        added: &mut component_ticks.added,
        changed: &mut component_ticks.changed,
        last_run: Tick::new(3),
        this_run: Tick::new(4),
    };
    let mut res = R {};
    let non_send_mut = NonSendMut(Proxy { value: &mut res, ticks });

    let into_mut: Mut<R> = non_send_mut.into();
    assert_eq!(1, into_mut.ticks.added.get());
    assert_eq!(2, into_mut.ticks.changed.get());
    assert_eq!(3, into_mut.ticks.last_run.get());
    assert_eq!(4, into_mut.ticks.this_run.get());
}

#[test]
fn map_mut() {
    struct Outer(i64);

    let last_run = Tick::new(2);
    let this_run = Tick::new(3);
    let mut component_ticks = ComponentTicks { added: Tick::new(1), changed: Tick::new(2) };
    let ticks = Ticks {
        added: &mut component_ticks.added,
        changed: &mut component_ticks.changed,
        last_run,
        this_run,
    };

    let mut outer = Outer(0);
    let ptr = Mut { value: &mut outer, ticks };
    assert!(!ptr.is_changed());

    // Perform a mapping operation.
    let mut inner = ptr.map_unchanged(|x| &mut x.0);
    assert!(!inner.is_changed());

    // Mutate the inner value.
    *inner = 64;
    assert!(inner.is_changed());
    // Modifying one field of a component flags a change for the entire component.
    assert!(component_ticks.is_changed(last_run, this_run));
    assert_eq!(outer.0, 64);
}

#[test]
fn set_if_neq() {
    let mut world: World<(), R2> = World::new();

    world.insert_resource(R2(0));
    // Resources are changed when first added
    world.increment_change_tick();
    // This is required to update the world's last change tick
    world.clear_trackers();

    let mut r = world.resource_mut().unwrap();
    assert!(!r.is_changed(), "Resource must begin unchanged.");

    r.set_if_neq(R2(0));
    assert!(!r.is_changed(), "Resource must not be changed after setting to the same value.");

    r.set_if_neq(R2(3));
    assert!(r.is_changed(), "Resource must be changed after setting to a different value.");
}

#[test]
fn replace_if_neq_returns_previous() {
    let mut component_ticks = ComponentTicks { added: Tick::new(1), changed: Tick::new(1) };
    let mut value: u32 = 5;
    let mut proxy = Mut::new(&mut value, &mut component_ticks.added, &mut component_ticks.changed, Tick::new(1), Tick::new(2));
    assert_eq!(proxy.replace_if_neq(5), None);
    assert!(!proxy.is_changed());
    assert_eq!(proxy.replace_if_neq(7), Some(5));
    assert!(proxy.is_changed());
    assert_eq!(value, 7);
    assert_eq!(component_ticks.changed.get(), 2);
}

#[test]
fn bypass_change_detection_does_not_stamp() {
    let mut component_ticks = ComponentTicks { added: Tick::new(1), changed: Tick::new(1) };
    let mut value: u32 = 5;
    let mut proxy = Mut::new(&mut value, &mut component_ticks.added, &mut component_ticks.changed, Tick::new(1), Tick::new(2));
    *proxy.bypass_change_detection() = 9;
    assert!(!proxy.is_changed());
    proxy.set_last_changed(Tick::new(7));
    assert_eq!(proxy.last_changed().get(), 7);
    assert_eq!(value, 9);
}

#[test]
fn into_inner_stamps_change() {
    let mut component_ticks = ComponentTicks { added: Tick::new(1), changed: Tick::new(1) };
    let mut value: u32 = 5;
    let proxy = Mut::new(&mut value, &mut component_ticks.added, &mut component_ticks.changed, Tick::new(1), Tick::new(2));
    *proxy.into_inner() = 6;
    assert_eq!(value, 6);
    assert_eq!(component_ticks.changed.get(), 2);
}

#[test]
fn ref_reads_through_trait() {
    let ticks = ComponentTicks { added: Tick::new(3), changed: Tick::new(4) };
    let value: u32 = 11;
    let r: Ref<u32> = Proxy::new(&value, &ticks.added, &ticks.changed, Tick::new(3), Tick::new(5));
    assert!(!DetectChanges::is_added(&r));
    assert!(DetectChanges::is_changed(&r));
    assert_eq!(DetectChanges::last_changed(&r).get(), 4);
    assert_eq!(*r, 11);
    assert_eq!(*r.into_inner(), 11);
}

#[test]
fn trait_set_changed_on_mut() {
    let mut component_ticks = ComponentTicks { added: Tick::new(1), changed: Tick::new(1) };
    let mut value: u32 = 5;
    let mut proxy = Mut::new(&mut value, &mut component_ticks.added, &mut component_ticks.changed, Tick::new(1), Tick::new(2));
    DetectChangesMut::set_changed(&mut proxy);
    assert!(proxy.is_changed());
}

#[test]
fn fresh_component_is_added_then_not() {
    let mut world: World<C, ()> = World::new();
    let system = world.register_system();
    world.spawn(C);
    let ticks = world.run_system(system);
    assert!(world.query_ref(0, ticks).is_added());
    assert!(world.query_ref(0, ticks).is_changed());
    let ticks = world.run_system(system);
    assert!(!world.query_ref(0, ticks).is_added());
    assert!(!world.query_ref(0, ticks).is_changed());
    let writer = world.register_system();
    let wt = world.run_system(writer);
    world.query_mut(0, wt).set_changed();
    let ticks = world.run_system(system);
    assert!(!world.query_ref(0, ticks).is_added());
    assert!(world.query_ref(0, ticks).is_changed());
}

#[derive(PartialEq, Debug)]
struct Score(u32);

#[test]
fn score_resource_changed_scenario() {
    let mut world: World<(), Score> = World::new();
    world.insert_resource(Score(0));
    let resource_changed = world.register_system();
    let reset_score = world.register_system();

    // first update: the insertion counts as a change
    let t = world.run_system(reset_score);
    world.resource_mut_for(t).unwrap().set_if_neq(Score(0));
    let t = world.run_system(resource_changed);
    assert!(world.resource_ref_for(t).unwrap().is_changed());

    // again, without mutation
    let t = world.run_system(resource_changed);
    assert!(!world.resource_ref_for(t).unwrap().is_changed());

    // writing the same value is no change
    let t = world.run_system(reset_score);
    world.resource_mut_for(t).unwrap().set_if_neq(Score(0));
    let t = world.run_system(resource_changed);
    assert!(!world.resource_ref_for(t).unwrap().is_changed());

    // writing another value is a change
    let t = world.run_system(reset_score);
    world.resource_mut_for(t).unwrap().set_if_neq(Score(3));
    let t = world.run_system(resource_changed);
    assert!(world.resource_ref_for(t).unwrap().is_changed());
    assert_eq!(*world.resource_ref().unwrap().value, Score(3));
}

#[test]
fn despawn_records_removal() {
    let mut world: World<u8, ()> = World::new();
    let a = world.spawn(1);
    let b = world.spawn(2);
    assert!(world.despawn(a));
    assert!(!world.despawn(a));
    assert_eq!(world.len(), 1);
    assert_eq!(world.entity_at(0), b);
    assert_eq!(world.removed().len(), 1);
    assert_eq!(world.removed()[0], a);
}

#[test]
fn world_ticks_follow_clear_trackers() {
    let mut world: World<u8, ()> = World::new();
    world.clear_trackers();
    let t: SystemChangeTick = world.world_ticks();
    assert_eq!(t.last_run().get(), 1);
    assert_eq!(t.this_run().get(), 2);
}

#[test]
fn downgrade_mut_to_ref() {
    let mut component_ticks = ComponentTicks { added: Tick::new(1), changed: Tick::new(1) };
    let mut value: u32 = 5;
    let mut proxy = Mut::new(&mut value, &mut component_ticks.added, &mut component_ticks.changed, Tick::new(1), Tick::new(2));
    *proxy.as_mut() = 8;
    let read: Ref<u32> = proxy.into();
    assert!(read.is_changed());
    assert_eq!(*read.value, 8);
}

#[test]
fn reborrow_writes_through() {
    let mut component_ticks = ComponentTicks { added: Tick::new(1), changed: Tick::new(1) };
    let mut value: u32 = 5;
    let mut proxy = Mut::new(&mut value, &mut component_ticks.added, &mut component_ticks.changed, Tick::new(1), Tick::new(2));
    {
        let mut inner = proxy.reborrow();
        inner.set_if_neq(6);
    }
    assert!(proxy.is_changed());
    assert_eq!(*proxy.as_ref(), 6);
}

#[test]
fn mut_untyped_stamps_on_into_inner() {
    let mut component_ticks = ComponentTicks { added: Tick::new(1), changed: Tick::new(2) };
    let mut value: i32 = 5;
    let mut untyped: MutUntyped = Proxy::new(
        bevy_ptr::PtrMut::from(&mut value),
        &mut component_ticks.added,
        &mut component_ticks.changed,
        Tick::new(2),
        Tick::new(3),
    );
    assert!(!untyped.is_changed());
    untyped.set_last_changed(Tick::new(1));
    assert_eq!(untyped.last_changed().get(), 1);
    untyped.set_changed();
    assert!(untyped.is_changed());
    untyped.set_last_changed(Tick::new(2));
    let _ptr = untyped.into_inner();
    assert_eq!(component_ticks.changed.get(), 3);
}

#[test]
fn trait_set_if_neq_and_replace_if_neq() {
    let mut component_ticks = ComponentTicks { added: Tick::new(1), changed: Tick::new(1) };
    let mut value: u32 = 5;
    let mut proxy = Mut::new(&mut value, &mut component_ticks.added, &mut component_ticks.changed, Tick::new(1), Tick::new(2));
    DetectChangesMut::set_if_neq(&mut proxy, 5);
    assert!(!proxy.is_changed());
    assert_eq!(DetectChangesMut::replace_if_neq(&mut proxy, 5), None);
    assert!(!proxy.is_changed());
    assert_eq!(DetectChangesMut::replace_if_neq(&mut proxy, 6), Some(5));
    assert!(proxy.is_changed());
    DetectChangesMut::set_last_changed(&mut proxy, Tick::new(1));
    DetectChangesMut::set_if_neq(&mut proxy, 7);
    assert!(proxy.is_changed());
    assert_eq!(value, 7);
}

#[test]
fn ticks_downgrade_keeps_values() {
    let mut component_ticks = ComponentTicks { added: Tick::new(1), changed: Tick::new(2) };
    let ticks = Ticks {
        added: &mut component_ticks.added,
        changed: &mut component_ticks.changed,
        last_run: Tick::new(3),
        this_run: Tick::new(4),
    };
    let read: Ticks<&Tick> = ticks.into();
    assert_eq!(read.added.get(), 1);
    assert_eq!(read.changed.get(), 2);
    assert_eq!(read.last_run.get(), 3);
    assert_eq!(read.this_run.get(), 4);
}

#[test]
fn non_send_mut_derefs_to_mut() {
    let mut component_ticks = ComponentTicks { added: Tick::new(1), changed: Tick::new(1) };
    let mut value: u32 = 1;
    let mut proxy = NonSendMut(Mut::new(&mut value, &mut component_ticks.added, &mut component_ticks.changed, Tick::new(1), Tick::new(2)));
    assert!(!proxy.is_changed());
    proxy.set_if_neq(2);
    assert!(proxy.is_changed());
    assert_eq!(value, 2);
}

#[test]
fn deref_mut_stamps_changed_tick() {
    let mut component_ticks = ComponentTicks { added: Tick::new(1), changed: Tick::new(1) };
    let mut value: u32 = 5;
    let mut proxy = Mut::new(&mut value, &mut component_ticks.added, &mut component_ticks.changed, Tick::new(1), Tick::new(4));
    *proxy = 6;
    assert!(proxy.is_changed());
    assert_eq!(value, 6);
    assert_eq!(component_ticks.changed.get(), 4);
    assert_eq!(component_ticks.added.get(), 1);
}
