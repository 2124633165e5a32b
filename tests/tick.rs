use ecs_change::tick::{ComponentTicks, Tick, CHECK_TICK_THRESHOLD, MAX_CHANGE_AGE};

#[test]
fn max_change_age_value() {
    assert_eq!(CHECK_TICK_THRESHOLD, 518_400_000);
    assert_eq!(MAX_CHANGE_AGE, 3_258_167_296);
    assert_eq!(Tick::max().get(), MAX_CHANGE_AGE);
}

#[test]
fn newer_than_across_wraparound() {
    // changed one tick before the counter wrapped, system last ran two ticks before
    let changed = Tick::new(u32::MAX);
    let last_run = Tick::new(u32::MAX - 1);
    let this_run = Tick::new(3);
    assert!(changed.is_newer_than(last_run, this_run));
    assert!(!last_run.is_newer_than(changed, this_run));
    assert_eq!(this_run.relative_to(changed).get(), 4);
}

#[test]
fn equal_ticks_are_not_newer() {
    let t = Tick::new(10);
    assert!(!t.is_newer_than(t, Tick::new(20)));
}

#[test]
fn check_tick_clamps_old_ticks() {
    let now = Tick::new(5);
    let mut old = Tick::new(10); // age u32::MAX - 4, far past the limit
    assert!(old.check_tick(now));
    assert_eq!(now.relative_to(old).get(), MAX_CHANGE_AGE);
    assert!(!old.check_tick(now));
    let mut young = Tick::new(4);
    assert!(!young.check_tick(now));
    assert_eq!(young.get(), 4);
}

#[test]
fn component_ticks_stamps() {
    let mut ticks = ComponentTicks::new(Tick::new(7));
    assert_eq!(ticks.added_tick().get(), 7);
    ticks.set_changed(Tick::new(9));
    assert_eq!(ticks.last_changed_tick().get(), 9);
    assert!(ticks.is_changed(Tick::new(8), Tick::new(10)));
    assert!(!ticks.is_added(Tick::new(8), Tick::new(10)));
    let mut t = Tick::new(1);
    t.set(2);
    assert_eq!(t.get(), 2);
}
