use ecs_change::indexing::{IndexBacking, SimpleIndexer};
use ecs_change::world::{Entity, World};

#[derive(Clone, Copy, PartialEq, Eq, Hash, Debug)]
struct Player(u8);

#[test]
fn index_counts_players() {
    let mut world: World<Player, ()> = World::new();
    let mut index: IndexBacking<SimpleIndexer<Player>> = IndexBacking::new();
    for i in 0..6u8 {
        for _ in 0..(i + 1) {
            world.spawn(Player(i));
        }
    }
    let system = world.register_system();
    let ticks = world.run_system(system);
    for i in 0..6u8 {
        assert_eq!(index.get(&world, ticks, &Player(i)).len(), i as usize + 1);
    }
    assert_eq!(index.get(&world, ticks, &Player(9)).len(), 0);
}

#[test]
fn index_follows_changes_and_removals() {
    let mut world: World<Player, ()> = World::new();
    let mut index: IndexBacking<SimpleIndexer<Player>> = IndexBacking::new();
    let a = world.spawn(Player(1));
    let b = world.spawn(Player(1));
    let system = world.register_system();
    let ticks = world.run_system(system);
    assert_eq!(index.get(&world, ticks, &Player(1)).len(), 2);

    // move `a` from key 1 to key 2
    let writer = world.register_system();
    let wt = world.run_system(writer);
    world.query_mut(0, wt).set_if_neq(Player(2));
    let ticks = world.run_system(system);
    assert_eq!(index.get(&world, ticks, &Player(1)), vec![b]);
    assert_eq!(index.get(&world, ticks, &Player(2)), vec![a]);

    // removing the last entity of a bucket empties the lookup
    assert!(world.despawn(a));
    let ticks = world.run_system(system);
    assert_eq!(index.get(&world, ticks, &Player(2)).len(), 0);
    assert_eq!(index.get(&world, ticks, &Player(1)), vec![b]);
}

#[test]
fn index_refresh_is_idempotent_within_a_run() {
    let mut world: World<Player, ()> = World::new();
    let mut index: IndexBacking<SimpleIndexer<Player>> = IndexBacking::new();
    world.spawn(Player(4));
    let system = world.register_system();
    let ticks = world.run_system(system);
    index.update_index(&world, ticks);
    // a spawn after the refresh is not seen again in the same run
    world.spawn(Player(4));
    index.ensure_updated(&world, ticks);
    assert_eq!(index.get(&world, ticks, &Player(4)).len(), 1);
    let ticks = world.run_system(system);
    assert_eq!(index.get(&world, ticks, &Player(4)).len(), 2);
}

#[test]
fn index_iter_lists_each_bucket_once() {
    let mut world: World<Player, ()> = World::new();
    let mut index: IndexBacking<SimpleIndexer<Player>> = IndexBacking::new();
    world.spawn(Player(1));
    world.spawn(Player(2));
    world.spawn(Player(1));
    let system = world.register_system();
    let ticks = world.run_system(system);
    let entries = index.iter(&world, ticks);
    let mut counts: Vec<(u8, usize)> = entries.iter().map(|(k, b)| (k.0, b.len())).collect();
    counts.sort();
    assert_eq!(counts, vec![(1, 2), (2, 1)]);
}

#[test]
fn update_returns_previous_key_and_prunes() {
    let mut index: IndexBacking<SimpleIndexer<Player>> = IndexBacking::new();
    let e = Entity::from_raw(3);
    assert_eq!(index.update(e, Some(&Player(1))), None);
    assert_eq!(index.update(e, Some(&Player(2))), Some(Player(1)));
    assert!(index.lookup(&Player(1)).is_empty());
    assert_eq!(index.lookup(&Player(2)), vec![e]);
    assert_eq!(index.update(e, None), Some(Player(2)));
    assert!(index.lookup(&Player(2)).is_empty());
}
