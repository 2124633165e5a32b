use ecs_change::indexing::{IndexBacking, SimpleIndexer};
use ecs_change::query_by_index::{ComponentId, QueryByIndex, QueryByIndexState, ValueRouting};
use ecs_change::world::World;

#[derive(Clone, Copy, PartialEq, Eq, Hash, Debug)]
struct Player(u8);

fn ids(v: &[usize]) -> Vec<ComponentId> {
    v.iter().map(|&id| ComponentId { id }).collect()
}

#[test]
fn at_routes_to_one_archetype_per_value() {
    let indexed = ComponentId { id: 1 };
    let markers = ids(&[10, 11]);
    let mut routing: ValueRouting<Player> = ValueRouting::new(markers.clone());
    routing.insert(Player(0), 0);
    routing.insert(Player(1), 1);
    routing.insert(Player(2), 2);
    routing.insert(Player(3), 3);
    let mut state = QueryByIndexState::init_state(indexed, &markers);
    state.new_archetype(0, &ids(&[1]));
    state.new_archetype(1, &ids(&[1, 10]));
    state.new_archetype(2, &ids(&[1, 11]));
    state.new_archetype(3, &ids(&[1, 10, 11, 5]));
    state.new_archetype(4, &ids(&[10, 11]));
    assert_eq!(state.primary_archetypes(), &vec![0, 1, 2, 3]);
    let index: IndexBacking<SimpleIndexer<Player>> = IndexBacking::new();
    let query = QueryByIndex { state: &state, routing: &routing, index: &index };
    assert_eq!(query.at(&Player(0)).archetypes, vec![0]);
    assert_eq!(query.at(&Player(1)).archetypes, vec![1]);
    assert_eq!(query.at(&Player(2)).archetypes, vec![2]);
    assert_eq!(query.at(&Player(3)).archetypes, vec![3]);
}

#[test]
fn at_unknown_value_matches_nothing() {
    let markers = ids(&[10]);
    let routing: ValueRouting<Player> = ValueRouting::new(markers.clone());
    let mut state = QueryByIndexState::init_state(ComponentId { id: 1 }, &markers);
    state.new_archetype(7, &ids(&[1]));
    let mut world: World<Player, ()> = World::new();
    world.spawn(Player(9));
    let system = world.register_system();
    let ticks = world.run_system(system);
    let mut index: IndexBacking<SimpleIndexer<Player>> = IndexBacking::new();
    index.update_index(&world, ticks);
    let query = QueryByIndex { state: &state, routing: &routing, index: &index };
    let found = query.at(&Player(9));
    assert!(found.archetypes.is_empty());
    assert!(found.entities.is_empty());
    assert_eq!(routing.get(&Player(9)), None);
}

#[test]
fn archetypes_registered_later_are_covered() {
    let markers = ids(&[20]);
    let mut routing: ValueRouting<Player> = ValueRouting::new(markers.clone());
    routing.insert(Player(5), 1);
    let mut state = QueryByIndexState::init_state(ComponentId { id: 2 }, &markers);
    let index: IndexBacking<SimpleIndexer<Player>> = IndexBacking::new();
    let before = QueryByIndex { state: &state, routing: &routing, index: &index }.at(&Player(5));
    assert!(before.archetypes.is_empty());
    state.new_archetype(3, &ids(&[2, 20]));
    assert_eq!(QueryByIndex { state: &state, routing: &routing, index: &index }.at(&Player(5)).archetypes, vec![3]);
    assert_eq!(state.filtered(0), Vec::<usize>::new());
    assert_eq!(routing.markers().len(), 1);
}

#[test]
fn at_counts_players_per_value() {
    let mut world: World<Player, ()> = World::new();
    let mut index: IndexBacking<SimpleIndexer<Player>> = IndexBacking::new();
    let markers = ids(&[100, 101, 102]);
    let mut routing: ValueRouting<Player> = ValueRouting::new(markers.clone());
    for i in 0..6u8 {
        routing.insert(Player(i), i as u64);
        for _ in 0..(i + 1) {
            world.spawn(Player(i));
        }
    }
    let system = world.register_system();
    let ticks = world.run_system(system);
    index.update_index(&world, ticks);
    let state = QueryByIndexState::init_state(ComponentId { id: 1 }, &markers);
    let query = QueryByIndex { state: &state, routing: &routing, index: &index };
    let counts: Vec<usize> = (0..6u8).map(|i| query.at(&Player(i)).entities.len()).collect();
    assert_eq!(counts, vec![1, 2, 3, 4, 5, 6]);
}
