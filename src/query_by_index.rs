//! Query filtering by an index value. Each distinct indexed value has a routing
//! number; bit `i` of it says whether the entities holding that value carry the
//! `i`-th marker component. A lookup composes, per bit, a "with marker" or
//! "without marker" archetype filter, and so narrows a query down to the
//! archetypes of exactly one value.
use vstd::prelude::*;

use std::collections::HashMap;
use vstd::std_specs::hash::obeys_key_model;

use crate::indexing::{IndexBacking, Indexer};
use crate::world::Entity;

verus! {

/// A component type, by its id.
#[derive(Clone, Copy, Debug, PartialEq, Eq, Hash, Structural)]
pub struct ComponentId {
    pub id: usize,
}

/// Whether bit `i` of the routing number `route` is set.
pub open spec fn route_bit(route: u64, i: int) -> bool {
    (route >> (i as u64)) & 1u64 == 1u64
}

/// An element is in `s.push(x)` exactly when it is `x` or in `s`.
proof fn lemma_push_contains<T>(s: Seq<T>, x: T, a: T)
    ensures
        s.push(x).contains(a) <==> (s.contains(a) || a == x),
{
    if s.contains(a) {
        let j = choose|j: int| 0 <= j < s.len() && s[j] == a;
        assert(s.push(x)[j] == a);
    }
    if a == x {
        assert(s.push(x)[s.len() as int] == a);
    }
    if s.push(x).contains(a) {
        let j = choose|j: int| 0 <= j < s.push(x).len() && s.push(x)[j] == a;
        if j < s.len() {
            assert(s[j] == a);
        }
    }
}

/// An archetype filter that matches the archetypes holding the indexed component
/// and, as `with` says, holding or lacking `marker`. It lists the archetypes it
/// matched so far.
pub struct MarkerFilter {
    pub marker: ComponentId,
    pub with: bool,
    matched: Vec<usize>,
}

/// The routing number of each indexed value, and the marker component of each bit.
pub struct ValueRouting<K> {
    mapping: HashMap<K, u64>,
    markers: Vec<ComponentId>,
}

impl<K: Eq + std::hash::Hash> ValueRouting<K> {
    /// The routing number of each value.
    pub closed spec fn spec_mapping(&self) -> Map<K, u64> {
        self.mapping@
    }

    /// The marker component of each bit.
    pub closed spec fn spec_markers(&self) -> Seq<ComponentId> {
        self.markers@
    }

    /// Routing numbers fit in the bits that have markers.
    pub open spec fn wf(&self) -> bool {
        &&& obeys_key_model::<K>()
        &&& self.spec_markers().len() <= 64
    }

    /// Routing with the given marker components and no value yet.
    pub fn new(markers: Vec<ComponentId>) -> (r: Self)
        requires
            obeys_key_model::<K>(),
            markers@.len() <= 64,
        ensures
            r.wf(),
            r.spec_markers() == markers@,
            r.spec_mapping() == Map::<K, u64>::empty(),
    {
        ValueRouting { mapping: HashMap::new(), markers }
    }

    /// The marker components, one per bit.
    pub fn markers(&self) -> (r: &Vec<ComponentId>)
        ensures
            r@ == self.spec_markers(),
    {
        &self.markers
    }

    /// Records `route` as the routing number of `value`.
    pub fn insert(&mut self, value: K, route: u64)
        requires
            old(self).wf(),
        ensures
            final(self).wf(),
            final(self).spec_mapping() == old(self).spec_mapping().insert(value, route),
            final(self).spec_markers() == old(self).spec_markers(),
    {
        self.mapping.insert(value, route);
    }

    /// The routing number of `value`, if it has one.
    pub fn get(&self, value: &K) -> (r: Option<u64>)
        requires
            self.wf(),
        ensures
            r is Some <==> self.spec_mapping().contains_key(*value),
            r is Some ==> r->0 == self.spec_mapping()[*value],
    {
        match self.mapping.get(value) {
            Some(route) => Some(*route),
            None => None,
        }
    }
}

/// The cached state of a query by index value: the archetypes of the primary
/// query (those holding the indexed component), and for each marker bit a "with
/// marker" and a "without marker" filter.
pub struct QueryByIndexState {
    indexed: ComponentId,
    markers: Vec<ComponentId>,
    primary: Vec<usize>,
    with_states: Vec<MarkerFilter>,
    without_states: Vec<MarkerFilter>,
    archetypes: Ghost<Map<usize, Seq<ComponentId>>>,
}

impl QueryByIndexState {
    /// The indexed component.
    pub closed spec fn spec_indexed(&self) -> ComponentId {
        self.indexed
    }

    /// The marker component of each bit.
    pub closed spec fn spec_markers(&self) -> Seq<ComponentId> {
        self.markers@
    }

    /// The archetypes of the primary query.
    pub closed spec fn spec_primary(&self) -> Seq<usize> {
        self.primary@
    }

    /// The components of each registered archetype.
    pub closed spec fn spec_archetypes(&self) -> Map<usize, Seq<ComponentId>> {
        self.archetypes@
    }

    /// Whether the archetype `a` is registered and holds the indexed component.
    pub open spec fn in_primary(&self, a: usize) -> bool {
        self.spec_archetypes().contains_key(a) && self.spec_archetypes()[a].contains(self.spec_indexed())
    }

    /// Whether the archetype `a` is in the primary query and carries, for every
    /// marker bit, the marker exactly when that bit of `route` is set.
    pub open spec fn routes_to(&self, a: usize, route: u64) -> bool {
        &&& self.in_primary(a)
        &&& forall|i: int|
            0 <= i < self.spec_markers().len() ==> (self.spec_archetypes()[a].contains(
                #[trigger] self.spec_markers()[i],
            ) <==> route_bit(route, i))
    }

    /// Each cached filter matches exactly the registered archetypes it describes.
    pub closed spec fn wf(&self) -> bool {
        &&& self.markers@.len() <= 64
        &&& self.with_states@.len() == self.markers@.len()
        &&& self.without_states@.len() == self.markers@.len()
        &&& forall|a: usize| #[trigger] self.primary@.contains(a) <==> self.in_primary(a)
        &&& forall|i: int|
            0 <= i < self.markers@.len() ==> {
                &&& (#[trigger] self.with_states@[i]).marker == self.markers@[i]
                &&& self.with_states@[i].with
                &&& self.without_states@[i].marker == self.markers@[i]
                &&& !self.without_states@[i].with
            }
        &&& forall|i: int, a: usize|
            0 <= i < self.markers@.len() ==> (#[trigger] self.with_states@[i].matched@.contains(a) <==> (
            self.in_primary(a) && self.archetypes@[a].contains(self.markers@[i])))
        &&& forall|i: int, a: usize|
            0 <= i < self.markers@.len() ==> (#[trigger] self.without_states@[i].matched@.contains(a) <==> (
            self.in_primary(a) && !self.archetypes@[a].contains(self.markers@[i])))
    }

    /// The state for the indexed component `indexed` whose values are routed by
    /// `markers`: one "with marker" and one "without marker" filter per marker,
    /// and no archetype registered yet.
    pub fn init_state(indexed: ComponentId, markers: &Vec<ComponentId>) -> (r: Self)
        requires
            markers@.len() <= 64,
        ensures
            r.wf(),
            r.spec_indexed() == indexed,
            r.spec_markers() == markers@,
            r.spec_primary().len() == 0,
            r.spec_archetypes() == Map::<usize, Seq<ComponentId>>::empty(),
    {
        let mut with_states: Vec<MarkerFilter> = Vec::new();
        let mut without_states: Vec<MarkerFilter> = Vec::new();
        let mut i: usize = 0;
        while i < markers.len()
            invariant
                0 <= i <= markers@.len(),
                with_states@.len() == i,
                without_states@.len() == i,
                forall|j: int|
                    0 <= j < i ==> {
                        &&& (#[trigger] with_states@[j]).marker == markers@[j]
                        &&& with_states@[j].with
                        &&& with_states@[j].matched@.len() == 0
                        &&& without_states@[j].marker == markers@[j]
                        &&& !without_states@[j].with
                        &&& without_states@[j].matched@.len() == 0
                    },
            decreases markers@.len() - i,
        {
            with_states.push(MarkerFilter { marker: markers[i], with: true, matched: Vec::new() });
            without_states.push(MarkerFilter { marker: markers[i], with: false, matched: Vec::new() });
            i = i + 1;
        }
        let mut own_markers: Vec<ComponentId> = Vec::new();
        let mut k: usize = 0;
        while k < markers.len()
            invariant
                0 <= k <= markers@.len(),
                own_markers@ == markers@.take(k as int),
            decreases markers@.len() - k,
        {
            own_markers.push(markers[k]);
            proof {
                assert(markers@.take(k + 1) =~= markers@.take(k as int).push(markers@[k as int]));
            }
            k = k + 1;
        }
        proof {
            assert(markers@.take(markers@.len() as int) =~= markers@);
        }
        let r = QueryByIndexState {
            indexed,
            markers: own_markers,
            primary: Vec::new(),
            with_states,
            without_states,
            archetypes: Ghost(Map::empty()),
        };
        proof {
            assert forall|a: usize| #[trigger] r.primary@.contains(a) <==> r.in_primary(a) by {}
            assert forall|i: int, a: usize| 0 <= i < r.markers@.len() implies (
            #[trigger] r.with_states@[i].matched@.contains(a) <==> (r.in_primary(a)
                && r.archetypes@[a].contains(r.markers@[i]))) by {
                assert(r.with_states@[i].matched@.len() == 0);
            }
            assert forall|i: int, a: usize| 0 <= i < r.markers@.len() implies (
            #[trigger] r.without_states@[i].matched@.contains(a) <==> (r.in_primary(a)
                && !r.archetypes@[a].contains(r.markers@[i]))) by {
                assert(r.with_states@[i].matched@.len() == 0);
                assert(r.without_states@[i].matched@.len() == 0);
            }
        }
        r
    }

    /// Whether `components` holds `c`.
    fn holds(components: &Vec<ComponentId>, c: ComponentId) -> (r: bool)
        ensures
            r == components@.contains(c),
    {
        let mut i: usize = 0;
        while i < components.len()
            invariant
                0 <= i <= components@.len(),
                forall|j: int| 0 <= j < i ==> components@[j] != c,
            decreases components@.len() - i,
        {
            if components[i] == c {
                return true;
            }
            i = i + 1;
        }
        false
    }

    /// Registers a newly discovered archetype holding `components` with the primary
    /// query and with every cached marker filter, so that none lags behind.
    pub fn new_archetype(&mut self, archetype: usize, components: &Vec<ComponentId>)
        requires
            old(self).wf(),
            !old(self).spec_archetypes().contains_key(archetype),
        ensures
            final(self).wf(),
            final(self).spec_archetypes() == old(self).spec_archetypes().insert(archetype, components@),
            final(self).spec_indexed() == old(self).spec_indexed(),
            final(self).spec_markers() == old(self).spec_markers(),
    {
        let ghost old_arch = self.archetypes@;
        self.archetypes = Ghost(self.archetypes@.insert(archetype, components@));
        proof {
            assert forall|a: usize| a != archetype implies self.in_primary(a) == old(self).in_primary(a) by {}
        }
        if !Self::holds(components, self.indexed) {
            proof {
                assert(!self.in_primary(archetype));
                assert forall|a: usize| #[trigger] self.primary@.contains(a) <==> self.in_primary(a) by {
                    if a == archetype {
                        assert(!old(self).primary@.contains(a));
                    }
                }
                assert forall|i: int, a: usize| 0 <= i < self.markers@.len() implies (
                #[trigger] self.with_states@[i].matched@.contains(a) <==> (self.in_primary(a)
                    && self.archetypes@[a].contains(self.markers@[i]))) by {
                    if a == archetype {
                        assert(!old(self).in_primary(a));
                    }
                }
                assert forall|i: int, a: usize| 0 <= i < self.markers@.len() implies (
                #[trigger] self.without_states@[i].matched@.contains(a) <==> (self.in_primary(a)
                    && !self.archetypes@[a].contains(self.markers@[i]))) by {
                    if a == archetype {
                        assert(!old(self).in_primary(a));
                    }
                }
            }
            return;
        }
        self.primary.push(archetype);
        let n = self.markers.len();
        let mut i: usize = 0;
        while i < n
            invariant
                n == self.markers@.len(),
                0 <= i <= n,
                self.markers == old(self).markers,
                self.indexed == old(self).indexed,
                self.archetypes@ == old_arch.insert(archetype, components@),
                self.primary@ == old(self).primary@.push(archetype),
                self.with_states@.len() == n,
                self.without_states@.len() == n,
                old(self).with_states@.len() == n,
                old(self).without_states@.len() == n,
                components@.contains(self.indexed),
                forall|j: int|
                    0 <= j < n ==> {
                        &&& (#[trigger] self.with_states@[j]).marker == old(self).with_states@[j].marker
                        &&& self.with_states@[j].with == old(self).with_states@[j].with
                    },
                forall|j: int|
                    0 <= j < n ==> {
                        &&& (#[trigger] self.without_states@[j]).marker == old(self).without_states@[j].marker
                        &&& self.without_states@[j].with == old(self).without_states@[j].with
                    },
                forall|j: int|
                    0 <= j < i ==> (#[trigger] self.with_states@[j]).matched@ == (if components@.contains(
                        self.markers@[j],
                    ) {
                        old(self).with_states@[j].matched@.push(archetype)
                    } else {
                        old(self).with_states@[j].matched@
                    }),
                forall|j: int|
                    0 <= j < i ==> (#[trigger] self.without_states@[j]).matched@ == (if components@.contains(
                        self.markers@[j],
                    ) {
                        old(self).without_states@[j].matched@
                    } else {
                        old(self).without_states@[j].matched@.push(archetype)
                    }),
                forall|j: int| i <= j < n ==> (#[trigger] self.with_states@[j]).matched@ == old(self).with_states@[j].matched@,
                forall|j: int|
                    i <= j < n ==> (#[trigger] self.without_states@[j]).matched@ == old(self).without_states@[j].matched@,
            decreases n - i,
        {
            if Self::holds(components, self.markers[i]) {
                self.with_states[i].matched.push(archetype);
            } else {
                self.without_states[i].matched.push(archetype);
            }
            i = i + 1;
        }
        proof {
            assert forall|a: usize| #[trigger] self.primary@.contains(a) <==> self.in_primary(a) by {
                if a != archetype {
                    lemma_push_contains(old(self).primary@, archetype, a);
                } else {
                    assert(self.primary@[self.primary@.len() - 1] == a);
                }
            }
            assert forall|i: int, a: usize| 0 <= i < self.markers@.len() implies (
            #[trigger] self.with_states@[i].matched@.contains(a) <==> (self.in_primary(a)
                && self.archetypes@[a].contains(self.markers@[i]))) by {
                let m = old(self).with_states@[i].matched@;
                if a == archetype {
                    assert(!old(self).in_primary(a));
                    assert(!m.contains(a));
                    if components@.contains(self.markers@[i]) {
                        assert(m.push(archetype)[m.len() as int] == a);
                    }
                } else {
                    lemma_push_contains(m, archetype, a);
                }
            }
            assert forall|i: int, a: usize| 0 <= i < self.markers@.len() implies (
            #[trigger] self.without_states@[i].matched@.contains(a) <==> (self.in_primary(a)
                && !self.archetypes@[a].contains(self.markers@[i]))) by {
                let m = old(self).without_states@[i].matched@;
                if a == archetype {
                    assert(!old(self).in_primary(a));
                    assert(!m.contains(a));
                    if !components@.contains(self.markers@[i]) {
                        assert(m.push(archetype)[m.len() as int] == a);
                    }
                } else {
                    lemma_push_contains(m, archetype, a);
                }
            }
        }
    }

    /// The archetypes of the primary query, in registration order.
    pub fn primary_archetypes(&self) -> (r: &Vec<usize>)
        ensures
            r@ == self.spec_primary(),
    {
        &self.primary
    }

    /// The elements of `a` that `b` also holds, in the order of `a`.
    fn intersect(a: &Vec<usize>, b: &Vec<usize>) -> (r: Vec<usize>)
        ensures
            forall|x: usize| #[trigger] r@.contains(x) <==> (a@.contains(x) && b@.contains(x)),
    {
        let mut out: Vec<usize> = Vec::new();
        let mut i: usize = 0;
        while i < a.len()
            invariant
                0 <= i <= a@.len(),
                forall|x: usize| #[trigger] out@.contains(x) <==> (a@.take(i as int).contains(x) && b@.contains(x)),
            decreases a@.len() - i,
        {
            let x = a[i];
            let mut found = false;
            let mut j: usize = 0;
            while j < b.len()
                invariant
                    0 <= j <= b@.len(),
                    found <==> b@.take(j as int).contains(x),
                decreases b@.len() - j,
            {
                if b[j] == x {
                    found = true;
                }
                proof {
                    lemma_push_contains(b@.take(j as int), b@[j as int], x);
                    assert(b@.take(j + 1) =~= b@.take(j as int).push(b@[j as int]));
                }
                j = j + 1;
            }
            proof {
                assert(b@.take(b@.len() as int) =~= b@);
                assert(a@.take(i + 1) =~= a@.take(i as int).push(x));
            }
            let ghost before = out@;
            if found {
                out.push(x);
            }
            proof {
                assert forall|y: usize| #[trigger] out@.contains(y) <==> (a@.take(i + 1).contains(y) && b@.contains(y)) by {
                    lemma_push_contains(a@.take(i as int), x, y);
                    if found {
                        lemma_push_contains(before, x, y);
                    }
                }
            }
            i = i + 1;
        }
        proof {
            assert(a@.take(a@.len() as int) =~= a@);
        }
        out
    }

    /// The archetypes of the primary query whose markers spell `route`: for each
    /// marker bit, the "with marker" filter where the bit is set and the "without
    /// marker" filter where it is not narrow the primary query in turn.
    pub fn filtered(&self, route: u64) -> (r: Vec<usize>)
        requires
            self.wf(),
        ensures
            forall|a: usize| #[trigger] r@.contains(a) <==> self.routes_to(a, route),
    {
        let mut current = Self::intersect(&self.primary, &self.primary);
        let n = self.markers.len();
        let mut i: usize = 0;
        while i < n
            invariant
                self.wf(),
                n == self.markers@.len(),
                0 <= i <= n,
                forall|a: usize| #[trigger] current@.contains(a) <==> {
                    &&& self.in_primary(a)
                    &&& forall|j: int|
                        0 <= j < i ==> (self.archetypes@[a].contains(#[trigger] self.markers@[j]) <==> route_bit(
                            route,
                            j,
                        ))
                },
            decreases n - i,
        {
            let set = (route >> (i as u64)) & 1u64 == 1u64;
            let ghost before = current@;
            if set {
                current = Self::intersect(&current, &self.with_states[i].matched);
            } else {
                current = Self::intersect(&current, &self.without_states[i].matched);
            }
            proof {
                assert forall|a: usize| #[trigger] current@.contains(a) <==> {
                    &&& self.in_primary(a)
                    &&& forall|j: int|
                        0 <= j < i + 1 ==> (self.archetypes@[a].contains(#[trigger] self.markers@[j]) <==> route_bit(
                            route,
                            j,
                        ))
                } by {
                    assert(set == route_bit(route, i as int));
                    assert(self.with_states@[i as int].matched@.contains(a) <==> (self.in_primary(a)
                        && self.archetypes@[a].contains(self.markers@[i as int])));
                    assert(self.without_states@[i as int].matched@.contains(a) <==> (self.in_primary(a)
                        && !self.archetypes@[a].contains(self.markers@[i as int])));
                    if current@.contains(a) {
                        assert(before.contains(a));
                    }
                }
            }
            i = i + 1;
        }
        proof {
            assert(self.spec_markers() == self.markers@);
            assert(self.spec_archetypes() == self.archetypes@);
            assert forall|a: usize| #[trigger] current@.contains(a) <==> self.routes_to(a, route) by {
                if current@.contains(a) {
                    assert forall|j: int| 0 <= j < self.spec_markers().len() implies (self.spec_archetypes()[a].contains(
                        #[trigger] self.spec_markers()[j],
                    ) <==> route_bit(route, j)) by {
                        assert(self.archetypes@[a].contains(self.markers@[j]) <==> route_bit(route, j));
                    }
                }
                if self.routes_to(a, route) {
                    assert forall|j: int| 0 <= j < n implies (self.archetypes@[a].contains(
                        #[trigger] self.markers@[j],
                    ) <==> route_bit(route, j)) by {
                        assert(self.spec_archetypes()[a].contains(self.spec_markers()[j]) <==> route_bit(route, j));
                    }
                }
            }
        }
        current
    }
}

/// The result of a lookup by index value: the archetypes the narrowed query
/// visits, and the entities it yields.
pub struct QueryAt {
    pub archetypes: Vec<usize>,
    pub entities: Vec<Entity>,
}

/// A query narrowed by the value of an indexed component: the cached filter
/// state, the routing of keys to marker bits, and the value index that says which
/// entity holds which key.
pub struct QueryByIndex<'s, I: Indexer> {
    pub state: &'s QueryByIndexState,
    pub routing: &'s ValueRouting<I::Index>,
    pub index: &'s IndexBacking<I>,
}

impl<'s, I: Indexer> QueryByIndex<'s, I> {
    /// The query restricted to the entities whose indexed component has the key
    /// of `value`, as of the index's last refresh, together with the archetypes
    /// whose markers spell that key's routing number. A key the routing does not
    /// know gives a query that matches nothing.
    pub fn at(&self, value: &I::Input) -> (r: QueryAt)
        requires
            self.state.wf(),
            self.routing.wf(),
            self.index.wf(),
        ensures
            !self.routing.spec_mapping().contains_key(I::index_of(*value)) ==> r.archetypes@.len() == 0
                && r.entities@.len() == 0,
            self.routing.spec_mapping().contains_key(I::index_of(*value)) ==> {
                &&& forall|a: usize| #[trigger] r.archetypes@.contains(a)
                    <==> self.state.routes_to(a, self.routing.spec_mapping()[I::index_of(*value)])
                &&& r.entities@.no_duplicates()
                &&& forall|e: Entity| #[trigger] r.entities@.contains(e) <==> (self.index.spec_reverse().contains_key(
                    e.index,
                ) && self.index.spec_reverse()[e.index] == I::index_of(*value))
            },
    {
        let key = I::index(value);
        match self.routing.get(&key) {
            Some(route) => QueryAt { archetypes: self.state.filtered(route), entities: self.index.lookup(value) },
            None => QueryAt { archetypes: Vec::new(), entities: Vec::new() },
        }
    }
}

} // verus!
