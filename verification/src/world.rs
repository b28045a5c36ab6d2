use vstd::prelude::*;
use crate::components::{Position, Renderable, Viewshed, Name};

verus! {

/// The initial component set of a new entity; the whole set is attached
/// atomically when the entity is created.
#[derive(Clone, Debug)]
pub struct EntityBuilder {
    pub position: Option<Position>,
    pub renderable: Option<Renderable>,
    pub viewshed: Option<Viewshed>,
    pub player: bool,
    pub monster: bool,
    pub name: Option<Name>,
}

impl EntityBuilder {
    pub fn new() -> (b: EntityBuilder)
        ensures
            b.position is None,
            b.renderable is None,
            b.viewshed is None,
            !b.player,
            !b.monster,
            b.name is None,
    {
        EntityBuilder {
            position: None,
            renderable: None,
            viewshed: None,
            player: false,
            monster: false,
            name: None,
        }
    }

    pub fn with_position(self, p: Position) -> (b: EntityBuilder)
        ensures
            b == (EntityBuilder { position: Some(p), ..self }),
    {
        EntityBuilder { position: Some(p), ..self }
    }

    pub fn with_renderable(self, r: Renderable) -> (b: EntityBuilder)
        ensures
            b == (EntityBuilder { renderable: Some(r), ..self }),
    {
        EntityBuilder { renderable: Some(r), ..self }
    }

    pub fn with_viewshed(self, v: Viewshed) -> (b: EntityBuilder)
        ensures
            b == (EntityBuilder { viewshed: Some(v), ..self }),
    {
        EntityBuilder { viewshed: Some(v), ..self }
    }

    pub fn with_player(self) -> (b: EntityBuilder)
        ensures
            b == (EntityBuilder { player: true, ..self }),
    {
        EntityBuilder { player: true, ..self }
    }

    pub fn with_monster(self) -> (b: EntityBuilder)
        ensures
            b == (EntityBuilder { monster: true, ..self }),
    {
        EntityBuilder { monster: true, ..self }
    }

    pub fn with_name(self, n: Name) -> (b: EntityBuilder)
        ensures
            b == (EntityBuilder { name: Some(n), ..self }),
    {
        EntityBuilder { name: Some(n), ..self }
    }
}

/// The entity-component registry: one densely packed column per component
/// type, indexed by the entity identifier, with column membership standing
/// for "this entity has this component". Tag components (player, monster)
/// carry no data, so their columns are plain membership flags. Structural
/// changes raised mid-pass go to the pending queues and are applied at the
/// commit point by `maintain`.
pub struct World {
    pub positions: Vec<Option<Position>>,
    pub renderables: Vec<Option<Renderable>>,
    pub viewsheds: Vec<Option<Viewshed>>,
    pub players: Vec<bool>,
    pub monsters: Vec<bool>,
    pub names: Vec<Option<Name>>,
    pub pending_spawns: Vec<EntityBuilder>,
    pub pending_despawns: Vec<usize>,
}

impl World {
    pub open spec fn n_entities(self) -> nat {
        self.positions@.len()
    }

    /// All component columns cover exactly the same entity identifiers.
    pub open spec fn wf(self) -> bool {
        &&& self.renderables@.len() == self.n_entities()
        &&& self.viewsheds@.len() == self.n_entities()
        &&& self.players@.len() == self.n_entities()
        &&& self.monsters@.len() == self.n_entities()
        &&& self.names@.len() == self.n_entities()
    }

    /// Entity `e` holds exactly the components of builder `b`.
    pub open spec fn entity_is(self, e: int, b: EntityBuilder) -> bool {
        &&& self.positions@[e] == b.position
        &&& self.renderables@[e] == b.renderable
        &&& self.viewsheds@[e] == b.viewshed
        &&& self.players@[e] == b.player
        &&& self.monsters@[e] == b.monster
        &&& self.names@[e] == b.name
    }

    /// Entity `e` has the same components in both registry states.
    pub open spec fn entity_unchanged(self, other: World, e: int) -> bool {
        &&& self.positions@[e] == other.positions@[e]
        &&& self.renderables@[e] == other.renderables@[e]
        &&& self.viewsheds@[e] == other.viewsheds@[e]
        &&& self.players@[e] == other.players@[e]
        &&& self.monsters@[e] == other.monsters@[e]
        &&& self.names@[e] == other.names@[e]
    }

    /// Entity `e` has no components at all: it no longer exists.
    pub open spec fn entity_cleared(self, e: int) -> bool {
        &&& self.positions@[e] is None
        &&& self.renderables@[e] is None
        &&& self.viewsheds@[e] is None
        &&& !self.players@[e]
        &&& !self.monsters@[e]
        &&& self.names@[e] is None
    }

    pub fn new() -> (w: World)
        ensures
            w.wf(),
            w.n_entities() == 0,
            w.pending_spawns@.len() == 0,
            w.pending_despawns@.len() == 0,
    {
        World {
            positions: Vec::new(),
            renderables: Vec::new(),
            viewsheds: Vec::new(),
            players: Vec::new(),
            monsters: Vec::new(),
            names: Vec::new(),
            pending_spawns: Vec::new(),
            pending_despawns: Vec::new(),
        }
    }

    pub fn len(&self) -> (n: usize)
        ensures
            n == self.n_entities(),
    {
        self.positions.len()
    }

    /// Create an entity immediately, attaching the builder's component set
    /// atomically; returns the new entity's identifier.
    pub fn create_entity(&mut self, b: EntityBuilder) -> (id: usize)
        requires
            old(self).wf(),
            old(self).n_entities() < usize::MAX,
        ensures
            final(self).wf(),
            id == old(self).n_entities(),
            final(self).n_entities() == old(self).n_entities() + 1,
            final(self).entity_is(id as int, b),
            forall|e: int| 0 <= e < old(self).n_entities()
                ==> #[trigger] final(self).entity_unchanged(*old(self), e),
            final(self).pending_spawns@ == old(self).pending_spawns@,
            final(self).pending_despawns@ == old(self).pending_despawns@,
    {
        let id = self.positions.len();
        self.positions.push(b.position);
        self.renderables.push(b.renderable);
        self.viewsheds.push(b.viewshed);
        self.players.push(b.player);
        self.monsters.push(b.monster);
        self.names.push(b.name);
        id
    }

    /// Defer an entity creation to the commit point.
    pub fn queue_spawn(&mut self, b: EntityBuilder)
        ensures
            final(self).pending_spawns@ == old(self).pending_spawns@.push(b),
            final(self).pending_despawns@ == old(self).pending_despawns@,
            final(self).positions@ == old(self).positions@,
            final(self).renderables@ == old(self).renderables@,
            final(self).viewsheds@ == old(self).viewsheds@,
            final(self).players@ == old(self).players@,
            final(self).monsters@ == old(self).monsters@,
            final(self).names@ == old(self).names@,
    {
        self.pending_spawns.push(b);
    }

    /// Defer an entity removal to the commit point.
    pub fn queue_despawn(&mut self, e: usize)
        requires
            e < old(self).n_entities(),
        ensures
            final(self).pending_despawns@ == old(self).pending_despawns@.push(e),
            final(self).pending_spawns@ == old(self).pending_spawns@,
            final(self).positions@ == old(self).positions@,
            final(self).renderables@ == old(self).renderables@,
            final(self).viewsheds@ == old(self).viewsheds@,
            final(self).players@ == old(self).players@,
            final(self).monsters@ == old(self).monsters@,
            final(self).names@ == old(self).names@,
    {
        self.pending_despawns.push(e);
    }

    /// The commit point: apply the deferred structural changes, removals
    /// first, then creations in the order they were queued. A removal takes
    /// every component off its entity; the identifier is never reused.
    pub fn maintain(&mut self)
        requires
            old(self).wf(),
            old(self).n_entities() + old(self).pending_spawns@.len() < usize::MAX,
        ensures
            final(self).wf(),
            final(self).n_entities()
                == old(self).n_entities() + old(self).pending_spawns@.len(),
            forall|e: int|
                0 <= e < old(self).n_entities()
                    && old(self).pending_despawns@.contains(e as usize)
                    ==> #[trigger] final(self).entity_cleared(e),
            forall|e: int|
                0 <= e < old(self).n_entities()
                    && !old(self).pending_despawns@.contains(e as usize)
                    ==> #[trigger] final(self).entity_unchanged(*old(self), e),
            forall|k: int| 0 <= k < old(self).pending_spawns@.len()
                ==> #[trigger] final(self).entity_is(
                    old(self).n_entities() + k, old(self).pending_spawns@[k]),
            final(self).pending_spawns@.len() == 0,
            final(self).pending_despawns@.len() == 0,
    {
        let ghost w0 = *self;
        let mut i: usize = 0;
        while i < self.pending_despawns.len()
            invariant
                self.wf(),
                i <= self.pending_despawns@.len(),
                self.pending_despawns@ == w0.pending_despawns@,
                self.pending_spawns@ == w0.pending_spawns@,
                self.n_entities() == w0.n_entities(),
                w0.wf(),
                w0.n_entities() + w0.pending_spawns@.len() < usize::MAX,
                forall|e: int|
                    0 <= e < w0.n_entities()
                        && w0.pending_despawns@.take(i as int).contains(e as usize)
                        ==> #[trigger] self.entity_cleared(e),
                forall|e: int|
                    0 <= e < w0.n_entities()
                        && !w0.pending_despawns@.take(i as int).contains(e as usize)
                        ==> #[trigger] self.entity_unchanged(w0, e),
            decreases self.pending_despawns@.len() - i,
        {
            let ghost before = *self;
            let e = self.pending_despawns[i];
            if e < self.positions.len() {
                self.positions[e] = None;
                self.renderables[e] = None;
                self.viewsheds[e] = None;
                self.players[e] = false;
                self.monsters[e] = false;
                self.names[e] = None;
            }
            i += 1;
            proof {
                let taken = w0.pending_despawns@.take(i as int);
                let prev = w0.pending_despawns@.take(i as int - 1);
                assert(taken =~= prev.push(e));
                assert(taken[i as int - 1] == e);
                assert(taken.contains(e));
                assert forall|e2: int|
                    0 <= e2 < w0.n_entities() && taken.contains(e2 as usize)
                    implies #[trigger] self.entity_cleared(e2) by {
                    if e2 == e as int {
                        assert(self.entity_cleared(e2));
                    } else if prev.contains(e2 as usize) {
                        assert(before.entity_cleared(e2));
                        assert(self.entity_cleared(e2));
                    } else {
                        let k = choose|k: int| 0 <= k < taken.len()
                            && taken[k] == e2 as usize;
                        if k < taken.len() - 1 {
                            assert(prev[k] == e2 as usize);
                            assert(prev.contains(e2 as usize));
                        }
                        assert(taken[taken.len() - 1] == e);
                    }
                }
                assert forall|e2: int|
                    0 <= e2 < w0.n_entities() && !taken.contains(e2 as usize)
                    implies #[trigger] self.entity_unchanged(w0, e2) by {
                    if prev.contains(e2 as usize) {
                        assert(prev[choose|k: int| 0 <= k < prev.len()
                            && prev[k] == e2 as usize] == e2 as usize);
                        assert(taken.contains(e2 as usize));
                    }
                    assert(before.entity_unchanged(w0, e2));
                    assert(e2 != e as int);
                    assert(self.entity_unchanged(w0, e2));
                }
            }
        }
        proof {
            assert(w0.pending_despawns@.take(w0.pending_despawns@.len() as int)
                =~= w0.pending_despawns@);
        }
        let ghost w1 = *self;
        let ghost spawns0 = w0.pending_spawns@;
        let mut k: usize = 0;
        while self.pending_spawns.len() > 0
            invariant
                self.wf(),
                k + self.pending_spawns@.len() == spawns0.len(),
                spawns0 == w0.pending_spawns@,
                self.pending_spawns@ == spawns0.skip(k as int),
                self.pending_despawns@ == w1.pending_despawns@,
                w1.wf(),
                w1.n_entities() == w0.n_entities(),
                w0.n_entities() + spawns0.len() < usize::MAX,
                self.n_entities() == w1.n_entities() + k,
                forall|e: int| 0 <= e < w1.n_entities()
                    ==> #[trigger] self.entity_unchanged(w1, e),
                forall|j: int| 0 <= j < k
                    ==> #[trigger] self.entity_is(w1.n_entities() + j, spawns0[j]),
            decreases self.pending_spawns@.len(),
        {
            let ghost before = *self;
            proof {
                assert(spawns0.skip(k as int)[0] == spawns0[k as int]);
            }
            let b = self.pending_spawns.remove(0);
            self.positions.push(b.position);
            self.renderables.push(b.renderable);
            self.viewsheds.push(b.viewshed);
            self.players.push(b.player);
            self.monsters.push(b.monster);
            self.names.push(b.name);
            k += 1;
            proof {
                assert(self.pending_spawns@ =~= spawns0.skip(k as int));
                assert forall|e: int| 0 <= e < w1.n_entities()
                    implies #[trigger] self.entity_unchanged(w1, e) by {
                    assert(before.entity_unchanged(w1, e));
                }
                assert forall|j: int| 0 <= j < k
                    implies #[trigger] self.entity_is(w1.n_entities() + j, spawns0[j]) by {
                    if j < k - 1 {
                        assert(before.entity_is(w1.n_entities() + j, spawns0[j]));
                    }
                }
            }
        }
        let ghost w2 = *self;
        self.pending_despawns = Vec::new();
        proof {
            assert forall|e: int|
                0 <= e < w0.n_entities() && w0.pending_despawns@.contains(e as usize)
                implies #[trigger] self.entity_cleared(e) by {
                assert(w1.entity_cleared(e));
                assert(w2.entity_unchanged(w1, e));
            }
            assert forall|e: int|
                0 <= e < w0.n_entities() && !w0.pending_despawns@.contains(e as usize)
                implies #[trigger] self.entity_unchanged(w0, e) by {
                assert(w1.entity_unchanged(w0, e));
                assert(w2.entity_unchanged(w1, e));
            }
            assert forall|k2: int| 0 <= k2 < w0.pending_spawns@.len()
                implies #[trigger] self.entity_is(
                    w0.n_entities() + k2, w0.pending_spawns@[k2]) by {
                assert(w2.entity_is(w1.n_entities() + k2, spawns0[k2]));
            }
        }
    }
}

} // verus!
