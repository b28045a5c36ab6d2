use vstd::prelude::*;
use vstd::string::StringExecFns;
use crate::components::{Color, Name, Position, Renderable, Viewshed};
use crate::map::{GameMap, MapGenError, rooms_no_overlap};
use crate::map::valid_xy;
use crate::monster_ai_system::{MonsterAI, sees_player};
use crate::player::{Action, action_delta, move_effect, player_input};
use crate::rng::{rng_roll_dice, rng_seeded};
use crate::visibility_system::{FovSource, VisiblitySystem, at_most_one_player,
    coord_hits, has_player, needs_recompute, player_index, recomputed};
use crate::world::{EntityBuilder, World};

verus! {

/// The scheduler's two phases: while paused, exactly one input is consumed
/// per frame; while running, exactly one full simulation pass executes
/// before control returns to paused.
#[derive(Clone, Copy, PartialEq, Eq, Structural, Debug)]
pub enum RunState {
    Paused,
    Running,
}

/// The phase after one frame: a recognized input wakes the simulation, no
/// input keeps waiting, and a running frame always ends paused.
pub open spec fn sched_next(rs: RunState, input: Action) -> RunState {
    match rs {
        RunState::Paused => if input is NoInput {
            RunState::Paused
        } else {
            RunState::Running
        },
        RunState::Running => RunState::Paused,
    }
}

/// Turn alternation: whatever the phase and whatever two inputs arrive, no
/// two consecutive frames both run the simulation — the world never reacts
/// twice to one player action.
pub proof fn lemma_turn_alternation(rs: RunState, first: Action, second: Action)
    ensures
        !(sched_next(rs, first) is Running && sched_next(sched_next(rs, first), second) is Running),
{
}

/// The whole game state: the entity registry, the map and player-position
/// singletons, and the scheduler phase.
pub struct State {
    pub ecs: World,
    pub map: GameMap,
    pub player_pos: Position,
    pub runstate: RunState,
}

impl State {
    /// The scheduler's cross-frame invariant: registry and map are well
    /// formed, at most one entity is the player and none is queued to
    /// become one, and the published player-position singleton agrees with
    /// the player entity's position component and lies inside the map.
    pub open spec fn wf(self) -> bool {
        &&& self.ecs.wf()
        &&& self.map.wf()
        &&& at_most_one_player(self.ecs)
        &&& self.ecs.n_entities() + self.ecs.pending_spawns@.len() < usize::MAX
        &&& forall|k: int| 0 <= k < self.ecs.pending_spawns@.len()
                ==> !(#[trigger] self.ecs.pending_spawns@[k]).player
        &&& valid_xy(self.map.width as int, self.map.height as int,
                self.player_pos.x as int, self.player_pos.y as int)
        &&& forall|e: int| 0 <= e < self.ecs.n_entities() && #[trigger] self.ecs.players@[e]
                ==> self.ecs.positions@[e] == Some(self.player_pos)
    }

    /// One full simulation pass, in the required order: the visibility
    /// system first, then the actor system which observes this frame's
    /// visibility, then the commit of deferred structural changes. Returns
    /// the identifiers of the monsters that see the player this frame.
    pub fn run_systems<F: FovSource>(&mut self, fov: &mut F) -> (shouts: Vec<usize>)
        requires
            old(self).wf(),
        ensures
            final(self).wf(),
            final(self).runstate == old(self).runstate,
            final(self).player_pos == old(self).player_pos,
            final(self).map.tiles@ == old(self).map.tiles@,
            final(self).map.rooms@ == old(self).map.rooms@,
            final(self).map.width == old(self).map.width,
            final(self).map.height == old(self).map.height,
            forall|i: int| 0 <= i < old(self).map.revealed_tiles@.len()
                && #[trigger] old(self).map.revealed_tiles@[i]
                ==> final(self).map.revealed_tiles@[i],
            forall|k: int| 0 <= k < shouts@.len()
                ==> (#[trigger] shouts@[k]) < old(self).ecs.n_entities(),
            forall|k1: int, k2: int| 0 <= k1 < k2 < shouts@.len()
                ==> #[trigger] shouts@[k1] < #[trigger] shouts@[k2],
            // the commit point is reached exactly once per pass
            final(self).ecs.n_entities()
                == old(self).ecs.n_entities() + old(self).ecs.pending_spawns@.len(),
            final(self).ecs.pending_spawns@.len() == 0,
            final(self).ecs.pending_despawns@.len() == 0,
            // no system but the commit point touches the other component
            // columns: a surviving entity keeps its position, look, tags and
            // name; a removed one loses every component; queued creations
            // are appended in order
            forall|e: int|
                0 <= e < old(self).ecs.n_entities()
                    && !old(self).ecs.pending_despawns@.contains(e as usize)
                    ==> #[trigger] final(self).ecs.positions@[e] == old(self).ecs.positions@[e]
                        && final(self).ecs.renderables@[e] == old(self).ecs.renderables@[e]
                        && final(self).ecs.players@[e] == old(self).ecs.players@[e]
                        && final(self).ecs.monsters@[e] == old(self).ecs.monsters@[e]
                        && final(self).ecs.names@[e] == old(self).ecs.names@[e],
            forall|e: int|
                0 <= e < old(self).ecs.n_entities()
                    && old(self).ecs.pending_despawns@.contains(e as usize)
                    ==> #[trigger] final(self).ecs.entity_cleared(e),
            forall|k: int| 0 <= k < old(self).ecs.pending_spawns@.len()
                ==> #[trigger] final(self).ecs.entity_is(
                    old(self).ecs.n_entities() + k, old(self).ecs.pending_spawns@[k]),
            // the map after a pass: with no recomputed player the shown
            // visibility is left alone; a recomputed player is its sole
            // source, and exactly its cells are newly revealed
            !(has_player(old(self).ecs)
                && needs_recompute(old(self).ecs, player_index(old(self).ecs)))
                ==> final(self).map.visible_tiles@ == old(self).map.visible_tiles@
                    && final(self).map.revealed_tiles@ == old(self).map.revealed_tiles@,
            (has_player(old(self).ecs)
                && needs_recompute(old(self).ecs, player_index(old(self).ecs))
                && !old(self).ecs.pending_despawns@.contains(
                    player_index(old(self).ecs) as usize))
                ==> (final(self).ecs.viewsheds@[player_index(old(self).ecs)]
                        matches Some(pvs)
                    && (forall|i: int| 0 <= i < final(self).map.visible_tiles@.len()
                        ==> ((#[trigger] final(self).map.visible_tiles@[i])
                            <==> coord_hits(pvs.visible_tiles@,
                                pvs.visible_tiles@.len() as int,
                                old(self).map.width as int, i)))
                    && (forall|i: int| 0 <= i < final(self).map.revealed_tiles@.len()
                        ==> ((#[trigger] final(self).map.revealed_tiles@[i])
                            <==> (old(self).map.revealed_tiles@[i]
                                || coord_hits(pvs.visible_tiles@,
                                    pvs.visible_tiles@.len() as int,
                                    old(self).map.width as int, i))))),
            // with nothing queued the commit is a no-op, and the reaction
            // list is exact: precisely the monsters that see the published
            // player position through this frame's visibility
            (old(self).ecs.pending_despawns@.len() == 0
                && old(self).ecs.pending_spawns@.len() == 0)
                ==> forall|e: int| 0 <= e < final(self).ecs.n_entities()
                    ==> (shouts@.contains(e as usize)
                        <==> sees_player(final(self).ecs, e, old(self).player_pos)),
            // the caching discipline at frame level: a clean viewshed of a
            // surviving entity is not touched, a dirty one is recomputed,
            // clipped to the map and marked clean
            forall|e: int|
                0 <= e < old(self).ecs.n_entities()
                    && !needs_recompute(old(self).ecs, e)
                    && !old(self).ecs.pending_despawns@.contains(e as usize)
                    ==> #[trigger] final(self).ecs.viewsheds@[e]
                        == old(self).ecs.viewsheds@[e],
            forall|e: int|
                0 <= e < old(self).ecs.n_entities()
                    && #[trigger] needs_recompute(old(self).ecs, e)
                    && !old(self).ecs.pending_despawns@.contains(e as usize)
                    ==> recomputed(old(self).ecs, final(self).ecs, e,
                        old(self).map.width as int, old(self).map.height as int),
    {
        let ghost s0 = *self;
        VisiblitySystem::run(&mut self.ecs, &mut self.map, fov);
        let shouts = MonsterAI::run(&self.ecs, self.player_pos);
        let ghost s1 = *self;
        self.ecs.maintain();
        proof {
            assert forall|e1: int, e2: int|
                0 <= e1 < self.ecs.n_entities() && 0 <= e2 < self.ecs.n_entities()
                    && #[trigger] self.ecs.players@[e1] && #[trigger] self.ecs.players@[e2]
                implies e1 == e2 by {
                if e1 < s1.ecs.n_entities() {
                    if s1.ecs.pending_despawns@.contains(e1 as usize) {
                        assert(self.ecs.entity_cleared(e1));
                    } else {
                        assert(self.ecs.entity_unchanged(s1.ecs, e1));
                    }
                } else {
                    assert(self.ecs.entity_is(
                        s1.ecs.n_entities() + (e1 - s1.ecs.n_entities()),
                        s1.ecs.pending_spawns@[e1 - s1.ecs.n_entities()]));
                }
                if e2 < s1.ecs.n_entities() {
                    if s1.ecs.pending_despawns@.contains(e2 as usize) {
                        assert(self.ecs.entity_cleared(e2));
                    } else {
                        assert(self.ecs.entity_unchanged(s1.ecs, e2));
                    }
                } else {
                    assert(self.ecs.entity_is(
                        s1.ecs.n_entities() + (e2 - s1.ecs.n_entities()),
                        s1.ecs.pending_spawns@[e2 - s1.ecs.n_entities()]));
                }
            }
            assert forall|e: int|
                0 <= e < self.ecs.n_entities() && #[trigger] self.ecs.players@[e]
                implies self.ecs.positions@[e] == Some(self.player_pos) by {
                if e < s1.ecs.n_entities() {
                    if s1.ecs.pending_despawns@.contains(e as usize) {
                        assert(self.ecs.entity_cleared(e));
                    } else {
                        assert(self.ecs.entity_unchanged(s1.ecs, e));
                    }
                } else {
                    assert(self.ecs.entity_is(
                        s1.ecs.n_entities() + (e - s1.ecs.n_entities()),
                        s1.ecs.pending_spawns@[e - s1.ecs.n_entities()]));
                }
            }
            assert forall|e: int|
                0 <= e < s0.ecs.n_entities()
                    && !needs_recompute(s0.ecs, e)
                    && !s0.ecs.pending_despawns@.contains(e as usize)
                implies #[trigger] self.ecs.viewsheds@[e] == s0.ecs.viewsheds@[e] by {
                assert(s1.ecs.viewsheds@[e] == s0.ecs.viewsheds@[e]);
                assert(self.ecs.entity_unchanged(s1.ecs, e));
            }
            assert forall|e: int|
                0 <= e < s0.ecs.n_entities()
                    && #[trigger] needs_recompute(s0.ecs, e)
                    && !s0.ecs.pending_despawns@.contains(e as usize)
                implies recomputed(s0.ecs, self.ecs, e,
                    s0.map.width as int, s0.map.height as int) by {
                assert(recomputed(s0.ecs, s1.ecs, e,
                    s0.map.width as int, s0.map.height as int));
                assert(self.ecs.entity_unchanged(s1.ecs, e));
            }
            // pin the player's index for the map clauses
            if has_player(s0.ecs) {
                let pw = choose|e: int| 0 <= e < s0.ecs.n_entities()
                    && #[trigger] s0.ecs.players@[e];
                assert(s0.ecs.players@[pw]);
                assert(0 <= player_index(s0.ecs) < s0.ecs.n_entities()
                    && s0.ecs.players@[player_index(s0.ecs)]);
            }
            // the other columns pass through the visibility and actor
            // systems untouched and change only at the commit point
            assert forall|e: int|
                0 <= e < s0.ecs.n_entities()
                    && !s0.ecs.pending_despawns@.contains(e as usize)
                implies #[trigger] self.ecs.positions@[e] == s0.ecs.positions@[e]
                    && self.ecs.renderables@[e] == s0.ecs.renderables@[e]
                    && self.ecs.players@[e] == s0.ecs.players@[e]
                    && self.ecs.monsters@[e] == s0.ecs.monsters@[e]
                    && self.ecs.names@[e] == s0.ecs.names@[e] by {
                assert(self.ecs.entity_unchanged(s1.ecs, e));
            }
            assert forall|e: int|
                0 <= e < s0.ecs.n_entities()
                    && s0.ecs.pending_despawns@.contains(e as usize)
                implies #[trigger] self.ecs.entity_cleared(e) by {
                assert(self.ecs.entity_cleared(e));
            }
            assert forall|k: int| 0 <= k < s0.ecs.pending_spawns@.len()
                implies #[trigger] self.ecs.entity_is(
                    s0.ecs.n_entities() + k, s0.ecs.pending_spawns@[k]) by {
                assert(self.ecs.entity_is(
                    s1.ecs.n_entities() + k, s1.ecs.pending_spawns@[k]));
            }
            // the commit does not touch the map, and a surviving player
            // keeps the viewshed the visibility pass stored
            if has_player(s0.ecs) && needs_recompute(s0.ecs, player_index(s0.ecs))
                && !s0.ecs.pending_despawns@.contains(player_index(s0.ecs) as usize) {
                let pi = player_index(s0.ecs);
                assert(self.ecs.entity_unchanged(s1.ecs, pi));
                assert(self.ecs.viewsheds@[pi] == s1.ecs.viewsheds@[pi]);
            }
            // with nothing queued the commit changes no entity, so the
            // reaction list is exact on the final state
            if s0.ecs.pending_despawns@.len() == 0 && s0.ecs.pending_spawns@.len() == 0 {
                assert forall|e: int| 0 <= e < self.ecs.n_entities()
                    implies (shouts@.contains(e as usize)
                        <==> sees_player(self.ecs, e, s0.player_pos)) by {
                    assert(self.ecs.entity_unchanged(s1.ecs, e));
                    assert(shouts@.contains(e as usize)
                        <==> sees_player(s1.ecs, e, s0.player_pos));
                }
            }
        }
        shouts
    }

    /// Entity `e` appears in the render pass: it has a position and a
    /// renderable, and stands on a cell that is currently visible.
    pub open spec fn drawable(self, e: int) -> bool {
        &&& self.ecs.positions@[e] matches Some(p) && {
            &&& valid_xy(self.map.width as int, self.map.height as int, p.x as int, p.y as int)
            &&& self.map.visible_tiles@[crate::map::cell_index(
                    self.map.width as int, p.x as int, p.y as int)]
        }
        &&& self.ecs.renderables@[e] is Some
    }

    /// The render consumer interface for entities: the identifiers, in
    /// ascending order, of exactly the positioned, renderable entities that
    /// stand on a currently visible cell. The caller reads each one's
    /// position and renderable and draws the glyph; the core draws nothing.
    pub fn drawables(&self) -> (ids: Vec<usize>)
        requires
            self.wf(),
        ensures
            forall|k: int| 0 <= k < ids@.len()
                ==> (#[trigger] ids@[k]) < self.ecs.n_entities(),
            forall|e: int| 0 <= e < self.ecs.n_entities()
                ==> (ids@.contains(e as usize) <==> self.drawable(e)),
            forall|k1: int, k2: int| 0 <= k1 < k2 < ids@.len()
                ==> #[trigger] ids@[k1] < #[trigger] ids@[k2],
    {
        let mut ids: Vec<usize> = Vec::new();
        let n = self.ecs.len();
        let mut e: usize = 0;
        while e < n
            invariant
                self.wf(),
                n == self.ecs.n_entities(),
                e <= n,
                forall|k: int| 0 <= k < ids@.len() ==> (#[trigger] ids@[k]) < e,
                forall|e2: int| 0 <= e2 < e
                    ==> (ids@.contains(e2 as usize) <==> self.drawable(e2)),
                forall|k1: int, k2: int| 0 <= k1 < k2 < ids@.len()
                    ==> #[trigger] ids@[k1] < #[trigger] ids@[k2],
            decreases n - e,
        {
            let ghost ids0 = ids@;
            let draw = match &self.ecs.positions[e] {
                Some(p) => {
                    if p.x >= 0 && p.x < self.map.width && p.y >= 0 && p.y < self.map.height {
                        let idx = self.map.xy_idx(p.x, p.y);
                        self.map.visible_tiles[idx] && self.ecs.renderables[e].is_some()
                    } else {
                        false
                    }
                }
                None => false,
            };
            if draw {
                ids.push(e);
            }
            e += 1;
            proof {
                assert forall|e2: int| 0 <= e2 < e
                    implies (ids@.contains(e2 as usize) <==> self.drawable(e2)) by {
                    if e2 == e - 1 {
                        if draw {
                            assert(ids@[ids@.len() - 1] == e2 as usize);
                            assert(ids@.contains(e2 as usize));
                        } else {
                            if ids@.contains(e2 as usize) {
                                let k = choose|k: int| 0 <= k < ids@.len()
                                    && ids@[k] == e2 as usize;
                                assert(ids0[k] == e2 as usize);
                                assert(ids0.contains(e2 as usize));
                            }
                        }
                    } else {
                        if ids0.contains(e2 as usize) {
                            let k = choose|k: int| 0 <= k < ids0.len()
                                && ids0[k] == e2 as usize;
                            assert(ids@[k] == e2 as usize);
                            assert(ids@.contains(e2 as usize));
                        }
                        if ids@.contains(e2 as usize) {
                            let k = choose|k: int| 0 <= k < ids@.len()
                                && ids@[k] == e2 as usize;
                            if k < ids0.len() {
                                assert(ids0.contains(e2 as usize));
                            }
                        }
                    }
                }
            }
        }
        ids
    }

    /// One frame. While paused, consume exactly one input, which may move
    /// the player, and wake the simulation on any recognized action; while
    /// running, execute exactly one simulation pass and return to paused.
    /// Exactly one player action therefore occurs per simulation pass, and
    /// the ever-revealed memory never shrinks, whatever the frame does.
    pub fn tick<F: FovSource>(&mut self, fov: &mut F, input: Action) -> (shouts: Vec<usize>)
        requires
            old(self).wf(),
        ensures
            final(self).wf(),
            final(self).runstate == sched_next(old(self).runstate, input),
            final(self).map.tiles@ == old(self).map.tiles@,
            final(self).map.rooms@ == old(self).map.rooms@,
            final(self).map.width == old(self).map.width,
            final(self).map.height == old(self).map.height,
            forall|i: int| 0 <= i < old(self).map.revealed_tiles@.len()
                && #[trigger] old(self).map.revealed_tiles@[i]
                ==> final(self).map.revealed_tiles@[i],
            old(self).runstate is Paused ==> final(self).map == old(self).map
                && shouts@.len() == 0,
            (old(self).runstate is Paused && input is NoInput)
                ==> final(self).ecs == old(self).ecs
                    && final(self).player_pos == old(self).player_pos,
            (old(self).runstate is Paused && !(input is NoInput))
                ==> move_effect(*old(self), *final(self),
                    action_delta(input).0, action_delta(input).1),
            old(self).runstate is Running ==> final(self).player_pos == old(self).player_pos,
            old(self).runstate is Running ==> forall|e: int|
                0 <= e < old(self).ecs.n_entities()
                    && #[trigger] needs_recompute(old(self).ecs, e)
                    && !old(self).ecs.pending_despawns@.contains(e as usize)
                    ==> recomputed(old(self).ecs, final(self).ecs, e,
                        old(self).map.width as int, old(self).map.height as int),
            old(self).runstate is Running
                ==> final(self).ecs.pending_spawns@.len() == 0
                    && final(self).ecs.pending_despawns@.len() == 0
                    && final(self).ecs.n_entities()
                        == old(self).ecs.n_entities() + old(self).ecs.pending_spawns@.len(),
            old(self).runstate is Running ==> forall|e: int|
                0 <= e < old(self).ecs.n_entities()
                    && !old(self).ecs.pending_despawns@.contains(e as usize)
                    ==> #[trigger] final(self).ecs.positions@[e] == old(self).ecs.positions@[e]
                        && final(self).ecs.renderables@[e] == old(self).ecs.renderables@[e]
                        && final(self).ecs.players@[e] == old(self).ecs.players@[e]
                        && final(self).ecs.monsters@[e] == old(self).ecs.monsters@[e]
                        && final(self).ecs.names@[e] == old(self).ecs.names@[e],
            (old(self).runstate is Running
                && !(has_player(old(self).ecs)
                    && needs_recompute(old(self).ecs, player_index(old(self).ecs))))
                ==> final(self).map.visible_tiles@ == old(self).map.visible_tiles@
                    && final(self).map.revealed_tiles@ == old(self).map.revealed_tiles@,
            (old(self).runstate is Running
                && has_player(old(self).ecs)
                && needs_recompute(old(self).ecs, player_index(old(self).ecs))
                && !old(self).ecs.pending_despawns@.contains(
                    player_index(old(self).ecs) as usize))
                ==> (final(self).ecs.viewsheds@[player_index(old(self).ecs)]
                        matches Some(pvs)
                    && (forall|i: int| 0 <= i < final(self).map.visible_tiles@.len()
                        ==> ((#[trigger] final(self).map.visible_tiles@[i])
                            <==> coord_hits(pvs.visible_tiles@,
                                pvs.visible_tiles@.len() as int,
                                old(self).map.width as int, i)))
                    && (forall|i: int| 0 <= i < final(self).map.revealed_tiles@.len()
                        ==> ((#[trigger] final(self).map.revealed_tiles@[i])
                            <==> (old(self).map.revealed_tiles@[i]
                                || coord_hits(pvs.visible_tiles@,
                                    pvs.visible_tiles@.len() as int,
                                    old(self).map.width as int, i))))),
            (old(self).runstate is Running
                && old(self).ecs.pending_despawns@.len() == 0
                && old(self).ecs.pending_spawns@.len() == 0)
                ==> forall|e: int| 0 <= e < final(self).ecs.n_entities()
                    ==> (shouts@.contains(e as usize)
                        <==> sees_player(final(self).ecs, e, old(self).player_pos)),
    {
        match self.runstate {
            RunState::Paused => {
                let rs = player_input(self, input);
                self.runstate = rs;
                Vec::new()
            }
            RunState::Running => {
                let shouts = self.run_systems(fov);
                self.runstate = RunState::Paused;
                shouts
            }
        }
    }
}

/// Build a fresh game: generate the dungeon, put one monster at the center
/// of every room but the first — a goblin or an orc, by a seeded die roll —
/// and spawn the player at the center of the first room, with the
/// simulation phase about to run. Fails exactly when map generation does.
#[verifier::rlimit(50)]
pub fn new_game(
    width: i32,
    height: i32,
    min_rooms: usize,
    max_rooms: usize,
    min_size: i32,
    max_size: i32,
    seed: u64,
) -> (r: Result<State, MapGenError>)
    requires
        2 <= min_size <= max_size,
        max_size + 4 <= width <= 4096,
        max_size + 4 <= height <= 4096,
        1 <= min_rooms <= max_rooms <= 4096,
    ensures
        min_rooms == 1 ==> r is Ok,
        r matches Ok(gs) ==> gs.wf() && gs.runstate is Running,
        r matches Ok(gs) ==> gs.map.wf() && gs.map.width == width && gs.map.height == height,
        r matches Ok(gs) ==> min_rooms <= gs.map.rooms@.len() <= max_rooms,
        r matches Ok(gs) ==> rooms_no_overlap(gs.map.rooms@),
        r matches Ok(gs) ==> gs.map.rooms_carved(),
        r matches Ok(gs) ==> gs.map.fully_connected(),
        r matches Ok(gs) ==> gs.ecs.n_entities() == gs.map.rooms@.len(),
        r matches Ok(gs) ==> gs.ecs.pending_spawns@.len() == 0
            && gs.ecs.pending_despawns@.len() == 0,
        r matches Ok(gs) ==> (gs.player_pos.x as int, gs.player_pos.y as int)
            == gs.map.rooms@[0].center_spec(),
        r matches Ok(gs) ==> gs.ecs.players@[gs.ecs.n_entities() - 1]
            && gs.ecs.positions@[gs.ecs.n_entities() - 1] == Some(gs.player_pos),
        r matches Ok(gs) ==> (gs.ecs.viewsheds@[gs.ecs.n_entities() - 1] matches Some(vs)
            && vs.dirty && vs.range == 8),
        r matches Ok(gs) ==> forall|k: int| 0 <= k < gs.ecs.n_entities() - 1 ==> {
            &&& #[trigger] gs.ecs.monsters@[k]
            &&& !gs.ecs.players@[k]
            &&& (gs.ecs.positions@[k] matches Some(c)
                && (c.x as int, c.y as int) == gs.map.rooms@[k + 1].center_spec())
            &&& (gs.ecs.viewsheds@[k] matches Some(vs) && vs.dirty && vs.range == 8)
            &&& gs.ecs.names@[k] is Some
            &&& gs.ecs.renderables@[k] is Some
        },
{
    let map = match GameMap::generate(width, height, min_rooms, max_rooms, min_size,
        max_size, seed) {
        Ok(m) => m,
        Err(e) => {
            return Err(e);
        }
    };
    let ghost wi = width as int;
    let ghost hi = height as int;
    let mut ecs = World::new();
    let mut rng = rng_seeded(seed);
    let n_rooms = map.rooms.len();
    let mut k: usize = 1;
    while k < n_rooms
        invariant
            map.wf(),
            map.width == width,
            map.height == height,
            wi == width as int,
            hi == height as int,
            n_rooms == map.rooms@.len(),
            n_rooms <= 4096,
            1 <= k <= n_rooms,
            ecs.wf(),
            ecs.n_entities() == k - 1,
            ecs.pending_spawns@.len() == 0,
            ecs.pending_despawns@.len() == 0,
            forall|j: int| 0 <= j < k - 1 ==> {
                &&& #[trigger] ecs.monsters@[j]
                &&& !ecs.players@[j]
                &&& (ecs.positions@[j] matches Some(c)
                    && (c.x as int, c.y as int) == map.rooms@[j + 1].center_spec())
                &&& (ecs.viewsheds@[j] matches Some(vs) && vs.dirty && vs.range == 8)
                &&& ecs.names@[j] is Some
                &&& ecs.renderables@[j] is Some
            },
        decreases n_rooms - k,
    {
        let ghost ecs0 = ecs;
        let room = map.rooms[k];
        proof {
            room.lemma_center_in_interior(wi, hi);
        }
        let (mx, my) = room.center();
        let roll = rng_roll_dice(&mut rng, 1, 2);
        let glyph: char;
        let name_text: String;
        if roll == 1 {
            glyph = 'g';
            name_text = String::from_str("Goblin");
        } else {
            glyph = 'o';
            name_text = String::from_str("Orc");
        }
        let builder = EntityBuilder::new()
            .with_position(Position { x: mx, y: my })
            .with_renderable(Renderable {
                glyph,
                fg: Color { r: 255, g: 0, b: 0 },
                bg: Color { r: 0, g: 0, b: 0 },
            })
            .with_viewshed(Viewshed { visible_tiles: Vec::new(), range: 8, dirty: true })
            .with_monster()
            .with_name(Name { name: name_text });
        let id = ecs.create_entity(builder);
        k += 1;
        proof {
            assert forall|j: int| 0 <= j < k - 1 implies {
                &&& #[trigger] ecs.monsters@[j]
                &&& !ecs.players@[j]
                &&& (ecs.positions@[j] matches Some(c)
                    && (c.x as int, c.y as int) == map.rooms@[j + 1].center_spec())
                &&& (ecs.viewsheds@[j] matches Some(vs) && vs.dirty && vs.range == 8)
                &&& ecs.names@[j] is Some
                &&& ecs.renderables@[j] is Some
            } by {
                if j < k - 2 {
                    assert(ecs.entity_unchanged(ecs0, j));
                } else {
                    assert(ecs.entity_is(j, builder));
                    let cm = Position { x: mx, y: my };
                    assert(ecs.positions@[j] == Some(cm)
                        && (cm.x as int, cm.y as int) == map.rooms@[j + 1].center_spec());
                }
            }
        }
    }
    let first = map.rooms[0];
    proof {
        first.lemma_center_in_interior(wi, hi);
    }
    let (px, py) = first.center();
    let player_pos = Position { x: px, y: py };
    let builder = EntityBuilder::new()
        .with_position(player_pos)
        .with_renderable(Renderable {
            glyph: '@',
            fg: Color { r: 255, g: 255, b: 0 },
            bg: Color { r: 0, g: 0, b: 0 },
        })
        .with_viewshed(Viewshed { visible_tiles: Vec::new(), range: 8, dirty: true })
        .with_player()
        .with_name(Name { name: String::from_str("Player") });
    let ghost ecs_before = ecs;
    let pid = ecs.create_entity(builder);
    let gs = State { ecs, map, player_pos, runstate: RunState::Running };
    proof {
        assert forall|j: int| 0 <= j < gs.ecs.n_entities() - 1 implies {
            &&& #[trigger] gs.ecs.monsters@[j]
            &&& !gs.ecs.players@[j]
            &&& (gs.ecs.positions@[j] matches Some(c)
                && (c.x as int, c.y as int) == gs.map.rooms@[j + 1].center_spec())
            &&& (gs.ecs.viewsheds@[j] matches Some(vs) && vs.dirty && vs.range == 8)
            &&& gs.ecs.names@[j] is Some
            &&& gs.ecs.renderables@[j] is Some
        } by {
            assert(gs.ecs.entity_unchanged(ecs_before, j));
        }
        assert(gs.ecs.entity_is(pid as int, builder));
        assert forall|e1: int, e2: int|
            0 <= e1 < gs.ecs.n_entities() && 0 <= e2 < gs.ecs.n_entities()
                && #[trigger] gs.ecs.players@[e1] && #[trigger] gs.ecs.players@[e2]
            implies e1 == e2 by {
            if e1 < pid as int {
                assert(gs.ecs.entity_unchanged(ecs_before, e1));
            }
            if e2 < pid as int {
                assert(gs.ecs.entity_unchanged(ecs_before, e2));
            }
        }
        assert forall|e: int|
            0 <= e < gs.ecs.n_entities() && #[trigger] gs.ecs.players@[e]
            implies gs.ecs.positions@[e] == Some(gs.player_pos) by {
            if e < pid as int {
                assert(gs.ecs.entity_unchanged(ecs_before, e));
            }
        }
        assert(gs.wf());
        assert(gs.map.wf() && gs.map.width == width && gs.map.height == height);
        assert(min_rooms <= gs.map.rooms@.len() <= max_rooms);
        assert(rooms_no_overlap(gs.map.rooms@));
        assert(gs.map.rooms_carved());
        assert(gs.map.fully_connected());
        assert(gs.ecs.n_entities() == gs.map.rooms@.len());
        assert((gs.player_pos.x as int, gs.player_pos.y as int)
            == gs.map.rooms@[0].center_spec());
        assert(gs.ecs.players@[gs.ecs.n_entities() - 1]);
        assert(gs.ecs.positions@[gs.ecs.n_entities() - 1] == Some(gs.player_pos));
        assert(gs.ecs.viewsheds@[gs.ecs.n_entities() - 1] matches Some(vs)
            && vs.dirty && vs.range == 8);
    }
    Ok(gs)
}

} // verus!
