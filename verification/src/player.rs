use vstd::prelude::*;
use crate::components::{Position, Viewshed};
use crate::map::TileType;
use crate::state::{RunState, State, sched_next};
use crate::visibility_system::has_player;

verus! {

/// One abstract input per paused frame; mapping concrete keys to actions is
/// an external concern. `NoInput` is the non-blocking poll finding nothing.
#[derive(Clone, Copy, PartialEq, Eq, Structural, Debug)]
pub enum Action {
    MoveNorth,
    MoveSouth,
    MoveEast,
    MoveWest,
    NoInput,
}

/// The cell displacement of an action.
pub open spec fn action_delta(a: Action) -> (int, int) {
    match a {
        Action::MoveNorth => (0, -1),
        Action::MoveSouth => (0, 1),
        Action::MoveEast => (1, 0),
        Action::MoveWest => (-1, 0),
        Action::NoInput => (0, 0),
    }
}

/// How the player's viewshed reacts to an accepted move: the cache is
/// marked stale (its stored cells are discarded, to be recomputed before
/// anything reads them) and the range is kept.
pub open spec fn viewshed_dirtied(v0: Option<Viewshed>, v1: Option<Viewshed>) -> bool {
    match v0 {
        Some(vs0) => v1 matches Some(vs1) && vs1.dirty && vs1.range == vs0.range,
        None => v1 is None,
    }
}

/// What one movement attempt by (dx, dy) does to the game state. A move
/// onto a floor cell updates the player's position, republishes the player
/// position singleton and marks the player's viewshed stale; a move against
/// a wall or off the map is rejected silently, leaving everything — the
/// dirty flag included — exactly as it was.
pub open spec fn move_effect(s0: State, s1: State, dx: int, dy: int) -> bool {
    &&& s1.map == s0.map
    &&& s1.ecs.n_entities() == s0.ecs.n_entities()
    &&& s1.ecs.players@ == s0.ecs.players@
    &&& s1.ecs.renderables@ == s0.ecs.renderables@
    &&& s1.ecs.monsters@ == s0.ecs.monsters@
    &&& s1.ecs.names@ == s0.ecs.names@
    &&& s1.ecs.pending_spawns@ == s0.ecs.pending_spawns@
    &&& s1.ecs.pending_despawns@ == s0.ecs.pending_despawns@
    &&& !has_player(s0.ecs) ==> s1.ecs == s0.ecs && s1.player_pos == s0.player_pos
    &&& has_player(s0.ecs) ==> {
        let tx = s0.player_pos.x + dx;
        let ty = s0.player_pos.y + dy;
        if s0.map.walkable(tx, ty) {
            &&& s1.player_pos.x == tx
            &&& s1.player_pos.y == ty
            &&& forall|e: int|
                0 <= e < s0.ecs.n_entities() && #[trigger] s0.ecs.players@[e]
                    ==> s1.ecs.positions@[e] == Some(s1.player_pos)
                        && viewshed_dirtied(s0.ecs.viewsheds@[e], s1.ecs.viewsheds@[e])
            &&& forall|e: int|
                0 <= e < s0.ecs.n_entities() && !(#[trigger] s0.ecs.players@[e])
                    ==> s1.ecs.positions@[e] == s0.ecs.positions@[e]
                        && s1.ecs.viewsheds@[e] == s0.ecs.viewsheds@[e]
        } else {
            s1.ecs == s0.ecs && s1.player_pos == s0.player_pos
        }
    }
}

/// Attempt to move the player by one cell. Collision against walls is a
/// hard constraint: the move is rejected, the position stays, and the
/// viewshed is not marked stale, so no recomputation is triggered by a
/// rejected move.
pub fn try_move_player(delta_x: i32, delta_y: i32, gs: &mut State)
    requires
        old(gs).wf(),
        -1 <= delta_x <= 1,
        -1 <= delta_y <= 1,
    ensures
        final(gs).wf(),
        final(gs).runstate == old(gs).runstate,
        move_effect(*old(gs), *final(gs), delta_x as int, delta_y as int),
{
    let n = gs.ecs.len();
    let mut pe: usize = 0;
    let mut found = false;
    let mut e: usize = 0;
    while e < n
        invariant
            *gs == *old(gs),
            old(gs).wf(),
            n == gs.ecs.n_entities(),
            e <= n,
            found ==> pe < e && gs.ecs.players@[pe as int],
            !found ==> forall|e2: int| 0 <= e2 < e ==> !(#[trigger] gs.ecs.players@[e2]),
        decreases n - e,
    {
        if gs.ecs.players[e] {
            pe = e;
            found = true;
        }
        e += 1;
    }
    if !found {
        proof {
            if has_player(gs.ecs) {
                let w = choose|w: int| 0 <= w < gs.ecs.n_entities() && gs.ecs.players@[w];
                assert(!gs.ecs.players@[w]);
            }
        }
        return;
    }
    let tx = gs.player_pos.x + delta_x;
    let ty = gs.player_pos.y + delta_y;
    if tx >= 0 && tx < gs.map.width && ty >= 0 && ty < gs.map.height {
        let idx = gs.map.xy_idx(tx, ty);
        if gs.map.tiles[idx] == TileType::Floor {
            let new_pos = Position { x: tx, y: ty };
            let range = match &gs.ecs.viewsheds[pe] {
                Some(vs) => vs.range,
                None => 0,
            };
            let had_viewshed = gs.ecs.viewsheds[pe].is_some();
            gs.ecs.positions[pe] = Some(new_pos);
            if had_viewshed {
                gs.ecs.viewsheds[pe] = Some(Viewshed {
                    visible_tiles: Vec::new(),
                    range,
                    dirty: true,
                });
            }
            gs.player_pos = new_pos;
            proof {
                assert forall|e2: int|
                    0 <= e2 < old(gs).ecs.n_entities() && #[trigger] old(gs).ecs.players@[e2]
                    implies gs.ecs.positions@[e2] == Some(gs.player_pos)
                        && viewshed_dirtied(old(gs).ecs.viewsheds@[e2], gs.ecs.viewsheds@[e2]) by {
                    assert(e2 == pe as int);
                }
            }
        }
    }
}

/// Consume one input while paused. A recognized action attempts the move
/// and hands control to the running phase; no input leaves the state
/// untouched and stays paused.
pub fn player_input(gs: &mut State, input: Action) -> (rs: RunState)
    requires
        old(gs).wf(),
    ensures
        final(gs).wf(),
        rs == sched_next(RunState::Paused, input),
        final(gs).runstate == old(gs).runstate,
        input is NoInput ==> *final(gs) == *old(gs),
        !(input is NoInput) ==> move_effect(*old(gs), *final(gs),
            action_delta(input).0, action_delta(input).1),
{
    match input {
        Action::MoveNorth => {
            try_move_player(0, -1, gs);
            RunState::Running
        }
        Action::MoveSouth => {
            try_move_player(0, 1, gs);
            RunState::Running
        }
        Action::MoveEast => {
            try_move_player(1, 0, gs);
            RunState::Running
        }
        Action::MoveWest => {
            try_move_player(-1, 0, gs);
            RunState::Running
        }
        Action::NoInput => RunState::Paused,
    }
}

} // verus!
