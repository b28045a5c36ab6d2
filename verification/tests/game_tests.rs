use rogue_core::components::{Color, Name, Position, Renderable, Viewshed};
use rogue_core::map::{CellDraw, GameMap, TileType};
use rogue_core::monster_ai_system::MonsterAI;
use rogue_core::player::Action;
use rogue_core::rect::Rect;
use rogue_core::state::{new_game, RunState, State};
use rogue_core::visibility_system::{FovSource, VisiblitySystem};
use rogue_core::world::{EntityBuilder, World};

/// The real external field-of-view algorithm, adapted to the core's
/// collaborator interface.
struct RltkFov;

struct FovGrid {
    tiles: Vec<TileType>,
    width: i32,
    height: i32,
}

impl rltk::BaseMap for FovGrid {
    fn is_opaque(&self, idx: usize) -> bool {
        self.tiles[idx] == TileType::Wall
    }
}

impl rltk::Algorithm2D for FovGrid {
    fn dimensions(&self) -> rltk::Point {
        rltk::Point::new(self.width, self.height)
    }
}

impl FovSource for RltkFov {
    fn field_of_view(
        &mut self,
        tiles: &Vec<TileType>,
        width: i32,
        height: i32,
        origin: Position,
        range: i32,
    ) -> Vec<Position> {
        let grid = FovGrid { tiles: tiles.clone(), width, height };
        rltk::field_of_view(rltk::Point::new(origin.x, origin.y), range, &grid)
            .into_iter()
            .map(|p| Position { x: p.x, y: p.y })
            .collect()
    }
}

/// A map whose every cell inside the border is floor, with one extra wall
/// column splitting it in two at `split_x` (leaving no gap).
fn walled_map(width: i32, height: i32, split_x: Option<i32>) -> GameMap {
    let n = (width * height) as usize;
    let mut tiles = vec![TileType::Wall; n];
    for y in 1..height - 1 {
        for x in 1..width - 1 {
            if Some(x) != split_x {
                tiles[(y * width + x) as usize] = TileType::Floor;
            }
        }
    }
    GameMap {
        tiles,
        rooms: vec![Rect::new(0, 0, width - 1, height - 1)],
        width,
        height,
        revealed_tiles: vec![false; n],
        visible_tiles: vec![false; n],
    }
}

fn monster(at: Position, range: i32) -> EntityBuilder {
    EntityBuilder::new()
        .with_position(at)
        .with_renderable(Renderable {
            glyph: 'g',
            fg: Color { r: 255, g: 0, b: 0 },
            bg: Color { r: 0, g: 0, b: 0 },
        })
        .with_viewshed(Viewshed { visible_tiles: Vec::new(), range, dirty: true })
        .with_monster()
        .with_name(Name { name: "Goblin".to_string() })
}

fn player(at: Position) -> EntityBuilder {
    EntityBuilder::new()
        .with_position(at)
        .with_renderable(Renderable {
            glyph: '@',
            fg: Color { r: 255, g: 255, b: 0 },
            bg: Color { r: 0, g: 0, b: 0 },
        })
        .with_viewshed(Viewshed { visible_tiles: Vec::new(), range: 8, dirty: true })
        .with_player()
        .with_name(Name { name: "Player".to_string() })
}

#[test]
fn new_game_spawns_player_and_monsters() {
    let gs = new_game(80, 50, 2, 30, 6, 10, 11).expect("setup failed");
    assert_eq!(gs.runstate, RunState::Running);
    let n = gs.ecs.positions.len();
    assert_eq!(n, gs.map.rooms.len());
    // the player is the last entity, at the first room's center
    assert!(gs.ecs.players[n - 1]);
    let (cx, cy) = gs.map.rooms[0].center();
    assert_eq!(gs.player_pos, Position { x: cx, y: cy });
    assert_eq!(gs.ecs.positions[n - 1], Some(gs.player_pos));
    assert_eq!(gs.ecs.names[n - 1].as_ref().unwrap().name, "Player");
    // one monster per remaining room, at that room's center
    for k in 0..n - 1 {
        assert!(gs.ecs.monsters[k]);
        assert!(!gs.ecs.players[k]);
        let (mx, my) = gs.map.rooms[k + 1].center();
        assert_eq!(gs.ecs.positions[k], Some(Position { x: mx, y: my }));
        let vs = gs.ecs.viewsheds[k].as_ref().unwrap();
        assert!(vs.dirty);
        assert_eq!(vs.range, 8);
        let name = &gs.ecs.names[k].as_ref().unwrap().name;
        assert!(name == "Goblin" || name == "Orc");
        let glyph = gs.ecs.renderables[k].unwrap().glyph;
        assert!(glyph == 'g' || glyph == 'o');
    }
}

#[test]
fn turn_alternation_over_frames() {
    let mut gs = new_game(80, 50, 1, 30, 6, 10, 21).expect("setup failed");
    let mut fov = RltkFov;
    assert_eq!(gs.runstate, RunState::Running);
    gs.tick(&mut fov, Action::NoInput);
    assert_eq!(gs.runstate, RunState::Paused);
    // no input: still paused, frame after frame
    gs.tick(&mut fov, Action::NoInput);
    assert_eq!(gs.runstate, RunState::Paused);
    // one accepted input wakes the simulation for exactly one frame
    gs.tick(&mut fov, Action::MoveEast);
    assert_eq!(gs.runstate, RunState::Running);
    gs.tick(&mut fov, Action::MoveEast);
    assert_eq!(gs.runstate, RunState::Paused);
}

#[test]
fn revealed_tiles_grow_monotonically() {
    let mut gs = new_game(80, 50, 1, 30, 6, 10, 31).expect("setup failed");
    let mut fov = RltkFov;
    let mut before = gs.map.revealed_tiles.clone();
    let inputs = [
        Action::NoInput,
        Action::MoveEast,
        Action::NoInput,
        Action::MoveSouth,
        Action::MoveWest,
        Action::NoInput,
        Action::MoveNorth,
        Action::NoInput,
    ];
    for input in inputs {
        gs.tick(&mut fov, input);
        for i in 0..before.len() {
            assert!(!before[i] || gs.map.revealed_tiles[i], "revealed memory shrank at {}", i);
        }
        before = gs.map.revealed_tiles.clone();
    }
    // after the first running frame something must have been revealed
    assert!(gs.map.revealed_tiles.iter().any(|r| *r));
}

#[test]
fn rejected_move_changes_nothing_and_stays_clean() {
    // a player boxed in a 3x3 pocket of floor with walls all around
    let mut map = walled_map(5, 5, None);
    // wall off the cell east of the player
    let idx = map.xy_idx(3, 2);
    map.tiles[idx] = TileType::Wall;
    let mut ecs = World::new();
    ecs.create_entity(
        player(Position { x: 2, y: 2 })
            .with_viewshed(Viewshed { visible_tiles: Vec::new(), range: 8, dirty: false }),
    );
    let mut gs = State { ecs, map, player_pos: Position { x: 2, y: 2 }, runstate: RunState::Paused };
    let mut fov = RltkFov;
    gs.tick(&mut fov, Action::MoveEast);
    // the action was consumed, so the simulation runs next frame
    assert_eq!(gs.runstate, RunState::Running);
    // but the move was rejected: position unchanged, no recomputation queued
    assert_eq!(gs.player_pos, Position { x: 2, y: 2 });
    assert_eq!(gs.ecs.positions[0], Some(Position { x: 2, y: 2 }));
    assert!(!gs.ecs.viewsheds[0].as_ref().unwrap().dirty);
}

#[test]
fn accepted_move_updates_position_and_dirties_viewshed() {
    let map = walled_map(6, 5, None);
    let mut ecs = World::new();
    ecs.create_entity(
        player(Position { x: 2, y: 2 })
            .with_viewshed(Viewshed { visible_tiles: Vec::new(), range: 8, dirty: false }),
    );
    let mut gs = State { ecs, map, player_pos: Position { x: 2, y: 2 }, runstate: RunState::Paused };
    let mut fov = RltkFov;
    gs.tick(&mut fov, Action::MoveEast);
    assert_eq!(gs.runstate, RunState::Running);
    assert_eq!(gs.player_pos, Position { x: 3, y: 2 });
    assert_eq!(gs.ecs.positions[0], Some(Position { x: 3, y: 2 }));
    assert!(gs.ecs.viewsheds[0].as_ref().unwrap().dirty);
}

#[test]
fn monster_behind_wall_sees_nothing() {
    // two pockets of floor separated by a solid wall column at x = 4
    let map = walled_map(9, 5, Some(4));
    let monster_pos = Position { x: 2, y: 2 };
    let player_pos = Position { x: 6, y: 2 };
    let mut ecs = World::new();
    ecs.create_entity(monster(monster_pos, 8));
    ecs.create_entity(player(player_pos));
    let mut map = map;
    let mut fov = RltkFov;
    VisiblitySystem::run(&mut ecs, &mut map, &mut fov);
    let vs = ecs.viewsheds[0].as_ref().unwrap();
    assert!(!vs.dirty);
    assert!(!vs.visible_tiles.contains(&player_pos), "monster sees through the wall");
    let shouts = MonsterAI::run(&ecs, player_pos);
    assert!(shouts.is_empty());
}

#[test]
fn monster_in_open_room_shouts() {
    let map = walled_map(9, 5, None);
    let monster_pos = Position { x: 2, y: 2 };
    let player_pos = Position { x: 6, y: 2 };
    let mut ecs = World::new();
    ecs.create_entity(monster(monster_pos, 8));
    ecs.create_entity(player(player_pos));
    let mut map = map;
    let mut fov = RltkFov;
    VisiblitySystem::run(&mut ecs, &mut map, &mut fov);
    let shouts = MonsterAI::run(&ecs, player_pos);
    assert_eq!(shouts, vec![0]);
    assert_eq!(ecs.names[0].as_ref().unwrap().name, "Goblin");
}

#[test]
fn player_visibility_drives_map_and_memory() {
    let map = walled_map(9, 5, Some(4));
    let player_pos = Position { x: 2, y: 2 };
    let mut ecs = World::new();
    ecs.create_entity(player(player_pos));
    let mut map = map;
    let mut fov = RltkFov;
    VisiblitySystem::run(&mut ecs, &mut map, &mut fov);
    // the player's own cell is visible and revealed
    let own = map.xy_idx(2, 2);
    assert!(map.visible_tiles[own]);
    assert!(map.revealed_tiles[own]);
    assert_eq!(map.cell_draw(2, 2), CellDraw::Visible);
    // the far pocket is behind the wall: never seen
    let far = map.xy_idx(6, 2);
    assert!(!map.visible_tiles[far]);
    assert!(!map.revealed_tiles[far]);
    assert_eq!(map.cell_draw(6, 2), CellDraw::Hidden);
    // a clean viewshed is not recomputed: the map keeps its state
    let visible_before = map.visible_tiles.clone();
    VisiblitySystem::run(&mut ecs, &mut map, &mut fov);
    assert_eq!(map.visible_tiles, visible_before);
}

#[test]
fn remembered_cells_draw_dimmed_after_moving_away() {
    let mut gs = {
        let map = walled_map(12, 5, None);
        let mut ecs = World::new();
        ecs.create_entity(player(Position { x: 2, y: 2 }));
        State { ecs, map, player_pos: Position { x: 2, y: 2 }, runstate: RunState::Running }
    };
    let mut fov = RltkFov;
    gs.tick(&mut fov, Action::NoInput); // running frame: compute visibility
    let own = gs.map.xy_idx(2, 2);
    assert!(gs.map.visible_tiles[own]);
    // drawables joins position and renderable over visible cells
    let ids = gs.drawables();
    assert_eq!(ids, vec![0]);
    assert_eq!(gs.ecs.renderables[0].unwrap().glyph, '@');
}

#[test]
fn builder_attaches_exactly_what_was_given() {
    let b = EntityBuilder::new()
        .with_position(Position { x: 4, y: 9 })
        .with_monster();
    assert_eq!(b.position, Some(Position { x: 4, y: 9 }));
    assert!(b.monster);
    assert!(!b.player);
    assert!(b.renderable.is_none());
    assert!(b.viewshed.is_none());
    assert!(b.name.is_none());
    let mut w = World::new();
    let id = w.create_entity(b);
    assert_eq!(id, 0);
    assert_eq!(w.positions.len(), 1);
    assert_eq!(w.positions[0], Some(Position { x: 4, y: 9 }));
    assert!(w.monsters[0]);
    assert!(!w.players[0]);
}

#[test]
fn maintain_commits_deferred_changes_atomically() {
    let mut w = World::new();
    w.create_entity(monster(Position { x: 1, y: 1 }, 8));
    w.create_entity(monster(Position { x: 2, y: 2 }, 8));
    w.queue_despawn(0);
    w.queue_spawn(monster(Position { x: 3, y: 3 }, 8));
    // nothing applied before the commit point
    assert_eq!(w.positions.len(), 2);
    assert!(w.positions[0].is_some());
    w.maintain();
    // the removal took every component off entity 0
    assert_eq!(w.positions.len(), 3);
    assert!(w.positions[0].is_none());
    assert!(!w.monsters[0]);
    assert!(w.names[0].is_none());
    // entity 1 untouched, the deferred spawn appended
    assert_eq!(w.positions[1], Some(Position { x: 2, y: 2 }));
    assert_eq!(w.positions[2], Some(Position { x: 3, y: 3 }));
    assert!(w.monsters[2]);
    assert_eq!(w.pending_spawns.len(), 0);
    assert_eq!(w.pending_despawns.len(), 0);
}

#[test]
fn paused_frame_without_input_has_no_side_effects() {
    let mut gs = new_game(80, 50, 1, 30, 6, 10, 55).expect("setup failed");
    let mut fov = RltkFov;
    gs.tick(&mut fov, Action::NoInput); // running frame ends paused
    let pos_before = gs.player_pos;
    let positions_before = gs.ecs.positions.clone();
    let revealed_before = gs.map.revealed_tiles.clone();
    let visible_before = gs.map.visible_tiles.clone();
    gs.tick(&mut fov, Action::NoInput);
    assert_eq!(gs.runstate, RunState::Paused);
    assert_eq!(gs.player_pos, pos_before);
    assert_eq!(gs.ecs.positions, positions_before);
    assert_eq!(gs.map.revealed_tiles, revealed_before);
    assert_eq!(gs.map.visible_tiles, visible_before);
}
