use rogue_core::map::{GameMap, MapGenError, TileType};
use rogue_core::rect::Rect;

fn sample_map(seed: u64) -> GameMap {
    GameMap::generate(80, 50, 1, 30, 6, 10, seed).expect("generation failed")
}

#[test]
fn generated_map_has_expected_shape() {
    let map = sample_map(42);
    assert_eq!(map.width, 80);
    assert_eq!(map.height, 50);
    assert_eq!(map.tiles.len(), 80 * 50);
    assert_eq!(map.revealed_tiles.len(), 80 * 50);
    assert_eq!(map.visible_tiles.len(), 80 * 50);
    assert!(!map.rooms.is_empty());
    assert!(map.rooms.len() <= 30);
    assert!(map.revealed_tiles.iter().all(|r| !r));
    assert!(map.visible_tiles.iter().all(|v| !v));
}

#[test]
fn rooms_do_not_overlap() {
    let map = sample_map(7);
    for i in 0..map.rooms.len() {
        for j in (i + 1)..map.rooms.len() {
            let a = &map.rooms[i];
            let b = &map.rooms[j];
            assert!(!a.intersect(b), "rooms {} and {} overlap", i, j);
        }
    }
}

#[test]
fn rooms_are_within_bounds_and_sized() {
    let map = sample_map(99);
    for room in &map.rooms {
        assert!(room.x1 >= 0 && room.y1 >= 0);
        assert!(room.x2 <= map.width - 2 && room.y2 <= map.height - 2);
        let w = room.x2 - room.x1;
        let h = room.y2 - room.y1;
        assert!((6..=10).contains(&w), "room width {} out of bounds", w);
        assert!((6..=10).contains(&h), "room height {} out of bounds", h);
    }
}

#[test]
fn room_interiors_are_floor() {
    let map = sample_map(5);
    for room in &map.rooms {
        for y in (room.y1 + 1)..=room.y2 {
            for x in (room.x1 + 1)..=room.x2 {
                let idx = map.xy_idx(x, y);
                assert_eq!(map.tiles[idx], TileType::Floor);
            }
        }
    }
}

#[test]
fn every_floor_cell_is_reachable_from_spawn() {
    let map = sample_map(1234);
    let room0 = &map.rooms[0];
    let cx = (room0.x1 + room0.x2) / 2;
    let cy = (room0.y1 + room0.y2) / 2;
    let start = map.xy_idx(cx, cy);
    assert_eq!(map.tiles[start], TileType::Floor);
    let n = map.tiles.len();
    let mut seen = vec![false; n];
    let mut queue = std::collections::VecDeque::new();
    seen[start] = true;
    queue.push_back((cx, cy));
    while let Some((x, y)) = queue.pop_front() {
        for (dx, dy) in [(1, 0), (-1, 0), (0, 1), (0, -1)] {
            let (nx, ny) = (x + dx, y + dy);
            if nx >= 0 && nx < map.width && ny >= 0 && ny < map.height {
                let idx = map.xy_idx(nx, ny);
                if !seen[idx] && map.tiles[idx] == TileType::Floor {
                    seen[idx] = true;
                    queue.push_back((nx, ny));
                }
            }
        }
    }
    for idx in 0..n {
        if map.tiles[idx] == TileType::Floor {
            assert!(seen[idx], "floor cell {} unreachable from spawn", idx);
        }
    }
}

#[test]
fn same_seed_gives_identical_maps() {
    let a = sample_map(2024);
    let b = sample_map(2024);
    assert_eq!(a.tiles, b.tiles);
    assert_eq!(a.rooms.len(), b.rooms.len());
    for (ra, rb) in a.rooms.iter().zip(b.rooms.iter()) {
        assert_eq!((ra.x1, ra.y1, ra.x2, ra.y2), (rb.x1, rb.y1, rb.x2, rb.y2));
    }
}

#[test]
fn generation_fails_fast_when_rooms_cannot_fit() {
    // a 10x10 grid cannot hold two non-overlapping rooms of size 6
    let r = GameMap::generate(10, 10, 2, 2, 6, 6, 3);
    assert_eq!(r.err(), Some(MapGenError::NotEnoughRooms));
}

#[test]
fn xy_idx_is_row_major_and_round_trips() {
    let map = sample_map(8);
    assert_eq!(map.xy_idx(0, 0), 0);
    assert_eq!(map.xy_idx(1, 0), 1);
    assert_eq!(map.xy_idx(0, 1), 80);
    assert_eq!(map.xy_idx(3, 7), 7 * 80 + 3);
    let mut last = None;
    for y in 0..map.height {
        for x in 0..map.width {
            let idx = map.xy_idx(x, y);
            // strictly increasing in y-then-x order, hence unique
            if let Some(prev) = last {
                assert!(idx > prev);
            }
            last = Some(idx);
            // lossless round trip
            assert_eq!(idx % 80, x as usize);
            assert_eq!(idx / 80, y as usize);
        }
    }
}

#[test]
fn rect_center_and_intersection() {
    let a = Rect::new(0, 0, 6, 6);
    let b = Rect::new(3, 3, 6, 6);
    let c = Rect::new(10, 10, 4, 4);
    assert!(a.intersect(&b));
    assert!(b.intersect(&a));
    assert!(!a.intersect(&c));
    assert_eq!(a.center(), (3, 3));
    assert_eq!(c.center(), (12, 12));
}

#[test]
fn cell_draw_classifies_visible_remembered_hidden() {
    let mut map = sample_map(77);
    let a = map.xy_idx(5, 5);
    let b = map.xy_idx(6, 5);
    map.visible_tiles[a] = true;
    map.revealed_tiles[a] = true;
    map.revealed_tiles[b] = true;
    assert_eq!(map.cell_draw(5, 5), rogue_core::map::CellDraw::Visible);
    assert_eq!(map.cell_draw(6, 5), rogue_core::map::CellDraw::Remembered);
    assert_eq!(map.cell_draw(7, 5), rogue_core::map::CellDraw::Hidden);
}
