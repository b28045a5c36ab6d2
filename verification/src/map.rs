use vstd::prelude::*;
use crate::rect::Rect;
use crate::reach::{floor_xy, reachable, lemma_reachable_refl, lemma_reachable_mono,
    lemma_reach_horiz, lemma_reach_vert, lemma_reach_rect};
use crate::rng::{rng_seeded, rng_range};

verus! {

/// Generation fails fast when the bounded attempt budget runs out before
/// the requested minimum number of non-overlapping rooms has been placed.
#[derive(Clone, Copy, PartialEq, Eq, Structural, Debug)]
pub enum MapGenError {
    NotEnoughRooms,
}

/// What the render pass should do with one cell: draw it live, draw it as
/// a dimmed memory, or not at all.
#[derive(Clone, Copy, PartialEq, Eq, Structural, Debug)]
pub enum CellDraw {
    Visible,
    Remembered,
    Hidden,
}

/// No two accepted rooms share a cell.
pub open spec fn rooms_no_overlap(rooms: Seq<Rect>) -> bool {
    forall|i: int, j: int|
        0 <= i < j < rooms.len() ==> !(#[trigger] rooms[i]).overlaps(#[trigger] rooms[j])
}

/// The cells of the horizontal corridor run at row `yr` between columns
/// `xa` and `xb` (in either order).
pub open spec fn on_horiz_run(x: int, y: int, xa: int, xb: int, yr: int) -> bool {
    y == yr && (if xa <= xb { xa <= x <= xb } else { xb <= x <= xa })
}

/// The cells of the vertical corridor run at column `xr` between rows
/// `ya` and `yb` (in either order).
pub open spec fn on_vert_run(x: int, y: int, ya: int, yb: int, xr: int) -> bool {
    x == xr && (if ya <= yb { ya <= y <= yb } else { yb <= y <= ya })
}

/// A map cell is either solid wall or walkable floor; tiles are fixed once
/// the map has been generated.
#[derive(Clone, Copy, PartialEq, Eq, Structural, Debug)]
pub enum TileType {
    Wall,
    Floor,
}

/// Row-major mapping from a 2D cell coordinate to its index in the tile
/// array: the single source of truth for the 2D-to-1D correspondence.
pub open spec fn cell_index(width: int, x: int, y: int) -> int {
    y * width + x
}

pub open spec fn valid_xy(width: int, height: int, x: int, y: int) -> bool {
    0 <= x < width && 0 <= y < height
}

pub proof fn lemma_cell_index_bounds(width: int, height: int, x: int, y: int)
    requires
        valid_xy(width, height, x, y),
    ensures
        0 <= cell_index(width, x, y) < width * height,
        y * width <= cell_index(width, x, y),
    decreases height,
{
    if y == height - 1 {
        assert(y * width + x < y * width + width);
        assert(y * width + width == (y + 1) * width) by (nonlinear_arith);
        assert((y + 1) * width <= height * width) by (nonlinear_arith)
            requires y + 1 <= height, width >= 0;
        assert(0 <= y * width) by (nonlinear_arith)
            requires 0 <= y, 0 <= width;
        assert(height * width == width * height) by (nonlinear_arith);
    } else {
        lemma_cell_index_bounds(width, height - 1, x, if y < height - 1 { y } else { y - 1 });
        assert(width * (height - 1) <= width * height) by (nonlinear_arith)
            requires 0 <= width, height - 1 <= height;
    }
}

/// The index map is a bijection on valid coordinates: it is strictly
/// increasing in y-then-x order, and the coordinate is recovered losslessly
/// from the index by division and remainder.
pub proof fn lemma_index_bijection(width: int, height: int, x: int, y: int)
    requires
        valid_xy(width, height, x, y),
    ensures
        0 <= cell_index(width, x, y) < width * height,
        cell_index(width, x, y) % width == x,
        cell_index(width, x, y) / width == y,
{
    lemma_cell_index_bounds(width, height, x, y);
    assert((y * width + x) % width == x && (y * width + x) / width == y) by (nonlinear_arith)
        requires 0 <= x < width, 0 <= y;
}

/// Distinct valid coordinates give distinct indices.
pub proof fn lemma_cell_index_injective(width: int, height: int, x1: int, y1: int, x2: int, y2: int)
    requires
        valid_xy(width, height, x1, y1),
        valid_xy(width, height, x2, y2),
        cell_index(width, x1, y1) == cell_index(width, x2, y2),
    ensures
        x1 == x2 && y1 == y2,
{
    lemma_index_bijection(width, height, x1, y1);
    lemma_index_bijection(width, height, x2, y2);
}

/// The index is strictly increasing in y-then-x lexicographic order.
pub proof fn lemma_cell_index_increasing(width: int, height: int, x1: int, y1: int, x2: int, y2: int)
    requires
        valid_xy(width, height, x1, y1),
        valid_xy(width, height, x2, y2),
        y1 < y2 || (y1 == y2 && x1 < x2),
    ensures
        cell_index(width, x1, y1) < cell_index(width, x2, y2),
{
    if y1 == y2 {
    } else {
        assert(y1 * width + width <= y2 * width) by (nonlinear_arith)
            requires y1 < y2, 0 < width;
    }
}

/// The generated dungeon: a fixed grid of tiles, the accepted rooms, and the
/// two per-cell visibility records (seen this frame, ever seen).
pub struct GameMap {
    pub tiles: Vec<TileType>,
    pub rooms: Vec<Rect>,
    pub width: i32,
    pub height: i32,
    pub revealed_tiles: Vec<bool>,
    pub visible_tiles: Vec<bool>,
}

impl GameMap {
    /// Structural well-formedness: the grid dimensions are fixed and every
    /// per-cell array has exactly width * height entries; every accepted
    /// room fits the map with a wall margin.
    pub open spec fn wf(self) -> bool {
        &&& 2 < self.width <= 4096
        &&& 2 < self.height <= 4096
        &&& self.tiles@.len() == self.width * self.height
        &&& self.revealed_tiles@.len() == self.tiles@.len()
        &&& self.visible_tiles@.len() == self.tiles@.len()
        &&& forall|k: int| 0 <= k < self.rooms@.len()
                ==> (#[trigger] self.rooms@[k]).wf_in(self.width as int, self.height as int)
    }

    pub open spec fn floor_at(self, x: int, y: int) -> bool {
        self.tiles@[cell_index(self.width as int, x, y)] is Floor
    }

    /// A cell an entity may stand on: inside the map and not a wall.
    pub open spec fn walkable(self, x: int, y: int) -> bool {
        valid_xy(self.width as int, self.height as int, x, y) && self.floor_at(x, y)
    }

    pub fn xy_idx(&self, x: i32, y: i32) -> (r: usize)
        requires
            self.wf(),
            valid_xy(self.width as int, self.height as int, x as int, y as int),
        ensures
            r == cell_index(self.width as int, x as int, y as int),
            r < self.tiles@.len(),
    {
        proof {
            lemma_cell_index_bounds(self.width as int, self.height as int, x as int, y as int);
            assert((y as int) * (self.width as int) <= 4096 * 4096) by (nonlinear_arith)
                requires 0 <= y as int <= 4096, 0 <= self.width as int <= 4096;
        }
        (y as usize) * (self.width as usize) + (x as usize)
    }

    /// Carve the interior of an accepted room to floor. Every other cell,
    /// and every other field of the map, is left as it was.
    pub fn apply_room_to_map(&mut self, room: &Rect)
        requires
            old(self).wf(),
            room.wf_in(old(self).width as int, old(self).height as int),
        ensures
            final(self).wf(),
            final(self).width == old(self).width,
            final(self).height == old(self).height,
            final(self).rooms@ == old(self).rooms@,
            final(self).revealed_tiles@ == old(self).revealed_tiles@,
            final(self).visible_tiles@ == old(self).visible_tiles@,
            final(self).tiles@.len() == old(self).tiles@.len(),
            forall|px: int, py: int|
                valid_xy(final(self).width as int, final(self).height as int, px, py)
                    ==> (#[trigger] floor_xy(final(self).tiles@, final(self).width as int, px, py)
                        <==> (room.interior_contains(px, py)
                            || floor_xy(old(self).tiles@, final(self).width as int, px, py))),
    {
        let w = self.width;
        let h = self.height;
        let ghost wi = w as int;
        let ghost hi = h as int;
        let mut y = room.y1 + 1;
        while y <= room.y2
            invariant
                self.wf(),
                wi == self.width as int,
                hi == self.height as int,
                self.width == old(self).width == w,
                self.height == old(self).height == h,
                self.rooms@ == old(self).rooms@,
                self.revealed_tiles@ == old(self).revealed_tiles@,
                self.visible_tiles@ == old(self).visible_tiles@,
                self.tiles@.len() == old(self).tiles@.len(),
                room.wf_in(wi, hi),
                room.y1 + 1 <= y <= room.y2 + 1,
                forall|px: int, py: int|
                    valid_xy(wi, hi, px, py)
                        ==> (#[trigger] floor_xy(self.tiles@, wi, px, py)
                            <==> ((room.interior_contains(px, py) && py < y)
                                || floor_xy(old(self).tiles@, wi, px, py))),
            decreases room.y2 + 1 - y,
        {
            let mut x = room.x1 + 1;
            while x <= room.x2
                invariant
                    self.wf(),
                    wi == self.width as int,
                    hi == self.height as int,
                    self.width == old(self).width == w,
                    self.height == old(self).height == h,
                    self.rooms@ == old(self).rooms@,
                    self.revealed_tiles@ == old(self).revealed_tiles@,
                    self.visible_tiles@ == old(self).visible_tiles@,
                    self.tiles@.len() == old(self).tiles@.len(),
                    room.wf_in(wi, hi),
                    room.y1 + 1 <= y <= room.y2,
                    room.x1 + 1 <= x <= room.x2 + 1,
                    forall|px: int, py: int|
                        valid_xy(wi, hi, px, py)
                            ==> (#[trigger] floor_xy(self.tiles@, wi, px, py)
                                <==> ((room.interior_contains(px, py)
                                        && (py < y || (py == y && px < x)))
                                    || floor_xy(old(self).tiles@, wi, px, py))),
                decreases room.x2 + 1 - x,
            {
                let ghost before = self.tiles@;
                let i = self.xy_idx(x, y);
                self.tiles[i] = TileType::Floor;
                proof {
                    assert forall|px: int, py: int| valid_xy(wi, hi, px, py)
                        implies (#[trigger] floor_xy(self.tiles@, wi, px, py)
                            <==> ((room.interior_contains(px, py)
                                    && (py < y || (py == y && px < x + 1)))
                                || floor_xy(old(self).tiles@, wi, px, py))) by {
                        lemma_cell_index_bounds(wi, hi, px, py);
                        assert(floor_xy(before, wi, px, py)
                            <==> ((room.interior_contains(px, py)
                                    && (py < y || (py == y && px < x)))
                                || floor_xy(old(self).tiles@, wi, px, py)));
                        if cell_index(wi, px, py) == i as int {
                            lemma_cell_index_injective(wi, hi, px, py, x as int, y as int);
                        }
                    }
                }
                x += 1;
            }
            y += 1;
        }
    }

    /// Carve the horizontal corridor run at row `y` between columns `xa`
    /// and `xb` to floor; everything else is left as it was.
    pub fn apply_horizontal_tunnel(&mut self, xa: i32, xb: i32, y: i32)
        requires
            old(self).wf(),
            0 <= xa < old(self).width,
            0 <= xb < old(self).width,
            0 <= y < old(self).height,
        ensures
            final(self).wf(),
            final(self).width == old(self).width,
            final(self).height == old(self).height,
            final(self).rooms@ == old(self).rooms@,
            final(self).revealed_tiles@ == old(self).revealed_tiles@,
            final(self).visible_tiles@ == old(self).visible_tiles@,
            final(self).tiles@.len() == old(self).tiles@.len(),
            forall|px: int, py: int|
                valid_xy(final(self).width as int, final(self).height as int, px, py)
                    ==> (#[trigger] floor_xy(final(self).tiles@, final(self).width as int, px, py)
                        <==> (on_horiz_run(px, py, xa as int, xb as int, y as int)
                            || floor_xy(old(self).tiles@, final(self).width as int, px, py))),
    {
        let ghost wi = self.width as int;
        let ghost hi = self.height as int;
        let lo = if xa <= xb { xa } else { xb };
        let hi_x = if xa <= xb { xb } else { xa };
        let mut x = lo;
        while x <= hi_x
            invariant
                self.wf(),
                wi == self.width as int,
                hi == self.height as int,
                self.width == old(self).width,
                self.height == old(self).height,
                self.rooms@ == old(self).rooms@,
                self.revealed_tiles@ == old(self).revealed_tiles@,
                self.visible_tiles@ == old(self).visible_tiles@,
                self.tiles@.len() == old(self).tiles@.len(),
                0 <= lo <= x <= hi_x + 1,
                hi_x < self.width,
                0 <= y < self.height,
                lo == (if xa <= xb { xa } else { xb }),
                hi_x == (if xa <= xb { xb } else { xa }),
                forall|px: int, py: int|
                    valid_xy(wi, hi, px, py)
                        ==> (#[trigger] floor_xy(self.tiles@, wi, px, py)
                            <==> ((py == y && lo <= px < x)
                                || floor_xy(old(self).tiles@, wi, px, py))),
            decreases hi_x + 1 - x,
        {
            let ghost before = self.tiles@;
            let i = self.xy_idx(x, y);
            self.tiles[i] = TileType::Floor;
            proof {
                assert forall|px: int, py: int| valid_xy(wi, hi, px, py)
                    implies (#[trigger] floor_xy(self.tiles@, wi, px, py)
                        <==> ((py == y && lo <= px < x + 1)
                            || floor_xy(old(self).tiles@, wi, px, py))) by {
                    lemma_cell_index_bounds(wi, hi, px, py);
                    assert(floor_xy(before, wi, px, py)
                        <==> ((py == y && lo <= px < x)
                            || floor_xy(old(self).tiles@, wi, px, py)));
                    if cell_index(wi, px, py) == i as int {
                        lemma_cell_index_injective(wi, hi, px, py, x as int, y as int);
                    }
                }
            }
            x += 1;
        }
    }

    /// Carve the vertical corridor run at column `x` between rows `ya` and
    /// `yb` to floor; everything else is left as it was.
    pub fn apply_vertical_tunnel(&mut self, ya: i32, yb: i32, x: i32)
        requires
            old(self).wf(),
            0 <= ya < old(self).height,
            0 <= yb < old(self).height,
            0 <= x < old(self).width,
        ensures
            final(self).wf(),
            final(self).width == old(self).width,
            final(self).height == old(self).height,
            final(self).rooms@ == old(self).rooms@,
            final(self).revealed_tiles@ == old(self).revealed_tiles@,
            final(self).visible_tiles@ == old(self).visible_tiles@,
            final(self).tiles@.len() == old(self).tiles@.len(),
            forall|px: int, py: int|
                valid_xy(final(self).width as int, final(self).height as int, px, py)
                    ==> (#[trigger] floor_xy(final(self).tiles@, final(self).width as int, px, py)
                        <==> (on_vert_run(px, py, ya as int, yb as int, x as int)
                            || floor_xy(old(self).tiles@, final(self).width as int, px, py))),
    {
        let ghost wi = self.width as int;
        let ghost hi = self.height as int;
        let lo = if ya <= yb { ya } else { yb };
        let hi_y = if ya <= yb { yb } else { ya };
        let mut y = lo;
        while y <= hi_y
            invariant
                self.wf(),
                wi == self.width as int,
                hi == self.height as int,
                self.width == old(self).width,
                self.height == old(self).height,
                self.rooms@ == old(self).rooms@,
                self.revealed_tiles@ == old(self).revealed_tiles@,
                self.visible_tiles@ == old(self).visible_tiles@,
                self.tiles@.len() == old(self).tiles@.len(),
                0 <= lo <= y <= hi_y + 1,
                hi_y < self.height,
                0 <= x < self.width,
                lo == (if ya <= yb { ya } else { yb }),
                hi_y == (if ya <= yb { yb } else { ya }),
                forall|px: int, py: int|
                    valid_xy(wi, hi, px, py)
                        ==> (#[trigger] floor_xy(self.tiles@, wi, px, py)
                            <==> ((px == x && lo <= py < y)
                                || floor_xy(old(self).tiles@, wi, px, py))),
            decreases hi_y + 1 - y,
        {
            let ghost before = self.tiles@;
            let i = self.xy_idx(x, y);
            self.tiles[i] = TileType::Floor;
            proof {
                assert forall|px: int, py: int| valid_xy(wi, hi, px, py)
                    implies (#[trigger] floor_xy(self.tiles@, wi, px, py)
                        <==> ((px == x && lo <= py < y + 1)
                            || floor_xy(old(self).tiles@, wi, px, py))) by {
                    lemma_cell_index_bounds(wi, hi, px, py);
                    assert(floor_xy(before, wi, px, py)
                        <==> ((px == x && lo <= py < y)
                            || floor_xy(old(self).tiles@, wi, px, py)));
                    if cell_index(wi, px, py) == i as int {
                        lemma_cell_index_injective(wi, hi, px, py, x as int, y as int);
                    }
                }
            }
            y += 1;
        }
    }

    /// What the render pass draws for one cell, as a spec-level value.
    pub open spec fn cell_draw_spec(self, x: int, y: int) -> CellDraw {
        if self.visible_tiles@[cell_index(self.width as int, x, y)] {
            CellDraw::Visible
        } else if self.revealed_tiles@[cell_index(self.width as int, x, y)] {
            CellDraw::Remembered
        } else {
            CellDraw::Hidden
        }
    }

    /// The render consumer interface for the map itself: a currently
    /// visible cell is drawn live, a cell only ever seen before is drawn
    /// as a dimmed memory, and anything else is not drawn at all. The core
    /// classifies; the drawing is an external concern.
    pub fn cell_draw(&self, x: i32, y: i32) -> (r: CellDraw)
        requires
            self.wf(),
            valid_xy(self.width as int, self.height as int, x as int, y as int),
        ensures
            r == self.cell_draw_spec(x as int, y as int),
    {
        let idx = self.xy_idx(x, y);
        if self.visible_tiles[idx] {
            CellDraw::Visible
        } else if self.revealed_tiles[idx] {
            CellDraw::Remembered
        } else {
            CellDraw::Hidden
        }
    }

    /// The interior of every accepted room has been carved to floor.
    pub open spec fn rooms_carved(self) -> bool {
        forall|k: int, x: int, y: int|
            0 <= k < self.rooms@.len() && #[trigger] self.rooms@[k].interior_contains(x, y)
                ==> floor_xy(self.tiles@, self.width as int, x, y)
    }

    /// Every floor cell can be walked to, over floor cells only, from the
    /// center of the spawn room (the first accepted room).
    pub open spec fn fully_connected(self) -> bool {
        forall|x: int, y: int|
            valid_xy(self.width as int, self.height as int, x, y)
                && #[trigger] floor_xy(self.tiles@, self.width as int, x, y)
                ==> reachable(self.tiles@, self.width as int, self.height as int,
                        self.rooms@[0].center_spec(), (x, y))
    }

    /// No cell has been seen yet, neither this frame nor ever.
    pub open spec fn all_unseen(self) -> bool {
        &&& forall|i: int| 0 <= i < self.revealed_tiles@.len()
                ==> !(#[trigger] self.revealed_tiles@[i])
        &&& forall|i: int| 0 <= i < self.visible_tiles@.len()
                ==> !(#[trigger] self.visible_tiles@[i])
    }

    /// Procedural generation: sample candidate rooms inside the grid, keep
    /// the ones that overlap nothing accepted before, carve each accepted
    /// room, and join every accepted room after the first to its predecessor
    /// with an L-shaped corridor, horizontal leg first, carved from the new
    /// room's center toward the previous room's center. The attempt budget
    /// is ten times the requested maximum number of rooms, so generation
    /// always terminates; whether the minimum room count is met within that
    /// budget depends on the seeded draws, and falling short is reported as
    /// an error rather than returning a partial map. One placement is never
    /// in doubt: the first candidate faces no other room to overlap, so a
    /// minimum of one room always succeeds.
    pub fn generate(
        width: i32,
        height: i32,
        min_rooms: usize,
        max_rooms: usize,
        min_size: i32,
        max_size: i32,
        seed: u64,
    ) -> (r: Result<GameMap, MapGenError>)
        requires
            2 <= min_size <= max_size,
            max_size + 4 <= width <= 4096,
            max_size + 4 <= height <= 4096,
            1 <= min_rooms <= max_rooms <= 4096,
        ensures
            min_rooms == 1 ==> r is Ok,
            r matches Ok(m) ==> {
                &&& m.wf()
                &&& m.width == width
                &&& m.height == height
                &&& min_rooms <= m.rooms@.len() <= max_rooms
                &&& rooms_no_overlap(m.rooms@)
                &&& m.rooms_carved()
                &&& m.fully_connected()
                &&& m.all_unseen()
            },
    {
        let ghost wi = width as int;
        let ghost hi = height as int;
        proof {
            assert(wi * hi <= 4096 * 4096) by (nonlinear_arith)
                requires 0 <= wi <= 4096, 0 <= hi <= 4096;
            assert(0 <= wi * hi) by (nonlinear_arith)
                requires 0 <= wi, 0 <= hi;
        }
        let n = (width as usize) * (height as usize);
        let mut map = GameMap {
            tiles: make_tiles(n),
            rooms: Vec::new(),
            width,
            height,
            revealed_tiles: make_flags(n),
            visible_tiles: make_flags(n),
        };
        proof {
            assert forall|x2: int, y2: int| valid_xy(wi, hi, x2, y2)
                implies !(#[trigger] floor_xy(map.tiles@, wi, x2, y2)) by {
                lemma_cell_index_bounds(wi, hi, x2, y2);
            }
        }
        let mut rng = rng_seeded(seed);
        let max_attempts: usize = max_rooms * 10;
        let mut attempts: usize = 0;
        while attempts < max_attempts && map.rooms.len() < max_rooms
            invariant
                map.wf(),
                map.width == width,
                map.height == height,
                wi == width as int,
                hi == height as int,
                2 <= min_size <= max_size,
                max_size + 4 <= width <= 4096,
                max_size + 4 <= height <= 4096,
                1 <= min_rooms <= max_rooms <= 4096,
                max_attempts == max_rooms * 10,
                attempts <= max_attempts,
                map.rooms@.len() <= max_rooms,
                map.rooms@.len() == 0 ==> attempts == 0,
                rooms_no_overlap(map.rooms@),
                map.rooms_carved(),
                map.rooms@.len() == 0 ==> forall|x: int, y: int|
                    valid_xy(wi, hi, x, y) ==> !(#[trigger] floor_xy(map.tiles@, wi, x, y)),
                map.rooms@.len() > 0 ==> map.fully_connected(),
                map.all_unseen(),
            decreases max_attempts - attempts,
        {
            attempts += 1;
            let rw = rng_range(&mut rng, min_size, max_size + 1);
            let rh = rng_range(&mut rng, min_size, max_size + 1);
            let x = rng_range(&mut rng, 0, width - rw - 1);
            let y = rng_range(&mut rng, 0, height - rh - 1);
            let new_room = Rect::new(x, y, rw, rh);
            assert(new_room.wf_in(wi, hi));
            if room_fits(&map.rooms, &new_room) {
                let ghost rooms0 = map.rooms@;
                let ghost t0 = map.tiles@;
                map.apply_room_to_map(&new_room);
                let ghost t1 = map.tiles@;
                proof {
                    new_room.lemma_center_in_interior(wi, hi);
                }
                if map.rooms.len() == 0 {
                    map.rooms.push(new_room);
                    proof {
                        let c = new_room.center_spec();
                        assert(floor_xy(t1, wi, c.0, c.1));
                        lemma_reachable_refl(t1, wi, hi, c);
                        assert forall|px: int, py: int|
                            new_room.x1 + 1 <= px <= new_room.x2
                                && new_room.y1 + 1 <= py <= new_room.y2
                            implies #[trigger] floor_xy(t1, wi, px, py) by {
                            assert(floor_xy(t1, wi, px, py));
                        }
                        assert forall|px: int, py: int|
                            valid_xy(wi, hi, px, py) && #[trigger] floor_xy(t1, wi, px, py)
                            implies reachable(t1, wi, hi, c, (px, py)) by {
                            assert(!floor_xy(t0, wi, px, py));
                            assert(new_room.interior_contains(px, py));
                            lemma_reach_rect(t1, wi, hi, c,
                                new_room.x1 + 1, new_room.y1 + 1,
                                new_room.x2 as int, new_room.y2 as int,
                                c.0, c.1, px, py);
                        }
                        assert(map.fully_connected());
                    }
                } else {
                    let (new_x, new_y) = new_room.center();
                    let prev = map.rooms[map.rooms.len() - 1];
                    let (prev_x, prev_y) = prev.center();
                    proof {
                        prev.lemma_center_in_interior(wi, hi);
                    }
                    map.apply_horizontal_tunnel(new_x, prev_x, new_y);
                    let ghost t2 = map.tiles@;
                    map.apply_vertical_tunnel(new_y, prev_y, prev_x);
                    let ghost t3 = map.tiles@;
                    map.rooms.push(new_room);
                    proof {
                        let c0 = rooms0[0].center_spec();
                        let pc = prev.center_spec();
                        let nc = new_room.center_spec();
                        rooms0[0].lemma_center_in_interior(wi, hi);
                        // the floor set only grows through the three carves
                        assert forall|px: int, py: int|
                            valid_xy(wi, hi, px, py) && #[trigger] floor_xy(t0, wi, px, py)
                            implies floor_xy(t3, wi, px, py) by {
                            assert(floor_xy(t1, wi, px, py));
                            assert(floor_xy(t2, wi, px, py));
                        }
                        // the previous room's center was floor and reachable
                        assert(floor_xy(t0, wi, pc.0, pc.1));
                        assert(reachable(t0, wi, hi, c0, pc));
                        lemma_reachable_mono(t0, t3, wi, hi, c0, pc);
                        // walk the vertical corridor leg from the previous
                        // center to the corner, at column prev_x
                        assert forall|yy: int|
                            (if new_y as int <= prev_y as int { new_y as int <= yy <= prev_y as int }
                                else { prev_y as int <= yy <= new_y as int })
                            implies #[trigger] floor_xy(t3, wi, prev_x as int, yy) by {
                            assert(on_vert_run(prev_x as int, yy, new_y as int, prev_y as int,
                                prev_x as int));
                            assert(floor_xy(t3, wi, prev_x as int, yy));
                        }
                        let y_lo = if new_y as int <= prev_y as int { new_y as int } else { prev_y as int };
                        let y_hi = if new_y as int <= prev_y as int { prev_y as int } else { new_y as int };
                        lemma_reach_vert(t3, wi, hi, c0, prev_x as int, y_lo, y_hi,
                            prev_y as int, new_y as int);
                        // walk the horizontal corridor leg from the corner to
                        // the new room's center, at row new_y
                        assert forall|xx: int|
                            (if new_x as int <= prev_x as int { new_x as int <= xx <= prev_x as int }
                                else { prev_x as int <= xx <= new_x as int })
                            implies #[trigger] floor_xy(t3, wi, xx, new_y as int) by {
                            assert(on_horiz_run(xx, new_y as int, new_x as int, prev_x as int,
                                new_y as int));
                            assert(floor_xy(t2, wi, xx, new_y as int));
                            assert(floor_xy(t3, wi, xx, new_y as int));
                        }
                        let x_lo = if new_x as int <= prev_x as int { new_x as int } else { prev_x as int };
                        let x_hi = if new_x as int <= prev_x as int { prev_x as int } else { new_x as int };
                        lemma_reach_horiz(t3, wi, hi, c0, new_y as int, x_lo, x_hi,
                            prev_x as int, new_x as int);
                        assert(reachable(t3, wi, hi, c0, nc));
                        // the new room's interior is floor
                        assert forall|px: int, py: int|
                            new_room.x1 + 1 <= px <= new_room.x2
                                && new_room.y1 + 1 <= py <= new_room.y2
                            implies #[trigger] floor_xy(t3, wi, px, py) by {
                            assert(floor_xy(t1, wi, px, py));
                            assert(floor_xy(t2, wi, px, py));
                            assert(floor_xy(t3, wi, px, py));
                        }
                        // every floor cell is one of: old floor, new room
                        // interior, horizontal leg, vertical leg
                        assert forall|px: int, py: int|
                            valid_xy(wi, hi, px, py) && #[trigger] floor_xy(t3, wi, px, py)
                            implies reachable(t3, wi, hi, c0, (px, py)) by {
                            if floor_xy(t0, wi, px, py) {
                                lemma_reachable_mono(t0, t3, wi, hi, c0, (px, py));
                            } else if new_room.interior_contains(px, py) {
                                lemma_reach_rect(t3, wi, hi, c0,
                                    new_room.x1 + 1, new_room.y1 + 1,
                                    new_room.x2 as int, new_room.y2 as int,
                                    nc.0, nc.1, px, py);
                            } else {
                                assert(floor_xy(t2, wi, px, py)
                                    || on_vert_run(px, py, new_y as int, prev_y as int, prev_x as int));
                                if on_vert_run(px, py, new_y as int, prev_y as int, prev_x as int) {
                                    lemma_reach_vert(t3, wi, hi, c0, prev_x as int, y_lo, y_hi,
                                        prev_y as int, py);
                                } else {
                                    assert(floor_xy(t1, wi, px, py)
                                        || on_horiz_run(px, py, new_x as int, prev_x as int, new_y as int));
                                    assert(on_horiz_run(px, py, new_x as int, prev_x as int, new_y as int));
                                    lemma_reach_horiz(t3, wi, hi, c0, new_y as int, x_lo, x_hi,
                                        prev_x as int, px);
                                }
                            }
                        }
                        assert(map.rooms@[0] == rooms0[0]);
                        assert(map.fully_connected());
                    }
                }
                proof {
                    // every accepted room's interior is still floor
                    assert forall|k: int, x2: int, y2: int|
                        0 <= k < map.rooms@.len()
                            && #[trigger] map.rooms@[k].interior_contains(x2, y2)
                        implies floor_xy(map.tiles@, wi, x2, y2) by {
                        if k < map.rooms@.len() - 1 {
                            assert(rooms0[k].interior_contains(x2, y2));
                            assert(floor_xy(t0, wi, x2, y2));
                            assert(floor_xy(t1, wi, x2, y2));
                        } else {
                            assert(floor_xy(t1, wi, x2, y2));
                        }
                    }
                    assert(map.rooms_carved());
                    assert(rooms_no_overlap(map.rooms@));
                }
            }
        }
        proof {
            if map.rooms@.len() == 0 {
                assert(attempts == 0 && attempts < max_attempts && map.rooms@.len() < max_rooms);
            }
        }
        if map.rooms.len() < min_rooms {
            return Err(MapGenError::NotEnoughRooms);
        }
        Ok(map)
    }
}

/// Overlap test of a candidate against every room accepted so far.
fn room_fits(rooms: &Vec<Rect>, candidate: &Rect) -> (ok: bool)
    ensures
        ok <==> forall|k: int| 0 <= k < rooms@.len()
            ==> !(#[trigger] rooms@[k]).overlaps(*candidate),
{
    let mut j: usize = 0;
    let mut ok = true;
    while j < rooms.len()
        invariant
            j <= rooms@.len(),
            ok <==> forall|k: int| 0 <= k < j ==> !(#[trigger] rooms@[k]).overlaps(*candidate),
        decreases rooms@.len() - j,
    {
        if rooms[j].intersect(candidate) {
            ok = false;
        }
        j += 1;
    }
    ok
}

/// A fresh all-wall tile array of the given length.
fn make_tiles(n: usize) -> (v: Vec<TileType>)
    ensures
        v@.len() == n,
        forall|i: int| 0 <= i < n ==> (#[trigger] v@[i]) is Wall,
{
    let mut v: Vec<TileType> = Vec::new();
    while v.len() < n
        invariant
            v@.len() <= n,
            forall|i: int| 0 <= i < v@.len() ==> (#[trigger] v@[i]) is Wall,
        decreases n - v@.len(),
    {
        v.push(TileType::Wall);
    }
    v
}

/// A fresh all-false per-cell flag array of the given length.
fn make_flags(n: usize) -> (v: Vec<bool>)
    ensures
        v@.len() == n,
        forall|i: int| 0 <= i < n ==> !(#[trigger] v@[i]),
{
    let mut v: Vec<bool> = Vec::new();
    while v.len() < n
        invariant
            v@.len() <= n,
            forall|i: int| 0 <= i < v@.len() ==> !(#[trigger] v@[i]),
        decreases n - v@.len(),
    {
        v.push(false);
    }
    v
}

} // verus!
