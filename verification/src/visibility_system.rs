use vstd::prelude::*;
use crate::components::{Position, Viewshed};
use crate::map::{GameMap, TileType, cell_index, valid_xy, lemma_cell_index_bounds,
    lemma_cell_index_injective};
use crate::world::World;

verus! {

/// The external field-of-view computation, the collaborator this core
/// depends on but does not define: given the tile grid, its dimensions, an
/// origin and a radius, it returns the cells it considers visible (walls
/// block sight, floors pass it). The core promises nothing about what comes
/// back; whatever it is, it is clipped to the map bounds before being
/// stored.
pub trait FovSource {
    fn field_of_view(
        &mut self,
        tiles: &Vec<TileType>,
        width: i32,
        height: i32,
        origin: Position,
        range: i32,
    ) -> Vec<Position>;
}

/// True when entity `e` must have its viewshed recomputed this pass: it has
/// a position and a viewshed, and the viewshed is marked dirty.
pub open spec fn needs_recompute(w: World, e: int) -> bool {
    &&& w.positions@[e] is Some
    &&& w.viewsheds@[e] matches Some(vs) && vs.dirty
}

/// At most one entity carries the player tag.
pub open spec fn at_most_one_player(w: World) -> bool {
    forall|e1: int, e2: int|
        0 <= e1 < w.n_entities() && 0 <= e2 < w.n_entities()
            && #[trigger] w.players@[e1] && #[trigger] w.players@[e2] ==> e1 == e2
}

/// The index of the player entity, if any.
pub open spec fn player_index(w: World) -> int {
    choose|e: int| 0 <= e < w.n_entities() && w.players@[e]
}

pub open spec fn has_player(w: World) -> bool {
    exists|e: int| 0 <= e < w.n_entities() && #[trigger] w.players@[e]
}

/// Some coordinate among the first `upto` entries of `cs` maps to cell
/// index `i`.
pub open spec fn coord_hits(cs: Seq<Position>, upto: int, width: int, i: int) -> bool {
    exists|j: int|
        0 <= j < upto && cell_index(width, (#[trigger] cs[j]).x as int, cs[j].y as int) == i
}

/// Entity `e`'s viewshed was recomputed: the cache is clean again, the
/// range is kept, and every stored cell lies inside the map.
pub open spec fn recomputed(w_old: World, w_new: World, e: int, width: int, height: int) -> bool {
    &&& w_new.viewsheds@[e] matches Some(vs2) && {
        &&& !vs2.dirty
        &&& (w_old.viewsheds@[e] matches Some(vs1) && vs2.range == vs1.range)
        &&& forall|j: int| 0 <= j < vs2.visible_tiles@.len()
                ==> valid_xy(width, height, (#[trigger] vs2.visible_tiles@[j]).x as int,
                    vs2.visible_tiles@[j].y as int)
    }
}

/// The visibility pass. Once per simulation tick, every entity with a
/// position and a dirty viewshed gets its visible set recomputed through
/// the external field-of-view source and its dirty flag cleared; an entity
/// whose viewshed is clean is not touched, which is the caching contract.
/// If the recomputed entity is the player, its visible set overwrites the
/// map's per-frame visible set and is merged into the map's ever-revealed
/// set, which therefore only grows.
pub struct VisiblitySystem {}

impl VisiblitySystem {
    pub fn run<F: FovSource>(world: &mut World, map: &mut GameMap, fov: &mut F)
        requires
            old(world).wf(),
            old(map).wf(),
            at_most_one_player(*old(world)),
        ensures
            final(world).wf(),
            final(world).n_entities() == old(world).n_entities(),
            final(world).positions@ == old(world).positions@,
            final(world).renderables@ == old(world).renderables@,
            final(world).players@ == old(world).players@,
            final(world).monsters@ == old(world).monsters@,
            final(world).names@ == old(world).names@,
            final(world).pending_spawns@ == old(world).pending_spawns@,
            final(world).pending_despawns@ == old(world).pending_despawns@,
            final(map).wf(),
            final(map).tiles@ == old(map).tiles@,
            final(map).rooms@ == old(map).rooms@,
            final(map).width == old(map).width,
            final(map).height == old(map).height,
            final(map).revealed_tiles@.len() == old(map).revealed_tiles@.len(),
            final(map).visible_tiles@.len() == old(map).visible_tiles@.len(),
            // the ever-seen memory only grows
            forall|i: int| 0 <= i < old(map).revealed_tiles@.len()
                && #[trigger] old(map).revealed_tiles@[i] ==> final(map).revealed_tiles@[i],
            // clean caches are left alone
            forall|e: int| 0 <= e < old(world).n_entities() && !needs_recompute(*old(world), e)
                ==> #[trigger] final(world).viewsheds@[e] == old(world).viewsheds@[e],
            // dirty caches are recomputed, cleaned, and clipped to bounds
            forall|e: int| 0 <= e < old(world).n_entities() && #[trigger] needs_recompute(*old(world), e)
                ==> recomputed(*old(world), *final(world), e,
                    old(map).width as int, old(map).height as int),
            // only a recomputed player changes what the map shows
            !(has_player(*old(world)) && needs_recompute(*old(world), player_index(*old(world))))
                ==> final(map).visible_tiles@ == old(map).visible_tiles@
                    && final(map).revealed_tiles@ == old(map).revealed_tiles@,
            // a recomputed player is the sole source of the map's visible
            // set, and exactly its cells are newly revealed
            (has_player(*old(world)) && needs_recompute(*old(world), player_index(*old(world))))
                ==> (final(world).viewsheds@[player_index(*old(world))] matches Some(pvs)
                    && (forall|i: int| 0 <= i < final(map).visible_tiles@.len()
                        ==> ((#[trigger] final(map).visible_tiles@[i])
                            <==> coord_hits(pvs.visible_tiles@, pvs.visible_tiles@.len() as int,
                                old(map).width as int, i)))
                    && (forall|i: int| 0 <= i < final(map).revealed_tiles@.len()
                        ==> ((#[trigger] final(map).revealed_tiles@[i])
                            <==> (old(map).revealed_tiles@[i]
                                || coord_hits(pvs.visible_tiles@, pvs.visible_tiles@.len() as int,
                                    old(map).width as int, i))))),
    {
        let ghost w0 = *old(world);
        let ghost m0 = *old(map);
        let ghost wi = map.width as int;
        let ghost hi = map.height as int;
        let n = world.len();
        let mut e: usize = 0;
        while e < n
            invariant
                world.wf(),
                map.wf(),
                n == w0.n_entities(),
                e <= n,
                wi == m0.width as int,
                hi == m0.height as int,
                at_most_one_player(w0),
                world.n_entities() == w0.n_entities(),
                world.positions@ == w0.positions@,
                world.renderables@ == w0.renderables@,
                world.players@ == w0.players@,
                world.monsters@ == w0.monsters@,
                world.names@ == w0.names@,
                world.pending_spawns@ == w0.pending_spawns@,
                world.pending_despawns@ == w0.pending_despawns@,
                map.tiles@ == m0.tiles@,
                map.rooms@ == m0.rooms@,
                map.width == m0.width,
                map.height == m0.height,
                map.revealed_tiles@.len() == m0.revealed_tiles@.len(),
                map.visible_tiles@.len() == m0.visible_tiles@.len(),
                forall|i: int| 0 <= i < m0.revealed_tiles@.len()
                    && #[trigger] m0.revealed_tiles@[i] ==> map.revealed_tiles@[i],
                forall|e2: int| e <= e2 < n
                    ==> #[trigger] world.viewsheds@[e2] == w0.viewsheds@[e2],
                forall|e2: int| 0 <= e2 < e && !needs_recompute(w0, e2)
                    ==> #[trigger] world.viewsheds@[e2] == w0.viewsheds@[e2],
                forall|e2: int| 0 <= e2 < e && #[trigger] needs_recompute(w0, e2)
                    ==> recomputed(w0, *world, e2, wi, hi),
                !(has_player(w0) && player_index(w0) < e && needs_recompute(w0, player_index(w0)))
                    ==> map.visible_tiles@ == m0.visible_tiles@
                        && map.revealed_tiles@ == m0.revealed_tiles@,
                (has_player(w0) && player_index(w0) < e && needs_recompute(w0, player_index(w0)))
                    ==> (world.viewsheds@[player_index(w0)] matches Some(pvs)
                        && (forall|i: int| 0 <= i < map.visible_tiles@.len()
                            ==> ((#[trigger] map.visible_tiles@[i])
                                <==> coord_hits(pvs.visible_tiles@,
                                    pvs.visible_tiles@.len() as int, wi, i)))
                        && (forall|i: int| 0 <= i < map.revealed_tiles@.len()
                            ==> ((#[trigger] map.revealed_tiles@[i])
                                <==> (m0.revealed_tiles@[i]
                                    || coord_hits(pvs.visible_tiles@,
                                        pvs.visible_tiles@.len() as int, wi, i))))),
            decreases n - e,
        {
            let dirty = match &world.viewsheds[e] {
                Some(vs) => vs.dirty,
                None => false,
            };
            let has_pos = world.positions[e].is_some();
            if dirty && has_pos {
                let pos = world.positions[e].unwrap();
                let range = match &world.viewsheds[e] {
                    Some(vs) => vs.range,
                    None => 0,
                };
                let raw = fov.field_of_view(&map.tiles, map.width, map.height, pos, range);
                let mut vis: Vec<Position> = Vec::new();
                let mut j: usize = 0;
                while j < raw.len()
                    invariant
                        j <= raw@.len(),
                        map.wf(),
                        map.width == m0.width,
                        map.height == m0.height,
                        wi == m0.width as int,
                        hi == m0.height as int,
                        forall|t: int| 0 <= t < vis@.len()
                            ==> valid_xy(wi, hi, (#[trigger] vis@[t]).x as int,
                                vis@[t].y as int),
                    decreases raw@.len() - j,
                {
                    let c = raw[j];
                    if c.x >= 0 && c.x < map.width && c.y >= 0 && c.y < map.height {
                        vis.push(c);
                    }
                    j += 1;
                }
                if world.players[e] {
                    proof {
                        assert(w0.players@[e as int]);
                        assert(has_player(w0));
                        assert(player_index(w0) == e as int);
                    }
                    clear_visible(map);
                    let mut t: usize = 0;
                    while t < vis.len()
                        invariant
                            t <= vis@.len(),
                            map.wf(),
                            map.tiles@ == m0.tiles@,
                            map.rooms@ == m0.rooms@,
                            map.width == m0.width,
                            map.height == m0.height,
                            wi == m0.width as int,
                            hi == m0.height as int,
                            map.revealed_tiles@.len() == m0.revealed_tiles@.len(),
                            map.visible_tiles@.len() == m0.visible_tiles@.len(),
                            forall|u: int| 0 <= u < vis@.len()
                                ==> valid_xy(wi, hi, (#[trigger] vis@[u]).x as int,
                                    vis@[u].y as int),
                            forall|i: int| 0 <= i < map.visible_tiles@.len()
                                ==> ((#[trigger] map.visible_tiles@[i])
                                    <==> coord_hits(vis@, t as int, wi, i)),
                            forall|i: int| 0 <= i < map.revealed_tiles@.len()
                                ==> ((#[trigger] map.revealed_tiles@[i])
                                    <==> (m0.revealed_tiles@[i]
                                        || coord_hits(vis@, t as int, wi, i))),
                        decreases vis@.len() - t,
                    {
                        let ghost mv = map.visible_tiles@;
                        let ghost mr = map.revealed_tiles@;
                        let c = vis[t];
                        let idx = map.xy_idx(c.x, c.y);
                        map.visible_tiles[idx] = true;
                        map.revealed_tiles[idx] = true;
                        t += 1;
                        proof {
                            assert forall|i: int| 0 <= i < map.visible_tiles@.len()
                                implies ((#[trigger] map.visible_tiles@[i])
                                    <==> coord_hits(vis@, t as int, wi, i)) by {
                                if i == idx as int {
                                    assert(cell_index(wi, vis@[t as int - 1].x as int,
                                        vis@[t as int - 1].y as int) == i);
                                    assert(coord_hits(vis@, t as int, wi, i));
                                } else {
                                    if coord_hits(vis@, t as int, wi, i) {
                                        let jj = choose|jj: int| 0 <= jj < t as int
                                            && cell_index(wi, (vis@[jj]).x as int,
                                                (vis@[jj]).y as int) == i;
                                        assert(jj < t as int - 1);
                                        assert(coord_hits(vis@, t as int - 1, wi, i));
                                    }
                                    if coord_hits(vis@, t as int - 1, wi, i) {
                                        let jj = choose|jj: int| 0 <= jj < t as int - 1
                                            && cell_index(wi, (vis@[jj]).x as int,
                                                (vis@[jj]).y as int) == i;
                                        assert(coord_hits(vis@, t as int, wi, i));
                                    }
                                }
                            }
                            assert forall|i: int| 0 <= i < map.revealed_tiles@.len()
                                implies ((#[trigger] map.revealed_tiles@[i])
                                    <==> (m0.revealed_tiles@[i]
                                        || coord_hits(vis@, t as int, wi, i))) by {
                                if i == idx as int {
                                    assert(cell_index(wi, vis@[t as int - 1].x as int,
                                        vis@[t as int - 1].y as int) == i);
                                    assert(coord_hits(vis@, t as int, wi, i));
                                } else {
                                    if coord_hits(vis@, t as int, wi, i) {
                                        let jj = choose|jj: int| 0 <= jj < t as int
                                            && cell_index(wi, (vis@[jj]).x as int,
                                                (vis@[jj]).y as int) == i;
                                        assert(jj < t as int - 1);
                                        assert(coord_hits(vis@, t as int - 1, wi, i));
                                    }
                                    if coord_hits(vis@, t as int - 1, wi, i) {
                                        let jj = choose|jj: int| 0 <= jj < t as int - 1
                                            && cell_index(wi, (vis@[jj]).x as int,
                                                (vis@[jj]).y as int) == i;
                                        assert(coord_hits(vis@, t as int, wi, i));
                                    }
                                }
                            }
                        }
                    }
                }
                world.viewsheds[e] = Some(Viewshed { visible_tiles: vis, range, dirty: false });
            }
            e += 1;
        }
    }
}

/// Reset the per-frame visible set: it is fully recomputed each tick, never
/// accumulated.
fn clear_visible(map: &mut GameMap)
    requires
        old(map).wf(),
    ensures
        final(map).wf(),
        final(map).tiles@ == old(map).tiles@,
        final(map).rooms@ == old(map).rooms@,
        final(map).width == old(map).width,
        final(map).height == old(map).height,
        final(map).revealed_tiles@ == old(map).revealed_tiles@,
        final(map).visible_tiles@.len() == old(map).visible_tiles@.len(),
        forall|i: int| 0 <= i < final(map).visible_tiles@.len()
            ==> !(#[trigger] final(map).visible_tiles@[i]),
{
    let mut i: usize = 0;
    let n = map.visible_tiles.len();
    while i < n
        invariant
            map.wf(),
            n == map.visible_tiles@.len(),
            i <= n,
            map.tiles@ == old(map).tiles@,
            map.rooms@ == old(map).rooms@,
            map.width == old(map).width,
            map.height == old(map).height,
            map.revealed_tiles@ == old(map).revealed_tiles@,
            map.visible_tiles@.len() == old(map).visible_tiles@.len(),
            forall|k: int| 0 <= k < i ==> !(#[trigger] map.visible_tiles@[k]),
        decreases n - i,
    {
        map.visible_tiles[i] = false;
        i += 1;
    }
}

} // verus!
