use vstd::prelude::*;
use crate::map::{TileType, cell_index, valid_xy};

verus! {

/// Two cells are adjacent when they differ by one step in exactly one axis.
pub open spec fn adjacent(a: (int, int), b: (int, int)) -> bool {
    ||| (a.0 == b.0 && (a.1 == b.1 + 1 || a.1 + 1 == b.1))
    ||| (a.1 == b.1 && (a.0 == b.0 + 1 || a.0 + 1 == b.0))
}

pub open spec fn floor_xy(tiles: Seq<TileType>, width: int, x: int, y: int) -> bool {
    tiles[cell_index(width, x, y)] is Floor
}

/// A walk over floor cells: every step is to an adjacent in-bounds floor cell.
pub open spec fn is_floor_path(
    tiles: Seq<TileType>,
    width: int,
    height: int,
    p: Seq<(int, int)>,
) -> bool {
    &&& p.len() >= 1
    &&& forall|i: int|
        0 <= i < p.len() ==> valid_xy(width, height, (#[trigger] p[i]).0, p[i].1)
            && floor_xy(tiles, width, p[i].0, p[i].1)
    &&& forall|i: int| 0 <= i < p.len() - 1 ==> adjacent(#[trigger] p[i], p[i + 1])
}

/// A cell is reachable from another when some floor-only walk joins them.
pub open spec fn reachable(
    tiles: Seq<TileType>,
    width: int,
    height: int,
    from: (int, int),
    to: (int, int),
) -> bool {
    exists|p: Seq<(int, int)>|
        is_floor_path(tiles, width, height, p) && p.first() == from && p.last() == to
}

pub proof fn lemma_reachable_refl(tiles: Seq<TileType>, width: int, height: int, c: (int, int))
    requires
        valid_xy(width, height, c.0, c.1),
        floor_xy(tiles, width, c.0, c.1),
    ensures
        reachable(tiles, width, height, c, c),
{
    let p = seq![c];
    assert(is_floor_path(tiles, width, height, p) && p.first() == c && p.last() == c);
}

/// Extending a walk by one adjacent floor cell keeps it a walk.
pub proof fn lemma_reachable_step(
    tiles: Seq<TileType>,
    width: int,
    height: int,
    a: (int, int),
    b: (int, int),
    c: (int, int),
)
    requires
        reachable(tiles, width, height, a, b),
        adjacent(b, c),
        valid_xy(width, height, c.0, c.1),
        floor_xy(tiles, width, c.0, c.1),
    ensures
        reachable(tiles, width, height, a, c),
{
    let p = choose|p: Seq<(int, int)>|
        is_floor_path(tiles, width, height, p) && p.first() == a && p.last() == b;
    let q = p.push(c);
    assert forall|i: int| 0 <= i < q.len() - 1 implies adjacent(#[trigger] q[i], q[i + 1]) by {
        if i < p.len() - 1 {
            assert(adjacent(p[i], p[i + 1]));
        } else {
            assert(q[i] == p.last() && q[i + 1] == c);
        }
    }
    assert(is_floor_path(tiles, width, height, q) && q.first() == a && q.last() == c);
}

/// Turning wall cells into floor never severs a walk: any floor path in the
/// old tiles is still a floor path in the new ones.
pub proof fn lemma_reachable_mono(
    t1: Seq<TileType>,
    t2: Seq<TileType>,
    width: int,
    height: int,
    a: (int, int),
    b: (int, int),
)
    requires
        reachable(t1, width, height, a, b),
        forall|x: int, y: int|
            valid_xy(width, height, x, y) && #[trigger] floor_xy(t1, width, x, y)
                ==> floor_xy(t2, width, x, y),
    ensures
        reachable(t2, width, height, a, b),
{
    let p = choose|p: Seq<(int, int)>|
        is_floor_path(t1, width, height, p) && p.first() == a && p.last() == b;
    assert forall|i: int| 0 <= i < p.len() implies valid_xy(width, height, (#[trigger] p[i]).0, p[i].1)
        && floor_xy(t2, width, p[i].0, p[i].1) by {
        assert(floor_xy(t1, width, p[i].0, p[i].1));
    }
    assert(is_floor_path(t2, width, height, p) && p.first() == a && p.last() == b);
}

/// Walking a horizontal run of floor cells: if every cell of the run at row
/// y between columns x_lo and x_hi is in-bounds floor, reaching one cell of
/// the run reaches them all.
pub proof fn lemma_reach_horiz(
    tiles: Seq<TileType>,
    width: int,
    height: int,
    s: (int, int),
    y: int,
    x_lo: int,
    x_hi: int,
    x0: int,
    xt: int,
)
    requires
        reachable(tiles, width, height, s, (x0, y)),
        0 <= y < height,
        0 <= x_lo,
        x_hi < width,
        x_lo <= x0 <= x_hi,
        x_lo <= xt <= x_hi,
        forall|x: int| x_lo <= x <= x_hi ==> #[trigger] floor_xy(tiles, width, x, y),
    ensures
        reachable(tiles, width, height, s, (xt, y)),
    decreases (if x0 <= xt { xt - x0 } else { x0 - xt }),
{
    if xt == x0 {
    } else {
        let xn: int = if xt > x0 { xt - 1 } else { xt + 1 };
        lemma_reach_horiz(tiles, width, height, s, y, x_lo, x_hi, x0, xn);
        assert(floor_xy(tiles, width, xt, y));
        lemma_reachable_step(tiles, width, height, s, (xn, y), (xt, y));
    }
}

/// Walking a vertical run of floor cells, as for horizontal runs.
pub proof fn lemma_reach_vert(
    tiles: Seq<TileType>,
    width: int,
    height: int,
    s: (int, int),
    x: int,
    y_lo: int,
    y_hi: int,
    y0: int,
    yt: int,
)
    requires
        reachable(tiles, width, height, s, (x, y0)),
        0 <= x < width,
        0 <= y_lo,
        y_hi < height,
        y_lo <= y0 <= y_hi,
        y_lo <= yt <= y_hi,
        forall|y: int| y_lo <= y <= y_hi ==> #[trigger] floor_xy(tiles, width, x, y),
    ensures
        reachable(tiles, width, height, s, (x, yt)),
    decreases (if y0 <= yt { yt - y0 } else { y0 - yt }),
{
    if yt == y0 {
    } else {
        let yn: int = if yt > y0 { yt - 1 } else { yt + 1 };
        lemma_reach_vert(tiles, width, height, s, x, y_lo, y_hi, y0, yn);
        assert(floor_xy(tiles, width, x, yt));
        lemma_reachable_step(tiles, width, height, s, (x, yn), (x, yt));
    }
}

/// Inside a fully-floored rectangular block, every cell is reachable from
/// any reachable cell of the block: walk along the row, then the column.
pub proof fn lemma_reach_rect(
    tiles: Seq<TileType>,
    width: int,
    height: int,
    s: (int, int),
    bx1: int,
    by1: int,
    bx2: int,
    by2: int,
    cx: int,
    cy: int,
    x: int,
    y: int,
)
    requires
        reachable(tiles, width, height, s, (cx, cy)),
        0 <= bx1, bx2 < width, 0 <= by1, by2 < height,
        bx1 <= cx <= bx2 && by1 <= cy <= by2,
        bx1 <= x <= bx2 && by1 <= y <= by2,
        forall|px: int, py: int|
            bx1 <= px <= bx2 && by1 <= py <= by2
                ==> #[trigger] floor_xy(tiles, width, px, py),
    ensures
        reachable(tiles, width, height, s, (x, y)),
{
    assert forall|px: int| bx1 <= px <= bx2
        implies #[trigger] floor_xy(tiles, width, px, cy) by {
        assert(floor_xy(tiles, width, px, cy));
    }
    lemma_reach_horiz(tiles, width, height, s, cy, bx1, bx2, cx, x);
    assert forall|py: int| by1 <= py <= by2
        implies #[trigger] floor_xy(tiles, width, x, py) by {
        assert(floor_xy(tiles, width, x, py));
    }
    lemma_reach_vert(tiles, width, height, s, x, by1, by2, cy, y);
}

} // verus!
