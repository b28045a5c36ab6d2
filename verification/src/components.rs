use vstd::prelude::*;

verus! {

/// An entity's cell coordinates. In this core only the input handler may
/// write the player's position; no other system writes positions at all.
#[derive(Clone, Copy, PartialEq, Eq, Structural, Debug)]
pub struct Position {
    pub x: i32,
    pub y: i32,
}

/// A plain RGB color triple.
#[derive(Clone, Copy, PartialEq, Eq, Structural, Debug)]
pub struct Color {
    pub r: u8,
    pub g: u8,
    pub b: u8,
}

/// Pure presentation data, written once at creation and read only by the
/// render pass afterwards.
#[derive(Clone, Copy, PartialEq, Eq, Structural, Debug)]
pub struct Renderable {
    pub glyph: char,
    pub fg: Color,
    pub bg: Color,
}

/// The cached set of cells an entity currently sees, with the radius used
/// to compute it. `dirty` marks the cache stale: it is set at creation and
/// whenever the position changes, and cleared by the visibility pass after
/// a recomputation; a viewshed that is not dirty is never recomputed.
#[derive(Clone, Debug)]
pub struct Viewshed {
    pub visible_tiles: Vec<Position>,
    pub range: i32,
    pub dirty: bool,
}

/// A human-readable label, read by the actor pass for narrative output
/// only; it has no gameplay effect.
#[derive(Clone, Debug)]
pub struct Name {
    pub name: String,
}

} // verus!
