use vstd::prelude::*;

verus! {

/// One cell of a farm grid: sugar (the resource), water (moisture), or air
/// (empty). The set is closed: every consumer matches exhaustively on these
/// three values.
#[derive(Clone, Copy, Debug, PartialEq, Eq, Structural)]
pub enum Tile {
    Sugar,
    Water,
    Air,
}

/// The glyph that `Farm::render` emits for a tile.
pub open spec fn spec_tile_char(t: Tile) -> char {
    match t {
        Tile::Water => '~',
        Tile::Sugar => 'x',
        Tile::Air => ' ',
    }
}

/// Executable form of [`spec_tile_char`].
pub fn tile_char(t: Tile) -> (c: char)
    ensures
        c == spec_tile_char(t),
{
    match t {
        Tile::Water => '~',
        Tile::Sugar => 'x',
        Tile::Air => ' ',
    }
}

/// The tile selected by a bounded random draw. The mapping is total, so a
/// draw below 3 can never fall outside the closed three-value set.
pub open spec fn spec_tile_from_draw(d: usize) -> Tile {
    if d == 0 {
        Tile::Sugar
    } else if d == 1 {
        Tile::Water
    } else {
        Tile::Air
    }
}

/// Executable form of [`spec_tile_from_draw`].
pub fn tile_from_draw(d: usize) -> (t: Tile)
    ensures
        t == spec_tile_from_draw(d),
{
    if d == 0 {
        Tile::Sugar
    } else if d == 1 {
        Tile::Water
    } else {
        Tile::Air
    }
}

} // verus!
