use vstd::prelude::*;

use crate::farm::{air_grid, grid_wf, has_water_neighbour, repair_grid, repaired_cell, tile_at};
use crate::tile::Tile;

verus! {

/// Repair never touches water: after a repair pass, water sits exactly where
/// it sat before.
proof fn lemma_repair_preserves_water(g: Seq<Seq<Tile>>, w: int, h: int)
    requires
        grid_wf(g, w, h),
    ensures
        forall|x: int, y: int|
            tile_at(#[trigger] repair_grid(g, w, h), x, y, w, h) == Tile::Water <==> tile_at(
                g,
                x,
                y,
                w,
                h,
            ) == Tile::Water,
{
    assert forall|x: int, y: int|
        tile_at(#[trigger] repair_grid(g, w, h), x, y, w, h) == Tile::Water <==> tile_at(
            g,
            x,
            y,
            w,
            h,
        ) == Tile::Water by {
        if 0 <= x < w && 0 <= y < h {
            assert(repair_grid(g, w, h)[y][x] == repaired_cell(g, x, y, w, h));
        }
    }
}

/// Repair leaves the water neighbourhood of every address unchanged.
proof fn lemma_repair_preserves_neighbour_water(g: Seq<Seq<Tile>>, w: int, h: int)
    requires
        grid_wf(g, w, h),
    ensures
        forall|x: int, y: int|
            has_water_neighbour(#[trigger] repair_grid(g, w, h), x, y, w, h)
                == has_water_neighbour(g, x, y, w, h),
{
    lemma_repair_preserves_water(g, w, h);
}

/// Repair law: repairing a repaired grid changes nothing, because repair only
/// demotes sugar, so no cell loses the water neighbour that justified it.
pub proof fn lemma_repair_idempotent(g: Seq<Seq<Tile>>, w: int, h: int)
    requires
        grid_wf(g, w, h),
    ensures
        repair_grid(repair_grid(g, w, h), w, h) == repair_grid(g, w, h),
{
    let r = repair_grid(g, w, h);
    lemma_repair_preserves_neighbour_water(g, w, h);
    assert forall|y: int| 0 <= y < h implies repair_grid(r, w, h)[y] == r[y] by {
        assert forall|x: int| 0 <= x < w implies repaired_cell(r, x, y, w, h) == r[y][x] by {
            assert(r[y][x] == repaired_cell(g, x, y, w, h));
            if r[y][x] == Tile::Sugar {
                assert(g[y][x] == Tile::Sugar && has_water_neighbour(g, x, y, w, h));
                assert(has_water_neighbour(r, x, y, w, h));
            }
        }
        assert(repair_grid(r, w, h)[y] =~= r[y]);
    }
    assert(repair_grid(r, w, h) =~= r);
}

/// Repair law: in a repaired grid, no sugar cell lacks a water neighbour.
pub proof fn lemma_repair_supported(g: Seq<Seq<Tile>>, w: int, h: int)
    requires
        grid_wf(g, w, h),
    ensures
        forall|x: int, y: int|
            0 <= x < w && 0 <= y < h && #[trigger] repair_grid(g, w, h)[y][x] == Tile::Sugar
                ==> has_water_neighbour(repair_grid(g, w, h), x, y, w, h),
{
    let r = repair_grid(g, w, h);
    lemma_repair_preserves_neighbour_water(g, w, h);
    assert forall|x: int, y: int|
        0 <= x < w && 0 <= y < h && #[trigger] r[y][x] == Tile::Sugar implies has_water_neighbour(
        r,
        x,
        y,
        w,
        h,
    ) by {
        assert(r[y][x] == repaired_cell(g, x, y, w, h));
    }
}

/// Repair law: an all-air grid is already repaired.
pub proof fn lemma_repair_air(w: int, h: int)
    requires
        0 <= w,
        0 <= h,
    ensures
        repair_grid(air_grid(w, h), w, h) == air_grid(w, h),
{
    let a = air_grid(w, h);
    assert forall|y: int| 0 <= y < h implies repair_grid(a, w, h)[y] == a[y] by {
        assert forall|x: int| 0 <= x < w implies repaired_cell(a, x, y, w, h) == a[y][x] by {
            assert(a[y][x] == Tile::Air);
        }
        assert(repair_grid(a, w, h)[y] =~= a[y]);
    }
    assert(repair_grid(a, w, h) =~= a);
}

} // verus!
