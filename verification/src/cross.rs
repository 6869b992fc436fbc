use vstd::prelude::*;

use crate::farm::{grid_wf, repair_grid, sugar_supported, Farm};
use crate::tile::Tile;

verus! {

/// A child cell: the first parent's tile, unless that is air, in which case
/// the second parent's tile fills the gap.
pub open spec fn cross_cell(a: Tile, b: Tile) -> Tile {
    if a == Tile::Air {
        b
    } else {
        a
    }
}

/// The positional crossover of two equally shaped grids, cell by cell.
pub open spec fn cross_grid(a: Seq<Seq<Tile>>, b: Seq<Seq<Tile>>, w: int, h: int) -> Seq<
    Seq<Tile>,
> {
    Seq::new(h as nat, |y: int| Seq::new(w as nat, |x: int| cross_cell(a[y][x], b[y][x])))
}

/// Crossover law: crossing a grid with itself gives the grid back unchanged,
/// so breeding a farm with itself amounts to repairing it.
pub proof fn lemma_cross_self(g: Seq<Seq<Tile>>, w: int, h: int)
    requires
        grid_wf(g, w, h),
    ensures
        cross_grid(g, g, w, h) == g,
{
    assert forall|y: int| 0 <= y < h implies cross_grid(g, g, w, h)[y] == g[y] by {
        assert forall|x: int| 0 <= x < w implies cross_cell(g[y][x], g[y][x]) == g[y][x] by {}
        assert(cross_grid(g, g, w, h)[y] =~= g[y]);
    }
    assert(cross_grid(g, g, w, h) =~= g);
}

/// Crossover law, stated on whole grids: breeding a farm with itself yields
/// exactly the repair of that farm, since self-crossover changes nothing.
pub proof fn lemma_self_cross_repairs(g: Seq<Seq<Tile>>, w: int, h: int)
    requires
        grid_wf(g, w, h),
    ensures
        repair_grid(cross_grid(g, g, w, h), w, h) == repair_grid(g, w, h),
{
    lemma_cross_self(g, w, h);
}

impl Farm {
    /// Breeds two parents of the same shape into a repaired child. The child
    /// is a pure function of the two parents: no randomness is involved.
    pub fn breed(a: &Farm, b: &Farm) -> (child: Farm)
        requires
            a.wf(),
            b.wf(),
            a.size_x == b.size_x,
            a.size_y == b.size_y,
        ensures
            child.wf(),
            child.size_x == a.size_x,
            child.size_y == a.size_y,
            child@ == repair_grid(
                cross_grid(a@, b@, a.size_x as int, a.size_y as int),
                a.size_x as int,
                a.size_y as int,
            ),
            sugar_supported(child@, a.size_x as int, a.size_y as int),
    {
        let w = a.size_x;
        let h = a.size_y;
        let mut rows: Vec<Vec<Tile>> = Vec::new();
        let mut y: usize = 0;
        while y < h
            invariant
                y <= h,
                a.wf(),
                b.wf(),
                w == a.size_x == b.size_x,
                h == a.size_y == b.size_y,
                rows@.len() == y,
                forall|r: int| 0 <= r < y ==> (#[trigger] rows@[r])@ == cross_grid(
                    a@,
                    b@,
                    w as int,
                    h as int,
                )[r],
            decreases h - y,
        {
            let mut row: Vec<Tile> = Vec::new();
            let mut x: usize = 0;
            while x < w
                invariant
                    x <= w,
                    y < h,
                    a.wf(),
                    b.wf(),
                    w == a.size_x == b.size_x,
                    h == a.size_y == b.size_y,
                    row@.len() == x,
                    forall|k: int| 0 <= k < x ==> row@[k] == cross_cell(
                        a@[y as int][k],
                        b@[y as int][k],
                    ),
                decreases w - x,
            {
                let at = match a.get_tile(x, y) {
                    Some(t) => t,
                    None => Tile::Air,
                };
                let bt = match b.get_tile(x, y) {
                    Some(t) => t,
                    None => Tile::Air,
                };
                row.push(if at == Tile::Air {
                    bt
                } else {
                    at
                });
                x += 1;
            }
            proof {
                assert(row@ =~= cross_grid(a@, b@, w as int, h as int)[y as int]);
            }
            rows.push(row);
            y += 1;
        }
        let mut child = Farm { tiles: rows, size_x: w, size_y: h };
        proof {
            assert(child@ =~= cross_grid(a@, b@, w as int, h as int));
        }
        child.kill_sugar();
        child
    }
}

} // verus!
