use vstd::prelude::*;

use crate::farm::Farm;
use crate::rng::rng_below;
use crate::tile::{spec_tile_from_draw, tile_from_draw, Tile};

verus! {

/// The denominator of the mutation rate. A rate of `MUTATION_DENOM` parts
/// per million mutates every cell; a rate of 0 mutates none.
pub const MUTATION_DENOM: usize = 1000000;

/// One cell's mutation step: a gate draw below the rate replaces the tile by
/// the tile of a uniform draw over three outcomes; otherwise the cell keeps
/// its tile.
pub open spec fn spec_mutate_cell(t: Tile, gate: usize, draw: usize, rate_ppm: usize) -> Tile {
    if gate < rate_ppm {
        spec_tile_from_draw(draw)
    } else {
        t
    }
}

/// How a cell may change under mutation: some pair of in-range draws explains
/// the new tile.
pub open spec fn mutation_step(t: Tile, r: Tile, rate_ppm: usize) -> bool {
    exists|gate: usize, draw: usize|
        gate < MUTATION_DENOM && draw < 3 && r == spec_mutate_cell(t, gate, draw, rate_ppm)
}

/// Everything the mutation loop guarantees of one cell.
spec fn mutated_ok(t: Tile, r: Tile, rate_ppm: usize) -> bool {
    &&& mutation_step(t, r, rate_ppm)
    &&& (rate_ppm == 0 ==> r == t)
    &&& (rate_ppm >= MUTATION_DENOM ==> exists|d: usize| d < 3 && r == spec_tile_from_draw(d))
}

impl Farm {
    /// Mutates every cell independently: with probability `rate_ppm` parts
    /// per million the cell takes a tile drawn uniformly from the three tile
    /// values (not necessarily different from the old one), otherwise it is
    /// left unchanged. A rate of 0 changes nothing; a rate of
    /// `MUTATION_DENOM` redraws every cell. No repair is applied here: that
    /// is the caller's duty, once, after mutation.
    pub fn mutate(&mut self, rate_ppm: usize, rng: &mut rand::rngs::StdRng)
        requires
            old(self).wf(),
        ensures
            final(self).wf(),
            final(self).size_x == old(self).size_x,
            final(self).size_y == old(self).size_y,
            forall|y: int, x: int|
                0 <= y < old(self).size_y && 0 <= x < old(self).size_x ==> mutation_step(
                    old(self)@[y][x],
                    #[trigger] final(self)@[y][x],
                    rate_ppm,
                ),
            rate_ppm == 0 ==> final(self)@ == old(self)@,
            rate_ppm >= MUTATION_DENOM ==> forall|y: int, x: int|
                0 <= y < old(self).size_y && 0 <= x < old(self).size_x ==> exists|d: usize|
                    d < 3 && #[trigger] final(self)@[y][x] == spec_tile_from_draw(d),
    {
        let w = self.size_x;
        let h = self.size_y;
        let ghost g0 = self@;
        let mut rows: Vec<Vec<Tile>> = Vec::new();
        let mut y: usize = 0;
        while y < h
            invariant
                y <= h,
                self.wf(),
                w == self.size_x,
                h == self.size_y,
                g0 == self@,
                rows@.len() == y,
                forall|r: int| 0 <= r < y ==> (#[trigger] rows@[r])@.len() == w,
                forall|r: int, k: int|
                    0 <= r < y && 0 <= k < w ==> mutated_ok(
                        g0[r][k],
                        #[trigger] rows@[r]@[k],
                        rate_ppm,
                    ),
            decreases h - y,
        {
            let mut row: Vec<Tile> = Vec::new();
            let mut x: usize = 0;
            while x < w
                invariant
                    x <= w,
                    y < h,
                    self.wf(),
                    w == self.size_x,
                    h == self.size_y,
                    g0 == self@,
                    row@.len() == x,
                    forall|k: int|
                        0 <= k < x ==> mutated_ok(
                            g0[y as int][k],
                            #[trigger] row@[k],
                            rate_ppm,
                        ),
                decreases w - x,
            {
                let gate = rng_below(rng, MUTATION_DENOM);
                let old_t = match self.get_tile(x, y) {
                    Some(t) => t,
                    None => Tile::Air,
                };
                let new_t = if gate < rate_ppm {
                    let draw = rng_below(rng, 3);
                    let t = tile_from_draw(draw);
                    proof {
                        assert(t == spec_mutate_cell(g0[y as int][x as int], gate, draw, rate_ppm));
                        assert(mutation_step(g0[y as int][x as int], t, rate_ppm));
                    }
                    t
                } else {
                    proof {
                        assert(old_t == spec_mutate_cell(g0[y as int][x as int], gate, 0, rate_ppm));
                        assert(mutation_step(g0[y as int][x as int], old_t, rate_ppm));
                    }
                    old_t
                };
                proof {
                    assert(mutated_ok(g0[y as int][x as int], new_t, rate_ppm));
                }
                row.push(new_t);
                x += 1;
            }
            rows.push(row);
            y += 1;
        }
        self.tiles = rows;
        proof {
            assert(self@.len() == h);
            assert forall|r: int| 0 <= r < h implies (#[trigger] self@[r]).len() == w by {
                assert(self@[r] == rows@[r]@);
            }
            if rate_ppm == 0 {
                assert forall|r: int| 0 <= r < h implies self@[r] == g0[r] by {
                    assert forall|k: int| 0 <= k < w implies self@[r][k] == g0[r][k] by {
                        assert(mutated_ok(g0[r][k], rows@[r]@[k], rate_ppm));
                    }
                    assert(self@[r] =~= g0[r]);
                }
                assert(self@ =~= g0);
            }
        }
    }
}

} // verus!
