use vstd::prelude::*;

use vstd::arithmetic::div_mod::{
    lemma_div_by_multiple, lemma_div_is_ordered, lemma_div_pos_is_pos,
};

use crate::farm::{grid_wf, Farm};
use crate::tile::Tile;

verus! {

/// Number of sugar tiles among the first `n` cells of a row.
pub open spec fn row_sugar_upto(row: Seq<Tile>, n: int) -> int
    decreases n,
{
    if n <= 0 {
        0
    } else {
        row_sugar_upto(row, n - 1) + (if row[n - 1] == Tile::Sugar {
            1int
        } else {
            0int
        })
    }
}

/// Number of sugar tiles in the first `n` rows of a grid.
pub open spec fn grid_sugar_upto(g: Seq<Seq<Tile>>, n: int) -> int
    decreases n,
{
    if n <= 0 {
        0
    } else {
        grid_sugar_upto(g, n - 1) + row_sugar_upto(g[n - 1], g[n - 1].len() as int)
    }
}

/// Number of sugar tiles in the grid.
pub open spec fn sugar_count(g: Seq<Seq<Tile>>) -> int {
    grid_sugar_upto(g, g.len() as int)
}

/// Among the first `n` cells of a row of width `w`: how many positions hold
/// the same tile as their horizontally mirrored position. The centre column
/// of an odd width is compared against itself and always matches.
pub open spec fn row_vmatch_upto(row: Seq<Tile>, w: int, n: int) -> int
    decreases n,
{
    if n <= 0 {
        0
    } else {
        row_vmatch_upto(row, w, n - 1) + (if row[n - 1] == row[w - n] {
            1int
        } else {
            0int
        })
    }
}

/// Vertical-mirror matches over the first `n` rows.
pub open spec fn grid_vmatch_upto(g: Seq<Seq<Tile>>, w: int, n: int) -> int
    decreases n,
{
    if n <= 0 {
        0
    } else {
        grid_vmatch_upto(g, w, n - 1) + row_vmatch_upto(g[n - 1], w, w)
    }
}

/// Vertical-mirror matches over the whole grid.
pub open spec fn vmatch_count(g: Seq<Seq<Tile>>, w: int) -> int {
    grid_vmatch_upto(g, w, g.len() as int)
}

/// Among the first `n` cells of row `y` in a grid of height `h`: how many
/// columns hold the same tile as the vertically mirrored row.
pub open spec fn row_hmatch_upto(g: Seq<Seq<Tile>>, y: int, h: int, n: int) -> int
    decreases n,
{
    if n <= 0 {
        0
    } else {
        row_hmatch_upto(g, y, h, n - 1) + (if g[y][n - 1] == g[h - 1 - y][n - 1] {
            1int
        } else {
            0int
        })
    }
}

/// Horizontal-mirror matches over the first `n` rows.
pub open spec fn grid_hmatch_upto(g: Seq<Seq<Tile>>, w: int, h: int, n: int) -> int
    decreases n,
{
    if n <= 0 {
        0
    } else {
        grid_hmatch_upto(g, w, h, n - 1) + row_hmatch_upto(g, n - 1, h, w)
    }
}

/// Horizontal-mirror matches over the whole grid.
pub open spec fn hmatch_count(g: Seq<Seq<Tile>>, w: int, h: int) -> int {
    grid_hmatch_upto(g, w, h, h)
}

/// The vertical symmetry score: floor(50 * matches / cells).
pub open spec fn spec_vertical_symmetry_score(g: Seq<Seq<Tile>>, w: int, h: int) -> int {
    50 * vmatch_count(g, w) / (w * h)
}

/// The horizontal symmetry score: floor(50 * matches / cells).
pub open spec fn spec_horizontal_symmetry_score(g: Seq<Seq<Tile>>, w: int, h: int) -> int {
    50 * hmatch_count(g, w, h) / (w * h)
}

proof fn lemma_row_sugar_bound(row: Seq<Tile>, n: int)
    requires
        0 <= n,
    ensures
        0 <= row_sugar_upto(row, n) <= n,
    decreases n,
{
    if n > 0 {
        lemma_row_sugar_bound(row, n - 1);
    }
}

proof fn lemma_grid_sugar_bound(g: Seq<Seq<Tile>>, w: int, h: int, n: int)
    requires
        grid_wf(g, w, h),
        0 <= n <= h,
        0 <= w,
    ensures
        0 <= grid_sugar_upto(g, n) <= n * w,
    decreases n,
{
    if n > 0 {
        lemma_grid_sugar_bound(g, w, h, n - 1);
        lemma_row_sugar_bound(g[n - 1], w);
        assert((n - 1) * w + w == n * w) by (nonlinear_arith);
    }
}

proof fn lemma_row_vmatch_bound(row: Seq<Tile>, w: int, n: int)
    requires
        0 <= n,
    ensures
        0 <= row_vmatch_upto(row, w, n) <= n,
    decreases n,
{
    if n > 0 {
        lemma_row_vmatch_bound(row, w, n - 1);
    }
}

proof fn lemma_grid_vmatch_bound(g: Seq<Seq<Tile>>, w: int, n: int)
    requires
        0 <= n,
        0 <= w,
    ensures
        0 <= grid_vmatch_upto(g, w, n) <= n * w,
    decreases n,
{
    if n > 0 {
        lemma_grid_vmatch_bound(g, w, n - 1);
        lemma_row_vmatch_bound(g[n - 1], w, w);
        assert((n - 1) * w + w == n * w) by (nonlinear_arith);
    }
}

proof fn lemma_row_hmatch_bound(g: Seq<Seq<Tile>>, y: int, h: int, n: int)
    requires
        0 <= n,
    ensures
        0 <= row_hmatch_upto(g, y, h, n) <= n,
    decreases n,
{
    if n > 0 {
        lemma_row_hmatch_bound(g, y, h, n - 1);
    }
}

proof fn lemma_grid_hmatch_bound(g: Seq<Seq<Tile>>, w: int, h: int, n: int)
    requires
        0 <= n,
        0 <= w,
    ensures
        0 <= grid_hmatch_upto(g, w, h, n) <= n * w,
    decreases n,
{
    if n > 0 {
        lemma_grid_hmatch_bound(g, w, h, n - 1);
        lemma_row_hmatch_bound(g, n - 1, h, w);
        assert((n - 1) * w + w == n * w) by (nonlinear_arith);
    }
}

/// For a non-empty grid, each symmetry score lies in `[0, 50]`: the match
/// count never exceeds the cell count, and `50 * cells / cells == 50`.
pub proof fn lemma_symmetry_score_bounds(g: Seq<Seq<Tile>>, w: int, h: int)
    requires
        grid_wf(g, w, h),
        1 <= w,
        1 <= h,
    ensures
        0 <= spec_vertical_symmetry_score(g, w, h) <= 50,
        0 <= spec_horizontal_symmetry_score(g, w, h) <= 50,
{
    let t = w * h;
    assert(1 <= w * h) by (nonlinear_arith)
        requires
            1 <= w,
            1 <= h,
    ;
    lemma_grid_vmatch_bound(g, w, h);
    lemma_grid_hmatch_bound(g, w, h, h);
    let mv = vmatch_count(g, w);
    let mh = hmatch_count(g, w, h);
    assert(h * w == w * h) by (nonlinear_arith);
    lemma_div_pos_is_pos(50 * mv, t);
    lemma_div_pos_is_pos(50 * mh, t);
    lemma_div_is_ordered(50 * mv, 50 * t, t);
    lemma_div_is_ordered(50 * mh, 50 * t, t);
    lemma_div_by_multiple(50, t);
}

/// A well-formed farm's scores are bounded: the resource score by
/// `100 * cells`, each symmetry score by 50, and so the total by
/// `100 * cells + 100`, which well-formedness keeps within `usize`.
pub proof fn lemma_score_bounds(f: Farm)
    requires
        f.wf(),
    ensures
        0 <= 100 * sugar_count(f@) <= 100 * (f.size_x * f.size_y),
        0 <= spec_vertical_symmetry_score(f@, f.size_x as int, f.size_y as int) <= 50,
        0 <= spec_horizontal_symmetry_score(f@, f.size_x as int, f.size_y as int) <= 50,
        0 <= f.spec_score() <= 100 * (f.size_x * f.size_y) + 100,
{
    let w = f.size_x as int;
    let h = f.size_y as int;
    lemma_grid_sugar_bound(f@, w, h, h);
    lemma_symmetry_score_bounds(f@, w, h);
    assert(h * w == w * h) by (nonlinear_arith);
}

impl Farm {
    /// Total fitness: resource score plus the two symmetry scores.
    pub open spec fn spec_score(&self) -> int {
        100 * sugar_count(self@) + spec_vertical_symmetry_score(
            self@,
            self.size_x as int,
            self.size_y as int,
        ) + spec_horizontal_symmetry_score(self@, self.size_x as int, self.size_y as int)
    }

    /// The resource score: 100 for every sugar tile.
    pub fn get_sugar_score(&self) -> (score: usize)
        requires
            self.wf(),
        ensures
            score == 100 * sugar_count(self@),
            score <= 100 * (self.size_x * self.size_y),
    {
        let w = self.size_x;
        let h = self.size_y;
        let mut count: usize = 0;
        let mut y: usize = 0;
        while y < h
            invariant
                self.wf(),
                w == self.size_x,
                h == self.size_y,
                y <= h,
                count == grid_sugar_upto(self@, y as int),
            decreases h - y,
        {
            let mut x: usize = 0;
            while x < w
                invariant
                    self.wf(),
                    w == self.size_x,
                    h == self.size_y,
                    y < h,
                    x <= w,
                    count == grid_sugar_upto(self@, y as int) + row_sugar_upto(
                        self@[y as int],
                        x as int,
                    ),
                decreases w - x,
            {
                proof {
                    assert(self.tiles@[y as int]@ == self@[y as int]);
                    lemma_grid_sugar_bound(self@, w as int, h as int, y as int);
                    lemma_row_sugar_bound(self@[y as int], x as int);
                    assert((y as int) * (w as int) + (w as int) <= (h as int) * (w as int))
                        by (nonlinear_arith)
                        requires
                            (y as int) < (h as int),
                            0 <= (w as int),
                    ;
                    assert((h as int) * (w as int) == (w as int) * (h as int))
                        by (nonlinear_arith);
                }
                if self.tiles[y][x] == Tile::Sugar {
                    count += 1;
                }
                x += 1;
            }
            y += 1;
        }
        proof {
            lemma_grid_sugar_bound(self@, w as int, h as int, h as int);
            assert((h as int) * (w as int) == (w as int) * (h as int)) by (nonlinear_arith);
        }
        100 * count
    }

    /// The vertical symmetry score: per row, how many cells match their
    /// horizontal mirror, scaled to `[0, 50]` over the whole grid.
    pub fn get_vertical_symmetry_score(&self) -> (score: usize)
        requires
            self.wf(),
        ensures
            score == spec_vertical_symmetry_score(
                self@,
                self.size_x as int,
                self.size_y as int,
            ),
            score <= 50,
    {
        let w = self.size_x;
        let h = self.size_y;
        let mut matched: usize = 0;
        let mut y: usize = 0;
        while y < h
            invariant
                self.wf(),
                w == self.size_x,
                h == self.size_y,
                y <= h,
                matched == grid_vmatch_upto(self@, w as int, y as int),
            decreases h - y,
        {
            let mut x: usize = 0;
            while x < w
                invariant
                    self.wf(),
                    w == self.size_x,
                    h == self.size_y,
                    y < h,
                    x <= w,
                    matched == grid_vmatch_upto(self@, w as int, y as int) + row_vmatch_upto(
                        self@[y as int],
                        w as int,
                        x as int,
                    ),
                decreases w - x,
            {
                proof {
                    assert(self.tiles@[y as int]@ == self@[y as int]);
                    lemma_grid_vmatch_bound(self@, w as int, y as int);
                    lemma_row_vmatch_bound(self@[y as int], w as int, x as int);
                    assert((y as int) * (w as int) + (w as int) <= (h as int) * (w as int))
                        by (nonlinear_arith)
                        requires
                            (y as int) < (h as int),
                            0 <= (w as int),
                    ;
                    assert((h as int) * (w as int) == (w as int) * (h as int))
                        by (nonlinear_arith);
                }
                if self.tiles[y][x] == self.tiles[y][w - 1 - x] {
                    matched += 1;
                }
                x += 1;
            }
            y += 1;
        }
        let total = w * h;
        proof {
            lemma_grid_vmatch_bound(self@, w as int, h as int);
            lemma_symmetry_score_bounds(self@, w as int, h as int);
            assert(1 <= (w as int) * (h as int)) by (nonlinear_arith)
                requires
                    1 <= (w as int),
                    1 <= (h as int),
            ;
        }
        (50 * matched) / total
    }

    /// The horizontal symmetry score: per column, how many cells match their
    /// vertical mirror, scaled to `[0, 50]` over the whole grid.
    pub fn get_horizontal_symmetry_score(&self) -> (score: usize)
        requires
            self.wf(),
        ensures
            score == spec_horizontal_symmetry_score(
                self@,
                self.size_x as int,
                self.size_y as int,
            ),
            score <= 50,
    {
        let w = self.size_x;
        let h = self.size_y;
        let mut matched: usize = 0;
        let mut y: usize = 0;
        while y < h
            invariant
                self.wf(),
                w == self.size_x,
                h == self.size_y,
                y <= h,
                matched == grid_hmatch_upto(self@, w as int, h as int, y as int),
            decreases h - y,
        {
            let mut x: usize = 0;
            while x < w
                invariant
                    self.wf(),
                    w == self.size_x,
                    h == self.size_y,
                    y < h,
                    x <= w,
                    matched == grid_hmatch_upto(self@, w as int, h as int, y as int)
                        + row_hmatch_upto(self@, y as int, h as int, x as int),
                decreases w - x,
            {
                proof {
                    assert(self.tiles@[y as int]@ == self@[y as int]);
                    assert(self.tiles@[h - 1 - y as int]@ == self@[h - 1 - y as int]);
                    lemma_grid_hmatch_bound(self@, w as int, h as int, y as int);
                    lemma_row_hmatch_bound(self@, y as int, h as int, x as int);
                    assert((y as int) * (w as int) + (w as int) <= (h as int) * (w as int))
                        by (nonlinear_arith)
                        requires
                            (y as int) < (h as int),
                            0 <= (w as int),
                    ;
                    assert((h as int) * (w as int) == (w as int) * (h as int))
                        by (nonlinear_arith);
                }
                if self.tiles[y][x] == self.tiles[h - 1 - y][x] {
                    matched += 1;
                }
                x += 1;
            }
            y += 1;
        }
        let total = w * h;
        proof {
            lemma_grid_hmatch_bound(self@, w as int, h as int, h as int);
            lemma_symmetry_score_bounds(self@, w as int, h as int);
            assert(1 <= (w as int) * (h as int)) by (nonlinear_arith)
                requires
                    1 <= (w as int),
                    1 <= (h as int),
            ;
        }
        (50 * matched) / total
    }

    /// The total score of the farm.
    pub fn score(&self) -> (s: usize)
        requires
            self.wf(),
        ensures
            s == self.spec_score(),
            s <= 100 * (self.size_x * self.size_y) + 100,
    {
        let a = self.get_sugar_score();
        let b = self.get_vertical_symmetry_score();
        let c = self.get_horizontal_symmetry_score();
        a + b + c
    }
}

} // verus!
