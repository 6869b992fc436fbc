use vstd::prelude::*;

use crate::laws::{lemma_repair_air, lemma_repair_supported};
use crate::tile::{spec_tile_char, tile_char, Tile};

verus! {

/// A grid of `h` rows, each of width `w`.
pub open spec fn grid_wf(g: Seq<Seq<Tile>>, w: int, h: int) -> bool {
    &&& g.len() == h
    &&& forall|y: int| 0 <= y < h ==> (#[trigger] g[y]).len() == w
}

/// The tile at column `x`, row `y`; any address beyond the grid reads as air.
pub open spec fn tile_at(g: Seq<Seq<Tile>>, x: int, y: int, w: int, h: int) -> Tile {
    if 0 <= x < w && 0 <= y < h {
        g[y][x]
    } else {
        Tile::Air
    }
}

/// Whether one of the four orthogonal neighbours of `(x, y)` holds water;
/// neighbours beyond the grid edge count as air, never as water.
pub open spec fn has_water_neighbour(g: Seq<Seq<Tile>>, x: int, y: int, w: int, h: int) -> bool {
    ||| tile_at(g, x, y - 1, w, h) == Tile::Water
    ||| tile_at(g, x + 1, y, w, h) == Tile::Water
    ||| tile_at(g, x, y + 1, w, h) == Tile::Water
    ||| tile_at(g, x - 1, y, w, h) == Tile::Water
}

/// The repaired value of cell `(x, y)`: sugar without a water neighbour is
/// demoted to air; every other cell keeps its tile.
pub open spec fn repaired_cell(g: Seq<Seq<Tile>>, x: int, y: int, w: int, h: int) -> Tile {
    if g[y][x] == Tile::Sugar && !has_water_neighbour(g, x, y, w, h) {
        Tile::Air
    } else {
        g[y][x]
    }
}

/// The whole grid repaired in one simultaneous pass: every cell is judged
/// against the original grid, not against already-repaired cells.
pub open spec fn repair_grid(g: Seq<Seq<Tile>>, w: int, h: int) -> Seq<Seq<Tile>> {
    Seq::new(h as nat, |y: int| Seq::new(w as nat, |x: int| repaired_cell(g, x, y, w, h)))
}

/// The repair invariant: no sugar cell lacks a water neighbour. It must hold
/// after every construction, crossover and mutation step; the repair pass
/// restores it.
pub open spec fn sugar_supported(g: Seq<Seq<Tile>>, w: int, h: int) -> bool {
    forall|x: int, y: int|
        0 <= x < w && 0 <= y < h && #[trigger] g[y][x] == Tile::Sugar ==> has_water_neighbour(
            g,
            x,
            y,
            w,
            h,
        )
}

/// A grid of the given shape holding only air.
pub open spec fn air_grid(w: int, h: int) -> Seq<Seq<Tile>> {
    Seq::new(h as nat, |y: int| Seq::new(w as nat, |x: int| Tile::Air))
}

/// The text form of one row: one glyph per tile, closed by a newline.
pub open spec fn rendered_row(row: Seq<Tile>) -> Seq<char> {
    Seq::new(row.len(), |i: int| spec_tile_char(row[i])).push('\n')
}

/// The text of the first `n` rows of a grid, concatenated.
pub open spec fn rendered_grid_upto(g: Seq<Seq<Tile>>, n: int) -> Seq<char>
    decreases n,
{
    if n <= 0 {
        Seq::empty()
    } else {
        rendered_grid_upto(g, n - 1) + rendered_row(g[n - 1])
    }
}

/// The text form of a grid, row-major: water as `~`, sugar as `x`, air as a
/// space, each row closed by a newline.
pub open spec fn rendered_grid(g: Seq<Seq<Tile>>) -> Seq<char> {
    rendered_grid_upto(g, g.len() as int)
}

/// Relies on `String`'s `FromIterator<char>` implementation (through
/// `Iterator::collect`): the string holds exactly the iterator's characters,
/// in order.
#[verifier::external_body]
fn chars_to_string(chars: &Vec<char>) -> (s: String)
    ensures
        s@ == chars@,
{
    chars.iter().collect()
}

/// A rectangular farm: `size_y` rows of `size_x` tiles, addressed by
/// `(column, row)`. The shape is fixed at construction and never changes.
#[derive(Debug)]
pub struct Farm {
    pub tiles: Vec<Vec<Tile>>,
    pub size_x: usize,
    pub size_y: usize,
}

impl View for Farm {
    type V = Seq<Seq<Tile>>;

    open spec fn view(&self) -> Seq<Seq<Tile>> {
        self.tiles@.map_values(|row: Vec<Tile>| row@)
    }
}

impl Farm {
    /// Well-formed: the storage matches the declared sizes, both dimensions
    /// are positive, and the largest possible score, `100 * cells + 100`,
    /// fits in a `usize`.
    pub open spec fn wf(&self) -> bool {
        &&& grid_wf(self@, self.size_x as int, self.size_y as int)
        &&& 1 <= self.size_x
        &&& 1 <= self.size_y
        &&& 100 * (self.size_x * self.size_y) + 100 <= usize::MAX
    }

    /// The tile at `(x, y)`, or `None` when either coordinate is out of
    /// bounds. Out-of-range addressing is a normal "absent" result here,
    /// unlike the neighbour convention, which reads the same address as air.
    pub fn get_tile(&self, x: usize, y: usize) -> (t: Option<Tile>)
        requires
            self.wf(),
        ensures
            t == (if x < self.size_x && y < self.size_y {
                Some(self@[y as int][x as int])
            } else {
                None::<Tile>
            }),
    {
        if x >= self.size_x || y >= self.size_y {
            return None;
        }
        proof {
            assert(self.tiles@[y as int]@ == self@[y as int]);
            assert(self@[y as int].len() == self.size_x);
        }
        Some(self.tiles[y][x])
    }

    /// The four orthogonal neighbours of `(x, y)`, in the fixed order up,
    /// right, down, left. A neighbour beyond the grid edge evaluates as air.
    pub fn get_neighbours(&self, x: usize, y: usize) -> (n: Vec<Tile>)
        requires
            self.wf(),
        ensures
            n@.len() == 4,
            n@[0] == tile_at(self@, x as int, y as int - 1, self.size_x as int, self.size_y as int),
            n@[1] == tile_at(self@, x as int + 1, y as int, self.size_x as int, self.size_y as int),
            n@[2] == tile_at(self@, x as int, y as int + 1, self.size_x as int, self.size_y as int),
            n@[3] == tile_at(self@, x as int - 1, y as int, self.size_x as int, self.size_y as int),
    {
        let top = if y == 0 {
            Tile::Air
        } else {
            match self.get_tile(x, y - 1) {
                Some(t) => t,
                None => Tile::Air,
            }
        };
        let right = if x >= self.size_x {
            Tile::Air
        } else {
            match self.get_tile(x + 1, y) {
                Some(t) => t,
                None => Tile::Air,
            }
        };
        let bottom = if y >= self.size_y {
            Tile::Air
        } else {
            match self.get_tile(x, y + 1) {
                Some(t) => t,
                None => Tile::Air,
            }
        };
        let left = if x == 0 {
            Tile::Air
        } else {
            match self.get_tile(x - 1, y) {
                Some(t) => t,
                None => Tile::Air,
            }
        };
        let mut n: Vec<Tile> = Vec::new();
        n.push(top);
        n.push(right);
        n.push(bottom);
        n.push(left);
        n
    }

    /// Creates a farm of the given shape filled with air, then runs the
    /// repair pass, a no-op on an all-air grid, kept for uniformity with the
    /// other genome-producing operations.
    pub fn new_rect(size_x: usize, size_y: usize) -> (farm: Farm)
        requires
            1 <= size_x,
            1 <= size_y,
            100 * (size_x * size_y) + 100 <= usize::MAX,
        ensures
            farm.wf(),
            farm.size_x == size_x,
            farm.size_y == size_y,
            farm@ == air_grid(size_x as int, size_y as int),
            sugar_supported(farm@, size_x as int, size_y as int),
    {
        let mut farm = Farm { tiles: Vec::new(), size_x, size_y };
        farm.populate_with_air();
        farm.kill_sugar();
        proof {
            lemma_repair_air(size_x as int, size_y as int);
        }
        farm
    }

    /// Creates a square farm; see [`Farm::new_rect`].
    pub fn new_square(size: usize) -> (farm: Farm)
        requires
            1 <= size,
            100 * (size * size) + 100 <= usize::MAX,
        ensures
            farm.wf(),
            farm.size_x == size,
            farm.size_y == size,
            farm@ == air_grid(size as int, size as int),
            sugar_supported(farm@, size as int, size as int),
    {
        Self::new_rect(size, size)
    }

    /// Replaces the storage with an all-air grid of the declared shape.
    pub fn populate_with_air(&mut self)
        requires
            1 <= old(self).size_x,
            1 <= old(self).size_y,
            100 * (old(self).size_x * old(self).size_y) + 100 <= usize::MAX,
        ensures
            final(self).wf(),
            final(self).size_x == old(self).size_x,
            final(self).size_y == old(self).size_y,
            final(self)@ == air_grid(old(self).size_x as int, old(self).size_y as int),
    {
        let w = self.size_x;
        let h = self.size_y;
        let mut rows: Vec<Vec<Tile>> = Vec::new();
        let mut y: usize = 0;
        while y < h
            invariant
                y <= h,
                rows@.len() == y,
                forall|r: int| 0 <= r < y ==> (#[trigger] rows@[r])@ == air_grid(w as int, h as int)[r],
            decreases h - y,
        {
            let mut row: Vec<Tile> = Vec::new();
            let mut x: usize = 0;
            while x < w
                invariant
                    x <= w,
                    row@.len() == x,
                    forall|k: int| 0 <= k < x ==> row@[k] == Tile::Air,
                decreases w - x,
            {
                row.push(Tile::Air);
                x += 1;
            }
            proof {
                assert(row@ =~= air_grid(w as int, h as int)[y as int]);
            }
            rows.push(row);
            y += 1;
        }
        self.tiles = rows;
        proof {
            assert(self@ =~= air_grid(w as int, h as int));
        }
    }

    /// The repair pass: demotes to air every sugar cell that has no water
    /// among its orthogonal neighbours, judging every cell against the grid
    /// as it stood before the pass; all other cells are unchanged.
    pub fn kill_sugar(&mut self)
        requires
            old(self).wf(),
        ensures
            final(self).wf(),
            final(self).size_x == old(self).size_x,
            final(self).size_y == old(self).size_y,
            final(self)@ == repair_grid(
                old(self)@,
                old(self).size_x as int,
                old(self).size_y as int,
            ),
            sugar_supported(final(self)@, old(self).size_x as int, old(self).size_y as int),
    {
        let w = self.size_x;
        let h = self.size_y;
        let ghost g = self@;
        let mut rows: Vec<Vec<Tile>> = Vec::new();
        let mut y: usize = 0;
        while y < h
            invariant
                y <= h,
                self.wf(),
                w == self.size_x,
                h == self.size_y,
                g == self@,
                rows@.len() == y,
                forall|r: int| 0 <= r < y ==> (#[trigger] rows@[r])@ == repair_grid(
                    g,
                    w as int,
                    h as int,
                )[r],
            decreases h - y,
        {
            let mut row: Vec<Tile> = Vec::new();
            let mut x: usize = 0;
            while x < w
                invariant
                    x <= w,
                    y < h,
                    self.wf(),
                    w == self.size_x,
                    h == self.size_y,
                    g == self@,
                    row@.len() == x,
                    forall|k: int| 0 <= k < x ==> row@[k] == repaired_cell(
                        g,
                        k,
                        y as int,
                        w as int,
                        h as int,
                    ),
                decreases w - x,
            {
                let t = match self.get_tile(x, y) {
                    Some(t) => t,
                    None => Tile::Air,
                };
                let new_t = match t {
                    Tile::Sugar => if self.has_water_in_neighbourhood(x, y) {
                        Tile::Sugar
                    } else {
                        Tile::Air
                    },
                    other => other,
                };
                row.push(new_t);
                x += 1;
            }
            proof {
                assert(row@ =~= repair_grid(g, w as int, h as int)[y as int]);
            }
            rows.push(row);
            y += 1;
        }
        self.tiles = rows;
        proof {
            assert(self@ =~= repair_grid(g, w as int, h as int));
            lemma_repair_supported(g, w as int, h as int);
        }
    }

    /// The deterministic text form of the farm; see [`rendered_grid`] for the
    /// exact character contract.
    pub fn render(&self) -> (s: String)
        requires
            self.wf(),
        ensures
            s@ == rendered_grid(self@),
    {
        let w = self.size_x;
        let h = self.size_y;
        let mut out: Vec<char> = Vec::new();
        let mut y: usize = 0;
        while y < h
            invariant
                y <= h,
                self.wf(),
                w == self.size_x,
                h == self.size_y,
                out@ == rendered_grid_upto(self@, y as int),
            decreases h - y,
        {
            let mut x: usize = 0;
            while x < w
                invariant
                    x <= w,
                    y < h,
                    self.wf(),
                    w == self.size_x,
                    h == self.size_y,
                    out@ == rendered_grid_upto(self@, y as int) + Seq::new(
                        x as nat,
                        |i: int| spec_tile_char(self@[y as int][i]),
                    ),
                decreases w - x,
            {
                proof {
                    assert(self.tiles@[y as int]@ == self@[y as int]);
                }
                let t = self.tiles[y][x];
                out.push(tile_char(t));
                x += 1;
                proof {
                    assert(out@ =~= rendered_grid_upto(self@, y as int) + Seq::new(
                        x as nat,
                        |i: int| spec_tile_char(self@[y as int][i]),
                    ));
                }
            }
            out.push('\n');
            y += 1;
            proof {
                assert(out@ =~= rendered_grid_upto(self@, y as int));
            }
        }
        proof {
            assert(out@ == rendered_grid(self@));
        }
        chars_to_string(&out)
    }

    /// Whether any of the four orthogonal neighbours of `(x, y)` holds water.
    pub fn has_water_in_neighbourhood(&self, x: usize, y: usize) -> (r: bool)
        requires
            self.wf(),
        ensures
            r == has_water_neighbour(
                self@,
                x as int,
                y as int,
                self.size_x as int,
                self.size_y as int,
            ),
    {
        let n = self.get_neighbours(x, y);
        n[0] == Tile::Water || n[1] == Tile::Water || n[2] == Tile::Water || n[3] == Tile::Water
    }
}

} // verus!
