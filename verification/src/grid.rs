//! The cell store: a rectangle of cells whose edges are joined to the
//! opposite edges, so that every cell has eight neighbours.

use vstd::prelude::*;
use vstd::arithmetic::div_mod::lemma_fundamental_div_mod_converse;
use rand::Rng;
use crate::rule::MAX_NEIGHBORS;
use crate::torus::{after, before, lemma_wrap_step, shifted, wrap};

verus! {

/// What a grid is: its two dimensions and the set of coordinates of its
/// live cells.
#[verifier::ext_equal]
pub struct GridView {
    pub width: nat,
    pub height: nat,
    pub live: Set<(int, int)>,
}

impl GridView {
    /// Whether `(x, y)` is a coordinate of the grid.
    pub open spec fn in_bounds(self, x: int, y: int) -> bool {
        0 <= x < self.width && 0 <= y < self.height
    }

    /// A grid has at least one cell, and only its own cells can be alive.
    pub open spec fn wf(self) -> bool {
        &&& self.width > 0
        &&& self.height > 0
        &&& forall|x: int, y: int| #[trigger] self.live.contains((x, y)) ==> self.in_bounds(x, y)
    }

    /// Whether the cell at `(x, y)` is alive.
    pub open spec fn alive(self, x: int, y: int) -> bool {
        self.live.contains((x, y))
    }

    /// The grid of the given dimensions whose cells are read row by row from
    /// `cells`: the cell at `(x, y)` is `cells[y * width + x]`.
    pub open spec fn of_cells(width: nat, height: nat, cells: Seq<bool>) -> GridView {
        GridView {
            width,
            height,
            live: Set::new(
                |c: (int, int)| 0 <= c.0 < width && 0 <= c.1 < height && cells[c.1 * width + c.0],
            ),
        }
    }

    /// The grid of the given dimensions whose cells are all alive, or all
    /// dead.
    pub open spec fn uniform(width: nat, height: nat, alive: bool) -> GridView {
        GridView {
            width,
            height,
            live: Set::new(|c: (int, int)| 0 <= c.0 < width && 0 <= c.1 < height && alive),
        }
    }

    /// The coordinate of the neighbour of `(x, y)` at the offset `(dx, dy)`,
    /// each axis wrapped on its own.
    pub open spec fn neighbor(self, x: int, y: int, dx: int, dy: int) -> (int, int) {
        (wrap(x + dx, self.width as int), wrap(y + dy, self.height as int))
    }

    /// One if the neighbour of `(x, y)` at the offset `(dx, dy)` is alive,
    /// zero if it is not.
    pub open spec fn lit(self, x: int, y: int, dx: int, dy: int) -> nat {
        if self.live.contains(self.neighbor(x, y, dx, dy)) {
            1
        } else {
            0
        }
    }

    /// How many of the eight neighbours of `(x, y)` are alive. On a grid
    /// narrower or lower than three cells several offsets name the same
    /// cell, which is then counted once for each.
    pub open spec fn neighbor_count(self, x: int, y: int) -> nat {
        self.lit(x, y, -1, -1) + self.lit(x, y, 0, -1) + self.lit(x, y, 1, -1)
            + self.lit(x, y, -1, 0) + self.lit(x, y, 1, 0)
            + self.lit(x, y, -1, 1) + self.lit(x, y, 0, 1) + self.lit(x, y, 1, 1)
    }

    /// The grid with the cell at `(x, y)` made alive or dead and every other
    /// cell as it was.
    pub open spec fn painted(self, x: int, y: int, alive: bool) -> GridView {
        GridView {
            width: self.width,
            height: self.height,
            live: if alive {
                self.live.insert((x, y))
            } else {
                self.live.remove((x, y))
            },
        }
    }

    /// One if the cell at `(x, y)` is alive, zero if it is not.
    pub open spec fn population_at(self, x: int, y: int) -> nat {
        if self.live.contains((x, y)) {
            1
        } else {
            0
        }
    }

    /// The neighbours of a cell, written out: the column before and the
    /// column after, the row before and the row after, where the first
    /// column comes after the last and the first row after the last.
    pub proof fn lemma_neighbors_wrap(self, x: int, y: int)
        requires
            self.wf(),
            self.in_bounds(x, y),
        ensures
            self.neighbor_count(x, y) == ({
                let west = before(x, self.width as int);
                let east = after(x, self.width as int);
                let north = before(y, self.height as int);
                let south = after(y, self.height as int);
                self.population_at(west, north) + self.population_at(x, north)
                    + self.population_at(east, north) + self.population_at(west, y)
                    + self.population_at(east, y) + self.population_at(west, south)
                    + self.population_at(x, south) + self.population_at(east, south)
            }),
    {
        lemma_wrap_step(x, self.width as int);
        lemma_wrap_step(y, self.height as int);
    }

    /// At the corner `(0, 0)` of a grid with at least two columns and two
    /// rows the neighbours are the cells beside it and those of the last
    /// column and the last row.
    pub proof fn lemma_corner_neighbors(self)
        requires
            self.wf(),
            self.width >= 2,
            self.height >= 2,
        ensures
            self.neighbor_count(0, 0) == ({
                let w = self.width as int;
                let h = self.height as int;
                self.population_at(w - 1, h - 1) + self.population_at(0, h - 1)
                    + self.population_at(1, h - 1) + self.population_at(w - 1, 0)
                    + self.population_at(1, 0) + self.population_at(w - 1, 1)
                    + self.population_at(0, 1) + self.population_at(1, 1)
            }),
    {
        self.lemma_neighbors_wrap(0, 0);
    }

    /// A live cell is counted by each of its neighbours: seen from the
    /// neighbour at the offset `(dx, dy)`, the cell is the neighbour at the
    /// opposite offset, and it is lit.
    pub proof fn lemma_live_cell_is_counted(self, x: int, y: int, dx: int, dy: int)
        requires
            self.wf(),
            self.alive(x, y),
            -1 <= dx <= 1,
            -1 <= dy <= 1,
            dx != 0 || dy != 0,
        ensures
            ({
                let beside = self.neighbor(x, y, dx, dy);
                &&& self.in_bounds(beside.0, beside.1)
                &&& self.neighbor(beside.0, beside.1, -dx, -dy) == (x, y)
                &&& self.lit(beside.0, beside.1, -dx, -dy) == 1
                &&& self.neighbor_count(beside.0, beside.1) >= 1
            }),
    {
        let beside = self.neighbor(x, y, dx, dy);
        lemma_wrap_step(x, self.width as int);
        lemma_wrap_step(y, self.height as int);
        lemma_wrap_step(beside.0, self.width as int);
        lemma_wrap_step(beside.1, self.height as int);
    }

    /// A cell painted alive is counted by each of its neighbours from then
    /// on.
    pub proof fn lemma_painted_cell_is_counted(self, x: int, y: int, dx: int, dy: int)
        requires
            self.wf(),
            self.in_bounds(x, y),
            -1 <= dx <= 1,
            -1 <= dy <= 1,
            dx != 0 || dy != 0,
        ensures
            ({
                let painted = self.painted(x, y, true);
                let beside = self.neighbor(x, y, dx, dy);
                &&& painted.wf()
                &&& painted.lit(beside.0, beside.1, -dx, -dy) == 1
                &&& painted.neighbor_count(beside.0, beside.1) >= 1
            }),
    {
        self.painted(x, y, true).lemma_live_cell_is_counted(x, y, dx, dy);
    }

    /// A cell never has more than eight live neighbours.
    pub proof fn lemma_neighbor_count_bound(self, x: int, y: int)
        ensures
            self.neighbor_count(x, y) <= MAX_NEIGHBORS,
    {
    }
}

/// The position of the cell `(x, y)` in a row-by-row listing lies within
/// the listing.
proof fn lemma_index_in_range(x: int, y: int, width: int, height: int)
    requires
        0 <= x < width,
        0 <= y < height,
    ensures
        0 <= y * width <= y * width + x < width * height,
{
    assert(0 <= y * width && y * width + width <= height * width) by (nonlinear_arith)
        requires
            0 <= y < height,
            0 < width,
    ;
    assert(height * width == width * height) by (nonlinear_arith);
}

/// Two cells at the same position of a row-by-row listing are the same cell.
proof fn lemma_index_injective(x1: int, y1: int, x2: int, y2: int, width: int)
    requires
        0 <= x1 < width,
        0 <= x2 < width,
        y1 * width + x1 == y2 * width + x2,
    ensures
        x1 == x2,
        y1 == y2,
{
    let i = y1 * width + x1;
    lemma_fundamental_div_mod_converse(i, width, y1, x1);
    lemma_fundamental_div_mod_converse(i, width, y2, x2);
}

/// The set of the coordinates listed in `cells`.
pub open spec fn coordinates(cells: Seq<(usize, usize)>) -> Set<(int, int)> {
    Set::new(
        |c: (int, int)|
            exists|k: int| 0 <= k < cells.len() && (#[trigger] cells[k]).0 == c.0 && cells[k].1 == c.1,
    )
}

/// Listing one more cell adds its coordinate to the set.
pub proof fn lemma_coordinates_push(cells: Seq<(usize, usize)>, cell: (usize, usize))
    ensures
        coordinates(cells.push(cell)) == coordinates(cells).insert((cell.0 as int, cell.1 as int)),
{
    let longer = cells.push(cell);
    let added = (cell.0 as int, cell.1 as int);
    assert forall|c: (int, int)|
        coordinates(longer).contains(c) == coordinates(cells).insert(added).contains(c) by {
        if coordinates(longer).contains(c) {
            let k = choose|k: int|
                0 <= k < longer.len() && (#[trigger] longer[k]).0 == c.0 && longer[k].1 == c.1;
            if k < cells.len() {
                assert(cells[k] == longer[k]);
            }
        }
        if coordinates(cells).contains(c) {
            let k = choose|k: int|
                0 <= k < cells.len() && (#[trigger] cells[k]).0 == c.0 && cells[k].1 == c.1;
            assert(longer[k] == cells[k]);
        }
        if c == added {
            assert(longer[cells.len() as int] == cell);
        }
    }
    assert(coordinates(longer) =~= coordinates(cells).insert(added));
}

/// An empty list names no cell.
pub proof fn lemma_coordinates_empty()
    ensures
        coordinates(Seq::<(usize, usize)>::empty()) == Set::<(int, int)>::empty(),
{
    assert(coordinates(Seq::<(usize, usize)>::empty()) =~= Set::<(int, int)>::empty());
}

/// Whether the cell `a` comes before the cell `b` when the grid is read row
/// by row.
pub open spec fn precedes(a: (int, int), b: (int, int)) -> bool {
    a.1 < b.1 || (a.1 == b.1 && a.0 < b.0)
}

/// The cells of `marked` that a scan has passed when it stands before the
/// cell `(x, y)`: those of the rows above `y` and those of row `y` to the
/// left of `x`.
pub open spec fn passed(marked: Set<(int, int)>, x: int, y: int) -> Set<(int, int)> {
    Set::new(|c: (int, int)| marked.contains(c) && precedes(c, (x, y)))
}

/// A row-by-row listing in which every cell has the same state lists the
/// uniform grid of that state.
proof fn lemma_same_cells_are_uniform(width: nat, height: nat, cells: Seq<bool>, alive: bool)
    requires
        cells.len() == width * height,
        forall|i: int| 0 <= i < cells.len() ==> cells[i] == alive,
    ensures
        GridView::of_cells(width, height, cells) == GridView::uniform(width, height, alive),
{
    let listed = GridView::of_cells(width, height, cells);
    let uniform = GridView::uniform(width, height, alive);
    assert forall|c: (int, int)| listed.live.contains(c) == uniform.live.contains(c) by {
        if 0 <= c.0 < width && 0 <= c.1 < height {
            lemma_index_in_range(c.0, c.1, width as int, height as int);
        }
    }
    assert(listed =~= uniform);
}

/// Draws one cell by `Rng::gen_ratio` of the crate `rand`, on the generator
/// that `rand::thread_rng` hands out: alive with a chance of `numerator` in
/// `denominator`. This contract is taken on trust from the documentation of
/// `gen_ratio`. It says nothing of the outcome except where the outcome is
/// certain: never alive when `numerator` is zero, always alive when it
/// equals `denominator`. `gen_ratio` panics on a zero `denominator` and on
/// a `numerator` above it, which the precondition rules out.
#[verifier::external_body]
fn draw(numerator: u32, denominator: u32) -> (alive: bool)
    requires
        denominator > 0,
        numerator <= denominator,
    ensures
        numerator == 0 ==> !alive,
        numerator == denominator ==> alive,
{
    rand::thread_rng().gen_ratio(numerator, denominator)
}

/// A grid of cells, each alive or dead.
pub struct Grid {
    width: usize,
    height: usize,
    cells: Vec<bool>,
}

impl View for Grid {
    type V = GridView;

    closed spec fn view(&self) -> GridView {
        GridView::of_cells(self.width as nat, self.height as nat, self.cells@)
    }
}

impl Grid {
    /// The grid holds exactly one cell for each of its coordinates.
    pub closed spec fn wf(&self) -> bool {
        &&& self.width > 0
        &&& self.height > 0
        &&& self.cells.len() == self.width * self.height
    }

    /// A well-formed grid is a well-formed model.
    pub proof fn lemma_view_wf(&self)
        requires
            self.wf(),
        ensures
            self@.wf(),
    {
    }

    /// Whether `(x, y)` is a coordinate of the grid.
    pub fn contains(&self, x: usize, y: usize) -> (inside: bool)
        ensures
            inside == self@.in_bounds(x as int, y as int),
    {
        x < self.width && y < self.height
    }

    /// A grid of `width` columns and `height` rows in which each cell is
    /// alive with a chance of `numerator` in `denominator`, each drawn on
    /// its own. With a chance of zero every cell is dead, with a chance of
    /// one every cell is alive.
    pub fn new(width: usize, height: usize, numerator: u32, denominator: u32) -> (grid: Grid)
        requires
            width > 0,
            height > 0,
            width * height <= usize::MAX,
            denominator > 0,
            numerator <= denominator,
        ensures
            grid.wf(),
            grid@.width == width,
            grid@.height == height,
            numerator == 0 ==> grid@ == GridView::uniform(width as nat, height as nat, false),
            numerator == denominator ==> grid@ == GridView::uniform(
                width as nat,
                height as nat,
                true,
            ),
    {
        let count = width * height;
        let mut cells: Vec<bool> = Vec::with_capacity(count);
        while cells.len() < count
            invariant
                cells.len() <= count,
                denominator > 0,
                numerator <= denominator,
                numerator == 0 ==> forall|i: int| 0 <= i < cells.len() ==> !cells[i],
                numerator == denominator ==> forall|i: int| 0 <= i < cells.len() ==> cells[i],
            decreases count - cells.len(),
        {
            cells.push(draw(numerator, denominator));
        }
        let grid = Grid { width, height, cells };
        proof {
            if numerator == 0 {
                lemma_same_cells_are_uniform(width as nat, height as nat, grid.cells@, false);
            }
            if numerator == denominator {
                lemma_same_cells_are_uniform(width as nat, height as nat, grid.cells@, true);
            }
        }
        grid
    }

    /// A grid of `width` columns and `height` rows whose cells are all
    /// alive, or all dead.
    pub fn filled(width: usize, height: usize, alive: bool) -> (grid: Grid)
        requires
            width > 0,
            height > 0,
            width * height <= usize::MAX,
        ensures
            grid.wf(),
            grid@ == GridView::uniform(width as nat, height as nat, alive),
    {
        let count = width * height;
        let mut cells: Vec<bool> = Vec::with_capacity(count);
        while cells.len() < count
            invariant
                cells.len() <= count,
                forall|i: int| 0 <= i < cells.len() ==> cells[i] == alive,
            decreases count - cells.len(),
        {
            cells.push(alive);
        }
        let grid = Grid { width, height, cells };
        proof {
            lemma_same_cells_are_uniform(width as nat, height as nat, grid.cells@, alive);
        }
        grid
    }

    /// The grid of `width` columns and `height` rows whose cells are given
    /// row by row, or nothing if a dimension is zero or `cells` does not
    /// hold exactly one value for each cell.
    pub fn from_cells(width: usize, height: usize, cells: Vec<bool>) -> (grid: Option<Grid>)
        ensures
            grid is Some <==> width > 0 && height > 0 && cells@.len() == width * height,
            grid matches Some(g) ==> g.wf() && g@ == GridView::of_cells(
                width as nat,
                height as nat,
                cells@,
            ),
    {
        if width == 0 || height == 0 {
            return None;
        }
        let listed = cells.len();
        match width.checked_mul(height) {
            Some(count) => {
                if listed == count {
                    Some(Grid { width, height, cells })
                } else {
                    None
                }
            },
            None => {
                assert(listed <= usize::MAX < width * height);
                None
            },
        }
    }

    /// The number of columns.
    pub fn width(&self) -> (width: usize)
        ensures
            width == self@.width,
    {
        self.width
    }

    /// The number of rows.
    pub fn height(&self) -> (height: usize)
        ensures
            height == self@.height,
    {
        self.height
    }

    /// Whether the cell at `(x, y)` is alive.
    pub fn get(&self, x: usize, y: usize) -> (alive: bool)
        requires
            self.wf(),
            self@.in_bounds(x as int, y as int),
        ensures
            alive == self@.alive(x as int, y as int),
    {
        proof {
            lemma_index_in_range(x as int, y as int, self.width as int, self.height as int);
        }
        self.cells[y * self.width + x]
    }

    /// Makes the cell at `(x, y)` alive or dead.
    pub fn set(&mut self, x: usize, y: usize, alive: bool)
        requires
            old(self).wf(),
            old(self)@.in_bounds(x as int, y as int),
        ensures
            final(self).wf(),
            final(self)@ == old(self)@.painted(x as int, y as int, alive),
    {
        proof {
            lemma_index_in_range(x as int, y as int, self.width as int, self.height as int);
        }
        let index = y * self.width + x;
        self.cells.set(index, alive);
        proof {
            let width = self.width as int;
            let expected = old(self)@.painted(x as int, y as int, alive);
            assert forall|c: (int, int)| self@.live.contains(c) == expected.live.contains(c) by {
                if 0 <= c.0 < width && 0 <= c.1 < self.height && c != (x as int, y as int) {
                    lemma_index_in_range(c.0, c.1, width, self.height as int);
                    if c.1 * width + c.0 == index {
                        lemma_index_injective(c.0, c.1, x as int, y as int, width);
                    }
                }
            }
            assert(self@ =~= expected);
        }
    }

    /// Paints the cell at `(x, y)` alive or dead. The change is immediate:
    /// the next read and the next neighbour count see it.
    pub fn paint(&mut self, x: usize, y: usize, alive: bool)
        requires
            old(self).wf(),
            old(self)@.in_bounds(x as int, y as int),
        ensures
            final(self).wf(),
            final(self)@ == old(self)@.painted(x as int, y as int, alive),
    {
        self.set(x, y, alive);
    }

    /// The coordinates of the live cells, in the order in which the grid is
    /// read row by row: each live cell once, and no other.
    pub fn live_cells(&self) -> (cells: Vec<(usize, usize)>)
        requires
            self.wf(),
        ensures
            coordinates(cells@) == self@.live,
            forall|j: int, k: int|
                0 <= j < k < cells.len() ==> precedes(
                    (cells[j].0 as int, cells[j].1 as int),
                    (cells[k].0 as int, cells[k].1 as int),
                ),
    {
        let mut cells: Vec<(usize, usize)> = Vec::new();
        proof {
            lemma_coordinates_empty();
            assert(passed(self@.live, 0, 0) =~= Set::<(int, int)>::empty());
        }
        let mut y: usize = 0;
        while y < self.height
            invariant
                self.wf(),
                y <= self.height,
                coordinates(cells@) == passed(self@.live, 0, y as int),
                forall|k: int|
                    0 <= k < cells.len() ==> precedes(
                        (#[trigger] cells[k].0 as int, cells[k].1 as int),
                        (0, y as int),
                    ),
                forall|j: int, k: int|
                    0 <= j < k < cells.len() ==> precedes(
                        (#[trigger] cells[j].0 as int, cells[j].1 as int),
                        (#[trigger] cells[k].0 as int, cells[k].1 as int),
                    ),
            decreases self.height - y,
        {
            let mut x: usize = 0;
            while x < self.width
                invariant
                    self.wf(),
                    y < self.height,
                    x <= self.width,
                    coordinates(cells@) == passed(self@.live, x as int, y as int),
                    forall|k: int|
                        0 <= k < cells.len() ==> precedes(
                            (#[trigger] cells[k].0 as int, cells[k].1 as int),
                            (x as int, y as int),
                        ),
                    forall|j: int, k: int|
                        0 <= j < k < cells.len() ==> precedes(
                            (#[trigger] cells[j].0 as int, cells[j].1 as int),
                            (#[trigger] cells[k].0 as int, cells[k].1 as int),
                        ),
                decreases self.width - x,
            {
                let ghost before = cells@;
                if self.get(x, y) {
                    cells.push((x, y));
                }
                proof {
                    lemma_coordinates_push(before, (x, y));
                    assert(coordinates(cells@) =~= passed(self@.live, x + 1, y as int));
                }
                x += 1;
            }
            proof {
                assert(passed(self@.live, self.width as int, y as int) =~= passed(
                    self@.live,
                    0,
                    y + 1,
                ));
            }
            y += 1;
        }
        proof {
            assert(passed(self@.live, 0, self.height as int) =~= self@.live);
        }
        cells
    }

    /// Counts the live cells among the eight neighbours of `(x, y)`, where
    /// the neighbours of a cell on an edge include cells of the opposite
    /// edge.
    pub fn count_alive_neighbors(&self, x: usize, y: usize) -> (count: u8)
        requires
            self.wf(),
            self@.in_bounds(x as int, y as int),
        ensures
            count == self@.neighbor_count(x as int, y as int),
            count <= MAX_NEIGHBORS,
    {
        let west = shifted(x, -1, self.width);
        let east = shifted(x, 1, self.width);
        let north = shifted(y, -1, self.height);
        let south = shifted(y, 1, self.height);
        proof {
            lemma_wrap_step(x as int, self.width as int);
            lemma_wrap_step(y as int, self.height as int);
        }
        let mut count: u8 = 0;
        if self.get(west, north) {
            count += 1;
        }
        if self.get(x, north) {
            count += 1;
        }
        if self.get(east, north) {
            count += 1;
        }
        if self.get(west, y) {
            count += 1;
        }
        if self.get(east, y) {
            count += 1;
        }
        if self.get(west, south) {
            count += 1;
        }
        if self.get(x, south) {
            count += 1;
        }
        if self.get(east, south) {
            count += 1;
        }
        count
    }
}

} // verus!
