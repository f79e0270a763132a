//! The glider: five cells that, on a torus of at least five columns and
//! five rows, take their own shape again every four generations, one cell
//! further down and to the right.

use vstd::prelude::*;
use crate::grid::GridView;
use crate::rule::survives;
use crate::torus::{
    after, before, lemma_wrap_identity, lemma_wrap_in_range, lemma_wrap_next, lemma_wrap_offset,
    wrap,
};

verus! {

/// Whether the glider, in the given phase of its cycle of four, has a live
/// cell `i` columns and `j` rows from the corner of its frame.
pub open spec fn shape(phase: int, i: int, j: int) -> bool {
    if phase == 0 {
        ||| (i == 1 && j == 0)
        ||| (i == 2 && j == 1)
        ||| (i == 0 && j == 2)
        ||| (i == 1 && j == 2)
        ||| (i == 2 && j == 2)
    } else if phase == 1 {
        ||| (i == 0 && j == 1)
        ||| (i == 2 && j == 1)
        ||| (i == 1 && j == 2)
        ||| (i == 2 && j == 2)
        ||| (i == 1 && j == 3)
    } else if phase == 2 {
        ||| (i == 2 && j == 1)
        ||| (i == 0 && j == 2)
        ||| (i == 2 && j == 2)
        ||| (i == 1 && j == 3)
        ||| (i == 2 && j == 3)
    } else {
        ||| (i == 1 && j == 1)
        ||| (i == 2 && j == 2)
        ||| (i == 3 && j == 2)
        ||| (i == 1 && j == 3)
        ||| (i == 2 && j == 3)
    }
}

/// The live cells of a glider whose frame has its corner at `(ox, oy)`, on
/// a torus of the given dimensions: the cells of its shape, each as many
/// columns and rows from the corner as the shape says, around the torus.
pub open spec fn glider(width: nat, height: nat, ox: int, oy: int, phase: int) -> Set<(int, int)> {
    Set::new(
        |c: (int, int)|
            0 <= c.0 < width && 0 <= c.1 < height && shape(
                phase,
                wrap(c.0 - ox, width as int),
                wrap(c.1 - oy, height as int),
            ),
    )
}

/// The cell `i` columns and `j` rows from `(ox, oy)` is a cell of the glider
/// exactly when the shape has a cell there.
pub proof fn lemma_glider_cells(width: nat, height: nat, ox: int, oy: int, phase: int, i: int, j: int)
    requires
        width > 0,
        height > 0,
        0 <= i < width,
        0 <= j < height,
    ensures
        glider(width, height, ox, oy, phase).contains(
            (wrap(ox + i, width as int), wrap(oy + j, height as int)),
        ) == shape(phase, i, j),
{
    let x = wrap(ox + i, width as int);
    let y = wrap(oy + j, height as int);
    lemma_wrap_in_range(ox + i, width as int);
    lemma_wrap_in_range(oy + j, height as int);
    lemma_wrap_identity(x, width as int);
    lemma_wrap_identity(y, height as int);
    lemma_wrap_offset(x, ox, i, width as int);
    lemma_wrap_offset(y, oy, j, height as int);
}

/// One if `held`, zero if not.
spec fn one(held: bool) -> nat {
    if held {
        1
    } else {
        0
    }
}

/// How many cells of the shape lie around the place `(i, j)` of a torus
/// whose origin is the corner of the glider's frame.
spec fn shape_count(phase: int, width: int, height: int, i: int, j: int) -> nat {
    let west = before(i, width);
    let east = after(i, width);
    let north = before(j, height);
    let south = after(j, height);
    one(shape(phase, west, north)) + one(shape(phase, i, north)) + one(shape(phase, east, north))
        + one(shape(phase, west, j)) + one(shape(phase, east, j))
        + one(shape(phase, west, south)) + one(shape(phase, i, south))
        + one(shape(phase, east, south))
}

/// The rule applied to the shape gives the shape of the next phase, and
/// after the last phase the first again, one column and one row on.
proof fn lemma_shape_step(phase: int, width: int, height: int, i: int, j: int)
    requires
        0 <= phase <= 3,
        width >= 5,
        height >= 5,
        0 <= i < width,
        0 <= j < height,
    ensures
        survives(shape(phase, i, j), shape_count(phase, width, height, i, j)) == (if phase < 3 {
            shape(phase + 1, i, j)
        } else {
            shape(0, before(i, width), before(j, height))
        }),
{
}

impl GridView {
    /// On a grid that holds a glider and nothing else, the neighbour of
    /// `(x, y)` at the offset `(dx, dy)` is alive exactly when the shape has
    /// a cell at that offset from the place of `(x, y)` in the glider's
    /// frame.
    proof fn lemma_glider_neighbor(self, ox: int, oy: int, phase: int, x: int, y: int, dx: int, dy: int)
        requires
            self.wf(),
            self.live == glider(self.width, self.height, ox, oy, phase),
            -1 <= dx <= 1,
            -1 <= dy <= 1,
        ensures
            self.live.contains(self.neighbor(x, y, dx, dy)) == shape(
                phase,
                wrap(x - ox + dx, self.width as int),
                wrap(y - oy + dy, self.height as int),
            ),
    {
        let w = self.width as int;
        let h = self.height as int;
        let beside = self.neighbor(x, y, dx, dy);
        let i = wrap(x - ox + dx, w);
        let j = wrap(y - oy + dy, h);
        lemma_wrap_in_range(x + dx, w);
        lemma_wrap_in_range(y + dy, h);
        lemma_wrap_in_range(x - ox + dx, w);
        lemma_wrap_in_range(y - oy + dy, h);
        lemma_wrap_identity(beside.0, w);
        lemma_wrap_identity(beside.1, h);
        lemma_wrap_offset(x + dx, ox, i, w);
        lemma_wrap_offset(y + dy, oy, j, h);
        lemma_wrap_offset(beside.0, ox, i, w);
        lemma_wrap_offset(beside.1, oy, j, h);
    }

    /// The fate of one cell of a grid that holds a glider and nothing else.
    proof fn lemma_glider_cell(self, ox: int, oy: int, phase: int, x: int, y: int)
        requires
            self.wf(),
            self.width >= 5,
            self.height >= 5,
            0 <= phase <= 3,
            self.live == glider(self.width, self.height, ox, oy, phase),
            self.in_bounds(x, y),
        ensures
            self.next_alive(x, y) == (if phase < 3 {
                glider(self.width, self.height, ox, oy, phase + 1).contains((x, y))
            } else {
                glider(self.width, self.height, ox + 1, oy + 1, 0).contains((x, y))
            }),
    {
        let w = self.width as int;
        let h = self.height as int;
        let i = wrap(x - ox, w);
        let j = wrap(y - oy, h);
        lemma_wrap_in_range(x - ox, w);
        lemma_wrap_in_range(y - oy, h);
        lemma_wrap_next(x - ox, w);
        lemma_wrap_next(y - oy, h);
        lemma_wrap_identity(x, w);
        lemma_wrap_identity(y, h);
        self.lemma_glider_neighbor(ox, oy, phase, x, y, -1, -1);
        self.lemma_glider_neighbor(ox, oy, phase, x, y, 0, -1);
        self.lemma_glider_neighbor(ox, oy, phase, x, y, 1, -1);
        self.lemma_glider_neighbor(ox, oy, phase, x, y, -1, 0);
        self.lemma_glider_neighbor(ox, oy, phase, x, y, 0, 0);
        self.lemma_glider_neighbor(ox, oy, phase, x, y, 1, 0);
        self.lemma_glider_neighbor(ox, oy, phase, x, y, -1, 1);
        self.lemma_glider_neighbor(ox, oy, phase, x, y, 0, 1);
        self.lemma_glider_neighbor(ox, oy, phase, x, y, 1, 1);
        assert(self.alive(x, y) == shape(phase, i, j));
        assert(self.neighbor_count(x, y) == shape_count(phase, w, h, i, j));
        lemma_shape_step(phase, w, h, i, j);
    }

    /// The glider, phase by phase: a grid of at least five columns and five
    /// rows that holds a glider and nothing else holds, one generation on,
    /// the glider in its next phase and nothing else. After the last phase
    /// comes the first again, one cell further down and to the right.
    pub proof fn lemma_glider_step(self, ox: int, oy: int, phase: int)
        requires
            self.wf(),
            self.width >= 5,
            self.height >= 5,
            0 <= phase <= 3,
            self.live == glider(self.width, self.height, ox, oy, phase),
        ensures
            self.next_generation().wf(),
            self.next_generation().live == (if phase < 3 {
                glider(self.width, self.height, ox, oy, phase + 1)
            } else {
                glider(self.width, self.height, ox + 1, oy + 1, 0)
            }),
    {
        let next = self.next_generation().live;
        let target = if phase < 3 {
            glider(self.width, self.height, ox, oy, phase + 1)
        } else {
            glider(self.width, self.height, ox + 1, oy + 1, 0)
        };
        assert forall|c: (int, int)| next.contains(c) == target.contains(c) by {
            if self.in_bounds(c.0, c.1) {
                self.lemma_glider_cell(ox, oy, phase, c.0, c.1);
            }
        }
        assert(next =~= target);
    }

    /// A grid of at least five columns and five rows that holds a glider
    /// and nothing else holds, four generations on, the same glider one
    /// cell further down and to the right, and nothing else. Where the
    /// glider meets an edge of the grid it goes on from the opposite edge.
    pub proof fn lemma_glider_travels(self, ox: int, oy: int)
        requires
            self.wf(),
            self.width >= 5,
            self.height >= 5,
            self.live == glider(self.width, self.height, ox, oy, 0),
        ensures
            self.generations_on(4).wf(),
            self.generations_on(4).width == self.width,
            self.generations_on(4).height == self.height,
            self.generations_on(4).live == glider(self.width, self.height, ox + 1, oy + 1, 0),
    {
        let first = self.next_generation();
        let second = first.next_generation();
        let third = second.next_generation();
        self.lemma_glider_step(ox, oy, 0);
        first.lemma_glider_step(ox, oy, 1);
        second.lemma_glider_step(ox, oy, 2);
        third.lemma_glider_step(ox, oy, 3);
        reveal_with_fuel(GridView::generations_on, 5);
    }
}

} // verus!
