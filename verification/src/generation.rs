//! One generation: a scan that reads every cell of the grid as it stands and
//! schedules the cells that change, then a commit that applies what was
//! scheduled. No cell is written before every cell has been read.

use vstd::prelude::*;
use crate::grid::{
    coordinates, lemma_coordinates_empty, lemma_coordinates_push, passed, Grid, GridView,
};
use crate::rule::{fate_of, judge, lemma_fate_agrees_with_rule, survives, Fate};
use crate::torus::{after, before};

verus! {

impl GridView {
    /// Whether the cell at `(x, y)` is alive in the next generation.
    pub open spec fn next_alive(self, x: int, y: int) -> bool {
        survives(self.alive(x, y), self.neighbor_count(x, y))
    }

    /// The next generation: every cell of the grid judged at once, each by
    /// its own state and its neighbours' states in this generation.
    pub open spec fn next_generation(self) -> GridView {
        GridView {
            width: self.width,
            height: self.height,
            live: Set::new(|c: (int, int)| self.in_bounds(c.0, c.1) && self.next_alive(c.0, c.1)),
        }
    }

    /// The grid `count` generations on.
    pub open spec fn generations_on(self, count: nat) -> GridView
        decreases count,
    {
        if count == 0 {
            self
        } else {
            self.generations_on((count - 1) as nat).next_generation()
        }
    }

    /// What the rule schedules for the cell at `(x, y)`.
    pub open spec fn fate(self, x: int, y: int) -> Fate {
        fate_of(self.alive(x, y), self.neighbor_count(x, y))
    }

    /// The cells that die in the next generation.
    pub open spec fn doomed(self) -> Set<(int, int)> {
        Set::new(|c: (int, int)| self.in_bounds(c.0, c.1) && self.fate(c.0, c.1) == Fate::Death)
    }

    /// The cells that are born in the next generation.
    pub open spec fn nascent(self) -> Set<(int, int)> {
        Set::new(|c: (int, int)| self.in_bounds(c.0, c.1) && self.fate(c.0, c.1) == Fate::Birth)
    }

    /// The grid once `changes` are applied: first the deaths, then the
    /// births.
    pub open spec fn with_changes(self, changes: PendingView) -> GridView {
        GridView {
            width: self.width,
            height: self.height,
            live: self.live.difference(changes.deaths).union(changes.births),
        }
    }

    /// The changes that one scan of the grid schedules.
    pub open spec fn scheduled(self) -> PendingView {
        PendingView { deaths: self.doomed(), births: self.nascent() }
    }

    /// Applying what a scan schedules gives the next generation, and no cell
    /// is scheduled both to die and to be born.
    pub proof fn lemma_scheduled_changes_give_next_generation(self)
        requires
            self.wf(),
        ensures
            self.with_changes(self.scheduled()) == self.next_generation(),
            self.doomed().disjoint(self.nascent()),
            self.scheduled().within(self),
            self.next_generation().wf(),
    {
        let applied = self.with_changes(self.scheduled());
        let next = self.next_generation();
        assert forall|c: (int, int)| applied.live.contains(c) == next.live.contains(c) by {
            lemma_fate_agrees_with_rule(self.alive(c.0, c.1), self.neighbor_count(c.0, c.1));
        }
        assert(applied =~= next);
    }

    /// On a grid of at least three columns and three rows whose only live
    /// cell is `(x, y)`, that cell has no live neighbour and every other
    /// cell has at most one.
    proof fn lemma_lone_cell_neighbors(self, x: int, y: int, cx: int, cy: int)
        requires
            self.wf(),
            self.width >= 3,
            self.height >= 3,
            self.live == set![(x, y)],
            self.in_bounds(cx, cy),
        ensures
            self.neighbor_count(cx, cy) <= 1,
            cx == x && cy == y ==> self.neighbor_count(cx, cy) == 0,
    {
        self.lemma_neighbors_wrap(cx, cy);
        let west = before(cx, self.width as int);
        let east = after(cx, self.width as int);
        let north = before(cy, self.height as int);
        let south = after(cy, self.height as int);
        assert(west != cx && east != cx && west != east);
        assert(north != cy && south != cy && north != south);
        assert forall|a: int, b: int| self.population_at(a, b) == (if a == x && b == y {
            1nat
        } else {
            0nat
        }) by {
            assert(self.live.contains((a, b)) <==> (a, b) == (x, y));
        }
    }

    /// On such a grid the rule schedules the death of the lone cell and
    /// nothing else, and no cell is alive in the next generation.
    proof fn lemma_lone_cell_fates(self, x: int, y: int, cx: int, cy: int)
        requires
            self.wf(),
            self.width >= 3,
            self.height >= 3,
            self.live == set![(x, y)],
        ensures
            self.doomed().contains((cx, cy)) == (cx == x && cy == y),
            !self.nascent().contains((cx, cy)),
            !self.next_generation().live.contains((cx, cy)),
    {
        assert(self.live.contains((x, y)));
        assert(self.live.contains((cx, cy)) <==> (cx, cy) == (x, y));
        if self.in_bounds(cx, cy) {
            self.lemma_lone_cell_neighbors(x, y, cx, cy);
        }
    }

    /// A live cell alone on a grid of at least three columns and three rows
    /// dies in the next generation, and no cell is born: the next generation
    /// is empty.
    pub proof fn lemma_lone_cell_dies(self, x: int, y: int)
        requires
            self.wf(),
            self.width >= 3,
            self.height >= 3,
            self.live == set![(x, y)],
        ensures
            self.doomed() == set![(x, y)],
            self.nascent() == Set::<(int, int)>::empty(),
            self.next_generation().live == Set::<(int, int)>::empty(),
    {
        let doomed = self.doomed();
        let nascent = self.nascent();
        let next = self.next_generation().live;
        assert forall|c: (int, int)|
            doomed.contains(c) == (c == (x, y)) && !nascent.contains(c) && !next.contains(c) by {
            self.lemma_lone_cell_fates(x, y, c.0, c.1);
        }
        assert(doomed =~= set![(x, y)]);
        assert(nascent =~= Set::<(int, int)>::empty());
        assert(next =~= Set::<(int, int)>::empty());
    }
}

/// What a set of scheduled changes is: the coordinates of the cells that
/// are to die and of those that are to be born. Neither has an order.
#[verifier::ext_equal]
pub struct PendingView {
    pub deaths: Set<(int, int)>,
    pub births: Set<(int, int)>,
}

impl PendingView {
    /// Every scheduled change names a cell of `grid`.
    pub open spec fn within(self, grid: GridView) -> bool {
        &&& forall|c: (int, int)| #[trigger] self.deaths.contains(c) ==> grid.in_bounds(c.0, c.1)
        &&& forall|c: (int, int)| #[trigger] self.births.contains(c) ==> grid.in_bounds(c.0, c.1)
    }
}

/// The changes that one scan schedules, kept until the scan is over.
pub struct PendingChanges {
    deaths: Vec<(usize, usize)>,
    births: Vec<(usize, usize)>,
}

impl View for PendingChanges {
    type V = PendingView;

    closed spec fn view(&self) -> PendingView {
        PendingView { deaths: coordinates(self.deaths@), births: coordinates(self.births@) }
    }
}

impl PendingChanges {
    /// The cells scheduled to die, in no particular order.
    pub fn deaths(&self) -> (cells: &Vec<(usize, usize)>)
        ensures
            coordinates(cells@) == self@.deaths,
    {
        &self.deaths
    }

    /// The cells scheduled to be born, in no particular order.
    pub fn births(&self) -> (cells: &Vec<(usize, usize)>)
        ensures
            coordinates(cells@) == self@.births,
    {
        &self.births
    }
}

impl Grid {
    /// Reads every cell and schedules the deaths and births of the next
    /// generation. The grid is left as it is.
    pub fn scan(&self) -> (changes: PendingChanges)
        requires
            self.wf(),
        ensures
            changes@ == self@.scheduled(),
    {
        let width = self.width();
        let height = self.height();
        let mut deaths: Vec<(usize, usize)> = Vec::new();
        let mut births: Vec<(usize, usize)> = Vec::new();
        proof {
            lemma_coordinates_empty();
            self.lemma_view_wf();
        }
        let mut y: usize = 0;
        while y < height
            invariant
                self.wf(),
                self@.wf(),
                width == self@.width,
                height == self@.height,
                y <= height,
                coordinates(deaths@) == passed(self@.doomed(), 0, y as int),
                coordinates(births@) == passed(self@.nascent(), 0, y as int),
            decreases height - y,
        {
            let mut x: usize = 0;
            while x < width
                invariant
                    self.wf(),
                    self@.wf(),
                    width == self@.width,
                    height == self@.height,
                    y < height,
                    x <= width,
                    coordinates(deaths@) == passed(self@.doomed(), x as int, y as int),
                    coordinates(births@) == passed(self@.nascent(), x as int, y as int),
                decreases width - x,
            {
                let alive = self.get(x, y);
                let neighbors = self.count_alive_neighbors(x, y);
                let ghost deaths_before = deaths@;
                let ghost births_before = births@;
                match judge(alive, neighbors) {
                    Fate::Death => {
                        deaths.push((x, y));
                    },
                    Fate::Birth => {
                        births.push((x, y));
                    },
                    Fate::Unchanged => {},
                }
                proof {
                    lemma_coordinates_push(deaths_before, (x, y));
                    lemma_coordinates_push(births_before, (x, y));
                    assert(coordinates(deaths@) =~= passed(self@.doomed(), x + 1, y as int));
                    assert(coordinates(births@) =~= passed(self@.nascent(), x + 1, y as int));
                }
                x += 1;
            }
            proof {
                assert(passed(self@.doomed(), width as int, y as int) =~= passed(
                    self@.doomed(),
                    0,
                    y + 1,
                ));
                assert(passed(self@.nascent(), width as int, y as int) =~= passed(
                    self@.nascent(),
                    0,
                    y + 1,
                ));
            }
            y += 1;
        }
        proof {
            assert(passed(self@.doomed(), 0, height as int) =~= self@.doomed());
            assert(passed(self@.nascent(), 0, height as int) =~= self@.nascent());
        }
        let changes = PendingChanges { deaths, births };
        assert(changes@ =~= self@.scheduled());
        changes
    }

    /// Applies scheduled changes: every scheduled death, then every
    /// scheduled birth.
    pub fn commit(&mut self, changes: PendingChanges)
        requires
            old(self).wf(),
            changes@.within(old(self)@),
        ensures
            final(self).wf(),
            final(self)@ == old(self)@.with_changes(changes@),
    {
        let ghost before = self@;
        proof {
            lemma_coordinates_empty();
            self.lemma_view_wf();
            assert(changes.deaths@.subrange(0, 0) =~= Seq::empty());
            assert(self@ =~= before.with_changes(PendingView { deaths: Set::empty(), births: Set::empty() }));
        }
        let mut k: usize = 0;
        while k < changes.deaths.len()
            invariant
                self.wf(),
                before.wf(),
                changes@.within(before),
                k <= changes.deaths.len(),
                self@ == before.with_changes(
                    PendingView {
                        deaths: coordinates(changes.deaths@.subrange(0, k as int)),
                        births: Set::empty(),
                    },
                ),
            decreases changes.deaths.len() - k,
        {
            let (x, y) = changes.deaths[k];
            let ghost done = changes.deaths@.subrange(0, k as int);
            proof {
                assert(coordinates(changes.deaths@).contains((x as int, y as int)));
                assert(changes.deaths@.subrange(0, k + 1) =~= done.push((x, y)));
                lemma_coordinates_push(done, (x, y));
            }
            assert(changes@.deaths.contains((x as int, y as int)));
            self.set(x, y, false);
            proof {
                let target = before.with_changes(
                    PendingView {
                        deaths: coordinates(changes.deaths@.subrange(0, k + 1)),
                        births: Set::empty(),
                    },
                );
                assert(self@.live =~= target.live);
            }
            k += 1;
        }
        proof {
            assert(changes.deaths@.subrange(0, k as int) =~= changes.deaths@);
            assert(changes.births@.subrange(0, 0) =~= Seq::empty());
        }
        let mut k: usize = 0;
        while k < changes.births.len()
            invariant
                self.wf(),
                before.wf(),
                changes@.within(before),
                k <= changes.births.len(),
                self@ == before.with_changes(
                    PendingView {
                        deaths: coordinates(changes.deaths@),
                        births: coordinates(changes.births@.subrange(0, k as int)),
                    },
                ),
            decreases changes.births.len() - k,
        {
            let (x, y) = changes.births[k];
            let ghost done = changes.births@.subrange(0, k as int);
            proof {
                assert(coordinates(changes.births@).contains((x as int, y as int)));
                assert(changes.births@.subrange(0, k + 1) =~= done.push((x, y)));
                lemma_coordinates_push(done, (x, y));
            }
            assert(changes@.births.contains((x as int, y as int)));
            self.set(x, y, true);
            proof {
                let target = before.with_changes(
                    PendingView {
                        deaths: coordinates(changes.deaths@),
                        births: coordinates(changes.births@.subrange(0, k + 1)),
                    },
                );
                assert(self@.live =~= target.live);
            }
            k += 1;
        }
        proof {
            assert(changes.births@.subrange(0, k as int) =~= changes.births@);
        }
    }

    /// Advances the grid by one generation.
    pub fn advance(&mut self)
        requires
            old(self).wf(),
        ensures
            final(self).wf(),
            final(self)@ == old(self)@.next_generation(),
    {
        let changes = self.scan();
        proof {
            self.lemma_view_wf();
            self@.lemma_scheduled_changes_give_next_generation();
        }
        self.commit(changes);
    }
}

} // verus!
