//! The rule of Life for a single cell: born on three live neighbours,
//! surviving on two or three.

use vstd::prelude::*;

verus! {

/// The most live neighbours a cell can have.
pub const MAX_NEIGHBORS: u8 = 8;

/// Whether a cell is alive in the next generation, given whether it is alive
/// now and how many of its eight neighbours are.
pub open spec fn survives(alive: bool, neighbors: nat) -> bool {
    neighbors == 3 || (alive && neighbors == 2)
}

/// What a generation schedules for one cell.
#[derive(Clone, Copy, Debug, PartialEq, Eq, Structural)]
pub enum Fate {
    /// A live cell dies, of loneliness or of crowding.
    Death,
    /// A dead cell comes alive.
    Birth,
    /// The cell stays as it is.
    Unchanged,
}

/// The change scheduled for a cell that is `alive` or not and has
/// `neighbors` live neighbours.
pub open spec fn fate_of(alive: bool, neighbors: nat) -> Fate {
    if alive {
        if neighbors <= 1 || neighbors >= 4 {
            Fate::Death
        } else {
            Fate::Unchanged
        }
    } else {
        if neighbors == 3 {
            Fate::Birth
        } else {
            Fate::Unchanged
        }
    }
}

/// The state of a cell once `fate` has been applied to it.
pub open spec fn applied(fate: Fate, alive: bool) -> bool {
    match fate {
        Fate::Death => false,
        Fate::Birth => true,
        Fate::Unchanged => alive,
    }
}

/// Decides what happens to one cell.
pub fn judge(alive: bool, neighbors: u8) -> (fate: Fate)
    requires
        neighbors <= MAX_NEIGHBORS,
    ensures
        fate == fate_of(alive, neighbors as nat),
{
    if alive {
        if neighbors <= 1 || neighbors >= 4 {
            Fate::Death
        } else {
            Fate::Unchanged
        }
    } else if neighbors == 3 {
        Fate::Birth
    } else {
        Fate::Unchanged
    }
}

/// The rule, count by count: a live cell with fewer than two live
/// neighbours dies, with two or three it lives on, with four or more it
/// dies; a dead cell comes alive on exactly three and stays dead otherwise.
pub proof fn lemma_rule_table(alive: bool, neighbors: nat)
    requires
        neighbors <= MAX_NEIGHBORS,
    ensures
        alive && neighbors <= 1 ==> !survives(alive, neighbors),
        alive && 2 <= neighbors <= 3 ==> survives(alive, neighbors),
        alive && 4 <= neighbors <= 8 ==> !survives(alive, neighbors),
        !alive && neighbors == 3 ==> survives(alive, neighbors),
        !alive && neighbors != 3 ==> !survives(alive, neighbors),
{
}

/// Applying the scheduled change to a cell gives its state in the next
/// generation; a death is only ever scheduled for a live cell and a birth
/// for a dead one.
pub proof fn lemma_fate_agrees_with_rule(alive: bool, neighbors: nat)
    ensures
        applied(fate_of(alive, neighbors), alive) == survives(alive, neighbors),
        fate_of(alive, neighbors) == Fate::Death ==> alive,
        fate_of(alive, neighbors) == Fate::Birth ==> !alive,
{
}

} // verus!
