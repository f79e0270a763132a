//! Coordinates on a ring of `size` places, where stepping off one end arrives
//! at the other.

use vstd::prelude::*;
use vstd::arithmetic::div_mod::{lemma_fundamental_div_mod_converse, lemma_mod_equivalence};

verus! {

/// The place that the unbounded coordinate `v` names on a ring of `size`
/// places: the remainder of the division that is never negative.
pub open spec fn wrap(v: int, size: int) -> int {
    v % size
}

/// The place before `coord` on the ring, written without a division.
pub open spec fn before(coord: int, size: int) -> int {
    if coord == 0 {
        size - 1
    } else {
        coord - 1
    }
}

/// The place after `coord` on the ring, written without a division.
pub open spec fn after(coord: int, size: int) -> int {
    if coord == size - 1 {
        0
    } else {
        coord + 1
    }
}

/// Every coordinate names a place of the ring.
pub proof fn lemma_wrap_in_range(v: int, size: int)
    requires
        size > 0,
    ensures
        0 <= wrap(v, size) < size,
{
}

/// A coordinate that already is a place of the ring names itself.
pub proof fn lemma_wrap_identity(coord: int, size: int)
    requires
        0 <= coord < size,
    ensures
        wrap(coord, size) == coord,
{
    lemma_fundamental_div_mod_converse(coord, size, 0, coord);
}

/// Going once around the ring, in either direction, changes nothing.
pub proof fn lemma_wrap_periodic(v: int, size: int)
    requires
        size > 0,
    ensures
        wrap(v + size, size) == wrap(v, size),
        wrap(v - size, size) == wrap(v, size),
{
    let q = v / size;
    let r = v % size;
    assert(v == q * size + r) by {
        vstd::arithmetic::div_mod::lemma_fundamental_div_mod(v, size);
    }
    assert(v + size == (q + 1) * size + r) by (nonlinear_arith)
        requires
            v == q * size + r,
    ;
    assert(v - size == (q - 1) * size + r) by (nonlinear_arith)
        requires
            v == q * size + r,
    ;
    lemma_fundamental_div_mod_converse(v + size, size, q + 1, r);
    lemma_fundamental_div_mod_converse(v - size, size, q - 1, r);
}

/// One step from a place of the ring: the first place steps back to the
/// last, the last steps forward to the first, and every other step stays
/// beside its origin.
pub proof fn lemma_wrap_step(coord: int, size: int)
    requires
        0 <= coord < size,
    ensures
        wrap(coord - 1, size) == before(coord, size),
        wrap(coord, size) == coord,
        wrap(coord + 1, size) == after(coord, size),
{
    lemma_wrap_identity(coord, size);
    if coord == 0 {
        lemma_fundamental_div_mod_converse(-1, size, -1, size - 1);
    } else {
        lemma_wrap_identity(coord - 1, size);
    }
    if coord == size - 1 {
        lemma_fundamental_div_mod_converse(size, size, 1, 0);
    } else {
        lemma_wrap_identity(coord + 1, size);
    }
}

/// One step from any coordinate: the place it names moves one place along
/// the ring.
pub proof fn lemma_wrap_next(v: int, size: int)
    requires
        size > 0,
    ensures
        wrap(v + 1, size) == after(wrap(v, size), size),
        wrap(v - 1, size) == before(wrap(v, size), size),
{
    let q = v / size;
    let r = v % size;
    assert(v == q * size + r && 0 <= r < size) by {
        vstd::arithmetic::div_mod::lemma_fundamental_div_mod(v, size);
    }
    assert((q + 1) * size == q * size + size && (q - 1) * size == q * size - size)
        by (nonlinear_arith);
    if r == size - 1 {
        lemma_fundamental_div_mod_converse(v + 1, size, q + 1, 0);
    } else {
        lemma_fundamental_div_mod_converse(v + 1, size, q, r + 1);
    }
    if r == 0 {
        lemma_fundamental_div_mod_converse(v - 1, size, q - 1, size - 1);
    } else {
        lemma_fundamental_div_mod_converse(v - 1, size, q, r - 1);
    }
}

/// A coordinate names the place `offset` steps after `origin` exactly when,
/// counted from `origin`, it names the place `offset`.
pub proof fn lemma_wrap_offset(v: int, origin: int, offset: int, size: int)
    requires
        0 <= offset < size,
    ensures
        (wrap(v, size) == wrap(origin + offset, size)) == (wrap(v - origin, size) == offset),
{
    lemma_mod_equivalence(v, origin + offset, size);
    lemma_mod_equivalence(v - origin, offset, size);
    lemma_wrap_identity(offset, size);
}

/// The place reached from `coord` by one step of `delta` on a ring of `size`
/// places.
pub fn shifted(coord: usize, delta: i8, size: usize) -> (place: usize)
    requires
        coord < size,
        -1 <= delta <= 1,
    ensures
        place == wrap(coord + delta, size as int),
        place < size,
{
    proof {
        lemma_wrap_step(coord as int, size as int);
    }
    if delta < 0 {
        if coord == 0 {
            size - 1
        } else {
            coord - 1
        }
    } else if delta > 0 {
        if coord == size - 1 {
            0
        } else {
            coord + 1
        }
    } else {
        coord
    }
}

} // verus!
