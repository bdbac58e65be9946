//! Laws that relate the grid operations to one another: what a repeated
//! move must report, that a fresh or nearly empty grid has no winner, and
//! that the scan outcome is determined by the grid state alone.

use vstd::prelude::*;
use crate::board::Board;
use crate::board::Cell;
use crate::board::GridError;
use crate::board::Outcome;
use crate::board::Player;
use crate::board::mark_of;
use crate::board::rm_before;
use crate::board::win_outcome;

verus! {

/// Once a move has succeeded on a cell, a second move on that same cell
/// must report `AlreadyOccupied`, whoever is moving: `pre` accepted the
/// move, `post` is any grid that a successful move for `player` leaves
/// behind, and on `post` the verdict for the same position is occupied.
pub proof fn lemma_repeat_move_already_occupied(
    pre: Board,
    post: Board,
    row: int,
    col: int,
    player: Player,
)
    requires
        post.spec_width() == pre.spec_width(),
        post.spec_height() == pre.spec_height(),
        pre.move_result(row, col) is Ok,
        post.cell_at(row, col) == mark_of(player),
    ensures
        post.move_result(row, col) == Err::<(), GridError>(GridError::AlreadyOccupied),
{
}

/// A grid whose cells are all empty — as `Board::new` leaves it — has no
/// winning cell, so `calculate` can only report `NoWinner` of it.
pub proof fn lemma_empty_grid_no_winner(b: Board)
    requires
        forall|r: int, c: int| b.in_bounds(r, c) ==> b.cell_at(r, c) == Cell::Empty,
    ensures
        forall|r: int, c: int| !b.cell_wins(r, c),
{
    assert forall|r: int, c: int| !b.cell_wins(r, c) by {
        if b.cell_wins(r, c) {
            assert(b.cell_at(r, c) == Cell::Empty);
        }
    }
}

/// Two marks can never make a winning cell: when every marked cell sits at
/// one of two positions, no cell wins — a winning cell needs three marked
/// positions, the cell and both of its flanking neighbours. In particular
/// two same-owner marks with a gap between them produce no win.
pub proof fn lemma_two_marks_no_win(b: Board, r1: int, c1: int, r2: int, c2: int)
    requires
        forall|r: int, c: int|
            b.in_bounds(r, c) && #[trigger] b.cell_at(r, c) != Cell::Empty
                ==> ((r == r1 && c == c1) || (r == r2 && c == c2)),
    ensures
        forall|r: int, c: int| !b.cell_wins(r, c),
{
    assert forall|r: int, c: int| !b.cell_wins(r, c) by {
        if b.cell_wins(r, c) {
            if 0 < c < b.spec_width() - 1 && b.cell_at(r, c - 1) == b.cell_at(r, c)
                && b.cell_at(r, c + 1) == b.cell_at(r, c) {
                assert(b.cell_at(r, c - 1) != Cell::Empty);
                assert(b.cell_at(r, c + 1) != Cell::Empty);
            } else {
                assert(b.cell_at(r - 1, c) != Cell::Empty);
                assert(b.cell_at(r + 1, c) != Cell::Empty);
            }
        }
    }
}

/// The scan outcome is a function of the grid state alone: any two
/// outcomes that satisfy `calculate`'s contract for the same grid are
/// equal. With `calculate` itself free of side effects, repeated calls on
/// an unchanged grid therefore all return the same outcome — the one
/// belonging to the first winning cell in row-major order.
pub proof fn lemma_outcome_determined(b: Board, o1: Outcome, o2: Outcome)
    requires
        b.outcome_matches(o1),
        b.outcome_matches(o2),
    ensures
        o1 == o2,
{
    if o1 == Outcome::NoWinner || o2 == Outcome::NoWinner {
        assert(o1 == o2);
    } else {
        let (ra, ca) = choose|r: int, c: int|
            b.is_first_win(r, c) && o1 == win_outcome(b.cell_at(r, c));
        let (rb, cb) = choose|r: int, c: int|
            b.is_first_win(r, c) && o2 == win_outcome(b.cell_at(r, c));
        if ra != rb || ca != cb {
            if rm_before(ra, ca, rb, cb) {
                assert(!b.cell_wins(ra, ca));
            } else {
                assert(rm_before(rb, cb, ra, ca));
                assert(!b.cell_wins(rb, cb));
            }
        }
    }
}

} // verus!
