use flankgrid::board::Board;
use flankgrid::board::Cell;
use flankgrid::board::GridError;
use flankgrid::board::Outcome;
use flankgrid::board::Player;

#[test]
fn new_all_cells_empty() {
    let b = Board::new(3, 3).unwrap();
    assert_eq!(b.width(), 3);
    assert_eq!(b.height(), 3);
    for row in 0..3 {
        for col in 0..3 {
            assert_eq!(b.cell(row, col), Cell::Empty);
        }
    }
    let b = Board::new(7, 4).unwrap();
    assert_eq!(b.width(), 7);
    assert_eq!(b.height(), 4);
    for row in 0..4 {
        for col in 0..7 {
            assert_eq!(b.cell(row, col), Cell::Empty);
        }
    }
}

#[test]
fn new_rejects_small_dimensions() {
    assert!(matches!(Board::new(2, 3), Err(GridError::InvalidDimensions)));
    assert!(matches!(Board::new(3, 2), Err(GridError::InvalidDimensions)));
    assert!(matches!(Board::new(0, 0), Err(GridError::InvalidDimensions)));
    assert!(matches!(Board::new(2, 100), Err(GridError::InvalidDimensions)));
}

#[test]
fn play_marks_cell_and_leaves_others() {
    let mut b = Board::new(4, 4).unwrap();
    assert_eq!(b.play(1, 2, Player::X), Ok(()));
    for row in 0..4 {
        for col in 0..4 {
            if row == 1 && col == 2 {
                assert_eq!(b.cell(row, col), Cell::MarkedX);
            } else {
                assert_eq!(b.cell(row, col), Cell::Empty);
            }
        }
    }
    assert_eq!(b.play(3, 0, Player::O), Ok(()));
    assert_eq!(b.cell(3, 0), Cell::MarkedO);
    assert_eq!(b.cell(1, 2), Cell::MarkedX);
}

#[test]
fn play_same_cell_already_occupied() {
    let mut b = Board::new(3, 3).unwrap();
    assert_eq!(b.play(0, 0, Player::O), Ok(()));
    assert_eq!(b.play(0, 0, Player::O), Err(GridError::AlreadyOccupied));
    assert_eq!(b.play(0, 0, Player::X), Err(GridError::AlreadyOccupied));
    assert_eq!(b.cell(0, 0), Cell::MarkedO);
}

#[test]
fn play_out_of_range_leaves_grid_unchanged() {
    let mut b = Board::new(3, 4).unwrap();
    assert_eq!(b.play(1, 1, Player::X), Ok(()));
    // The exact boundary must already be rejected: row == height and
    // col == width are out of range under the strict bound, not one past it.
    assert_eq!(b.play(4, 0, Player::O), Err(GridError::OutOfRange));
    assert_eq!(b.play(0, 3, Player::O), Err(GridError::OutOfRange));
    assert_eq!(b.play(usize::MAX, usize::MAX, Player::O), Err(GridError::OutOfRange));
    for row in 0..4 {
        for col in 0..3 {
            if row == 1 && col == 1 {
                assert_eq!(b.cell(row, col), Cell::MarkedX);
            } else {
                assert_eq!(b.cell(row, col), Cell::Empty);
            }
        }
    }
}

#[test]
fn fresh_grid_no_winner() {
    let b = Board::new(3, 3).unwrap();
    assert_eq!(b.calculate(), Outcome::NoWinner);
    let b = Board::new(9, 5).unwrap();
    assert_eq!(b.calculate(), Outcome::NoWinner);
}

#[test]
fn horizontal_win_x() {
    let mut b = Board::new(3, 3).unwrap();
    assert_eq!(b.play(1, 0, Player::X), Ok(()));
    assert_eq!(b.calculate(), Outcome::NoWinner);
    assert_eq!(b.play(1, 1, Player::X), Ok(()));
    assert_eq!(b.calculate(), Outcome::NoWinner);
    assert_eq!(b.play(1, 2, Player::X), Ok(()));
    assert_eq!(b.calculate(), Outcome::WinX);
}

#[test]
fn vertical_win_o() {
    let mut b = Board::new(3, 3).unwrap();
    assert_eq!(b.play(0, 1, Player::O), Ok(()));
    assert_eq!(b.calculate(), Outcome::NoWinner);
    assert_eq!(b.play(1, 1, Player::O), Ok(()));
    assert_eq!(b.calculate(), Outcome::NoWinner);
    assert_eq!(b.play(2, 1, Player::O), Ok(()));
    assert_eq!(b.calculate(), Outcome::WinO);
}

#[test]
fn gapped_marks_no_win() {
    // Two same-owner marks separated by a gap flank nothing marked.
    let mut b = Board::new(3, 3).unwrap();
    assert_eq!(b.play(0, 0, Player::X), Ok(()));
    assert_eq!(b.play(0, 2, Player::X), Ok(()));
    assert_eq!(b.calculate(), Outcome::NoWinner);
    // The same with a vertical gap.
    let mut b = Board::new(4, 4).unwrap();
    assert_eq!(b.play(0, 1, Player::O), Ok(()));
    assert_eq!(b.play(2, 1, Player::O), Ok(()));
    assert_eq!(b.calculate(), Outcome::NoWinner);
}

#[test]
fn mixed_owner_flanking_no_win() {
    // A cell flanked by marks of the other owner wins for nobody.
    let mut b = Board::new(3, 3).unwrap();
    assert_eq!(b.play(1, 0, Player::X), Ok(()));
    assert_eq!(b.play(1, 1, Player::O), Ok(()));
    assert_eq!(b.play(1, 2, Player::X), Ok(()));
    assert_eq!(b.calculate(), Outcome::NoWinner);
}

#[test]
fn diagonal_triple_no_win() {
    // Flanking counts on the two axes only, never diagonally.
    let mut b = Board::new(3, 3).unwrap();
    assert_eq!(b.play(0, 0, Player::X), Ok(()));
    assert_eq!(b.play(1, 1, Player::X), Ok(()));
    assert_eq!(b.play(2, 2, Player::X), Ok(()));
    assert_eq!(b.calculate(), Outcome::NoWinner);
}

#[test]
fn scan_order_picks_first_winning_cell() {
    // Two independent winning triples for different owners: an X row whose
    // winning cell is (1, 1), and an O column whose winning cell is (3, 4).
    // (1, 1) comes first in row-major order, so X's win is reported, and
    // repeated calls agree.
    let mut b = Board::new(5, 5).unwrap();
    assert_eq!(b.play(1, 0, Player::X), Ok(()));
    assert_eq!(b.play(1, 1, Player::X), Ok(()));
    assert_eq!(b.play(2, 4, Player::O), Ok(()));
    assert_eq!(b.play(3, 4, Player::O), Ok(()));
    assert_eq!(b.play(4, 4, Player::O), Ok(()));
    assert_eq!(b.calculate(), Outcome::WinO);
    assert_eq!(b.play(1, 2, Player::X), Ok(()));
    assert_eq!(b.calculate(), Outcome::WinX);
    assert_eq!(b.calculate(), Outcome::WinX);
    assert_eq!(b.calculate(), Outcome::WinX);
}

#[test]
fn win_on_row_edge_of_column() {
    // A vertical triple in the first column still wins: the winning cell
    // (1, 0) needs interior position on the row axis only.
    let mut b = Board::new(3, 3).unwrap();
    assert_eq!(b.play(0, 0, Player::X), Ok(()));
    assert_eq!(b.play(1, 0, Player::X), Ok(()));
    assert_eq!(b.play(2, 0, Player::X), Ok(()));
    assert_eq!(b.calculate(), Outcome::WinX);
}
