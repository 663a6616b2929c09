use minefield::board::Board;
use minefield::cell::Cell;
use minefield::chance::Probability;
use minefield::outcome::{BoardError, FlagOutcome, RevealOutcome};
use rand::rngs::StdRng;
use rand::SeedableRng;

fn board_with_mines(width: usize, height: usize, at: &[(usize, usize)]) -> Board {
    let mut mines = vec![false; width * height];
    for &(x, y) in at {
        mines[x * height + y] = true;
    }
    Board::from_mines(width, height, &mines).unwrap()
}

fn cells_of(board: &Board) -> Vec<Cell> {
    let mut cells = Vec::new();
    for x in 0..board.width() {
        for y in 0..board.height() {
            cells.push(board.cell_at(x, y).unwrap());
        }
    }
    cells
}

#[test]
fn single_mine_is_counted_by_its_neighbours_only() {
    let board = board_with_mines(10, 10, &[(5, 5)]);
    assert_eq!(board.adjacent_mine_count(4, 4), Ok(1));
    assert_eq!(board.adjacent_mine_count(0, 0), Ok(0));
    assert_eq!(board.adjacent_mine_count(5, 5), Ok(0));
    assert_eq!(board.cell_at(5, 5), Ok(Cell::Mine));
}

#[test]
fn every_neighbour_of_a_single_mine_counts_one() {
    let board = board_with_mines(10, 10, &[(5, 5)]);
    for x in 0..10usize {
        for y in 0..10usize {
            let near = x.abs_diff(5) <= 1 && y.abs_diff(5) <= 1 && (x, y) != (5, 5);
            let expected = if near { 1 } else { 0 };
            assert_eq!(board.adjacent_mine_count(x, y), Ok(expected), "at ({}, {})", x, y);
        }
    }
}

#[test]
fn flagged_cell_is_not_revealed() {
    let mut board = board_with_mines(10, 10, &[]);
    assert_eq!(board.cell_at(0, 0), Ok(Cell::Hidden));
    assert_eq!(board.toggle_flag(0, 0), Ok(FlagOutcome::Flagged));
    assert_eq!(board.cell_at(0, 0), Ok(Cell::Flagged));
    assert_eq!(board.reveal_cell(0, 0), Ok(RevealOutcome::Flagged));
    assert_eq!(board.cell_at(0, 0), Ok(Cell::Flagged));
}

#[test]
fn generate_with_zero_probability_has_no_mines() {
    let mut rng = StdRng::seed_from_u64(1);
    let board = Board::generate(10, 10, Probability::never(), &mut rng);
    assert_eq!(board.width(), 10);
    assert_eq!(board.height(), 10);
    for x in 0..10 {
        for y in 0..10 {
            assert_eq!(board.cell_at(x, y), Ok(Cell::Hidden));
            assert_eq!(board.adjacent_mine_count(x, y), Ok(0));
        }
    }
}

#[test]
fn generate_with_zero_numerator_over_any_denominator_has_no_mines() {
    let mut rng = StdRng::seed_from_u64(2);
    let board = Board::generate(4, 6, Probability::new(0, 7).unwrap(), &mut rng);
    assert!(cells_of(&board).iter().all(|c| *c == Cell::Hidden));
}

#[test]
fn generate_with_full_probability_is_all_mines() {
    let mut rng = StdRng::seed_from_u64(3);
    let board = Board::generate(3, 3, Probability::always(), &mut rng);
    assert!(cells_of(&board).iter().all(|c| *c == Cell::Mine));
    assert_eq!(board.adjacent_mine_count(0, 0), Ok(3));
    assert_eq!(board.adjacent_mine_count(1, 0), Ok(5));
    assert_eq!(board.adjacent_mine_count(0, 1), Ok(5));
    assert_eq!(board.adjacent_mine_count(1, 1), Ok(8));
    assert_eq!(board.adjacent_mine_count(2, 2), Ok(3));
}

#[test]
fn generate_leaves_every_cell_hidden() {
    let mut rng = StdRng::seed_from_u64(4);
    let board = Board::generate(10, 10, Probability::new(1, 4).unwrap(), &mut rng);
    let cells = cells_of(&board);
    assert_eq!(cells.len(), 100);
    assert!(cells.iter().all(|c| *c == Cell::Hidden || *c == Cell::Mine));
}

#[test]
fn generate_draws_some_mines_and_some_empty_cells() {
    let mut rng = StdRng::seed_from_u64(5);
    let board = Board::generate(20, 20, Probability::new(1, 2).unwrap(), &mut rng);
    let cells = cells_of(&board);
    assert!(cells.iter().any(|c| *c == Cell::Mine));
    assert!(cells.iter().any(|c| *c == Cell::Hidden));
}

#[test]
fn generate_repeats_itself_on_the_same_seed() {
    let chance = Probability::new(1, 4).unwrap();
    let first = Board::generate(10, 10, chance, &mut StdRng::seed_from_u64(42));
    let second = Board::generate(10, 10, chance, &mut StdRng::seed_from_u64(42));
    assert_eq!(cells_of(&first), cells_of(&second));
}

#[test]
fn generate_keeps_non_square_dimensions() {
    let mut rng = StdRng::seed_from_u64(6);
    let board = Board::generate(3, 7, Probability::new(1, 4).unwrap(), &mut rng);
    assert_eq!(board.width(), 3);
    assert_eq!(board.height(), 7);
    assert!(board.in_bounds(2, 6));
    assert!(!board.in_bounds(3, 6));
    assert!(!board.in_bounds(2, 7));
    assert!(!board.in_bounds(6, 2));
}

#[test]
fn generate_of_an_empty_board() {
    let mut rng = StdRng::seed_from_u64(7);
    let board = Board::generate(0, 5, Probability::always(), &mut rng);
    assert_eq!(board.width(), 0);
    assert_eq!(board.cell_at(0, 0), Err(BoardError::OutOfBounds));
}

#[test]
fn from_mines_places_each_entry_column_by_column() {
    let mines = [false, true, false, false, false, true];
    let board = Board::from_mines(2, 3, &mines).unwrap();
    assert_eq!(board.cell_at(0, 0), Ok(Cell::Hidden));
    assert_eq!(board.cell_at(0, 1), Ok(Cell::Mine));
    assert_eq!(board.cell_at(0, 2), Ok(Cell::Hidden));
    assert_eq!(board.cell_at(1, 0), Ok(Cell::Hidden));
    assert_eq!(board.cell_at(1, 1), Ok(Cell::Hidden));
    assert_eq!(board.cell_at(1, 2), Ok(Cell::Mine));
}

#[test]
fn from_mines_refuses_a_list_of_the_wrong_length() {
    assert!(Board::from_mines(2, 2, &[false; 3]).is_none());
    assert!(Board::from_mines(2, 2, &[false; 5]).is_none());
    assert!(Board::from_mines(2, 2, &[]).is_none());
    assert!(Board::from_mines(usize::MAX, 2, &[false; 4]).is_none());
    assert!(Board::from_mines(2, 2, &[false; 4]).is_some());
    assert!(Board::from_mines(0, 0, &[]).is_some());
    assert!(Board::from_mines(0, 9, &[]).is_some());
}

#[test]
fn count_skips_neighbours_off_the_board() {
    let board = board_with_mines(3, 2, &[(0, 0), (1, 0), (2, 1)]);
    assert_eq!(board.adjacent_mine_count(0, 0), Ok(1));
    assert_eq!(board.adjacent_mine_count(0, 1), Ok(2));
    assert_eq!(board.adjacent_mine_count(1, 0), Ok(2));
    assert_eq!(board.adjacent_mine_count(1, 1), Ok(3));
    assert_eq!(board.adjacent_mine_count(2, 0), Ok(2));
    assert_eq!(board.adjacent_mine_count(2, 1), Ok(1));
}

#[test]
fn count_on_a_single_cell_board_is_zero() {
    let board = board_with_mines(1, 1, &[(0, 0)]);
    assert_eq!(board.adjacent_mine_count(0, 0), Ok(0));
}

#[test]
fn count_includes_flagged_mines_and_ignores_flags_on_empty_cells() {
    let mut board = board_with_mines(3, 3, &[(0, 0), (2, 2)]);
    assert_eq!(board.adjacent_mine_count(1, 1), Ok(2));
    assert_eq!(board.toggle_flag(0, 0), Ok(FlagOutcome::Flagged));
    assert_eq!(board.cell_at(0, 0), Ok(Cell::FlaggedMine));
    assert_eq!(board.toggle_flag(0, 1), Ok(FlagOutcome::Flagged));
    assert_eq!(board.cell_at(0, 1), Ok(Cell::Flagged));
    assert_eq!(board.adjacent_mine_count(1, 1), Ok(2));
}

#[test]
fn count_does_not_depend_on_the_centre() {
    let mut board = board_with_mines(3, 3, &[(0, 1), (1, 1), (2, 0)]);
    assert_eq!(board.adjacent_mine_count(1, 1), Ok(2));
    board.toggle_flag(1, 1).unwrap();
    assert_eq!(board.adjacent_mine_count(1, 1), Ok(2));
    let mut other = board_with_mines(3, 3, &[(0, 1), (2, 0)]);
    assert_eq!(other.adjacent_mine_count(1, 1), Ok(2));
    other.reveal_cell(1, 1).unwrap();
    assert_eq!(other.adjacent_mine_count(1, 1), Ok(2));
    other.toggle_flag(1, 1).unwrap();
    assert_eq!(other.adjacent_mine_count(1, 1), Ok(2));
}

#[test]
fn every_operation_refuses_a_position_off_the_board() {
    let mut board = board_with_mines(10, 10, &[(5, 5)]);
    let before = cells_of(&board);
    for &(x, y) in &[(10, 0), (0, 10), (10, 10), (usize::MAX, 0), (0, usize::MAX)] {
        assert_eq!(board.cell_at(x, y), Err(BoardError::OutOfBounds));
        assert_eq!(board.adjacent_mine_count(x, y), Err(BoardError::OutOfBounds));
        assert_eq!(board.reveal_cell(x, y), Err(BoardError::OutOfBounds));
        assert_eq!(board.toggle_flag(x, y), Err(BoardError::OutOfBounds));
        assert!(!board.in_bounds(x, y));
    }
    assert_eq!(cells_of(&board), before);
}

#[test]
fn reveal_opens_a_hidden_cell_and_reports_the_count() {
    let mut board = board_with_mines(3, 3, &[(0, 0), (0, 1), (2, 2)]);
    assert_eq!(board.reveal_cell(1, 1), Ok(RevealOutcome::Safe(3)));
    assert_eq!(board.cell_at(1, 1), Ok(Cell::Revealed));
    assert_eq!(board.reveal_cell(2, 0), Ok(RevealOutcome::Safe(0)));
    assert_eq!(board.cell_at(2, 0), Ok(Cell::Revealed));
}

#[test]
fn reveal_of_a_mine_reports_the_hit_and_changes_nothing() {
    let mut board = board_with_mines(3, 3, &[(1, 1)]);
    let before = cells_of(&board);
    assert_eq!(board.reveal_cell(1, 1), Ok(RevealOutcome::MineHit));
    assert_eq!(board.reveal_cell(1, 1), Ok(RevealOutcome::MineHit));
    assert_eq!(board.cell_at(1, 1), Ok(Cell::Mine));
    assert_eq!(cells_of(&board), before);
}

#[test]
fn reveal_of_a_revealed_cell_changes_nothing() {
    let mut board = board_with_mines(3, 3, &[(0, 0)]);
    assert_eq!(board.reveal_cell(1, 1), Ok(RevealOutcome::Safe(1)));
    let after_first = cells_of(&board);
    for _ in 0..5 {
        assert_eq!(board.reveal_cell(1, 1), Ok(RevealOutcome::AlreadyRevealed));
        assert_eq!(cells_of(&board), after_first);
        assert_eq!(board.adjacent_mine_count(1, 1), Ok(1));
        assert_eq!(board.adjacent_mine_count(0, 1), Ok(1));
    }
}

#[test]
fn reveal_of_a_flagged_mine_is_refused_until_the_flag_is_gone() {
    let mut board = board_with_mines(2, 2, &[(1, 0)]);
    assert_eq!(board.toggle_flag(1, 0), Ok(FlagOutcome::Flagged));
    assert_eq!(board.reveal_cell(1, 0), Ok(RevealOutcome::Flagged));
    assert_eq!(board.cell_at(1, 0), Ok(Cell::FlaggedMine));
    assert_eq!(board.toggle_flag(1, 0), Ok(FlagOutcome::Unflagged));
    assert_eq!(board.reveal_cell(1, 0), Ok(RevealOutcome::MineHit));
}

#[test]
fn reveal_touches_no_other_cell() {
    let mut board = board_with_mines(4, 4, &[(3, 3)]);
    let mut expected = cells_of(&board);
    assert_eq!(board.reveal_cell(1, 2), Ok(RevealOutcome::Safe(0)));
    expected[1 * 4 + 2] = Cell::Revealed;
    assert_eq!(cells_of(&board), expected);
}

#[test]
fn toggle_flag_follows_its_table() {
    let mut board = board_with_mines(2, 2, &[(0, 1)]);
    assert_eq!(board.toggle_flag(0, 0), Ok(FlagOutcome::Flagged));
    assert_eq!(board.cell_at(0, 0), Ok(Cell::Flagged));
    assert_eq!(board.toggle_flag(0, 0), Ok(FlagOutcome::Unflagged));
    assert_eq!(board.cell_at(0, 0), Ok(Cell::Hidden));
    assert_eq!(board.toggle_flag(0, 1), Ok(FlagOutcome::Flagged));
    assert_eq!(board.cell_at(0, 1), Ok(Cell::FlaggedMine));
    assert_eq!(board.toggle_flag(0, 1), Ok(FlagOutcome::Unflagged));
    assert_eq!(board.cell_at(0, 1), Ok(Cell::Mine));
    assert_eq!(board.reveal_cell(1, 1), Ok(RevealOutcome::Safe(1)));
    assert_eq!(board.toggle_flag(1, 1), Ok(FlagOutcome::AlreadyRevealed));
    assert_eq!(board.cell_at(1, 1), Ok(Cell::Revealed));
}

#[test]
fn toggle_flag_twice_restores_the_board() {
    let mut board = board_with_mines(3, 3, &[(0, 0), (2, 1)]);
    board.reveal_cell(1, 1).unwrap();
    board.toggle_flag(2, 2).unwrap();
    board.toggle_flag(2, 1).unwrap();
    let before = cells_of(&board);
    for x in 0..3 {
        for y in 0..3 {
            board.toggle_flag(x, y).unwrap();
            board.toggle_flag(x, y).unwrap();
            assert_eq!(cells_of(&board), before, "at ({}, {})", x, y);
        }
    }
}

#[test]
fn mines_never_move() {
    let mut board = board_with_mines(3, 3, &[(0, 0), (1, 2), (2, 1)]);
    let mined = |board: &Board| -> Vec<bool> {
        cells_of(board).iter().map(|c| c.is_mine()).collect()
    };
    let before = mined(&board);
    for x in 0..3 {
        for y in 0..3 {
            board.reveal_cell(x, y).unwrap();
            assert_eq!(mined(&board), before);
            board.toggle_flag(x, y).unwrap();
            assert_eq!(mined(&board), before);
        }
    }
    assert_eq!(board.width(), 3);
    assert_eq!(board.height(), 3);
}

#[test]
fn bounds_are_the_dimensions() {
    let board = board_with_mines(4, 9, &[]);
    let bounds = board.bounds();
    assert_eq!(bounds.width, 4);
    assert_eq!(bounds.height, 9);
}

#[test]
fn clone_is_a_board_of_its_own() {
    let mut board = board_with_mines(3, 3, &[(1, 1)]);
    board.toggle_flag(1, 1).unwrap();
    let copy = board.clone();
    assert_eq!(cells_of(&copy), cells_of(&board));
    board.reveal_cell(0, 0).unwrap();
    assert_eq!(copy.cell_at(0, 0), Ok(Cell::Hidden));
    assert_eq!(board.cell_at(0, 0), Ok(Cell::Revealed));
}
