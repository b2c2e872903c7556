use sudoku_game::{
    apply_constraint, check_all_triples, check_all_visible_doubles, check_constraints,
    compare_with_solution, mark_against_solution, place_all_hidden_singles,
    place_all_visible_singles, random_order, reveal_in_order, solve_sudoku, to_choices,
    update_from_sudoku, update_from_sudoku_animated, verify_sudoku, Cell, DigitGrid, Error,
    SolverAction, SolverStep, SudokuData,
};
use std::cell::RefCell;

const PUZZLE: &str =
    "53..7....6..195....98....6.8...6...34..8.3..17...2...6.6....28....419..5....8..79";
const SOLUTION: &str =
    "534678912672195348198342567859761423426853791713924856961537284287419635345286179";
const FULL: usize = 0x3FE;

fn digits_of(text: &str) -> [u8; 81] {
    let mut digits = [0u8; 81];
    for (i, c) in text.chars().enumerate() {
        digits[i] = if c == '.' { 0 } else { c as u8 - b'0' };
    }
    digits
}

fn grid_of(text: &str, mask: usize) -> DigitGrid {
    DigitGrid::new(digits_of(text), [mask; 81]).expect("digits in range")
}

/// A stand-in solver: it knows one puzzle and fails on everything that
/// contradicts its solution.
fn solver(_step: SolverStep, grid: DigitGrid) -> Result<DigitGrid, Error> {
    let solution = digits_of(SOLUTION);
    let given = grid.to_digits();
    for i in 0..81 {
        if given[i] != 0 && given[i] != solution[i] {
            return Err(Error::Sudoku("no solution".to_string()));
        }
    }
    Ok(DigitGrid::new(solution, [0; 81]).expect("digits in range"))
}

fn failing_solver(_step: SolverStep, _grid: DigitGrid) -> Result<DigitGrid, Error> {
    Err(Error::Sudoku("cannot solve".to_string()))
}

fn fade_in(value: u8, delay: i32) -> Cell {
    Cell::AnimatedValue {
        value,
        choices: [false; 9],
        fade_delay_ms: delay,
        animation: "fade-in".to_string(),
    }
}

fn right(value: u8, choices: [bool; 9]) -> Cell {
    Cell::AnimatedValue {
        value,
        choices,
        fade_delay_ms: 100,
        animation: "fade-green".to_string(),
    }
}

#[test]
fn grid_new_keeps_digits_and_masks() {
    let mut digits = [0u8; 81];
    digits[0] = 9;
    digits[80] = 1;
    let mut masks = [0usize; 81];
    masks[3] = 0x2A;
    let grid = DigitGrid::new(digits, masks).expect("digits in range");
    assert_eq!(grid.digit(0), 9);
    assert_eq!(grid.digit(1), 0);
    assert_eq!(grid.digit(80), 1);
    assert_eq!(grid.mask(3), 0x2A);
    assert_eq!(grid.mask(4), 0);
    assert_eq!(grid.to_digits(), digits);
    assert_eq!(grid.to_bitboard(), masks);
}

#[test]
fn grid_new_refuses_digits_above_9() {
    let mut digits = [0u8; 81];
    digits[80] = 10;
    assert!(DigitGrid::new(digits, [0; 81]).is_none());
    digits[80] = 9;
    digits[0] = 255;
    assert!(DigitGrid::new(digits, [0; 81]).is_none());
    digits[0] = 9;
    assert!(DigitGrid::new(digits, [0; 81]).is_some());
}

#[test]
fn default_grid_is_blank_with_open_candidates() {
    let grid = DigitGrid::default();
    assert_eq!(grid.to_digits(), [0u8; 81]);
    assert_eq!(grid.to_bitboard(), [FULL; 81]);
}

#[test]
fn grid_from_board_holds_every_placed_digit() {
    let mut board = SudokuData::from_str(PUZZLE).expect("a valid puzzle");
    board.set(0, 2, 4, false);
    board.set_fade(0, 3, 6, 0);
    *board.get_mut(0, 5) = Cell::Error { value: 1, choices: [true; 9] };
    let grid = DigitGrid::from(&board);
    let mut expected = digits_of(PUZZLE);
    expected[2] = 4;
    expected[3] = 6;
    expected[5] = 1;
    assert_eq!(grid.to_digits(), expected);
    assert_eq!(grid.to_bitboard(), [FULL; 81]);
}

#[test]
fn fixed_sudoku_holds_the_clues_only() {
    let mut board = SudokuData::from_str(PUZZLE).expect("a valid puzzle");
    board.set(0, 2, 4, false);
    board.set_fade(0, 3, 6, 0);
    *board.get_mut(0, 5) = Cell::Error { value: 1, choices: [true; 9] };
    let grid = board.fixed_sudoku();
    assert_eq!(grid.to_digits(), digits_of(PUZZLE));
    assert_eq!(grid.to_bitboard(), [FULL; 81]);
    assert_eq!(SudokuData::default().fixed_sudoku().to_digits(), [0u8; 81]);
}

#[test]
fn board_from_grid_makes_clues_and_blanks() {
    let mut masks = [FULL; 81];
    masks[2] = 0b110;
    let grid = DigitGrid::new(digits_of(PUZZLE), masks).expect("digits in range");
    let board = SudokuData::from(&grid);
    assert_eq!(board.to_string(), PUZZLE);
    assert_eq!(board.get(0, 0), Cell::FixedValue { value: 5 });
    assert_eq!(board.get(0, 2), Cell::Empty { choices: to_choices(0b110) });
    assert_eq!(board.get(0, 3), Cell::Empty { choices: [true; 9] });
    assert_eq!(board.get(8, 8), Cell::FixedValue { value: 9 });
}

#[test]
fn board_and_grid_round_trip() {
    let board = SudokuData::from_str(PUZZLE).expect("a valid puzzle");
    let back = SudokuData::from(&DigitGrid::from(&board));
    assert_eq!(format!("{back:?}"), format!("{board:?}"));
}

#[test]
fn update_from_sudoku_overwrites_every_cell() {
    let mut board = SudokuData::default();
    board.set(0, 0, 9, false);
    board.set(0, 2, 1, true);
    let mut masks = [0usize; 81];
    masks[2] = 0b1000;
    masks[0] = 0b100;
    let grid = DigitGrid::new(digits_of(PUZZLE), masks).expect("digits in range");
    update_from_sudoku(&mut board, &grid, false);
    assert_eq!(board.to_string(), PUZZLE);
    assert_eq!(board.get(0, 0), Cell::Value { value: 5, choices: to_choices(0b100) });
    assert_eq!(board.get(0, 1), Cell::Value { value: 3, choices: [false; 9] });
    assert_eq!(board.get(0, 2), Cell::Empty { choices: to_choices(0b1000) });
    assert_eq!(board.get(0, 3), Cell::Empty { choices: [false; 9] });
    update_from_sudoku(&mut board, &grid, true);
    assert_eq!(board.get(0, 0), Cell::FixedValue { value: 5 });
    assert_eq!(board.get(0, 2), Cell::Empty { choices: to_choices(0b1000) });
}

#[test]
fn reveal_in_order_counts_delays_by_revealed_digits() {
    let mut board = SudokuData::default();
    let mut digits = [0u8; 81];
    digits[3] = 7;
    digits[5] = 8;
    digits[80] = 9;
    let mut masks = [0usize; 81];
    masks[4] = 0b10;
    let grid = DigitGrid::new(digits, masks).expect("digits in range");
    reveal_in_order(&mut board, &grid, &vec![80, 4, 3, 0, 5]);
    assert_eq!(board.get(8, 8), fade_in(9, 0));
    assert_eq!(board.get(0, 4), Cell::Empty { choices: to_choices(0b10) });
    assert_eq!(board.get(0, 3), fade_in(7, 5));
    assert_eq!(board.get(0, 0), Cell::Empty { choices: [false; 9] });
    assert_eq!(board.get(0, 5), fade_in(8, 10));
    assert_eq!(board.get(0, 1), Cell::Empty { choices: [true; 9] });
}

#[test]
fn reveal_in_order_keeps_occupied_cells_and_clues() {
    let mut board = SudokuData::default();
    board.set(0, 0, 1, true);
    board.set(0, 1, 2, true);
    board.set(0, 2, 3, false);
    let clue = board.get(0, 0);
    let other_clue = board.get(0, 1);
    let played = board.get(0, 2);
    let mut digits = [0u8; 81];
    digits[0] = 4;
    digits[2] = 5;
    digits[3] = 6;
    let grid = DigitGrid::new(digits, [0; 81]).expect("digits in range");
    reveal_in_order(&mut board, &grid, &vec![0, 1, 2, 3]);
    assert_eq!(board.get(0, 0), clue);
    assert_eq!(board.get(0, 1), other_clue);
    assert_eq!(board.get(0, 2), played);
    assert_eq!(board.get(0, 3), fade_in(6, 0));
    assert_eq!(board.get(0, 4), Cell::Empty { choices: choices_closed(&[1, 2, 3]) });
}

fn choices_closed(digits: &[u8]) -> [bool; 9] {
    let mut choices = [true; 9];
    for d in digits {
        choices[(*d - 1) as usize] = false;
    }
    choices
}

#[test]
fn reveal_in_order_with_empty_order_changes_nothing() {
    let mut board = SudokuData::from_str(PUZZLE).expect("a valid puzzle");
    let before = format!("{board:?}");
    reveal_in_order(&mut board, &grid_of(SOLUTION, 0), &Vec::new());
    assert_eq!(format!("{board:?}"), before);
}

#[test]
fn animated_update_reveals_every_blank_once() {
    let mut board = SudokuData::from_str(PUZZLE).expect("a valid puzzle");
    board.set(0, 2, 4, false);
    let played = board.get(0, 2);
    update_from_sudoku_animated(&mut board, &grid_of(SOLUTION, 0), false);
    assert_eq!(board.to_string(), SOLUTION);
    let mut delays = Vec::new();
    for (i, c) in PUZZLE.chars().enumerate() {
        let cell = board.get(i / 9, i % 9);
        if i == 2 {
            assert_eq!(cell, played);
        } else if c == '.' {
            match cell {
                Cell::AnimatedValue { value, choices, fade_delay_ms, animation } => {
                    assert_eq!(value, digits_of(SOLUTION)[i]);
                    assert_eq!(choices, [false; 9]);
                    assert_eq!(animation, "fade-in");
                    delays.push(fade_delay_ms);
                },
                other => panic!("cell {i} is {other:?}"),
            }
        } else {
            assert_eq!(cell, Cell::FixedValue { value: c as u8 - b'0' });
        }
    }
    delays.sort();
    let expected: Vec<i32> = (0..delays.len() as i32).map(|k| 5 * k).collect();
    assert_eq!(delays, expected);
    assert_eq!(delays.len(), 50);
}

#[test]
fn animated_update_applies_blanks_with_their_candidates() {
    let mut board = SudokuData::default();
    board.set(0, 0, 1, false);
    board.set(0, 1, 2, true);
    let mut digits = [0u8; 81];
    digits[1] = 0;
    digits[40] = 5;
    let grid = DigitGrid::new(digits, [0b1010; 81]).expect("digits in range");
    update_from_sudoku_animated(&mut board, &grid, false);
    assert_eq!(board.get(0, 0), Cell::Empty { choices: to_choices(0b1010) });
    assert_eq!(board.get(0, 1), Cell::FixedValue { value: 2 });
    assert_eq!(board.get(4, 4), fade_in(5, 0));
    assert_eq!(board.get(8, 8), Cell::Empty { choices: to_choices(0b1010) });
}

#[test]
fn random_order_is_a_permutation() {
    let mut seen_other_than_ascending = false;
    for _ in 0..20 {
        let order = random_order();
        assert_eq!(order.len(), 81);
        let mut sorted = order.clone();
        sorted.sort();
        assert_eq!(sorted, (0..81).collect::<Vec<usize>>());
        if order != sorted {
            seen_other_than_ascending = true;
        }
    }
    assert!(seen_other_than_ascending);
}

#[test]
fn mark_against_solution_colours_played_cells() {
    let mut board = SudokuData::from_str(PUZZLE).expect("a valid puzzle");
    board.set(0, 2, 4, false);
    board.set(0, 3, 1, false);
    board.set_fade(0, 5, 8, 10);
    board.set_fade(0, 6, 1, 10);
    *board.get_mut(0, 7) = Cell::Error { value: 1, choices: [true; 9] };
    *board.get_mut(0, 8) = Cell::Error { value: 3, choices: [true; 9] };
    let blank = board.get(1, 1);
    let mut masks = [0usize; 81];
    masks[2] = 0b10;
    masks[3] = 0b100;
    let grid = DigitGrid::new(digits_of(SOLUTION), masks).expect("digits in range");
    mark_against_solution(&mut board, &grid);
    assert_eq!(board.get(0, 0), Cell::FixedValue { value: 5 });
    assert_eq!(board.get(0, 2), right(4, to_choices(0b10)));
    assert_eq!(board.get(0, 3), Cell::Error { value: 1, choices: to_choices(0b100) });
    assert_eq!(board.get(0, 5), right(8, [false; 9]));
    assert_eq!(board.get(0, 6), Cell::Error { value: 1, choices: [false; 9] });
    assert_eq!(board.get(0, 7), right(1, [false; 9]));
    assert_eq!(board.get(0, 8), Cell::Error { value: 3, choices: [false; 9] });
    assert_eq!(board.get(1, 1), blank);
}

#[test]
fn compare_with_solution_asks_for_the_clues_only() {
    let mut board = SudokuData::from_str(PUZZLE).expect("a valid puzzle");
    board.set(0, 2, 1, false);
    board.set(0, 3, 6, false);
    let asked: RefCell<Vec<(SolverStep, [u8; 81])>> = RefCell::new(Vec::new());
    let recording = |step: SolverStep, grid: DigitGrid| {
        asked.borrow_mut().push((step, grid.to_digits()));
        solver(step, grid)
    };
    assert_eq!(compare_with_solution(&mut board, &recording), Ok(()));
    assert_eq!(asked.borrow().as_slice(), &[(SolverStep::Solve, digits_of(PUZZLE))]);
    assert_eq!(board.get(0, 2), Cell::Error { value: 1, choices: [false; 9] });
    assert_eq!(board.get(0, 3), right(6, [false; 9]));
    assert_eq!(board.get(0, 0), Cell::FixedValue { value: 5 });
}

#[test]
fn compare_with_solution_hands_the_error_on() {
    let mut board = SudokuData::from_str(PUZZLE).expect("a valid puzzle");
    board.set(0, 2, 1, false);
    let before = format!("{board:?}");
    assert_eq!(
        compare_with_solution(&mut board, &failing_solver),
        Err(Error::Sudoku("cannot solve".to_string()))
    );
    assert_eq!(format!("{board:?}"), before);
}

#[test]
fn apply_constraint_asks_for_the_step_on_all_digits() {
    let mut board = SudokuData::from_str(PUZZLE).expect("a valid puzzle");
    board.set(0, 2, 4, false);
    let asked: RefCell<Vec<(SolverStep, [u8; 81], [usize; 81])>> = RefCell::new(Vec::new());
    let recording = |step: SolverStep, grid: DigitGrid| {
        asked.borrow_mut().push((step, grid.to_digits(), grid.to_bitboard()));
        solver(step, grid)
    };
    let elapsed = apply_constraint(&mut board, SolverStep::HiddenSingles, &recording)
        .expect("the solver succeeds");
    assert!(elapsed.subsec_nanos() < 1_000_000_000);
    let mut expected = digits_of(PUZZLE);
    expected[2] = 4;
    assert_eq!(asked.borrow().as_slice(), &[(SolverStep::HiddenSingles, expected, [FULL; 81])]);
    assert_eq!(board.to_string(), SOLUTION);
}

#[test]
fn apply_constraint_leaves_the_board_on_failure() {
    let mut board = SudokuData::from_str(PUZZLE).expect("a valid puzzle");
    board.set(0, 2, 1, false);
    let before = format!("{board:?}");
    let r = apply_constraint(&mut board, SolverStep::Triples, &solver);
    assert_eq!(r.err(), Some(Error::Sudoku("no solution".to_string())));
    assert_eq!(format!("{board:?}"), before);
}

fn check_report(text: &str, start: &str) {
    assert!(text.starts_with(start), "{text:?} does not start with {start:?}");
    let rest = &text[start.len()..];
    assert!(rest.ends_with('s'), "{rest:?} is no span of time");
    assert!(rest.chars().next().expect("a span of time").is_ascii_digit());
}

#[test]
fn constraint_actions_report_their_time() {
    type Action = fn(&mut SudokuData, &fn(SolverStep, DigitGrid) -> Result<DigitGrid, Error>)
        -> Result<String, Error>;
    let actions: [(Action, SolverStep, &str); 5] = [
        (place_all_visible_singles, SolverStep::VisibleSingles, "Visible singles placed in "),
        (place_all_hidden_singles, SolverStep::HiddenSingles, "Hidden singles placed in "),
        (check_all_visible_doubles, SolverStep::VisibleDoubles, "Doubles checked in "),
        (check_all_triples, SolverStep::Triples, "Triples checked in "),
        (check_constraints, SolverStep::Constraints, "Constraints checked in "),
    ];
    for (action, _, start) in actions {
        let mut board = SudokuData::from_str(PUZZLE).expect("a valid puzzle");
        let the_solver: fn(SolverStep, DigitGrid) -> Result<DigitGrid, Error> = solver;
        let text = action(&mut board, &the_solver).expect("the solver succeeds");
        check_report(&text, start);
        assert_eq!(board.to_string(), SOLUTION);
    }
}

#[test]
fn constraint_actions_ask_for_their_own_step() {
    let asked: RefCell<Vec<SolverStep>> = RefCell::new(Vec::new());
    let recording = |step: SolverStep, grid: DigitGrid| {
        asked.borrow_mut().push(step);
        solver(step, grid)
    };
    let mut board = SudokuData::default();
    place_all_visible_singles(&mut board, &recording).expect("the solver succeeds");
    place_all_hidden_singles(&mut board, &recording).expect("the solver succeeds");
    check_all_visible_doubles(&mut board, &recording).expect("the solver succeeds");
    check_all_triples(&mut board, &recording).expect("the solver succeeds");
    check_constraints(&mut board, &recording).expect("the solver succeeds");
    solve_sudoku(&mut board, &recording).expect("the solver succeeds");
    verify_sudoku(&mut board, &recording).expect("the solver succeeds");
    assert_eq!(
        asked.borrow().as_slice(),
        &[
            SolverStep::VisibleSingles,
            SolverStep::HiddenSingles,
            SolverStep::VisibleDoubles,
            SolverStep::Triples,
            SolverStep::Constraints,
            SolverStep::Solve,
            SolverStep::Solve,
        ]
    );
}

#[test]
fn constraint_actions_hand_the_error_on() {
    let mut board = SudokuData::from_str(PUZZLE).expect("a valid puzzle");
    let before = format!("{board:?}");
    let expected = Err(Error::Sudoku("cannot solve".to_string()));
    assert_eq!(place_all_visible_singles(&mut board, &failing_solver), expected);
    assert_eq!(place_all_hidden_singles(&mut board, &failing_solver), expected);
    assert_eq!(check_all_visible_doubles(&mut board, &failing_solver), expected);
    assert_eq!(check_all_triples(&mut board, &failing_solver), expected);
    assert_eq!(check_constraints(&mut board, &failing_solver), expected);
    assert_eq!(format!("{board:?}"), before);
}

#[test]
fn solve_sudoku_reveals_the_solution() {
    let mut board = SudokuData::from_str(PUZZLE).expect("a valid puzzle");
    let text = solve_sudoku(&mut board, &solver).expect("the solver succeeds");
    check_report(&text, "Sudoku solved in ");
    assert_eq!(board.to_string(), SOLUTION);
    assert_eq!(board.get(0, 0), Cell::FixedValue { value: 5 });
    assert!(matches!(board.get(0, 2), Cell::AnimatedValue { value: 4, .. }));
}

#[test]
fn solve_sudoku_marks_wrong_digits_when_the_solver_fails() {
    let mut board = SudokuData::from_str(PUZZLE).expect("a valid puzzle");
    board.set(0, 2, 1, false);
    board.set(0, 3, 6, false);
    let r = solve_sudoku(&mut board, &solver);
    assert_eq!(r, Err(Error::Sudoku("no solution".to_string())));
    assert_eq!(board.get(0, 2), Cell::Error { value: 1, choices: [false; 9] });
    assert_eq!(board.get(0, 3), right(6, [false; 9]));
    assert_eq!(board.get(0, 0), Cell::FixedValue { value: 5 });
}

#[test]
fn solve_sudoku_returns_the_first_error_when_the_clues_fail_too() {
    let mut board = SudokuData::from_str(PUZZLE).expect("a valid puzzle");
    board.set(0, 2, 1, false);
    let before = format!("{board:?}");
    let calls: RefCell<u32> = RefCell::new(0);
    let numbering = |_step: SolverStep, _grid: DigitGrid| -> Result<DigitGrid, Error> {
        *calls.borrow_mut() += 1;
        Err(Error::Sudoku(format!("failure {}", calls.borrow())))
    };
    let r = solve_sudoku(&mut board, &numbering);
    assert_eq!(r, Err(Error::Sudoku("failure 1".to_string())));
    assert_eq!(*calls.borrow(), 2);
    assert_eq!(format!("{board:?}"), before);
}

#[test]
fn verify_sudoku_marks_and_reports() {
    let mut board = SudokuData::from_str(PUZZLE).expect("a valid puzzle");
    board.set(0, 2, 4, false);
    board.set(0, 3, 9, false);
    let text = verify_sudoku(&mut board, &solver).expect("the clues have a solution");
    check_report(&text, "Sudoku verified in ");
    assert_eq!(board.get(0, 2), right(4, [false; 9]));
    assert_eq!(board.get(0, 3), Cell::Error { value: 9, choices: [false; 9] });
}

#[test]
fn verify_sudoku_hands_the_error_on() {
    let mut board = SudokuData::from_str(PUZZLE).expect("a valid puzzle");
    board.set(0, 2, 4, false);
    let before = format!("{board:?}");
    let r = verify_sudoku(&mut board, &failing_solver);
    assert_eq!(r, Err(Error::Sudoku("cannot solve".to_string())));
    assert_eq!(format!("{board:?}"), before);
}

#[test]
fn actions_run_what_they_name() {
    let cases = [
        (SolverAction::PlaceAllVisibleSingles, SolverStep::VisibleSingles, "Visible singles placed in "),
        (SolverAction::PlaceAllHiddenSingles, SolverStep::HiddenSingles, "Hidden singles placed in "),
        (SolverAction::CheckAllVisibleDoubles, SolverStep::VisibleDoubles, "Doubles checked in "),
        (SolverAction::CheckTriples, SolverStep::Triples, "Triples checked in "),
        (SolverAction::CheckConstraints, SolverStep::Constraints, "Constraints checked in "),
        (SolverAction::SolveSudoku, SolverStep::Solve, "Sudoku solved in "),
        (SolverAction::VerifySudoku, SolverStep::Solve, "Sudoku verified in "),
    ];
    for (action, step, start) in cases {
        let asked: RefCell<Vec<SolverStep>> = RefCell::new(Vec::new());
        let recording = |step: SolverStep, grid: DigitGrid| {
            asked.borrow_mut().push(step);
            solver(step, grid)
        };
        let mut board = SudokuData::from_str(PUZZLE).expect("a valid puzzle");
        let text = action.run(&mut board, &recording).expect("the solver succeeds");
        check_report(&text, start);
        assert_eq!(asked.borrow().as_slice(), &[step]);
    }
}
