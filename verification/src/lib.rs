//! The state of a 9x9 Sudoku board while it is played or solved, and a
//! compact text form of that state for links.
//!
//! The board keeps, for every empty cell, the digits that no peer excludes;
//! placing and removing digits keeps those candidates in step. A solver is
//! not part of the library: the actions that need one take it as a function
//! from a plain digit grid to a plain digit grid.

pub mod actions;
pub mod board;
pub mod candidates;
pub mod cell;
pub mod codec;
pub mod error;
pub mod grid;
pub mod hotkeys;
pub mod laws;
pub mod links;
pub mod notation;
pub mod order;
pub mod rules;
pub mod solution;
pub mod solver;
pub mod state;
pub mod text;
pub mod timing;

pub use actions::{
    clear_digit_if_selected, toggle_choice_if_selected, toggle_digit_if_selected,
    toggle_if_available,
};
pub use board::{SudokuData, SudokuRow};
pub use cell::Cell;
pub use candidates::{from_int, get_only_choice, to_choices, to_int};
pub use codec::{
    compress_string, decompress_string, get_count, get_letter, is_valid_game_str, push_if_full,
    push_repeated,
};
pub use error::Error;
pub use grid::DigitGrid;
pub use hotkeys::{
    get_generator_hotkeys, get_solver_hotkeys, Difficulty, GeneratorHotkey, Hotkey, SolverAction,
};
pub use links::{load_random_sudoku, unwrap_params, SudokuParams};
pub use order::random_order;
pub use solution::{
    mark_against_solution, reveal_in_order, update_from_sudoku, update_from_sudoku_animated,
};
pub use solver::{
    apply_constraint, check_all_visible_doubles, check_constraints, check_all_triples,
    compare_with_solution, place_all_hidden_singles, place_all_visible_singles, solve_sudoku,
    verify_sudoku, SolverStep,
};
pub use state::{handle_arrow, is_valid_cell, DarkMode, DigitMode, GameState};
pub use timing::{and_then_timed, map_timed, Duration};
