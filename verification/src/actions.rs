//! What a key or a button does to the board.

use crate::board::SudokuData;
use crate::cell::{Cell, CellView};
use crate::rules::{after_set, after_unset, index_of};
use crate::state::GameState;
use vstd::prelude::*;

verus! {

/// Whether the selection, if there is one, lies on the board.
pub open spec fn selection_on_board(game_state: GameState) -> bool {
    game_state.active_cell matches Some((row, col)) ==> row < 9 && col < 9
}

/// The board after digit `digit` is keyed in at position `at`. On an empty
/// cell the digit is placed if it is a candidate. On a played cell the same
/// digit removes the placement; another digit replaces it if the cell carried
/// it as a candidate, and otherwise only removes the placement. A clue stays.
pub open spec fn after_digit_toggle(b: Seq<CellView>, at: int, digit: u8) -> Seq<CellView> {
    match b[at] {
        CellView::Empty { choices } => if choices[digit - 1] {
            after_set(b, at, digit, false)
        } else {
            b
        },
        CellView::FixedValue { .. } => b,
        CellView::Value { value, choices } => after_replace(b, at, value, choices, digit),
        CellView::Error { value, choices } => after_replace(b, at, value, choices, digit),
        CellView::AnimatedValue { value, choices, .. } => after_replace(b, at, value, choices, digit),
    }
}

/// The board after digit `digit` is keyed in on a played cell that holds
/// `value` and carries the candidates `choices`.
pub open spec fn after_replace(
    b: Seq<CellView>,
    at: int,
    value: u8,
    choices: Seq<bool>,
    digit: u8,
) -> Seq<CellView> {
    if value != digit && choices[digit - 1] {
        after_set(after_unset(b, at), at, digit, false)
    } else {
        after_unset(b, at)
    }
}

/// The board after candidate `digit` is toggled at position `at`: an empty
/// cell gets the candidate flipped, any other cell stays.
pub open spec fn after_choice_toggle(b: Seq<CellView>, at: int, digit: u8) -> Seq<CellView> {
    match b[at] {
        CellView::Empty { choices } => b.update(
            at,
            CellView::Empty { choices: choices.update(digit - 1, !choices[digit - 1]) },
        ),
        _ => b,
    }
}

/// Removes the placement at `row`, `col` and places `digit` there instead,
/// unless it is the digit that was there or `choices` does not have it.
pub fn toggle_if_available(
    value: u8,
    digit: u8,
    choices: &[bool; 9],
    sudoku: &mut SudokuData,
    row: usize,
    col: usize,
)
    requires
        row < 9,
        col < 9,
        1 <= digit <= 9,
    ensures
        final(sudoku)@ == after_replace(
            old(sudoku)@,
            index_of(row as int, col as int),
            value,
            choices@,
            digit,
        ),
{
    if value == digit {
        sudoku.unset(row, col);
    } else {
        let is_available = choices[(digit - 1) as usize];
        sudoku.unset(row, col);
        if is_available {
            sudoku.set(row, col, digit, false);
        }
    }
}

/// Keys digit `digit` in at the selected cell. Without a selection nothing
/// happens.
pub fn toggle_digit_if_selected(game_state: &GameState, sudoku: &mut SudokuData, digit: u8)
    requires
        selection_on_board(*game_state),
        1 <= digit <= 9,
    ensures
        final(sudoku)@ == (match game_state.active_cell {
            Some((row, col)) => after_digit_toggle(
                old(sudoku)@,
                index_of(row as int, col as int),
                digit,
            ),
            None => old(sudoku)@,
        }),
{
    if let Some((row, col)) = game_state.active_cell {
        let cell = sudoku.get(row, col);
        match cell {
            Cell::Empty { choices } => {
                if choices[(digit - 1) as usize] {
                    sudoku.set(row, col, digit, false);
                }
            },
            Cell::Value { value, choices }
            | Cell::Error { value, choices }
            | Cell::AnimatedValue { value, choices, .. } => {
                toggle_if_available(value, digit, &choices, sudoku, row, col);
            },
            Cell::FixedValue { .. } => {},
        }
    }
}

/// Flips candidate `digit` of the selected cell, if that cell is empty.
/// Without a selection nothing happens.
pub fn toggle_choice_if_selected(game_state: &GameState, sudoku: &mut SudokuData, digit: u8)
    requires
        selection_on_board(*game_state),
        1 <= digit <= 9,
    ensures
        final(sudoku)@ == (match game_state.active_cell {
            Some((row, col)) => after_choice_toggle(
                old(sudoku)@,
                index_of(row as int, col as int),
                digit,
            ),
            None => old(sudoku)@,
        }),
{
    if let Some((row, col)) = game_state.active_cell {
        match sudoku.get_mut(row, col) {
            Cell::Empty { choices } => {
                choices[(digit - 1) as usize] = !choices[(digit - 1) as usize];
            },
            Cell::Value { .. }
            | Cell::Error { .. }
            | Cell::FixedValue { .. }
            | Cell::AnimatedValue { .. } => {},
        }
    }
}

/// Removes the placement in the selected cell. Without a selection nothing
/// happens.
pub fn clear_digit_if_selected(game_state: &GameState, sudoku: &mut SudokuData)
    requires
        selection_on_board(*game_state),
    ensures
        final(sudoku)@ == (match game_state.active_cell {
            Some((row, col)) => after_unset(old(sudoku)@, index_of(row as int, col as int)),
            None => old(sudoku)@,
        }),
{
    if let Some((row, col)) = game_state.active_cell {
        sudoku.unset(row, col);
    }
}

} // verus!
