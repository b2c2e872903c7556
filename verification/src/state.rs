//! What the player sees besides the board: selection, message and theme.

use crate::error::Error;
use vstd::prelude::*;

verus! {

broadcast use vstd::string::group_string_axioms;

/// What a digit key does: place the digit, or toggle it as a candidate.
#[derive(Debug, Clone, Copy, PartialEq, Eq)]
pub enum DigitMode {
    Value,
    Choice,
}

impl DigitMode {
    /// Switches to the other mode.
    pub fn toggle(&mut self)
        ensures
            *final(self) == (match *old(self) {
                DigitMode::Value => DigitMode::Choice,
                DigitMode::Choice => DigitMode::Value,
            }),
    {
        *self = match self {
            DigitMode::Value => DigitMode::Choice,
            DigitMode::Choice => DigitMode::Value,
        }
    }
}

/// The colour theme.
#[derive(Debug, Clone, Copy, PartialEq, Eq)]
pub enum DarkMode {
    Light,
    Dark,
}

impl Default for DarkMode {
    /// The dark theme.
    fn default() -> (r: Self)
        ensures
            r == DarkMode::Dark,
    {
        DarkMode::Dark
    }
}

impl DarkMode {
    /// The name of the theme in the style sheet.
    pub open spec fn class_name(self) -> Seq<char> {
        match self {
            DarkMode::Light => "light"@,
            DarkMode::Dark => "dark"@,
        }
    }

    /// The one-letter code of the theme.
    pub open spec fn code(self) -> char {
        match self {
            DarkMode::Light => 'l',
            DarkMode::Dark => 'd',
        }
    }

    /// The name of the theme in the style sheet.
    pub fn class(&self) -> (r: &'static str)
        ensures
            r@ == self.class_name(),
    {
        match self {
            DarkMode::Light => "light",
            DarkMode::Dark => "dark",
        }
    }

    /// Switches to the other theme.
    pub fn toggle(&mut self)
        ensures
            *final(self) == (match *old(self) {
                DarkMode::Light => DarkMode::Dark,
                DarkMode::Dark => DarkMode::Light,
            }),
    {
        *self = match self {
            DarkMode::Light => DarkMode::Dark,
            DarkMode::Dark => DarkMode::Light,
        }
    }

    /// Whether the dark theme is on.
    pub fn active(&self) -> (r: bool)
        ensures
            r == (*self == DarkMode::Dark),
    {
        matches!(self, DarkMode::Dark)
    }
}

/// Selection, message and theme.
#[derive(Debug)]
pub struct GameState {
    /// Row and column of the selected cell.
    pub active_cell: Option<(usize, usize)>,
    /// The outcome of the last action, in words.
    pub message: Option<String>,
    pub dark_mode: DarkMode,
}

impl Clone for GameState {
    fn clone(&self) -> (r: Self)
        ensures
            r.active_cell == self.active_cell,
            r.dark_mode == self.dark_mode,
            r.message == self.message,
    {
        GameState {
            active_cell: self.active_cell,
            message: match &self.message {
                Some(text) => Some(text.clone()),
                None => None,
            },
            dark_mode: self.dark_mode,
        }
    }
}

impl Default for GameState {
    /// Nothing selected, no message, the dark theme.
    fn default() -> (r: Self)
        ensures
            r.active_cell is None,
            r.message is None,
            r.dark_mode == DarkMode::Dark,
    {
        GameState { active_cell: None, message: None, dark_mode: DarkMode::Dark }
    }
}

/// The position that a move by `direction` leads to from row `row` and column
/// `col`, if it lies on the board.
pub open spec fn moved(row: int, col: int, direction: (i32, i32)) -> Option<(int, int)> {
    let new_row = row + direction.0;
    let new_col = col + direction.1;
    if 0 <= new_row < 9 && 0 <= new_col < 9 {
        Some((new_row, new_col))
    } else {
        None
    }
}

/// Whether row `row` and column `col` lie on the board.
pub fn is_valid_cell(row: i32, col: i32) -> (r: bool)
    ensures
        r == (0 <= row < 9 && 0 <= col < 9),
{
    0 <= row && row < 9 && 0 <= col && col < 9
}

/// One coordinate after a step of `by`, if it stays on the board.
fn step(from: usize, by: i32) -> (r: Option<usize>)
    ensures
        0 <= from + by < 9 ==> r == Some((from + by) as usize),
        !(0 <= from + by < 9) ==> r is None,
{
    if from > 0x8000_0010 {
        return None;
    }
    let to: i64 = from as i64 + by as i64;
    if 0 <= to && to < 9 {
        Some(to as usize)
    } else {
        None
    }
}

/// Moves the selection by `direction`, given as rows and columns. A move that
/// would leave the board is ignored, and so is any move while nothing is
/// selected.
pub fn handle_arrow(game_state: &mut GameState, direction: (i32, i32))
    ensures
        final(game_state).message == old(game_state).message,
        final(game_state).dark_mode == old(game_state).dark_mode,
        final(game_state).active_cell == (match old(game_state).active_cell {
            Some((row, col)) => match moved(row as int, col as int, direction) {
                Some((r, c)) => Some((r as usize, c as usize)),
                None => old(game_state).active_cell,
            },
            None => None,
        }),
{
    if let Some((row, col)) = game_state.active_cell {
        match (step(row, direction.0), step(col, direction.1)) {
            (Some(new_row), Some(new_col)) => {
                game_state.active_cell = Some((new_row, new_col));
            },
            _ => {},
        }
    }
}

impl GameState {
    /// Reads the theme from its one-letter code. An empty text gives the
    /// default state; what follows the first character is not looked at.
    pub fn from_str(s: &str) -> (r: Result<GameState, Error>)
        ensures
            match r {
                Ok(state) => {
                    &&& state.active_cell is None
                    &&& state.message is None
                    &&& s@.len() == 0 ==> state.dark_mode == DarkMode::Dark
                    &&& s@.len() > 0 ==> s@[0] == state.dark_mode.code()
                },
                Err(e) => e == Error::GenerateSudoku && s@.len() > 0 && s@[0] != 'l' && s@[0] != 'd',
            },
    {
        let mut game_state = GameState::default();
        let mut chars = s.chars();
        if let Some(c) = chars.next() {
            if c == 'l' {
                game_state.dark_mode = DarkMode::Light;
            } else if c == 'd' {
                game_state.dark_mode = DarkMode::Dark;
            } else {
                return Err(Error::GenerateSudoku);
            }
        }
        Ok(game_state)
    }

    /// The one-letter code of the theme, as text.
    pub fn to_string(&self) -> (r: String)
        ensures
            r@ == seq![self.dark_mode.code()],
    {
        let mut r = String::new();
        match self.dark_mode {
            DarkMode::Light => r.push('l'),
            DarkMode::Dark => r.push('d'),
        }
        assert(r@ =~= seq![self.dark_mode.code()]);
        r
    }

    /// Shows the outcome of an action: its text, or the message of its error.
    pub fn show_result(&mut self, result: Result<String, Error>)
        ensures
            final(self).active_cell == old(self).active_cell,
            final(self).dark_mode == old(self).dark_mode,
            final(self).message matches Some(m) && m@ == (match result {
                Ok(v) => v@,
                Err(e) => e.text(),
            }),
    {
        match result {
            Ok(v) => self.message = Some(v),
            Err(e) => self.message = Some(e.to_string()),
        }
    }

    /// Whether the cell at `row`, `col` is the selected one.
    pub fn is_active_cell(&self, row: usize, col: usize) -> (r: bool)
        ensures
            r == (self.active_cell == Some((row, col))),
    {
        match self.active_cell {
            Some((r, c)) => r == row && c == col,
            None => false,
        }
    }
}

} // verus!
