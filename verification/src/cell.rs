//! A cell of the board, and what it holds as a mathematical value.

use vstd::prelude::*;

verus! {

/// One position of the board.
#[derive(Debug, PartialEq, Eq)]
pub enum Cell {
    /// No digit placed; `choices[d - 1]` tells whether digit `d` is still a candidate.
    Empty { choices: [bool; 9] },
    /// A digit placed during play, with the candidates the cell had before.
    Value { value: u8, choices: [bool; 9] },
    /// A clue of the puzzle.
    FixedValue { value: u8 },
    /// A placed digit that is shown with a timed animation.
    AnimatedValue { value: u8, choices: [bool; 9], fade_delay_ms: i32, animation: String },
    /// A placed digit that contradicts the solution of the puzzle.
    Error { value: u8, choices: [bool; 9] },
}

/// What a cell holds, as a mathematical value.
pub enum CellView {
    Empty { choices: Seq<bool> },
    Value { value: u8, choices: Seq<bool> },
    FixedValue { value: u8 },
    AnimatedValue { value: u8, choices: Seq<bool>, fade_delay_ms: i32, animation: Seq<char> },
    Error { value: u8, choices: Seq<bool> },
}

impl CellView {
    /// The digit in the cell, 0 for an empty cell.
    pub open spec fn digit(self) -> int {
        match self {
            CellView::Empty { .. } => 0,
            CellView::Value { value, .. } => value as int,
            CellView::FixedValue { value } => value as int,
            CellView::AnimatedValue { value, .. } => value as int,
            CellView::Error { value, .. } => value as int,
        }
    }

    /// An empty cell, or a cell with a digit from 1 to 9.
    pub open spec fn wf(self) -> bool {
        self is Empty || 1 <= self.digit() <= 9
    }

    /// The cell without digit `d` among its candidates, if it is empty;
    /// any other cell as it is.
    pub open spec fn without(self, d: int) -> CellView {
        match self {
            CellView::Empty { choices } => if 1 <= d <= choices.len() {
                CellView::Empty { choices: choices.update(d - 1, false) }
            } else {
                self
            },
            _ => self,
        }
    }

    /// The cell with digit `d` among its candidates, if it is empty;
    /// any other cell as it is.
    pub open spec fn with(self, d: int) -> CellView {
        match self {
            CellView::Empty { choices } => if 1 <= d <= choices.len() {
                CellView::Empty { choices: choices.update(d - 1, true) }
            } else {
                self
            },
            _ => self,
        }
    }
}

/// Nine candidates, all open.
pub open spec fn all_choices() -> Seq<bool> {
    Seq::new(9, |k: int| true)
}

/// Nine candidates, all closed.
pub open spec fn no_choices() -> Seq<bool> {
    Seq::new(9, |k: int| false)
}

/// The empty cell with every digit a candidate.
pub open spec fn blank() -> CellView {
    CellView::Empty { choices: all_choices() }
}

impl View for Cell {
    type V = CellView;

    open spec fn view(&self) -> CellView {
        match *self {
            Cell::Empty { choices } => CellView::Empty { choices: choices@ },
            Cell::Value { value, choices } => CellView::Value { value, choices: choices@ },
            Cell::FixedValue { value } => CellView::FixedValue { value },
            Cell::AnimatedValue { value, choices, fade_delay_ms, animation } => CellView::AnimatedValue {
                value,
                choices: choices@,
                fade_delay_ms,
                animation: animation@,
            },
            Cell::Error { value, choices } => CellView::Error { value, choices: choices@ },
        }
    }
}

impl Clone for Cell {
    fn clone(&self) -> (r: Self)
        ensures
            r == *self,
    {
        match self {
            Cell::Empty { choices } => Cell::Empty { choices: *choices },
            Cell::Value { value, choices } => Cell::Value { value: *value, choices: *choices },
            Cell::FixedValue { value } => Cell::FixedValue { value: *value },
            Cell::AnimatedValue { value, choices, fade_delay_ms, animation } => Cell::AnimatedValue {
                value: *value,
                choices: *choices,
                fade_delay_ms: *fade_delay_ms,
                animation: animation.clone(),
            },
            Cell::Error { value, choices } => Cell::Error { value: *value, choices: *choices },
        }
    }
}

impl Default for Cell {
    /// The empty cell with every digit a candidate.
    fn default() -> (r: Self)
        ensures
            r@ == blank(),
    {
        let choices = [true; 9];
        assert(choices@ =~= all_choices());
        Cell::Empty { choices }
    }
}

impl Cell {
    /// Whether no digit is placed in the cell.
    pub fn is_empty(&self) -> (r: bool)
        ensures
            r == (self@ is Empty),
    {
        matches!(self, Cell::Empty { .. })
    }
}

/// Removing a candidate twice is removing it once.
pub proof fn lemma_without_twice(c: CellView, d: int)
    ensures
        c.without(d).without(d) == c.without(d),
{
    if let CellView::Empty { choices } = c {
        if 1 <= d <= choices.len() {
            assert(choices.update(d - 1, false).update(d - 1, false) =~= choices.update(
                d - 1,
                false,
            ));
        }
    }
}

} // verus!
