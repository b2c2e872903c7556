//! The keys that start an action, and what each of them starts.

use crate::board::SudokuData;
use crate::error::Error;
use crate::grid::DigitGrid;
use crate::solver::{
    accepts_all, check_all_visible_doubles, check_constraints, check_all_triples,
    place_all_hidden_singles, place_all_visible_singles, solve_outcome, solve_sudoku, step_outcome,
    verify_outcome, verify_sudoku, SolverStep,
};
use vstd::prelude::*;

verus! {

broadcast use vstd::string::group_string_axioms;

/// An action on the board that a key starts.
#[derive(Debug, Clone, Copy, PartialEq, Eq)]
pub enum SolverAction {
    PlaceAllVisibleSingles,
    PlaceAllHiddenSingles,
    CheckAllVisibleDoubles,
    CheckTriples,
    CheckConstraints,
    SolveSudoku,
    VerifySudoku,
}

/// How hard a generated puzzle is to be.
#[derive(Debug, Clone, Copy, PartialEq, Eq)]
pub enum Difficulty {
    Hard,
    Clue17,
    Extreme,
}

/// A key, the label of its button, and the action it starts.
#[derive(Debug, Clone, Copy)]
pub struct Hotkey {
    pub key: &'static str,
    pub action: &'static str,
    pub on_click: SolverAction,
}

/// A key, the label of its button, and the difficulty of the puzzle it loads.
#[derive(Debug, Clone, Copy)]
pub struct GeneratorHotkey {
    pub key: &'static str,
    pub action: &'static str,
    pub difficulty: Difficulty,
}

/// Key, label and action of the seven solver keys, in the order of their
/// buttons.
pub open spec fn solver_hotkey_table() -> Seq<(Seq<char>, Seq<char>, SolverAction)> {
    seq![
        ("A"@, "SINGLES"@, SolverAction::PlaceAllVisibleSingles),
        ("S"@, "HIDDEN"@, SolverAction::PlaceAllHiddenSingles),
        ("D"@, "DOUBLES"@, SolverAction::CheckAllVisibleDoubles),
        ("F"@, "TRIPLES"@, SolverAction::CheckTriples),
        ("G"@, "CONSTRAINTS"@, SolverAction::CheckConstraints),
        ("H"@, "SOLVE"@, SolverAction::SolveSudoku),
        ("J"@, "VERIFY"@, SolverAction::VerifySudoku),
    ]
}

/// Key, label and difficulty of the three generator keys, in the order of
/// their buttons.
pub open spec fn generator_hotkey_table() -> Seq<(Seq<char>, Seq<char>, Difficulty)> {
    seq![
        ("B"@, "HARD"@, Difficulty::Hard),
        ("N"@, "17 CLUE"@, Difficulty::Clue17),
        ("M"@, "EXTREME"@, Difficulty::Extreme),
    ]
}

/// The seven solver keys.
pub fn get_solver_hotkeys() -> (keys: Vec<Hotkey>)
    ensures
        keys@.len() == 7,
        forall|i: int|
            0 <= i < 7 ==> ((#[trigger] keys@[i]).key@, keys@[i].action@, keys@[i].on_click)
                == solver_hotkey_table()[i],
{
    let mut keys: Vec<Hotkey> = Vec::new();
    keys.push(Hotkey { key: "A", action: "SINGLES", on_click: SolverAction::PlaceAllVisibleSingles });
    keys.push(Hotkey { key: "S", action: "HIDDEN", on_click: SolverAction::PlaceAllHiddenSingles });
    keys.push(Hotkey { key: "D", action: "DOUBLES", on_click: SolverAction::CheckAllVisibleDoubles });
    keys.push(Hotkey { key: "F", action: "TRIPLES", on_click: SolverAction::CheckTriples });
    keys.push(Hotkey { key: "G", action: "CONSTRAINTS", on_click: SolverAction::CheckConstraints });
    keys.push(Hotkey { key: "H", action: "SOLVE", on_click: SolverAction::SolveSudoku });
    keys.push(Hotkey { key: "J", action: "VERIFY", on_click: SolverAction::VerifySudoku });
    keys
}

/// The three generator keys.
pub fn get_generator_hotkeys() -> (keys: Vec<GeneratorHotkey>)
    ensures
        keys@.len() == 3,
        forall|i: int|
            0 <= i < 3 ==> ((#[trigger] keys@[i]).key@, keys@[i].action@, keys@[i].difficulty)
                == generator_hotkey_table()[i],
{
    let mut keys: Vec<GeneratorHotkey> = Vec::new();
    keys.push(GeneratorHotkey { key: "B", action: "HARD", difficulty: Difficulty::Hard });
    keys.push(GeneratorHotkey { key: "N", action: "17 CLUE", difficulty: Difficulty::Clue17 });
    keys.push(GeneratorHotkey { key: "M", action: "EXTREME", difficulty: Difficulty::Extreme });
    keys
}

impl SolverAction {
    /// The step that the action asks the solver for and reveals, if it is a
    /// constraint step.
    pub open spec fn step(self) -> Option<SolverStep> {
        match self {
            SolverAction::PlaceAllVisibleSingles => Some(SolverStep::VisibleSingles),
            SolverAction::PlaceAllHiddenSingles => Some(SolverStep::HiddenSingles),
            SolverAction::CheckAllVisibleDoubles => Some(SolverStep::VisibleDoubles),
            SolverAction::CheckTriples => Some(SolverStep::Triples),
            SolverAction::CheckConstraints => Some(SolverStep::Constraints),
            SolverAction::SolveSudoku => None,
            SolverAction::VerifySudoku => None,
        }
    }

    /// How the report of the action starts.
    pub open spec fn report_start(self) -> Seq<char> {
        match self {
            SolverAction::PlaceAllVisibleSingles => "Visible singles placed in "@,
            SolverAction::PlaceAllHiddenSingles => "Hidden singles placed in "@,
            SolverAction::CheckAllVisibleDoubles => "Doubles checked in "@,
            SolverAction::CheckTriples => "Triples checked in "@,
            SolverAction::CheckConstraints => "Constraints checked in "@,
            SolverAction::SolveSudoku => "Sudoku solved in "@,
            SolverAction::VerifySudoku => "Sudoku verified in "@,
        }
    }

    /// Carries the action out on the board, with `solver` as the solver.
    pub fn run<S: Fn(SolverStep, DigitGrid) -> Result<DigitGrid, Error>>(
        self,
        sudoku: &mut SudokuData,
        solver: &S,
    ) -> (r: Result<String, Error>)
        requires
            old(sudoku).wf(),
            accepts_all(*solver),
        ensures
            final(sudoku).wf(),
            match self.step() {
                Some(step) => step_outcome(
                    *solver,
                    step,
                    self.report_start(),
                    old(sudoku)@,
                    final(sudoku)@,
                    r,
                ),
                None => if self == SolverAction::SolveSudoku {
                    solve_outcome(*solver, old(sudoku)@, final(sudoku)@, r)
                } else {
                    verify_outcome(*solver, old(sudoku)@, final(sudoku)@, r)
                },
            },
    {
        match self {
            SolverAction::PlaceAllVisibleSingles => place_all_visible_singles(sudoku, solver),
            SolverAction::PlaceAllHiddenSingles => place_all_hidden_singles(sudoku, solver),
            SolverAction::CheckAllVisibleDoubles => check_all_visible_doubles(sudoku, solver),
            SolverAction::CheckTriples => check_all_triples(sudoku, solver),
            SolverAction::CheckConstraints => check_constraints(sudoku, solver),
            SolverAction::SolveSudoku => solve_sudoku(sudoku, solver),
            SolverAction::VerifySudoku => verify_sudoku(sudoku, solver),
        }
    }
}

} // verus!
