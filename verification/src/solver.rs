//! The actions that hand the board to a solver and bring the answer back.
//!
//! The solver is whatever function the caller passes: it is asked for one
//! step on a grid and answers with the grid it arrived at, or with an error.
//! Nothing is assumed of its answers.

use crate::board::SudokuData;
use crate::cell::CellView;
use crate::laws::{lemma_marked_valid, lemma_revealed_valid};
use crate::error::Error;
use crate::grid::{board_digits, clue_digits, open_masks, DigitGrid};
use crate::order::is_order;
use crate::solution::{mark_against_solution, marked, revealed, update_from_sudoku_animated};
use crate::timing::{and_then_timed, elapsed, now, Duration};
use vstd::prelude::*;

verus! {

broadcast use vstd::string::group_string_axioms;

/// What a solver can be asked to do with a grid.
#[derive(Debug, Clone, Copy, PartialEq, Eq)]
pub enum SolverStep {
    /// Find the complete solution.
    Solve,
    /// Place every digit that is the only candidate of its cell.
    VisibleSingles,
    /// Place every digit that has only one cell left in a row, column or box.
    HiddenSingles,
    /// Close the candidates that pairs of cells rule out.
    VisibleDoubles,
    /// Close the candidates that triples of cells rule out.
    Triples,
    /// Apply all the constraints above until nothing changes.
    Constraints,
}

/// Whether the solver may be asked for any step on any grid.
pub open spec fn accepts_all<S: Fn(SolverStep, DigitGrid) -> Result<DigitGrid, Error>>(
    solver: S,
) -> bool {
    forall|step: SolverStep, grid: DigitGrid| call_requires(solver, (step, grid))
}

/// Whether `grid` holds exactly `digits`, with every candidate open.
pub open spec fn is_snapshot(grid: DigitGrid, digits: Seq<u8>) -> bool {
    &&& grid.wf()
    &&& grid.digits() == digits
    &&& grid.bitboard() == open_masks()
}

/// Whether the solver, asked for `step` on the grid of `digits`, may have
/// answered with `found`.
pub open spec fn answered<S: Fn(SolverStep, DigitGrid) -> Result<DigitGrid, Error>>(
    solver: S,
    step: SolverStep,
    digits: Seq<u8>,
    found: DigitGrid,
) -> bool {
    exists|given: DigitGrid|
        is_snapshot(given, digits) && #[trigger] call_ensures(
            solver,
            (step, given),
            Ok::<DigitGrid, Error>(found),
        )
}

/// Whether the solver, asked for `step` on the grid of `digits`, may have
/// failed with `error`.
pub open spec fn failed<S: Fn(SolverStep, DigitGrid) -> Result<DigitGrid, Error>>(
    solver: S,
    step: SolverStep,
    digits: Seq<u8>,
    error: Error,
) -> bool {
    exists|given: DigitGrid|
        is_snapshot(given, digits) && #[trigger] call_ensures(
            solver,
            (step, given),
            Err::<DigitGrid, Error>(error),
        )
}

/// Whether `after` is `before` with an answer of the solver to `step`
/// revealed on it, in some order of the 81 positions.
pub open spec fn step_revealed<S: Fn(SolverStep, DigitGrid) -> Result<DigitGrid, Error>>(
    solver: S,
    step: SolverStep,
    before: Seq<CellView>,
    after: Seq<CellView>,
) -> bool {
    exists|found: DigitGrid, order: Seq<usize>|
        answered(solver, step, board_digits(before), found) && is_order(order) && after
            == #[trigger] revealed(before, found.digits(), found.bitboard(), order)
}

/// Whether `after` is `before` with its played cells checked against a
/// solution that the solver gave for the clues alone.
pub open spec fn clues_checked<S: Fn(SolverStep, DigitGrid) -> Result<DigitGrid, Error>>(
    solver: S,
    before: Seq<CellView>,
    after: Seq<CellView>,
) -> bool {
    exists|solution: DigitGrid| #[trigger]
        answered(solver, SolverStep::Solve, clue_digits(before), solution) && after == marked(
            before,
            solution.digits(),
            solution.bitboard(),
        )
}

/// Whether `text` is `what` followed by some span of time in words.
pub open spec fn is_report(text: Seq<char>, what: Seq<char>) -> bool {
    exists|elapsed: Duration|
        elapsed.nanos() < 1_000_000_000 && text == what + #[trigger] elapsed.text()
}

/// What a constraint step leaves behind. On success the solver's answer is
/// revealed on the board and the result reports the time after `what`. On
/// failure the board is as before and the result is the solver's error.
pub open spec fn step_outcome<S: Fn(SolverStep, DigitGrid) -> Result<DigitGrid, Error>>(
    solver: S,
    step: SolverStep,
    what: Seq<char>,
    before: Seq<CellView>,
    after: Seq<CellView>,
    r: Result<String, Error>,
) -> bool {
    match r {
        Ok(text) => is_report(text@, what) && step_revealed(solver, step, before, after),
        Err(e) => after == before && failed(solver, step, board_digits(before), e),
    }
}

/// What a full solve leaves behind. On success the solution is revealed and
/// the time reported. If the solver fails on the board as it stands, the
/// result is the error of that attempt, and the played cells are checked
/// against the solution of the clues; only if the clues have no solution
/// either is the board as before.
pub open spec fn solve_outcome<S: Fn(SolverStep, DigitGrid) -> Result<DigitGrid, Error>>(
    solver: S,
    before: Seq<CellView>,
    after: Seq<CellView>,
    r: Result<String, Error>,
) -> bool {
    match r {
        Ok(text) => is_report(text@, "Sudoku solved in "@) && step_revealed(
            solver,
            SolverStep::Solve,
            before,
            after,
        ),
        Err(e) => {
            &&& failed(solver, SolverStep::Solve, board_digits(before), e)
            &&& {
                ||| clues_checked(solver, before, after)
                ||| {
                    &&& exists|second: Error| #[trigger]
                        failed(solver, SolverStep::Solve, clue_digits(before), second)
                    &&& after == before
                }
            }
        },
    }
}

/// What a check leaves behind. On success the played cells are checked
/// against the solution of the clues and the time is reported. If the clues
/// have no solution, the board is as before and the result is the solver's
/// error.
pub open spec fn verify_outcome<S: Fn(SolverStep, DigitGrid) -> Result<DigitGrid, Error>>(
    solver: S,
    before: Seq<CellView>,
    after: Seq<CellView>,
    r: Result<String, Error>,
) -> bool {
    match r {
        Ok(text) => is_report(text@, "Sudoku verified in "@) && clues_checked(solver, before, after),
        Err(e) => after == before && failed(solver, SolverStep::Solve, clue_digits(before), e),
    }
}

/// Puts `what` in front of the time that a step took.
fn report(what: &str, elapsed: Duration) -> (text: String)
    ensures
        text@ == what@ + elapsed.text(),
        is_report(text@, what@),
{
    let nanos = elapsed.subsec_nanos();
    let mut text = what.to_owned();
    text.append(elapsed.to_string().as_str());
    text
}

/// Asks the solver for the solution of the clues alone, whatever was played
/// on the board, and checks every played cell against it: right digits are
/// shown as right, all others as errors. If the clues have no solution, the
/// board stays as it is and the solver's error is returned.
pub fn compare_with_solution<S: Fn(SolverStep, DigitGrid) -> Result<DigitGrid, Error>>(
    sudoku: &mut SudokuData,
    solver: &S,
) -> (r: Result<(), Error>)
    requires
        old(sudoku).wf(),
        accepts_all(*solver),
    ensures
        final(sudoku).wf(),
        match r {
            Ok(_) => clues_checked(*solver, old(sudoku)@, final(sudoku)@),
            Err(e) => final(sudoku)@ == old(sudoku)@ && failed(
                *solver,
                SolverStep::Solve,
                clue_digits(old(sudoku)@),
                e,
            ),
        },
{
    let clues = sudoku.fixed_sudoku();
    match solver(SolverStep::Solve, clues) {
        Ok(solution) => {
            mark_against_solution(sudoku, &solution);
            proof {
                lemma_marked_valid(old(sudoku)@, solution.digits(), solution.bitboard());
            }
            assert(answered(*solver, SolverStep::Solve, clue_digits(old(sudoku)@), solution));
            Ok(())
        },
        Err(e) => Err(e),
    }
}

/// Asks the solver for one step on the digits of the board, measures the
/// time, and reveals the answer on the board in a random order. If the solver
/// fails, the board stays as it is and the solver's error is returned.
pub fn apply_constraint<S: Fn(SolverStep, DigitGrid) -> Result<DigitGrid, Error>>(
    sudoku_data: &mut SudokuData,
    step: SolverStep,
    solver: &S,
) -> (r: Result<Duration, Error>)
    requires
        old(sudoku_data).wf(),
        accepts_all(*solver),
    ensures
        final(sudoku_data).wf(),
        match r {
            Ok(_) => step_revealed(*solver, step, old(sudoku_data)@, final(sudoku_data)@),
            Err(e) => final(sudoku_data)@ == old(sudoku_data)@ && failed(
                *solver,
                step,
                board_digits(old(sudoku_data)@),
                e,
            ),
        },
{
    let given = DigitGrid::from(sudoku_data);
    let input: Result<DigitGrid, Error> = Ok(given);
    let call = |grid: DigitGrid| -> (out: Result<DigitGrid, Error>)
        requires
            accepts_all(*solver),
        ensures
            call_ensures(*solver, (step, grid), out),
        { solver(step, grid) };
    match and_then_timed(input, call) {
        Ok((found, elapsed)) => {
            update_from_sudoku_animated(sudoku_data, &found, false);
            assert(answered(*solver, step, board_digits(old(sudoku_data)@), found));
            Ok(elapsed)
        },
        Err(e) => Err(e),
    }
}

/// Places every digit that is the only candidate of its cell. The solver does
/// the step; its answer is revealed on the board, and the result says how long
/// the solver took.
pub fn place_all_visible_singles<S: Fn(SolverStep, DigitGrid) -> Result<DigitGrid, Error>>(
    sudoku: &mut SudokuData,
    solver: &S,
) -> (r: Result<String, Error>)
    requires
        old(sudoku).wf(),
        accepts_all(*solver),
    ensures
        final(sudoku).wf(),
        step_outcome(
            *solver,
            SolverStep::VisibleSingles,
            "Visible singles placed in "@,
            old(sudoku)@,
            final(sudoku)@,
            r,
        ),
{
    match apply_constraint(sudoku, SolverStep::VisibleSingles, solver) {
        Ok(elapsed) => Ok(report("Visible singles placed in ", elapsed)),
        Err(e) => Err(e),
    }
}

/// Places every digit that has only one cell left in a row, a column or a box.
/// The solver does the step; its answer is revealed on the board, and the
/// result says how long the solver took.
pub fn place_all_hidden_singles<S: Fn(SolverStep, DigitGrid) -> Result<DigitGrid, Error>>(
    sudoku: &mut SudokuData,
    solver: &S,
) -> (r: Result<String, Error>)
    requires
        old(sudoku).wf(),
        accepts_all(*solver),
    ensures
        final(sudoku).wf(),
        step_outcome(
            *solver,
            SolverStep::HiddenSingles,
            "Hidden singles placed in "@,
            old(sudoku)@,
            final(sudoku)@,
            r,
        ),
{
    match apply_constraint(sudoku, SolverStep::HiddenSingles, solver) {
        Ok(elapsed) => Ok(report("Hidden singles placed in ", elapsed)),
        Err(e) => Err(e),
    }
}

/// Closes the candidates that pairs of cells rule out. The solver does the
/// step; its answer is revealed on the board, and the result says how long the
/// solver took.
pub fn check_all_visible_doubles<S: Fn(SolverStep, DigitGrid) -> Result<DigitGrid, Error>>(
    sudoku: &mut SudokuData,
    solver: &S,
) -> (r: Result<String, Error>)
    requires
        old(sudoku).wf(),
        accepts_all(*solver),
    ensures
        final(sudoku).wf(),
        step_outcome(
            *solver,
            SolverStep::VisibleDoubles,
            "Doubles checked in "@,
            old(sudoku)@,
            final(sudoku)@,
            r,
        ),
{
    match apply_constraint(sudoku, SolverStep::VisibleDoubles, solver) {
        Ok(elapsed) => Ok(report("Doubles checked in ", elapsed)),
        Err(e) => Err(e),
    }
}

/// Closes the candidates that triples of cells rule out. The solver does the
/// step; its answer is revealed on the board, and the result says how long the
/// solver took.
pub fn check_all_triples<S: Fn(SolverStep, DigitGrid) -> Result<DigitGrid, Error>>(
    sudoku: &mut SudokuData,
    solver: &S,
) -> (r: Result<String, Error>)
    requires
        old(sudoku).wf(),
        accepts_all(*solver),
    ensures
        final(sudoku).wf(),
        step_outcome(
            *solver,
            SolverStep::Triples,
            "Triples checked in "@,
            old(sudoku)@,
            final(sudoku)@,
            r,
        ),
{
    match apply_constraint(sudoku, SolverStep::Triples, solver) {
        Ok(elapsed) => Ok(report("Triples checked in ", elapsed)),
        Err(e) => Err(e),
    }
}

/// Applies all constraints until nothing changes. The solver does the step; its
/// answer is revealed on the board, and the result says how long the solver
/// took.
pub fn check_constraints<S: Fn(SolverStep, DigitGrid) -> Result<DigitGrid, Error>>(
    sudoku: &mut SudokuData,
    solver: &S,
) -> (r: Result<String, Error>)
    requires
        old(sudoku).wf(),
        accepts_all(*solver),
    ensures
        final(sudoku).wf(),
        step_outcome(
            *solver,
            SolverStep::Constraints,
            "Constraints checked in "@,
            old(sudoku)@,
            final(sudoku)@,
            r,
        ),
{
    match apply_constraint(sudoku, SolverStep::Constraints, solver) {
        Ok(elapsed) => Ok(report("Constraints checked in ", elapsed)),
        Err(e) => Err(e),
    }
}

/// Asks the solver for the complete solution of the board as it stands and
/// reveals it. If the solver fails, the cause is most often a wrong digit
/// that was played: the played cells are then checked against the solution
/// of the clues alone. Whether or not the clues have a solution, the error
/// of the first attempt is returned.
pub fn solve_sudoku<S: Fn(SolverStep, DigitGrid) -> Result<DigitGrid, Error>>(
    sudoku_data: &mut SudokuData,
    solver: &S,
) -> (r: Result<String, Error>)
    requires
        old(sudoku_data).wf(),
        accepts_all(*solver),
    ensures
        final(sudoku_data).wf(),
        solve_outcome(*solver, old(sudoku_data)@, final(sudoku_data)@, r),
{
    let given = DigitGrid::from(sudoku_data);
    let input: Result<DigitGrid, Error> = Ok(given);
    let call = |grid: DigitGrid| -> (out: Result<DigitGrid, Error>)
        requires
            accepts_all(*solver),
        ensures
            call_ensures(*solver, (SolverStep::Solve, grid), out),
        { solver(SolverStep::Solve, grid) };
    match and_then_timed(input, call) {
        Ok((solution, elapsed)) => {
            update_from_sudoku_animated(sudoku_data, &solution, false);
            assert(answered(
                *solver,
                SolverStep::Solve,
                board_digits(old(sudoku_data)@),
                solution,
            ));
            Ok(report("Sudoku solved in ", elapsed))
        },
        Err(err) => {
            assert(failed(*solver, SolverStep::Solve, board_digits(old(sudoku_data)@), err));
            match compare_with_solution(sudoku_data, solver) {
                Ok(_) => Err(err),
                Err(_) => Err(err),
            }
        },
    }
}

/// Checks the played cells against the solution of the clues alone, and
/// says how long that took. If the clues have no solution, the board stays
/// as it is and the solver's error is returned.
pub fn verify_sudoku<S: Fn(SolverStep, DigitGrid) -> Result<DigitGrid, Error>>(
    sudoku_data: &mut SudokuData,
    solver: &S,
) -> (r: Result<String, Error>)
    requires
        old(sudoku_data).wf(),
        accepts_all(*solver),
    ensures
        final(sudoku_data).wf(),
        verify_outcome(*solver, old(sudoku_data)@, final(sudoku_data)@, r),
{
    let start = now();
    match compare_with_solution(sudoku_data, solver) {
        Ok(_) => Ok(report("Sudoku verified in ", elapsed(&start))),
        Err(e) => Err(e),
    }
}

} // verus!
