//! Folding what a solver found back into the board.

use crate::board::SudokuData;
use crate::cell::{no_choices, Cell, CellView};
use crate::candidates::{mask_choices, to_choices};
use crate::grid::DigitGrid;
use crate::laws::lemma_revealed_valid;
use crate::order::{is_order, lemma_order_is_permutation, random_order};
use vstd::prelude::*;

verus! {

broadcast use vstd::string::group_string_axioms;

/// Milliseconds between the fade-ins of two cells that are revealed one
/// after the other.
pub const FADE_STEP_MS: i32 = 5;

/// Milliseconds before the colour of a checked cell fades in.
pub const CHECK_DELAY_MS: i32 = 100;

/// The cell that a grid entry stands for: a blank with the candidates of
/// the mask, or the digit, as a clue if `fixed`.
pub open spec fn grid_cell(digit: u8, mask: usize, fixed: bool) -> CellView {
    if digit == 0 {
        CellView::Empty { choices: mask_choices(mask) }
    } else if fixed {
        CellView::FixedValue { value: digit }
    } else {
        CellView::Value { value: digit, choices: mask_choices(mask) }
    }
}

/// The board that a grid stands for, whatever was on the board before.
pub open spec fn board_of_grid(digits: Seq<u8>, masks: Seq<usize>, fixed: bool) -> Seq<CellView> {
    Seq::new(81, |i: int| grid_cell(digits[i], masks[i], fixed))
}

/// A played cell after it was checked against the digit of the solution:
/// shown as right if it holds that digit, as an error if not. Empty cells and
/// clues are not checked.
pub open spec fn marked_cell(c: CellView, digit: u8, mask: usize) -> CellView {
    if c is Empty || c is FixedValue {
        c
    } else if c.digit() == digit {
        CellView::AnimatedValue {
            value: digit,
            choices: mask_choices(mask),
            fade_delay_ms: CHECK_DELAY_MS,
            animation: "fade-green"@,
        }
    } else {
        CellView::Error { value: c.digit() as u8, choices: mask_choices(mask) }
    }
}

/// The board after every played cell was checked against a solution.
pub open spec fn marked(b: Seq<CellView>, digits: Seq<u8>, masks: Seq<usize>) -> Seq<CellView> {
    Seq::new(81, |i: int| marked_cell(b[i], digits[i], masks[i]))
}

/// The cell that shows `value` with a fade-in after `delay` milliseconds.
pub open spec fn fade_in(value: u8, delay: int) -> CellView {
    CellView::AnimatedValue {
        value,
        choices: no_choices(),
        fade_delay_ms: delay as i32,
        animation: "fade-in"@,
    }
}

/// Whether position `p` comes among the first `k` entries of `order`.
pub open spec fn visited(order: Seq<usize>, k: int, p: int) -> bool {
    exists|j: int| 0 <= j < k && j < order.len() && #[trigger] order[j] == p
}

/// Where position `p` stands in `order`.
pub open spec fn place_in(order: Seq<usize>, p: int) -> int {
    choose|j: int| 0 <= j < order.len() && #[trigger] order[j] == p
}

/// Whether the solution reveals a digit at position `p`: it has a digit
/// there, and the board has none.
pub open spec fn reveals(b: Seq<CellView>, digits: Seq<u8>, p: int) -> bool {
    digits[p] != 0 && b[p] is Empty
}

/// How many of the first `k` entries of `order` are positions where a digit
/// is revealed.
pub open spec fn reveals_before(b: Seq<CellView>, digits: Seq<u8>, order: Seq<usize>, k: int) -> int
    decreases k,
{
    if k <= 0 {
        0
    } else {
        reveals_before(b, digits, order, k - 1) + if reveals(b, digits, order[k - 1] as int) {
            1int
        } else {
            0int
        }
    }
}

/// The board after a solution was revealed in the given order. Clues stay as
/// they are, and so do positions that the order leaves out. Where the
/// solution has a blank, the cell becomes empty with the candidates of the
/// mask. Where it has a digit and the board has none, the digit fades in,
/// five milliseconds later for every digit that was revealed before it. A
/// cell that holds a played digit stays where the solution has a digit.
pub open spec fn revealed(
    b: Seq<CellView>,
    digits: Seq<u8>,
    masks: Seq<usize>,
    order: Seq<usize>,
) -> Seq<CellView> {
    Seq::new(
        81,
        |p: int|
            if !visited(order, order.len() as int, p) || b[p] is FixedValue {
                b[p]
            } else if digits[p] == 0 {
                CellView::Empty { choices: mask_choices(masks[p]) }
            } else if b[p] is Empty {
                fade_in(digits[p], FADE_STEP_MS * reveals_before(b, digits, order, place_in(order, p)))
            } else {
                b[p]
            },
    )
}

/// No more digits are revealed than entries were visited.
pub proof fn lemma_reveals_bounded(b: Seq<CellView>, digits: Seq<u8>, order: Seq<usize>, k: int)
    requires
        0 <= k,
    ensures
        0 <= reveals_before(b, digits, order, k) <= k,
    decreases k,
{
    if k > 0 {
        lemma_reveals_bounded(b, digits, order, k - 1);
    }
}

/// Overwrites the whole board with what a grid holds: a blank becomes an
/// empty cell with the candidates of its mask, a digit becomes a clue if
/// `fixed` and a played digit otherwise.
pub fn update_from_sudoku(sudoku: &mut SudokuData, solution: &DigitGrid, fixed: bool)
    ensures
        final(sudoku)@ == board_of_grid(solution.digits(), solution.bitboard(), fixed),
{
    let ghost goal = board_of_grid(solution.digits(), solution.bitboard(), fixed);
    for n in 0..81usize
        invariant
            goal == board_of_grid(solution.digits(), solution.bitboard(), fixed),
            sudoku@.len() == 81,
            forall|k: int| 0 <= k < n ==> #[trigger] sudoku@[k] == goal[k],
    {
        let digit = solution.digit(n);
        let choices = to_choices(solution.mask(n));
        if digit == 0 {
            sudoku.put(n / 9, n % 9, Cell::Empty { choices });
        } else if fixed {
            sudoku.put(n / 9, n % 9, Cell::FixedValue { value: digit });
        } else {
            sudoku.put(n / 9, n % 9, Cell::Value { value: digit, choices });
        }
    }
    assert(sudoku@ =~= goal);
}

/// Checks every played cell against a solution of the clues: a cell that
/// holds the digit of the solution is shown as right, any other as an error.
/// Empty cells and clues stay as they are.
pub fn mark_against_solution(sudoku: &mut SudokuData, solution: &DigitGrid)
    ensures
        final(sudoku)@ == marked(old(sudoku)@, solution.digits(), solution.bitboard()),
{
    let ghost before = sudoku@;
    let ghost goal = marked(before, solution.digits(), solution.bitboard());
    for n in 0..81usize
        invariant
            goal == marked(before, solution.digits(), solution.bitboard()),
            before.len() == 81,
            sudoku@.len() == 81,
            forall|k: int|
                0 <= k < 81 ==> #[trigger] sudoku@[k] == (if k < n {
                    goal[k]
                } else {
                    before[k]
                }),
    {
        let row = n / 9;
        let col = n % 9;
        assert(sudoku@[n as int] == sudoku.rows[row as int].cells[col as int]@);
        let held = match &sudoku.rows[row].cells[col] {
            Cell::Empty { .. } | Cell::FixedValue { .. } => None,
            Cell::Value { value, .. }
            | Cell::AnimatedValue { value, .. }
            | Cell::Error { value, .. } => Some(*value),
        };
        if let Some(value) = held {
            let choices = to_choices(solution.mask(n));
            if value == solution.digit(n) {
                sudoku.put(
                    row,
                    col,
                    Cell::AnimatedValue {
                        value,
                        choices,
                        fade_delay_ms: CHECK_DELAY_MS,
                        animation: "fade-green".to_owned(),
                    },
                );
            } else {
                sudoku.put(row, col, Cell::Error { value, choices });
            }
        }
    }
    assert(sudoku@ =~= goal);
}

/// In an order without repetition, an entry stands where it is found.
proof fn lemma_place_in(order: Seq<usize>, k: int)
    requires
        order.no_duplicates(),
        0 <= k < order.len(),
    ensures
        place_in(order, order[k] as int) == k,
        !visited(order, k, order[k] as int),
        visited(order, k + 1, order[k] as int),
{
    let p = order[k] as int;
    let j = place_in(order, p);
    assert(0 <= k < order.len() && order[k] == p);
    assert(0 <= j < order.len() && order[j] == p);
    if visited(order, k, p) {
        let i = choose|i: int| 0 <= i < k && i < order.len() && #[trigger] order[i] == p;
        assert(order[i] == order[k]);
    }
}

/// Visiting one more entry adds that entry to the visited positions, and no
/// other.
proof fn lemma_visited_step(order: Seq<usize>, k: int, p: int)
    requires
        0 <= k < order.len(),
    ensures
        visited(order, k + 1, p) == (visited(order, k, p) || order[k] == p),
{
    if visited(order, k + 1, p) {
        let j = choose|j: int| 0 <= j < k + 1 && j < order.len() && #[trigger] order[j] == p;
        if j < k {
            assert(visited(order, k, p));
        }
    }
    if visited(order, k, p) {
        let j = choose|j: int| 0 <= j < k && j < order.len() && #[trigger] order[j] == p;
        assert(0 <= j < k + 1 && j < order.len() && order[j] == p);
    }
    if order[k] == p {
        assert(0 <= k < k + 1 && k < order.len() && order[k] == p);
    }
}

/// Reveals a solution on the board, position by position in the given order.
/// A clue is never touched. Where the solution has a blank, the cell becomes
/// empty with the candidates of the mask. Where it has a digit, the digit
/// fades in if the cell is empty, each revealed digit five milliseconds after
/// the one before; a cell that holds a played digit stays as it is.
pub fn reveal_in_order(sudoku: &mut SudokuData, solution: &DigitGrid, order: &Vec<usize>)
    requires
        order@.len() <= 81,
        order@.no_duplicates(),
        forall|k: int| 0 <= k < order@.len() ==> #[trigger] order@[k] < 81,
    ensures
        final(sudoku)@ == revealed(old(sudoku)@, solution.digits(), solution.bitboard(), order@),
{
    let ghost before = sudoku@;
    let ghost digits = solution.digits();
    let ghost masks = solution.bitboard();
    let ghost goal = revealed(before, digits, masks, order@);
    let mut duration: i32 = 0;
    for k in 0..order.len()
        invariant
            digits == solution.digits(),
            masks == solution.bitboard(),
            goal == revealed(before, digits, masks, order@),
            before.len() == 81,
            sudoku@.len() == 81,
            order@.len() <= 81,
            order@.no_duplicates(),
            forall|j: int| 0 <= j < order@.len() ==> #[trigger] order@[j] < 81,
            duration == FADE_STEP_MS * reveals_before(before, digits, order@, k as int),
            forall|p: int|
                0 <= p < 81 ==> #[trigger] sudoku@[p] == (if visited(order@, k as int, p) {
                    goal[p]
                } else {
                    before[p]
                }),
    {
        let idx = order[k];
        let i = idx / 9;
        let j = idx % 9;
        let ghost mid = sudoku@;
        proof {
            lemma_place_in(order@, k as int);
            lemma_reveals_bounded(before, digits, order@, k as int);
            assert(mid[idx as int] == before[idx as int]);
            assert(visited(order@, order@.len() as int, idx as int)) by {
                assert(0 <= k < order@.len() && order@[k as int] == idx);
            }
        }
        assert(sudoku@[idx as int] == sudoku.rows[i as int].cells[j as int]@);
        if matches!(sudoku.rows[i].cells[j], Cell::FixedValue { .. }) {
        } else if solution.digit(idx) == 0 {
            let choices = to_choices(solution.mask(idx));
            sudoku.put(i, j, Cell::Empty { choices });
        } else {
            let was_empty = sudoku.rows[i].cells[j].is_empty();
            sudoku.set_fade(i, j, solution.digit(idx), duration);
            if was_empty {
                duration = duration + FADE_STEP_MS;
            }
        }
        proof {
            assert(sudoku@[idx as int] == goal[idx as int]);
            assert forall|p: int| 0 <= p < 81 implies #[trigger] sudoku@[p] == (if visited(
                order@,
                k + 1,
                p,
            ) {
                goal[p]
            } else {
                before[p]
            }) by {
                lemma_visited_step(order@, k as int, p);
                if p != idx {
                    assert(sudoku@[p] == mid[p]);
                }
            }
        }
    }
    assert(sudoku@ =~= goal);
}

/// Reveals a solution on the board in a random order of the 81 positions.
/// Whatever the order, a clue stays, a blank of the solution makes any other
/// cell empty, with the candidates of its mask, and a played digit stays
/// where the solution has a digit; only the delays of the digits that fade
/// in depend on the order.
pub fn update_from_sudoku_animated(sudoku: &mut SudokuData, solution: &DigitGrid, _fixed: bool)
    ensures
        old(sudoku).wf() ==> final(sudoku).wf(),
        exists|order: Seq<usize>|
            is_order(order) && final(sudoku)@ == #[trigger] revealed(
                old(sudoku)@,
                solution.digits(),
                solution.bitboard(),
                order,
            ),
{
    let order = random_order();
    solution.validity();
    proof {
        lemma_order_is_permutation(order@);
        if old(sudoku).wf() {
            lemma_revealed_valid(old(sudoku)@, solution.digits(), solution.bitboard(), order@);
        }
    }
    reveal_in_order(sudoku, solution, &order);
}

impl SudokuData {
    /// The board that a grid stands for, with every digit a clue.
    pub fn from(sudoku: &DigitGrid) -> (data: SudokuData)
        ensures
            data@ == board_of_grid(sudoku.digits(), sudoku.bitboard(), true),
    {
        let mut data = SudokuData::default();
        update_from_sudoku(&mut data, sudoku, true);
        data
    }
}

} // verus!
