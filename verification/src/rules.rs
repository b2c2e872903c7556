//! The rules of the board, stated over its 81 cells in row-major order.

use crate::cell::{no_choices, CellView};
use vstd::prelude::*;

verus! {

/// Position of the cell in row `row` and column `col` in the row-major board.
pub open spec fn index_of(row: int, col: int) -> int {
    9 * row + col
}

/// Whether two different positions share a row, a column or a 3x3 box.
pub open spec fn is_peer(a: int, b: int) -> bool {
    &&& a != b
    &&& (a / 9 == b / 9 || a % 9 == b % 9 || (a / 27 == b / 27 && (a % 9) / 3 == (b % 9) / 3))
}

/// Whether cell `c` has digit `d` placed in it.
pub open spec fn holds(c: CellView, d: int) -> bool {
    !(c is Empty) && c.digit() == d
}

/// Whether some peer of position `at` holds digit `d`.
pub open spec fn excluded(b: Seq<CellView>, at: int, d: int) -> bool {
    exists|p: int| 0 <= p < 81 && is_peer(at, p) && #[trigger] holds(b[p], d)
}

/// The cell that an empty cell `before` becomes when `value` is placed in it.
pub open spec fn placed(before: CellView, value: u8, fixed: bool) -> CellView {
    if fixed {
        CellView::FixedValue { value }
    } else {
        CellView::Value { value, choices: before->Empty_choices }
    }
}

/// The board after placing `value` at position `at`. An occupied position
/// leaves the board as it is. Otherwise the cell holds the value, and every
/// empty peer loses the value as a candidate.
pub open spec fn after_set(b: Seq<CellView>, at: int, value: u8, fixed: bool) -> Seq<CellView> {
    if b[at] is Empty {
        Seq::new(
            81,
            |i: int|
                if i == at {
                    placed(b[at], value, fixed)
                } else if is_peer(i, at) {
                    b[i].without(value as int)
                } else {
                    b[i]
                },
        )
    } else {
        b
    }
}

/// The board after showing `value` at position `at` with a fade-in. An
/// occupied position leaves the board as it is.
pub open spec fn after_set_fade(b: Seq<CellView>, at: int, value: u8, fade_delay_ms: i32) -> Seq<
    CellView,
> {
    if b[at] is Empty {
        b.update(
            at,
            CellView::AnimatedValue {
                value,
                choices: no_choices(),
                fade_delay_ms,
                animation: "fade-in"@,
            },
        )
    } else {
        b
    }
}

/// The board with candidate `value` closed in every empty cell of the row,
/// the column and the box of position `at`.
pub open spec fn propagated(b: Seq<CellView>, at: int, value: u8) -> Seq<CellView> {
    Seq::new(
        81,
        |i: int|
            if i == at || is_peer(i, at) {
                b[i].without(value as int)
            } else {
                b[i]
            },
    )
}

/// The empty cell that a played cell leaves behind, with the candidates it
/// carried; an empty cell or a clue as it is.
pub open spec fn vacated(c: CellView) -> CellView {
    match c {
        CellView::Value { choices, .. } => CellView::Empty { choices },
        CellView::AnimatedValue { choices, .. } => CellView::Empty { choices },
        CellView::Error { choices, .. } => CellView::Empty { choices },
        _ => c,
    }
}

/// The candidates of position `at` that the placed digits leave open.
pub open spec fn open_choices(b: Seq<CellView>, at: int) -> Seq<bool> {
    Seq::new(9, |k: int| !excluded(b, at, k + 1))
}

/// The board with the candidates of every empty cell derived anew from the
/// placed digits: a digit is a candidate exactly where no peer holds it.
pub open spec fn recomputed(b: Seq<CellView>) -> Seq<CellView> {
    Seq::new(
        81,
        |i: int|
            if b[i] is Empty {
                CellView::Empty { choices: open_choices(b, i) }
            } else {
                b[i]
            },
    )
}

/// The board after removing the digit at position `at`. An empty cell or a
/// clue leaves the board as it is. Otherwise the cell becomes empty and all
/// candidates are derived anew.
pub open spec fn after_unset(b: Seq<CellView>, at: int) -> Seq<CellView> {
    if b[at] is Empty || b[at] is FixedValue {
        b
    } else {
        recomputed(b.update(at, vacated(b[at])))
    }
}

/// Whether every digit placed on the board is between 1 and 9.
pub open spec fn valid_digits(b: Seq<CellView>) -> bool {
    &&& b.len() == 81
    &&& forall|i: int| 0 <= i < 81 ==> (#[trigger] b[i]).wf()
}

} // verus!
