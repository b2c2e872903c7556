//! The board: 81 cells in nine rows, and the operations that place and
//! remove digits on it.

use crate::cell::{all_choices, blank, lemma_without_twice, no_choices, Cell, CellView};
use crate::rules::{
    after_set, after_set_fade, after_unset, excluded, holds, index_of, is_peer, open_choices,
    propagated, recomputed, valid_digits,
};
use vstd::prelude::*;

verus! {

/// A row of nine cells.
#[derive(Debug)]
pub struct SudokuRow {
    pub cells: [Cell; 9],
}

/// The whole board, row by row.
#[derive(Debug)]
pub struct SudokuData {
    pub rows: [SudokuRow; 9],
}

impl View for SudokuData {
    type V = Seq<CellView>;

    /// The 81 cells in row-major order.
    open spec fn view(&self) -> Seq<CellView> {
        Seq::new(81, |i: int| self.rows[i / 9].cells[i % 9]@)
    }
}

impl Default for SudokuRow {
    /// Nine empty cells with every digit a candidate.
    fn default() -> (r: Self)
        ensures
            forall|j: int| 0 <= j < 9 ==> (#[trigger] r.cells[j])@ == blank(),
    {
        SudokuRow {
            cells: [
                Cell::default(),
                Cell::default(),
                Cell::default(),
                Cell::default(),
                Cell::default(),
                Cell::default(),
                Cell::default(),
                Cell::default(),
                Cell::default(),
            ],
        }
    }
}

impl Clone for SudokuRow {
    fn clone(&self) -> (r: Self)
        ensures
            forall|j: int| 0 <= j < 9 ==> #[trigger] r.cells[j] == self.cells[j],
    {
        SudokuRow {
            cells: [
                self.cells[0].clone(),
                self.cells[1].clone(),
                self.cells[2].clone(),
                self.cells[3].clone(),
                self.cells[4].clone(),
                self.cells[5].clone(),
                self.cells[6].clone(),
                self.cells[7].clone(),
                self.cells[8].clone(),
            ],
        }
    }
}

impl Clone for SudokuData {
    fn clone(&self) -> (r: Self)
        ensures
            r@ == self@,
    {
        let r = SudokuData {
            rows: [
                self.rows[0].clone(),
                self.rows[1].clone(),
                self.rows[2].clone(),
                self.rows[3].clone(),
                self.rows[4].clone(),
                self.rows[5].clone(),
                self.rows[6].clone(),
                self.rows[7].clone(),
                self.rows[8].clone(),
            ],
        };
        assert(r@ =~= self@);
        r
    }
}

impl Default for SudokuData {
    /// The empty board: no digit placed, every digit a candidate everywhere.
    fn default() -> (r: Self)
        ensures
            r@ == Seq::new(81, |i: int| blank()),
    {
        let r = SudokuData {
            rows: [
                SudokuRow::default(),
                SudokuRow::default(),
                SudokuRow::default(),
                SudokuRow::default(),
                SudokuRow::default(),
                SudokuRow::default(),
                SudokuRow::default(),
                SudokuRow::default(),
                SudokuRow::default(),
            ],
        };
        assert(r@ =~= Seq::new(81, |i: int| blank()));
        r
    }
}

/// Whether position `i` lies in the row or the column of row `row` and column
/// `col`, among the first `k` cells of either.
spec fn in_lines(i: int, row: int, col: int, k: int) -> bool {
    (i / 9 == row && i % 9 < k) || (i % 9 == col && i / 9 < k)
}

/// Whether position `i` is among the first `m` cells, row by row, of the box
/// around row `row` and column `col`.
spec fn in_box(i: int, row: int, col: int, m: int) -> bool {
    &&& i / 27 == row / 3
    &&& (i % 9) / 3 == col / 3
    &&& 3 * ((i / 9) % 3) + (i % 9) % 3 < m
}

/// Whether one of the first `n` positions is a peer of `at` that holds `d`.
spec fn excluded_before(b: Seq<CellView>, at: int, d: int, n: int) -> bool {
    exists|p: int| 0 <= p < n && is_peer(at, p) && #[trigger] holds(b[p], d)
}

/// One more position counts towards the exclusions.
proof fn lemma_excluded_step(b: Seq<CellView>, at: int, d: int, n: int)
    requires
        0 <= n,
    ensures
        excluded_before(b, at, d, n + 1) == (excluded_before(b, at, d, n) || (is_peer(at, n)
            && holds(b[n], d))),
{
    if excluded_before(b, at, d, n + 1) {
        let p = choose|p: int| 0 <= p < n + 1 && is_peer(at, p) && #[trigger] holds(b[p], d);
        if p < n {
            assert(excluded_before(b, at, d, n));
        }
    }
    if excluded_before(b, at, d, n) {
        let p = choose|p: int| 0 <= p < n && is_peer(at, p) && #[trigger] holds(b[p], d);
        assert(0 <= p < n + 1 && is_peer(at, p) && holds(b[p], d));
    }
    if is_peer(at, n) && holds(b[n], d) {
        assert(0 <= n < n + 1 && is_peer(at, n) && holds(b[n], d));
    }
}

/// The candidates of position `at` that the digits placed in the first `n`
/// positions leave open.
spec fn open_before(b: Seq<CellView>, at: int, n: int) -> Seq<bool> {
    Seq::new(9, |k: int| !excluded_before(b, at, k + 1, n))
}

/// Taking position `n` into account closes its digit at its peers, and
/// nothing else.
proof fn lemma_open_step(b: Seq<CellView>, at: int, n: int)
    requires
        0 <= n,
    ensures
        open_before(b, at, n + 1) == (if is_peer(at, n) && !(b[n] is Empty) && 1 <= b[n].digit()
            <= 9 {
            open_before(b, at, n).update(b[n].digit() - 1, false)
        } else {
            open_before(b, at, n)
        }),
{
    let was = open_before(b, at, n);
    let now = open_before(b, at, n + 1);
    let goal = if is_peer(at, n) && !(b[n] is Empty) && 1 <= b[n].digit() <= 9 {
        was.update(b[n].digit() - 1, false)
    } else {
        was
    };
    assert forall|k: int| 0 <= k < 9 implies #[trigger] now[k] == goal[k] by {
        lemma_excluded_step(b, at, k + 1, n);
    }
    assert(now =~= goal);
}

/// No position counted, every candidate is open; all 81 counted, the open
/// candidates are those that no peer excludes.
proof fn lemma_open_ends(b: Seq<CellView>, at: int)
    ensures
        open_before(b, at, 0) == all_choices(),
        open_before(b, at, 81) == open_choices(b, at),
{
    assert(open_before(b, at, 0) =~= all_choices());
    assert forall|k: int| 0 <= k < 9 implies #[trigger] open_before(b, at, 81)[k] == open_choices(
        b,
        at,
    )[k] by {
        if excluded(b, at, k + 1) {
            let p = choose|p: int| 0 <= p < 81 && is_peer(at, p) && #[trigger] holds(b[p], k + 1);
            assert(excluded_before(b, at, k + 1, 81));
        }
        if excluded_before(b, at, k + 1, 81) {
            let p = choose|p: int| 0 <= p < 81 && is_peer(at, p) && #[trigger] holds(b[p], k + 1);
            assert(excluded(b, at, k + 1));
        }
    }
    assert(open_before(b, at, 81) =~= open_choices(b, at));
}

/// The box grows by one position with each step through it.
proof fn lemma_box_step(x: int, row: int, col: int, m: int)
    requires
        0 <= x < 81,
        0 <= row < 9,
        0 <= col < 9,
        0 <= m < 9,
    ensures
        in_box(x, row, col, m + 1) == (in_box(x, row, col, m) || x == index_of(
            3 * (row / 3) + m / 3,
            3 * (col / 3) + m % 3,
        )),
{
}

/// The row and the column grow by one position each with each step along them.
proof fn lemma_lines_step(x: int, row: int, col: int, k: int)
    requires
        0 <= x < 81,
        0 <= row < 9,
        0 <= col < 9,
        0 <= k < 9,
    ensures
        in_lines(x, row, col, k + 1) == (in_lines(x, row, col, k) || x == index_of(row, k) || x
            == index_of(k, col)),
{
}

/// The row, the column and the box of a position are the position and its peers.
proof fn lemma_units_are_peers(x: int, row: int, col: int)
    requires
        0 <= x < 81,
        0 <= row < 9,
        0 <= col < 9,
    ensures
        (in_lines(x, row, col, 9) || in_box(x, row, col, 9)) == (x == index_of(row, col) || is_peer(
            x,
            index_of(row, col),
        )),
{
}

impl SudokuData {
    /// Every placed digit is between 1 and 9.
    pub open spec fn wf(&self) -> bool {
        valid_digits(self@)
    }

    /// Replaces the cell in row `row` and column `col`.
    pub fn put(&mut self, row: usize, col: usize, cell: Cell)
        requires
            row < 9,
            col < 9,
        ensures
            final(self)@ == old(self)@.update(index_of(row as int, col as int), cell@),
    {
        self.rows[row].cells[col] = cell;
        assert(self@ =~= old(self)@.update(index_of(row as int, col as int), cell@));
    }

    /// A copy of the cell in row `row` and column `col`.
    pub fn get(&self, row: usize, col: usize) -> (cell: Cell)
        requires
            row < 9,
            col < 9,
        ensures
            cell@ == self@[index_of(row as int, col as int)],
    {
        self.rows[row].cells[col].clone()
    }

    /// The cell in row `row` and column `col`, for inspection and replacement.
    pub fn get_mut(&mut self, row: usize, col: usize) -> (cell: &mut Cell)
        requires
            row < 9,
            col < 9,
        ensures
            cell@ == old(self)@[index_of(row as int, col as int)],
            final(self)@ == old(self)@.update(index_of(row as int, col as int), final(cell)@),
    {
        &mut self.rows[row].cells[col]
    }

    /// Makes every cell empty, with every digit a candidate.
    pub fn clear(&mut self)
        ensures
            final(self)@ == Seq::new(81, |i: int| blank()),
    {
        for i in 0..9usize
            invariant
                forall|k: int| 0 <= k < 9 * i ==> #[trigger] self@[k] == blank(),
        {
            for j in 0..9usize
                invariant
                    i < 9,
                    forall|k: int| 0 <= k < 9 * i + j ==> #[trigger] self@[k] == blank(),
            {
                self.put(i, j, Cell::default());
            }
        }
        assert(self@ =~= Seq::new(81, |i: int| blank()));
    }

    /// The nine positions of the 3x3 box around row `row` and column `col`,
    /// the cell itself among them, row by row.
    pub fn get_box_positions(row: usize, col: usize) -> (positions: Vec<(usize, usize)>)
        requires
            row < 9,
            col < 9,
        ensures
            positions@.len() == 9,
            forall|i: int, j: int|
                0 <= i < 3 && 0 <= j < 3 ==> #[trigger] positions@[3 * i + j] == (
                    (3 * (row / 3) + i) as usize,
                    (3 * (col / 3) + j) as usize,
                ),
    {
        let mut positions: Vec<(usize, usize)> = Vec::new();
        let box_row = row / 3;
        let box_col = col / 3;
        for i in 0..3usize
            invariant
                box_row == row / 3,
                box_col == col / 3,
                box_row < 3,
                box_col < 3,
                positions@.len() == 3 * i,
                forall|a: int, b: int|
                    0 <= a < i && 0 <= b < 3 ==> #[trigger] positions@[3 * a + b] == (
                        (3 * box_row + a) as usize,
                        (3 * box_col + b) as usize,
                    ),
        {
            for j in 0..3usize
                invariant
                    i < 3,
                    box_row < 3,
                    box_col < 3,
                    positions@.len() == 3 * i + j,
                    forall|a: int, b: int|
                        0 <= a < 3 && 0 <= b < 3 && 3 * a + b < 3 * i + j
                            ==> #[trigger] positions@[3 * a + b] == (
                            (3 * box_row + a) as usize,
                            (3 * box_col + b) as usize,
                        ),
            {
                positions.push((3 * box_row + i, 3 * box_col + j));
            }
        }
        positions
    }

    /// Closes candidate `value` in the cell at `row`, `col`, if the cell is empty.
    pub fn remove_choice(&mut self, row: usize, col: usize, value: u8)
        requires
            row < 9,
            col < 9,
            1 <= value <= 9,
        ensures
            final(self)@ == old(self)@.update(
                index_of(row as int, col as int),
                old(self)@[index_of(row as int, col as int)].without(value as int),
            ),
    {
        if let Cell::Empty { choices } = &mut self.rows[row].cells[col] {
            choices[(value - 1) as usize] = false;
        }
        assert(self@ =~= old(self)@.update(
            index_of(row as int, col as int),
            old(self)@[index_of(row as int, col as int)].without(value as int),
        ));
    }

    /// Closes candidate `value` in the row, the column and the box of the cell
    /// at `row`, `col`.
    pub fn propagate(&mut self, row: usize, col: usize, value: u8)
        requires
            row < 9,
            col < 9,
            1 <= value <= 9,
        ensures
            final(self)@ == propagated(old(self)@, index_of(row as int, col as int), value),
    {
        let ghost before = self@;
        let ghost d = value as int;
        for i in 0..9usize
            invariant
                row < 9,
                col < 9,
                1 <= value <= 9,
                d == value as int,
                before.len() == 81,
                self@.len() == 81,
                forall|x: int|
                    0 <= x < 81 ==> #[trigger] self@[x] == (if in_lines(
                        x,
                        row as int,
                        col as int,
                        i as int,
                    ) {
                        before[x].without(d)
                    } else {
                        before[x]
                    }),
        {
            self.remove_choice(row, i, value);
            self.remove_choice(i, col, value);
            proof {
                assert forall|x: int| 0 <= x < 81 implies #[trigger] self@[x] == (if in_lines(
                    x,
                    row as int,
                    col as int,
                    i + 1,
                ) {
                    before[x].without(d)
                } else {
                    before[x]
                }) by {
                    lemma_lines_step(x, row as int, col as int, i as int);
                    lemma_without_twice(before[x], d);
                }
            }
        }
        let positions = Self::get_box_positions(row, col);
        for m in 0..9usize
            invariant
                row < 9,
                col < 9,
                1 <= value <= 9,
                d == value as int,
                before.len() == 81,
                self@.len() == 81,
                positions@.len() == 9,
                forall|a: int, b: int|
                    0 <= a < 3 && 0 <= b < 3 ==> #[trigger] positions@[3 * a + b] == (
                        (3 * (row / 3) + a) as usize,
                        (3 * (col / 3) + b) as usize,
                    ),
                forall|x: int|
                    0 <= x < 81 ==> #[trigger] self@[x] == (if in_lines(x, row as int, col as int, 9)
                        || in_box(x, row as int, col as int, m as int) {
                        before[x].without(d)
                    } else {
                        before[x]
                    }),
        {
            let ghost a = m as int / 3;
            let ghost b = m as int % 3;
            assert(positions@[3 * a + b] == (
                (3 * (row / 3) + a) as usize,
                (3 * (col / 3) + b) as usize,
            ));
            let (r, c) = positions[m];
            let ghost mid = self@;
            self.remove_choice(r, c, value);
            proof {
                let idx = index_of(r as int, c as int);
                assert(self@ == mid.update(idx, mid[idx].without(d)));
                assert forall|x: int| 0 <= x < 81 implies #[trigger] self@[x] == (if in_lines(
                    x,
                    row as int,
                    col as int,
                    9,
                ) || in_box(x, row as int, col as int, m + 1) {
                    before[x].without(d)
                } else {
                    before[x]
                }) by {
                    lemma_box_step(x, row as int, col as int, m as int);
                    lemma_without_twice(before[x], d);
                }
            }
        }
        proof {
            let at = index_of(row as int, col as int);
            assert forall|x: int| 0 <= x < 81 implies #[trigger] self@[x] == propagated(
                before,
                at,
                value,
            )[x] by {
                lemma_units_are_peers(x, row as int, col as int);
            }
            assert(self@ =~= propagated(before, at, value));
        }
    }

    /// Places `value` in the cell at `row`, `col`, as a clue if `fixed`. Only
    /// an empty cell takes the value; the value then stops being a candidate
    /// in the empty cells of its row, its column and its box. On an occupied
    /// cell nothing changes.
    pub fn set(&mut self, row: usize, col: usize, value: u8, fixed: bool)
        requires
            row < 9,
            col < 9,
            1 <= value <= 9,
        ensures
            final(self)@ == after_set(old(self)@, index_of(row as int, col as int), value, fixed),
    {
        let ghost at = index_of(row as int, col as int);
        match self.get(row, col) {
            Cell::Empty { choices } => {
                if fixed {
                    self.put(row, col, Cell::FixedValue { value });
                } else {
                    self.put(row, col, Cell::Value { value, choices });
                }
                self.propagate(row, col, value);
                assert(self@ =~= after_set(old(self)@, at, value, fixed));
            },
            Cell::Value { .. }
            | Cell::FixedValue { .. }
            | Cell::Error { .. }
            | Cell::AnimatedValue { .. } => {},
        }
    }

    /// Derives the candidates of every empty cell anew from the placed digits.
    pub fn recompute_choices(&mut self)
        ensures
            final(self)@ == recomputed(old(self)@),
    {
        let ghost before = self@;
        for n in 0..81usize
            invariant
                before.len() == 81,
                self@.len() == 81,
                forall|x: int|
                    0 <= x < 81 ==> #[trigger] self@[x] == (if x < n && before[x] is Empty {
                        blank()
                    } else {
                        before[x]
                    }),
        {
            let row = n / 9;
            let col = n % 9;
            assert(self@[n as int] == self.rows[row as int].cells[col as int]@);
            if self.rows[row].cells[col].is_empty() {
                self.put(row, col, Cell::default());
            }
        }
        proof {
            assert forall|x: int| 0 <= x < 81 implies #[trigger] self@[x] == (if before[x] is Empty {
                CellView::Empty { choices: open_before(before, x, 0) }
            } else {
                before[x]
            }) by {
                lemma_open_ends(before, x);
            }
        }
        for n in 0..81usize
            invariant
                before.len() == 81,
                self@.len() == 81,
                forall|x: int|
                    0 <= x < 81 ==> #[trigger] self@[x] == (if before[x] is Empty {
                        CellView::Empty { choices: open_before(before, x, n as int) }
                    } else {
                        before[x]
                    }),
        {
            let row = n / 9;
            let col = n % 9;
            assert(self@[n as int] == self.rows[row as int].cells[col as int]@);
            let value = match &self.rows[row].cells[col] {
                Cell::Empty { .. } => 0u8,
                Cell::Value { value, .. } => *value,
                Cell::FixedValue { value } => *value,
                Cell::AnimatedValue { value, .. } => *value,
                Cell::Error { value, .. } => *value,
            };
            if 1 <= value && value <= 9 {
                self.propagate(row, col, value);
            }
            proof {
                assert forall|x: int| 0 <= x < 81 implies #[trigger] self@[x] == (if before[x] is Empty {
                    CellView::Empty { choices: open_before(before, x, n + 1) }
                } else {
                    before[x]
                }) by {
                    lemma_open_step(before, x, n as int);
                }
            }
        }
        proof {
            assert forall|x: int| 0 <= x < 81 implies #[trigger] self@[x] == recomputed(before)[x] by {
                lemma_open_ends(before, x);
            }
            assert(self@ =~= recomputed(before));
        }
    }

    /// Removes the digit from the cell at `row`, `col`. Only a digit placed
    /// during play is removed: the cell becomes empty, and the candidates of
    /// every empty cell are derived anew from the digits that remain. On an
    /// empty cell or a clue nothing changes.
    pub fn unset(&mut self, row: usize, col: usize)
        requires
            row < 9,
            col < 9,
        ensures
            final(self)@ == after_unset(old(self)@, index_of(row as int, col as int)),
    {
        match self.get(row, col) {
            Cell::Empty { .. } | Cell::FixedValue { .. } => {},
            Cell::Value { choices, .. }
            | Cell::Error { choices, .. }
            | Cell::AnimatedValue { choices, .. } => {
                self.put(row, col, Cell::Empty { choices });
                self.recompute_choices();
            },
        }
    }

    /// Shows `value` in the cell at `row`, `col` with a fade-in that starts
    /// after `fade_delay_ms`. Only an empty cell takes the value, and no
    /// candidate changes anywhere else. On an occupied cell nothing changes.
    pub fn set_fade(&mut self, row: usize, col: usize, value: u8, fade_delay_ms: i32)
        requires
            row < 9,
            col < 9,
        ensures
            final(self)@ == after_set_fade(
                old(self)@,
                index_of(row as int, col as int),
                value,
                fade_delay_ms,
            ),
    {
        match self.get(row, col) {
            Cell::Empty { .. } => {
                let choices = [false; 9];
                assert(choices@ =~= no_choices());
                self.put(
                    row,
                    col,
                    Cell::AnimatedValue {
                        value,
                        choices,
                        fade_delay_ms,
                        animation: "fade-in".to_owned(),
                    },
                );
            },
            Cell::Value { .. }
            | Cell::FixedValue { .. }
            | Cell::Error { .. }
            | Cell::AnimatedValue { .. } => {},
        }
    }

    /// Opens candidate `value` in the cell at `row`, `col`, if the cell is empty.
    pub fn add_choice(&mut self, row: usize, col: usize, value: u8)
        requires
            row < 9,
            col < 9,
            1 <= value <= 9,
        ensures
            final(self)@ == old(self)@.update(
                index_of(row as int, col as int),
                old(self)@[index_of(row as int, col as int)].with(value as int),
            ),
    {
        if let Cell::Empty { choices } = &mut self.rows[row].cells[col] {
            choices[(value - 1) as usize] = true;
        }
        assert(self@ =~= old(self)@.update(
            index_of(row as int, col as int),
            old(self)@[index_of(row as int, col as int)].with(value as int),
        ));
    }
}

} // verus!
