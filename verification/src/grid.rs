//! The plain digit grid that a solver reads and writes.

use crate::board::SudokuData;
use crate::cell::{Cell, CellView};
use vstd::prelude::*;

verus! {

/// The mask with every digit from 1 to 9 a candidate.
pub const ALL_CANDIDATES: usize = 0x3FE;

/// 81 digits in row-major order, 0 for a blank, with one candidate mask for
/// each position. In a mask, bit `d` says that digit `d` is a candidate.
#[derive(Debug, Clone, Copy)]
pub struct DigitGrid {
    digits: [u8; 81],
    bitboard: [usize; 81],
}

/// The 81 digits of a board: 0 for an empty cell, the placed digit otherwise.
pub open spec fn board_digits(b: Seq<CellView>) -> Seq<u8> {
    Seq::new(81, |i: int| b[i].digit() as u8)
}

/// The 81 digits of the clues of a board: 0 for every cell that is no clue.
pub open spec fn clue_digits(b: Seq<CellView>) -> Seq<u8> {
    Seq::new(
        81,
        |i: int|
            if b[i] is FixedValue {
                b[i].digit() as u8
            } else {
                0u8
            },
    )
}

/// 81 masks with every candidate open.
pub open spec fn open_masks() -> Seq<usize> {
    Seq::new(81, |i: int| ALL_CANDIDATES)
}

/// Whether every entry is a digit or a blank.
pub open spec fn digits_in_range(digits: Seq<u8>) -> bool {
    forall|i: int| 0 <= i < digits.len() ==> #[trigger] digits[i] <= 9
}

impl DigitGrid {
    #[verifier::type_invariant]
    spec fn inv(self) -> bool {
        digits_in_range(self.digits@)
    }

    /// The 81 digits, 0 for a blank.
    pub closed spec fn digits(self) -> Seq<u8> {
        self.digits@
    }

    /// The 81 candidate masks.
    pub closed spec fn bitboard(self) -> Seq<usize> {
        self.bitboard@
    }

    /// 81 entries of each kind, and no digit above 9.
    pub open spec fn wf(self) -> bool {
        &&& self.digits().len() == 81
        &&& self.bitboard().len() == 81
        &&& digits_in_range(self.digits())
    }

    /// A grid of the given digits and masks, or `None` if a digit is above 9.
    pub fn new(digits: [u8; 81], bitboard: [usize; 81]) -> (r: Option<DigitGrid>)
        ensures
            digits_in_range(digits@) ==> (r matches Some(g) && g.digits() == digits@ && g.bitboard()
                == bitboard@ && g.wf()),
            !digits_in_range(digits@) ==> r is None,
    {
        for i in 0..81usize
            invariant
                forall|k: int| 0 <= k < i ==> #[trigger] digits@[k] <= 9,
        {
            if digits[i] > 9 {
                return None;
            }
        }
        Some(DigitGrid { digits, bitboard })
    }

    /// Every grid is well formed.
    pub fn validity(&self)
        ensures
            self.wf(),
    {
        proof {
            use_type_invariant(self);
        }
    }

    /// The digit at position `idx`, 0 for a blank.
    pub fn digit(&self, idx: usize) -> (d: u8)
        requires
            idx < 81,
        ensures
            d == self.digits()[idx as int],
            d <= 9,
    {
        proof {
            use_type_invariant(self);
        }
        self.digits[idx]
    }

    /// The candidate mask at position `idx`.
    pub fn mask(&self, idx: usize) -> (m: usize)
        requires
            idx < 81,
        ensures
            m == self.bitboard()[idx as int],
    {
        self.bitboard[idx]
    }

    /// The digits of all 81 positions.
    pub fn to_digits(&self) -> (r: [u8; 81])
        ensures
            r@ == self.digits(),
    {
        self.digits
    }

    /// The candidate masks of all 81 positions.
    pub fn to_bitboard(&self) -> (r: [usize; 81])
        ensures
            r@ == self.bitboard(),
    {
        self.bitboard
    }

    /// The digits that a board holds, clues and played digits alike, with
    /// every candidate open: a solver derives the candidates itself.
    pub fn from(data: &SudokuData) -> (r: DigitGrid)
        requires
            data.wf(),
        ensures
            r.wf(),
            r.digits() == board_digits(data@),
            r.bitboard() == open_masks(),
    {
        let mut digits = [0u8; 81];
        for n in 0..81usize
            invariant
                data.wf(),
                forall|k: int| 0 <= k < n ==> #[trigger] digits@[k] == board_digits(data@)[k],
                forall|k: int| n <= k < 81 ==> #[trigger] digits@[k] == 0,
                forall|k: int| 0 <= k < 81 ==> #[trigger] digits@[k] <= 9,
        {
            let row = n / 9;
            let col = n % 9;
            assert(data@[n as int] == data.rows[row as int].cells[col as int]@);
            assert(data@[n as int].wf());
            match &data.rows[row].cells[col] {
                Cell::Empty { .. } => {},
                Cell::Value { value, .. }
                | Cell::FixedValue { value }
                | Cell::AnimatedValue { value, .. }
                | Cell::Error { value, .. } => {
                    digits[n] = *value;
                },
            }
        }
        let bitboard = [ALL_CANDIDATES; 81];
        assert(digits@ =~= board_digits(data@));
        assert(bitboard@ =~= open_masks());
        DigitGrid { digits, bitboard }
    }
}

impl Default for DigitGrid {
    /// The blank grid with every candidate open.
    fn default() -> (r: Self)
        ensures
            r.wf(),
            r.digits() == Seq::new(81, |i: int| 0u8),
            r.bitboard() == open_masks(),
    {
        let digits = [0u8; 81];
        let bitboard = [ALL_CANDIDATES; 81];
        assert(digits@ =~= Seq::new(81, |i: int| 0u8));
        assert(bitboard@ =~= open_masks());
        DigitGrid { digits, bitboard }
    }
}

impl SudokuData {
    /// Whether every placed digit is between 1 and 9.
    pub fn is_wf(&self) -> (r: bool)
        ensures
            r == self.wf(),
    {
        for n in 0..81usize
            invariant
                forall|k: int| 0 <= k < n ==> (#[trigger] self@[k]).wf(),
        {
            let row = n / 9;
            let col = n % 9;
            assert(self@[n as int] == self.rows[row as int].cells[col as int]@);
            let ok = match &self.rows[row].cells[col] {
                Cell::Empty { .. } => true,
                Cell::Value { value, .. }
                | Cell::FixedValue { value }
                | Cell::AnimatedValue { value, .. }
                | Cell::Error { value, .. } => 1 <= *value && *value <= 9,
            };
            if !ok {
                return false;
            }
        }
        true
    }

    /// The clues of the board as a grid: every cell that is no clue counts as
    /// blank, whatever was played in it. Every candidate is open.
    pub fn fixed_sudoku(&self) -> (r: DigitGrid)
        requires
            self.wf(),
        ensures
            r.wf(),
            r.digits() == clue_digits(self@),
            r.bitboard() == open_masks(),
    {
        let mut digits = [0u8; 81];
        for n in 0..81usize
            invariant
                self.wf(),
                forall|k: int| 0 <= k < n ==> #[trigger] digits@[k] == clue_digits(self@)[k],
                forall|k: int| n <= k < 81 ==> #[trigger] digits@[k] == 0,
                forall|k: int| 0 <= k < 81 ==> #[trigger] digits@[k] <= 9,
        {
            let row = n / 9;
            let col = n % 9;
            assert(self@[n as int] == self.rows[row as int].cells[col as int]@);
            assert(self@[n as int].wf());
            match &self.rows[row].cells[col] {
                Cell::Empty { .. }
                | Cell::Value { .. }
                | Cell::Error { .. }
                | Cell::AnimatedValue { .. } => {},
                Cell::FixedValue { value } => {
                    digits[n] = *value;
                },
            }
        }
        let bitboard = [ALL_CANDIDATES; 81];
        assert(digits@ =~= clue_digits(self@));
        assert(bitboard@ =~= open_masks());
        DigitGrid { digits, bitboard }
    }
}

} // verus!
