//! The board as text: one character per cell, row by row.

use crate::board::SudokuData;
use crate::cell::{blank, Cell, CellView};
use crate::codec::{compress_string, compressed};
use crate::error::Error;
use vstd::prelude::*;

verus! {

broadcast use vstd::string::group_string_axioms;

/// The character of a decimal digit `d`, for `d` from 0 to 9.
pub open spec fn digit_char(d: int) -> char {
    (('0' as u8 + d) as u8) as char
}

/// The decimal numeral of `v`, without leading zeros.
pub open spec fn numeral(v: u8) -> Seq<char> {
    if v < 10 {
        seq![digit_char(v as int)]
    } else if v < 100 {
        seq![digit_char(v as int / 10), digit_char(v as int % 10)]
    } else {
        seq![digit_char(v as int / 100), digit_char((v as int / 10) % 10), digit_char(v as int % 10)]
    }
}

/// The text of one cell: `'.'` for an empty cell, the numeral of the digit
/// otherwise.
pub open spec fn cell_text(c: CellView) -> Seq<char> {
    if c is Empty {
        seq!['.']
    } else {
        numeral(c.digit() as u8)
    }
}

/// The texts of the first `n` cells, one after the other.
pub open spec fn text_upto(b: Seq<CellView>, n: int) -> Seq<char>
    decreases n,
{
    if n <= 0 {
        Seq::empty()
    } else {
        text_upto(b, n - 1) + cell_text(b[n - 1])
    }
}

/// The text of a board: the texts of its 81 cells in row-major order.
pub open spec fn board_text(b: Seq<CellView>) -> Seq<char> {
    text_upto(b, 81)
}

/// A puzzle text: exactly 81 characters, each a digit from 1 to 9 or `'.'`.
pub open spec fn valid_puzzle_text(s: Seq<char>) -> bool {
    &&& s.len() == 81
    &&& forall|i: int| 0 <= i < s.len() ==> is_puzzle_char(#[trigger] s[i])
}

/// A digit from 1 to 9, or `'.'` for a blank.
pub open spec fn is_puzzle_char(c: char) -> bool {
    ('1' <= c && c <= '9') || c == '.'
}

/// The cell that a puzzle character stands for: a blank with every candidate
/// open, or a clue.
pub open spec fn parsed_cell(c: char) -> CellView {
    if c == '.' {
        blank()
    } else {
        CellView::FixedValue { value: (c as u32 - '0' as u32) as u8 }
    }
}

/// The board that a puzzle text stands for.
pub open spec fn parsed(s: Seq<char>) -> Seq<CellView> {
    Seq::new(81, |i: int| parsed_cell(s[i]))
}

/// On a board whose digits are all between 1 and 9, the text has one
/// character for each cell.
pub proof fn lemma_text_of_digits(b: Seq<CellView>, n: int)
    requires
        0 <= n <= 81,
        forall|i: int| 0 <= i < n ==> (#[trigger] b[i]).wf(),
    ensures
        text_upto(b, n).len() == n,
        forall|i: int|
            0 <= i < n ==> #[trigger] text_upto(b, n)[i] == (if b[i] is Empty {
                '.'
            } else {
                digit_char(b[i].digit())
            }),
    decreases n,
{
    if n > 0 {
        lemma_text_of_digits(b, n - 1);
        assert(b[n - 1].wf());
    }
}

/// Writing out the board that a puzzle text stands for gives the text back.
pub proof fn lemma_text_of_parsed(s: Seq<char>)
    requires
        valid_puzzle_text(s),
    ensures
        board_text(parsed(s)) == s,
{
    let b = parsed(s);
    assert forall|i: int| 0 <= i < 81 implies (#[trigger] b[i]).wf() by {
        assert(is_puzzle_char(s[i]));
    }
    lemma_text_of_digits(b, 81);
    assert forall|i: int| 0 <= i < 81 implies #[trigger] board_text(b)[i] == s[i] by {
        assert(is_puzzle_char(s[i]));
    }
    assert(board_text(b) =~= s);
}

/// Appends the decimal numeral of `v` to `out`.
fn push_numeral(out: &mut String, v: u8)
    ensures
        final(out)@ == old(out)@ + numeral(v),
{
    if v >= 100 {
        out.push(('0' as u8 + v / 100) as char);
    }
    if v >= 10 {
        out.push(('0' as u8 + (v / 10) % 10) as char);
    }
    out.push(('0' as u8 + v % 10) as char);
    assert(out@ =~= old(out)@ + numeral(v));
}

impl SudokuData {
    /// The board as text: `'.'` for an empty cell, the digit otherwise.
    pub fn to_string(&self) -> (r: String)
        ensures
            r@ == board_text(self@),
    {
        let mut out = String::new();
        assert(out@ =~= text_upto(self@, 0));
        for n in 0..81usize
            invariant
                out@ == text_upto(self@, n as int),
        {
            let row = n / 9;
            let col = n % 9;
            assert(self@[n as int] == self.rows[row as int].cells[col as int]@);
            match &self.rows[row].cells[col] {
                Cell::Empty { .. } => {
                    out.push('.');
                    assert(out@ =~= text_upto(self@, n as int) + seq!['.']);
                },
                Cell::Value { value, .. }
                | Cell::AnimatedValue { value, .. }
                | Cell::FixedValue { value }
                | Cell::Error { value, .. } => {
                    push_numeral(&mut out, *value);
                },
            }
        }
        out
    }

    /// The board as text, run-length compressed.
    pub fn to_compressed(&self) -> (r: String)
        ensures
            r@ == compressed(board_text(self@)),
    {
        match compress_string(self.to_string().as_str()) {
            Some(text) => text,
            None => String::new(),
        }
    }

    /// Reads a puzzle text: clues become fixed cells, blanks become empty
    /// cells with every candidate open. Any text that is not exactly 81
    /// characters from `'1'..='9'` and `'.'` is refused.
    pub fn from_str(s: &str) -> (r: Result<SudokuData, Error>)
        ensures
            valid_puzzle_text(s@) ==> (r matches Ok(data) && data@ == parsed(s@)),
            !valid_puzzle_text(s@) ==> r == Err::<SudokuData, Error>(Error::GenerateSudoku),
    {
        let mut data = SudokuData::default();
        let mut n: usize = 0;
        for c in it: s.chars()
            invariant
                it.seq() == s@,
                n == it.index(),
                n <= 81,
                forall|k: int| 0 <= k < n ==> is_puzzle_char(#[trigger] s@[k]),
                forall|k: int|
                    0 <= k < 81 ==> #[trigger] data@[k] == (if k < n {
                        parsed_cell(s@[k])
                    } else {
                        blank()
                    }),
        {
            if n >= 81 {
                return Err(Error::GenerateSudoku);
            }
            if c == '.' {
                data.put(n / 9, n % 9, Cell::default());
            } else if '1' <= c && c <= '9' {
                data.put(n / 9, n % 9, Cell::FixedValue { value: (c as u32 - '0' as u32) as u8 });
            } else {
                assert(!is_puzzle_char(s@[n as int]));
                return Err(Error::GenerateSudoku);
            }
            n += 1;
        }
        if n < 81 {
            return Err(Error::GenerateSudoku);
        }
        assert(data@ =~= parsed(s@));
        Ok(data)
    }
}

} // verus!
