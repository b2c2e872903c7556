//! What holds of the board after any sequence of placements and removals.

use crate::actions::{after_choice_toggle, after_digit_toggle};
use crate::cell::{all_choices, blank, CellView};
use crate::codec::{compressed, decompressed, is_token, lemma_round_trip};
use crate::rules::{
    after_set, after_set_fade, after_unset, excluded, holds, is_peer, open_choices, recomputed,
    vacated, valid_digits,
};
use crate::grid::digits_in_range;
use crate::notation::{is_puzzle_char, parsed, valid_puzzle_text};
use crate::solution::{board_of_grid, marked, revealed};
use vstd::prelude::*;

verus! {

/// The board invariant: in every empty cell a digit is a candidate exactly
/// when no peer of the cell holds it.
pub open spec fn consistent(b: Seq<CellView>) -> bool {
    &&& b.len() == 81
    &&& forall|i: int|
        0 <= i < 81 && (#[trigger] b[i]) is Empty ==> b[i]->Empty_choices == open_choices(b, i)
}

/// The invariant, digit by digit: candidate `d` of an empty cell is closed
/// exactly when some peer holds `d`.
pub proof fn lemma_consistent_digit(b: Seq<CellView>, at: int, d: int)
    requires
        consistent(b),
        0 <= at < 81,
        b[at] is Empty,
        1 <= d <= 9,
    ensures
        b[at]->Empty_choices.len() == 9,
        !b[at]->Empty_choices[d - 1] <==> excluded(b, at, d),
{
    assert(open_choices(b, at)[d - 1] == !excluded(b, at, d));
}

/// Boards that hold the same digits exclude the same candidates.
pub proof fn lemma_excluded_same_digits(b1: Seq<CellView>, b2: Seq<CellView>, at: int, d: int)
    requires
        forall|p: int| 0 <= p < 81 ==> holds(#[trigger] b1[p], d) == holds(b2[p], d),
    ensures
        excluded(b1, at, d) == excluded(b2, at, d),
{
    if excluded(b1, at, d) {
        let p = choose|p: int| 0 <= p < 81 && is_peer(at, p) && #[trigger] holds(b1[p], d);
        assert(holds(b2[p], d));
    }
    if excluded(b2, at, d) {
        let p = choose|p: int| 0 <= p < 81 && is_peer(at, p) && #[trigger] holds(b2[p], d);
        assert(holds(b1[p], d));
    }
}

/// The empty board satisfies the invariant.
pub proof fn lemma_empty_board_consistent()
    ensures
        consistent(Seq::new(81, |i: int| blank())),
{
    let b = Seq::new(81, |i: int| blank());
    assert forall|i: int| 0 <= i < 81 && (#[trigger] b[i]) is Empty implies b[i]->Empty_choices
        == open_choices(b, i) by {
        assert forall|k: int| 0 <= k < 9 implies #[trigger] open_choices(b, i)[k] by {
            if excluded(b, i, k + 1) {
                let p = choose|p: int| 0 <= p < 81 && is_peer(i, p) && #[trigger] holds(b[p], k + 1);
                assert(false);
            }
        }
        assert(all_choices() =~= open_choices(b, i));
    }
}

/// Deriving all candidates anew establishes the invariant, whatever the
/// candidates were before.
pub proof fn lemma_recomputed_consistent(b: Seq<CellView>)
    requires
        b.len() == 81,
    ensures
        consistent(recomputed(b)),
{
    let r = recomputed(b);
    assert forall|i: int| 0 <= i < 81 && (#[trigger] r[i]) is Empty implies r[i]->Empty_choices
        == open_choices(r, i) by {
        assert forall|k: int| 0 <= k < 9 implies #[trigger] open_choices(b, i)[k] == open_choices(
            r,
            i,
        )[k] by {
            lemma_excluded_same_digits(b, r, i, k + 1);
        }
        assert(open_choices(b, i) =~= open_choices(r, i));
    }
}

/// Placing a digit preserves the invariant.
pub proof fn lemma_set_preserves_consistency(b: Seq<CellView>, at: int, value: u8, fixed: bool)
    requires
        consistent(b),
        0 <= at < 81,
        1 <= value <= 9,
    ensures
        consistent(after_set(b, at, value, fixed)),
{
    let r = after_set(b, at, value, fixed);
    if b[at] is Empty {
        assert forall|i: int| 0 <= i < 81 && (#[trigger] r[i]) is Empty implies r[i]->Empty_choices
            == open_choices(r, i) by {
            let was = b[i]->Empty_choices;
            assert(was == open_choices(b, i));
            assert forall|k: int| 0 <= k < 9 implies #[trigger] r[i]->Empty_choices[k]
                == open_choices(r, i)[k] by {
                lemma_excluded_after_set(b, at, value, fixed, i, k + 1);
            }
            assert(r[i]->Empty_choices =~= open_choices(r, i));
        }
    }
}

/// After a placement on an empty cell, a digit is excluded at a position if
/// it was excluded before, or if it is the placed digit and the position is a
/// peer of the placement.
pub proof fn lemma_excluded_after_set(
    b: Seq<CellView>,
    at: int,
    value: u8,
    fixed: bool,
    i: int,
    d: int,
)
    requires
        b.len() == 81,
        0 <= at < 81,
        0 <= i < 81,
        b[at] is Empty,
    ensures
        excluded(after_set(b, at, value, fixed), i, d) == (excluded(b, i, d) || (is_peer(i, at)
            && d == value)),
{
    let r = after_set(b, at, value, fixed);
    assert forall|p: int| 0 <= p < 81 && p != at implies holds(#[trigger] r[p], d) == holds(
        b[p],
        d,
    ) by {}
    assert(holds(r[at], d) == (d == value));
    if excluded(r, i, d) {
        let p = choose|p: int| 0 <= p < 81 && is_peer(i, p) && #[trigger] holds(r[p], d);
        if p != at {
            assert(holds(b[p], d));
        }
    }
    if excluded(b, i, d) {
        let p = choose|p: int| 0 <= p < 81 && is_peer(i, p) && #[trigger] holds(b[p], d);
        assert(holds(r[p], d));
    }
    if is_peer(i, at) && d == value {
        assert(holds(r[at], d));
    }
}

/// Removing a digit preserves the invariant; where a digit is removed, it
/// even establishes it.
pub proof fn lemma_unset_preserves_consistency(b: Seq<CellView>, at: int)
    requires
        consistent(b),
        0 <= at < 81,
    ensures
        consistent(after_unset(b, at)),
{
    if !(b[at] is Empty || b[at] is FixedValue) {
        lemma_recomputed_consistent(b.update(at, vacated(b[at])));
    }
}

/// One step of play: a digit is placed at a position, or the digit at a
/// position is removed.
pub enum Move {
    Place { at: int, value: u8, fixed: bool },
    Remove { at: int },
}

impl Move {
    /// Whether the move names a position of the board and, if it places a
    /// digit, a digit from 1 to 9.
    pub open spec fn wf(self) -> bool {
        match self {
            Move::Place { at, value, .. } => 0 <= at < 81 && 1 <= value <= 9,
            Move::Remove { at } => 0 <= at < 81,
        }
    }

    /// The board after the move.
    pub open spec fn apply(self, b: Seq<CellView>) -> Seq<CellView> {
        match self {
            Move::Place { at, value, fixed } => after_set(b, at, value, fixed),
            Move::Remove { at } => after_unset(b, at),
        }
    }
}

/// The board after a sequence of moves, the first move first.
pub open spec fn after_moves(b: Seq<CellView>, moves: Seq<Move>) -> Seq<CellView>
    decreases moves.len(),
{
    if moves.len() == 0 {
        b
    } else {
        moves.last().apply(after_moves(b, moves.drop_last()))
    }
}

/// The invariant holds after any sequence of placements and removals, on
/// any board on which it held before.
pub proof fn lemma_moves_preserve_consistency(b: Seq<CellView>, moves: Seq<Move>)
    requires
        consistent(b),
        forall|k: int| 0 <= k < moves.len() ==> (#[trigger] moves[k]).wf(),
    ensures
        consistent(after_moves(b, moves)),
    decreases moves.len(),
{
    if moves.len() > 0 {
        let earlier = moves.drop_last();
        assert forall|k: int| 0 <= k < earlier.len() implies (#[trigger] earlier[k]).wf() by {
            assert(earlier[k] == moves[k]);
        }
        lemma_moves_preserve_consistency(b, earlier);
        let mid = after_moves(b, earlier);
        assert(moves.last() == moves[moves.len() - 1]);
        match moves.last() {
            Move::Place { at, value, fixed } => {
                lemma_set_preserves_consistency(mid, at, value, fixed);
            },
            Move::Remove { at } => {
                lemma_unset_preserves_consistency(mid, at);
            },
        }
    }
}

/// The invariant holds after any sequence of placements and removals on the
/// empty board.
pub proof fn lemma_play_is_consistent(moves: Seq<Move>)
    requires
        forall|k: int| 0 <= k < moves.len() ==> (#[trigger] moves[k]).wf(),
    ensures
        consistent(after_moves(Seq::new(81, |i: int| blank()), moves)),
{
    lemma_empty_board_consistent();
    lemma_moves_preserve_consistency(Seq::new(81, |i: int| blank()), moves);
}

/// Every puzzle text survives compression and decompression.
pub proof fn lemma_round_trip_puzzle_text(s: Seq<char>)
    requires
        valid_puzzle_text(s),
    ensures
        decompressed(compressed(s)) == Some(s),
{
    assert forall|i: int| 0 <= i < s.len() implies !is_token(#[trigger] s[i]) by {
        assert(is_puzzle_char(s[i]));
    }
    lemma_round_trip(s);
}

/// Removing a played digit establishes the invariant, whatever the
/// candidates were before.
pub proof fn lemma_unset_establishes_consistency(b: Seq<CellView>, at: int)
    requires
        b.len() == 81,
        0 <= at < 81,
        !(b[at] is Empty),
        !(b[at] is FixedValue),
    ensures
        consistent(after_unset(b, at)),
{
    lemma_recomputed_consistent(b.update(at, vacated(b[at])));
}

/// On a board that satisfies the invariant, removing a digit that was just
/// played on an empty cell gives the board back as it was.
pub proof fn lemma_unset_undoes_set(b: Seq<CellView>, at: int, value: u8)
    requires
        consistent(b),
        0 <= at < 81,
        b[at] is Empty,
    ensures
        after_unset(after_set(b, at, value, false), at) == b,
{
    let played = after_set(b, at, value, false);
    let cleared = played.update(at, vacated(played[at]));
    let r = after_unset(played, at);
    assert(cleared[at] == b[at]);
    assert forall|i: int| 0 <= i < 81 implies #[trigger] r[i] == b[i] by {
        assert(cleared[i] is Empty == b[i] is Empty);
        if b[i] is Empty {
            assert forall|k: int| 0 <= k < 9 implies #[trigger] open_choices(cleared, i)[k]
                == open_choices(b, i)[k] by {
                assert forall|p: int| 0 <= p < 81 implies holds(#[trigger] cleared[p], k + 1)
                    == holds(b[p], k + 1) by {}
                lemma_excluded_same_digits(cleared, b, i, k + 1);
            }
            assert(open_choices(cleared, i) =~= open_choices(b, i));
        }
    }
    assert(r =~= b);
}

/// A second placement on a cell changes nothing: the first one, if it took
/// effect, has occupied the cell.
pub proof fn lemma_set_twice(
    b: Seq<CellView>,
    at: int,
    value: u8,
    fixed: bool,
    again: u8,
    again_fixed: bool,
)
    requires
        b.len() == 81,
        0 <= at < 81,
    ensures
        after_set(after_set(b, at, value, fixed), at, again, again_fixed) == after_set(
            b,
            at,
            value,
            fixed,
        ),
{
}

/// A placement on an occupied cell changes nothing.
pub proof fn lemma_set_occupied(b: Seq<CellView>, at: int, value: u8, fixed: bool)
    requires
        !(b[at] is Empty),
    ensures
        after_set(b, at, value, fixed) == b,
{
}

/// Removing from an empty cell or from a clue changes nothing.
pub proof fn lemma_unset_keeps_clues_and_blanks(b: Seq<CellView>, at: int)
    requires
        b[at] is Empty || b[at] is FixedValue,
    ensures
        after_unset(b, at) == b,
{
}


/// The empty board holds no digit out of range.
pub proof fn lemma_empty_board_valid()
    ensures
        valid_digits(Seq::new(81, |i: int| blank())),
{
}

/// The board of a puzzle text holds clues from 1 to 9 only.
pub proof fn lemma_parsed_valid(s: Seq<char>)
    requires
        valid_puzzle_text(s),
    ensures
        valid_digits(parsed(s)),
{
    assert forall|i: int| 0 <= i < 81 implies (#[trigger] parsed(s)[i]).wf() by {
        assert(is_puzzle_char(s[i]));
    }
}

/// Placing a digit from 1 to 9 keeps all digits in range.
pub proof fn lemma_set_keeps_digits_valid(b: Seq<CellView>, at: int, value: u8, fixed: bool)
    requires
        valid_digits(b),
        0 <= at < 81,
        1 <= value <= 9,
    ensures
        valid_digits(after_set(b, at, value, fixed)),
{
    let r = after_set(b, at, value, fixed);
    assert forall|i: int| 0 <= i < 81 implies (#[trigger] r[i]).wf() by {
        assert(b[i].wf());
    }
}

/// Showing a digit from 1 to 9 keeps all digits in range.
pub proof fn lemma_set_fade_keeps_digits_valid(
    b: Seq<CellView>,
    at: int,
    value: u8,
    fade_delay_ms: i32,
)
    requires
        valid_digits(b),
        0 <= at < 81,
        1 <= value <= 9,
    ensures
        valid_digits(after_set_fade(b, at, value, fade_delay_ms)),
{
    let r = after_set_fade(b, at, value, fade_delay_ms);
    assert forall|i: int| 0 <= i < 81 implies (#[trigger] r[i]).wf() by {
        assert(b[i].wf());
    }
}

/// Removing a digit keeps all digits in range.
pub proof fn lemma_unset_keeps_digits_valid(b: Seq<CellView>, at: int)
    requires
        valid_digits(b),
        0 <= at < 81,
    ensures
        valid_digits(after_unset(b, at)),
{
    let r = after_unset(b, at);
    assert forall|i: int| 0 <= i < 81 implies (#[trigger] r[i]).wf() by {
        assert(b[i].wf());
    }
}

/// Keying a digit from 1 to 9 in keeps all digits in range.
pub proof fn lemma_digit_toggle_keeps_digits_valid(b: Seq<CellView>, at: int, digit: u8)
    requires
        valid_digits(b),
        0 <= at < 81,
        1 <= digit <= 9,
    ensures
        valid_digits(after_digit_toggle(b, at, digit)),
{
    lemma_unset_keeps_digits_valid(b, at);
    lemma_set_keeps_digits_valid(b, at, digit, false);
    lemma_set_keeps_digits_valid(after_unset(b, at), at, digit, false);
}

/// Toggling a candidate keeps all digits in range.
pub proof fn lemma_choice_toggle_keeps_digits_valid(b: Seq<CellView>, at: int, digit: u8)
    requires
        valid_digits(b),
        0 <= at < 81,
    ensures
        valid_digits(after_choice_toggle(b, at, digit)),
{
    let r = after_choice_toggle(b, at, digit);
    assert forall|i: int| 0 <= i < 81 implies (#[trigger] r[i]).wf() by {
        assert(b[i].wf());
    }
}

/// The board of a grid holds the digits of the grid.
pub proof fn lemma_grid_board_valid(digits: Seq<u8>, masks: Seq<usize>, fixed: bool)
    requires
        digits.len() == 81,
        digits_in_range(digits),
    ensures
        valid_digits(board_of_grid(digits, masks, fixed)),
{
}

/// Checking the played cells keeps all digits in range.
pub proof fn lemma_marked_valid(b: Seq<CellView>, digits: Seq<u8>, masks: Seq<usize>)
    requires
        valid_digits(b),
    ensures
        valid_digits(marked(b, digits, masks)),
{
    let r = marked(b, digits, masks);
    assert forall|i: int| 0 <= i < 81 implies (#[trigger] r[i]).wf() by {
        assert(b[i].wf());
    }
}

/// Revealing a solution keeps all digits in range.
pub proof fn lemma_revealed_valid(
    b: Seq<CellView>,
    digits: Seq<u8>,
    masks: Seq<usize>,
    order: Seq<usize>,
)
    requires
        valid_digits(b),
        digits.len() == 81,
        digits_in_range(digits),
    ensures
        valid_digits(revealed(b, digits, masks, order)),
{
    let r = revealed(b, digits, masks, order);
    assert forall|i: int| 0 <= i < 81 implies (#[trigger] r[i]).wf() by {
        assert(b[i].wf());
    }
}

/// Revealing a solution never touches a clue.
pub proof fn lemma_reveal_keeps_clues(
    b: Seq<CellView>,
    digits: Seq<u8>,
    masks: Seq<usize>,
    order: Seq<usize>,
    p: int,
)
    requires
        0 <= p < 81,
        b[p] is FixedValue,
    ensures
        revealed(b, digits, masks, order)[p] == b[p],
{
}

/// Checking against a solution never touches a clue or an empty cell, and
/// never changes the digit of a played cell.
pub proof fn lemma_mark_keeps_digits(b: Seq<CellView>, digits: Seq<u8>, masks: Seq<usize>, p: int)
    requires
        0 <= p < 81,
    ensures
        b[p] is FixedValue || b[p] is Empty ==> marked(b, digits, masks)[p] == b[p],
        marked(b, digits, masks)[p].digit() == b[p].digit(),
        marked(b, digits, masks)[p] is Empty == b[p] is Empty,
{
}

} // verus!
