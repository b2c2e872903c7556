//! Puzzles in links: reading the query of a page, and writing a link to a puzzle.

use crate::codec::{
    compress_string, compressed, decompress_string, decompressed, is_valid_game_str,
    valid_game_text,
};
use crate::error::Error;
use vstd::prelude::*;

verus! {

broadcast use vstd::string::group_string_axioms;

/// The query parameters of the page.
#[derive(Debug, PartialEq, Eq)]
pub struct SudokuParams {
    sudoku: Option<String>,
}

impl SudokuParams {
    /// The compressed board text that the query carries, if it carries one.
    pub closed spec fn sudoku(self) -> Option<Seq<char>> {
        match self.sudoku {
            Some(text) => Some(text@),
            None => None,
        }
    }

    /// The parameters of a query that carries `sudoku`.
    pub fn new(sudoku: Option<String>) -> (r: SudokuParams)
        ensures
            r.sudoku() == (match sudoku {
                Some(text) => Some(text@),
                None => None,
            }),
    {
        SudokuParams { sudoku }
    }
}

/// The board text that a query stands for: what its parameter decompresses
/// to, if that is a board text. There is none if the query was not
/// understood, carries no board, or carries one that is malformed.
pub open spec fn game_text_of<E>(params: Result<SudokuParams, E>) -> Option<Seq<char>> {
    match params {
        Ok(p) => match p.sudoku() {
            Some(compact) => match decompressed(compact) {
                Some(text) => if valid_game_text(text) {
                    Some(text)
                } else {
                    None
                },
                None => None,
            },
            None => None,
        },
        Err(_) => None,
    }
}

/// The board text that the query of the page asks for, if it asks for one
/// that is well formed.
pub fn unwrap_params<E>(params: &Result<SudokuParams, E>) -> (r: Option<String>)
    ensures
        match game_text_of(*params) {
            Some(text) => r matches Some(found) && found@ == text,
            None => r is None,
        },
{
    match params {
        Ok(p) => match &p.sudoku {
            Some(compact) => match decompress_string(compact.as_str()) {
                Some(text) => {
                    if is_valid_game_str(text.as_str()) {
                        Some(text)
                    } else {
                        None
                    }
                },
                None => None,
            },
            None => None,
        },
        Err(_) => None,
    }
}

/// Where the page of the game lives, up to the board text.
pub open spec fn link_start() -> Seq<char> {
    "/sudoku_solver_wasm/?sudoku="@
}

/// The link to the page that shows a generated puzzle: the puzzle travels
/// compressed in the query. If no puzzle was generated, the link carries an
/// empty board text.
pub fn load_random_sudoku(generated: Result<String, Error>) -> (link: String)
    ensures
        link@ == link_start() + (match generated {
            Ok(puzzle) => compressed(puzzle@),
            Err(_) => Seq::<char>::empty(),
        }),
{
    let mut link = "/sudoku_solver_wasm/?sudoku=".to_owned();
    let compact = match generated {
        Ok(puzzle) => match compress_string(puzzle.as_str()) {
            Some(text) => text,
            None => String::new(),
        },
        Err(_) => String::new(),
    };
    link.append(compact.as_str());
    link
}

} // verus!
