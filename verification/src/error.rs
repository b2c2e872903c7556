//! The failures that the library reports.

use vstd::prelude::*;

verus! {

/// What can go wrong.
#[derive(Debug, PartialEq, Eq)]
pub enum Error {
    /// The solver gave up; the text is the solver's own message.
    Sudoku(String),
    /// Bytes that are no UTF-8; the text is the decoder's own message.
    Utf8(String),
    /// No board could be made from the input.
    GenerateSudoku,
}

impl Error {
    /// The message that a user is shown.
    pub open spec fn text(self) -> Seq<char> {
        match self {
            Error::Sudoku(message) => message@,
            Error::Utf8(message) => "Invalid UTF-8: "@ + message@,
            Error::GenerateSudoku => "Failed to generate sudoku"@,
        }
    }

    /// The message that a user is shown.
    pub fn to_string(&self) -> (r: String)
        ensures
            r@ == self.text(),
    {
        match self {
            Error::Sudoku(message) => message.clone(),
            Error::Utf8(message) => {
                let mut r = "Invalid UTF-8: ".to_owned();
                r.append(message.as_str());
                r
            },
            Error::GenerateSudoku => "Failed to generate sudoku".to_owned(),
        }
    }
}

impl Clone for Error {
    fn clone(&self) -> (r: Self)
        ensures
            r == *self,
    {
        match self {
            Error::Sudoku(message) => Error::Sudoku(message.clone()),
            Error::Utf8(message) => Error::Utf8(message.clone()),
            Error::GenerateSudoku => Error::GenerateSudoku,
        }
    }
}

} // verus!
