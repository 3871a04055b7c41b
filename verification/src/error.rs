//! The error kinds that tensor operations report.

use vstd::prelude::*;

verus! {

/// Why a tensor operation refused its input.
///
/// Every error is reported before any buffer is allocated or filled.
#[derive(Debug, Clone, Copy, PartialEq, Eq, Structural)]
pub enum Error {
    /// The number of values handed to a constructor is not the product of the
    /// dimensions of the shape.
    NumbersOfElementsError,
    /// An indexed read named the wrong number of coordinates, or a coordinate
    /// that lies outside its dimension.
    PositionValueError,
    /// The shapes of the two operands of a binary operation do not fit.
    ShapeMismatchError,
}

impl Error {
    /// The text of the short description of each kind.
    pub open spec fn message_text(self) -> Seq<char> {
        match self {
            Error::NumbersOfElementsError => "Error: elements mismatch shape"@,
            Error::PositionValueError => "Error: index out of bounds"@,
            Error::ShapeMismatchError => "Error: shapes don't match"@,
        }
    }

    /// A short human-readable description of the error.
    pub fn message(&self) -> (text: String)
        ensures
            text@ == self.message_text(),
    {
        match self {
            Error::NumbersOfElementsError => "Error: elements mismatch shape".to_owned(),
            Error::PositionValueError => "Error: index out of bounds".to_owned(),
            Error::ShapeMismatchError => "Error: shapes don't match".to_owned(),
        }
    }
}

} // verus!
